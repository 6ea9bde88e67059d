//! The priority and the message of a syslog record.
use vstd::prelude::*;
use vstd::utf8::encode_utf8;
use crate::event::Event;
use crate::field::{Field, Payload, Value, Visit};
use crate::metadata::Level;
use crate::text::{push_str, render, rendered, str_eq};

verus! {

/// Options for opening the log, as a set of flags.
#[derive(Clone, Copy, Debug, PartialEq, Eq, Structural)]
pub struct Options(pub i32);

impl Options {
    /// No option at all.
    pub fn empty() -> (o: Options)
        ensures
            o.0 == 0,
    {
        Options(0)
    }

    /// Log the process id with each message.
    pub fn log_pid() -> (o: Options)
        ensures
            o.0 == 0x01,
    {
        Options(0x01)
    }

    /// Write to the console where the log cannot be reached.
    pub fn log_cons() -> (o: Options)
        ensures
            o.0 == 0x02,
    {
        Options(0x02)
    }

    /// Open the connection at the first message.
    pub fn log_odelay() -> (o: Options)
        ensures
            o.0 == 0x04,
    {
        Options(0x04)
    }

    /// Open the connection at once.
    pub fn log_ndelay() -> (o: Options)
        ensures
            o.0 == 0x08,
    {
        Options(0x08)
    }

    /// Do not wait for child processes.
    pub fn log_nowait() -> (o: Options)
        ensures
            o.0 == 0x10,
    {
        Options(0x10)
    }

    /// Write to the standard error stream as well.
    pub fn log_perror() -> (o: Options)
        ensures
            o.0 == 0x20,
    {
        Options(0x20)
    }

    /// The options of both sets.
    pub fn bitor(self, rhs: Options) -> (o: Options)
        ensures
            o.0 == self.0 | rhs.0,
    {
        Options(self.0 | rhs.0)
    }
}

/// The part of the system that a message comes from.
#[allow(non_camel_case_types)]
#[derive(Clone, Copy, Debug, PartialEq, Eq, Structural)]
pub enum Facility {
    LOG_KERN,
    LOG_USER,
    LOG_MAIL,
    LOG_DAEMON,
    LOG_AUTH,
    LOG_SYSLOG,
    LOG_LPR,
    LOG_NEWS,
    LOG_UUCP,
    LOG_CRON,
    LOG_AUTHPRIV,
    LOG_FTP,
    LOG_LOCAL0,
    LOG_LOCAL1,
    LOG_LOCAL2,
    LOG_LOCAL3,
    LOG_LOCAL4,
    LOG_LOCAL5,
    LOG_LOCAL6,
    LOG_LOCAL7,
}

/// How grave a message is.
#[allow(non_camel_case_types)]
#[derive(Clone, Copy, Debug, PartialEq, Eq, Structural)]
pub enum Severity {
    LOG_EMERG,
    LOG_ALERT,
    LOG_CRIT,
    LOG_ERR,
    LOG_WARNING,
    LOG_NOTICE,
    LOG_INFO,
    LOG_DEBUG,
}

impl Facility {
    /// The number of the facility: `LOG_KERN` is 0, `LOG_USER` 1, and so on to
    /// `LOG_FTP`, 11; `LOG_LOCAL0` to `LOG_LOCAL7` are 16 to 23.
    pub open spec fn number(self) -> int {
        match self {
            Facility::LOG_KERN => 0,
            Facility::LOG_USER => 1,
            Facility::LOG_MAIL => 2,
            Facility::LOG_DAEMON => 3,
            Facility::LOG_AUTH => 4,
            Facility::LOG_SYSLOG => 5,
            Facility::LOG_LPR => 6,
            Facility::LOG_NEWS => 7,
            Facility::LOG_UUCP => 8,
            Facility::LOG_CRON => 9,
            Facility::LOG_AUTHPRIV => 10,
            Facility::LOG_FTP => 11,
            Facility::LOG_LOCAL0 => 16,
            Facility::LOG_LOCAL1 => 17,
            Facility::LOG_LOCAL2 => 18,
            Facility::LOG_LOCAL3 => 19,
            Facility::LOG_LOCAL4 => 20,
            Facility::LOG_LOCAL5 => 21,
            Facility::LOG_LOCAL6 => 22,
            Facility::LOG_LOCAL7 => 23,
        }
    }

    /// The facility as it stands in a priority: its number times eight.
    pub fn code(self) -> (c: i32)
        ensures
            c == 8 * self.number(),
    {
        match self {
            Facility::LOG_KERN => 0,
            Facility::LOG_USER => 8,
            Facility::LOG_MAIL => 16,
            Facility::LOG_DAEMON => 24,
            Facility::LOG_AUTH => 32,
            Facility::LOG_SYSLOG => 40,
            Facility::LOG_LPR => 48,
            Facility::LOG_NEWS => 56,
            Facility::LOG_UUCP => 64,
            Facility::LOG_CRON => 72,
            Facility::LOG_AUTHPRIV => 80,
            Facility::LOG_FTP => 88,
            Facility::LOG_LOCAL0 => 128,
            Facility::LOG_LOCAL1 => 136,
            Facility::LOG_LOCAL2 => 144,
            Facility::LOG_LOCAL3 => 152,
            Facility::LOG_LOCAL4 => 160,
            Facility::LOG_LOCAL5 => 168,
            Facility::LOG_LOCAL6 => 176,
            Facility::LOG_LOCAL7 => 184,
        }
    }
}

impl Default for Facility {
    fn default() -> (f: Facility)
        ensures
            f == Facility::LOG_USER,
    {
        Facility::LOG_USER
    }
}

impl Severity {
    /// The number of the severity, from 0 for `LOG_EMERG` to 7 for
    /// `LOG_DEBUG`.
    pub open spec fn number(self) -> int {
        match self {
            Severity::LOG_EMERG => 0,
            Severity::LOG_ALERT => 1,
            Severity::LOG_CRIT => 2,
            Severity::LOG_ERR => 3,
            Severity::LOG_WARNING => 4,
            Severity::LOG_NOTICE => 5,
            Severity::LOG_INFO => 6,
            Severity::LOG_DEBUG => 7,
        }
    }

    /// The severity that stands for a level.
    pub open spec fn of_level(level: Level) -> Severity {
        match level {
            Level::ERROR => Severity::LOG_ERR,
            Level::WARN => Severity::LOG_WARNING,
            Level::INFO => Severity::LOG_NOTICE,
            Level::DEBUG => Severity::LOG_INFO,
            Level::TRACE => Severity::LOG_DEBUG,
        }
    }

    /// The number of the severity.
    pub fn code(self) -> (c: i32)
        ensures
            c == self.number(),
    {
        match self {
            Severity::LOG_EMERG => 0,
            Severity::LOG_ALERT => 1,
            Severity::LOG_CRIT => 2,
            Severity::LOG_ERR => 3,
            Severity::LOG_WARNING => 4,
            Severity::LOG_NOTICE => 5,
            Severity::LOG_INFO => 6,
            Severity::LOG_DEBUG => 7,
        }
    }

    /// The severity that stands for a level: no level is lost, but the names
    /// differ from `INFO` down, as syslog has nothing below `LOG_DEBUG`.
    pub fn from(level: Level) -> (s: Severity)
        ensures
            s == Severity::of_level(level),
    {
        match level {
            Level::ERROR => Severity::LOG_ERR,
            Level::WARN => Severity::LOG_WARNING,
            Level::INFO => Severity::LOG_NOTICE,
            Level::DEBUG => Severity::LOG_INFO,
            Level::TRACE => Severity::LOG_DEBUG,
        }
    }
}

/// A syslog priority: facility and severity in one number.
#[derive(Clone, Copy, Debug, PartialEq, Eq, Structural)]
pub struct Priority(pub i32);

impl Priority {
    /// The priority of a message of `level` from `facility`: the bits of the
    /// facility and of the severity together, which is their sum.
    pub fn new(facility: Facility, level: Level) -> (p: Priority)
        ensures
            p.0 == 8 * facility.number() + Severity::of_level(level).number(),
            p.0 == (8 * facility.number()) as i32 | Severity::of_level(level).number() as i32,
    {
        let f = facility.code();
        let s = Severity::from(level).code();
        assert(f | s == f + s) by (bit_vector)
            requires
                0 <= f <= 184,
                f % 8 == 0,
                0 <= s < 8,
        ;
        Priority(f | s)
    }
}

/// Whether a field is the one that carries the message of an event.
pub open spec fn is_message(field: Field) -> bool {
    field.spec_name() == "message"@
}

/// What the values `seen` contribute in front of the keyed pairs: the values
/// of the `message` field, without a key.
pub open spec fn message_part(seen: Seq<(Field, Payload)>) -> Seq<char>
    decreases seen.len(),
{
    if seen.len() == 0 {
        Seq::empty()
    } else if is_message(seen.last().0) {
        message_part(seen.drop_last()) + rendered(seen.last().1)
    } else {
        message_part(seen.drop_last())
    }
}

/// The keyed pairs of the values `seen`: for every field but `message`, in
/// the order of `seen`, a space, the name of the field, `=` and the value.
pub open spec fn keyed_part(seen: Seq<(Field, Payload)>) -> Seq<char>
    decreases seen.len(),
{
    if seen.len() == 0 {
        Seq::empty()
    } else if is_message(seen.last().0) {
        keyed_part(seen.drop_last())
    } else {
        keyed_part(seen.drop_last()) + " "@ + seen.last().0.spec_name() + "="@ + rendered(
            seen.last().1,
        )
    }
}

/// The text of a syslog message for the values `seen`: the message first,
/// then the keyed pairs.
pub open spec fn body(seen: Seq<(Field, Payload)>) -> Seq<char> {
    message_part(seen) + keyed_part(seen)
}

/// Collects the values of an event into the text of a syslog message.
pub struct EventVisitor {
    message: String,
    keyed: String,
    log: Ghost<Seq<(Field, Payload)>>,
}

impl EventVisitor {
    /// The visitor holds the text of what it has seen.
    pub closed spec fn wf(self) -> bool {
        &&& self.message@ == message_part(self.log@)
        &&& self.keyed@ == keyed_part(self.log@)
    }

    /// A visitor that has seen nothing.
    pub fn new() -> (v: EventVisitor)
        ensures
            v.wf(),
            v.seen() == Seq::<(Field, Payload)>::empty(),
    {
        EventVisitor { message: String::new(), keyed: String::new(), log: Ghost(Seq::empty()) }
    }

    /// The text of the message for what the visitor has seen.
    pub fn finish(self) -> (text: String)
        requires
            self.wf(),
        ensures
            text@ == body(self.seen()),
    {
        let mut text = self.message;
        push_str(&mut text, self.keyed.as_str());
        text
    }
}

impl Visit for EventVisitor {
    open spec fn valid(&self) -> bool {
        self.wf()
    }

    closed spec fn seen(&self) -> Seq<(Field, Payload)> {
        self.log@
    }

    fn record_value(&mut self, field: &Field, value: &Value<'_>) {
        let name = field.name();
        proof {
            let after = self.log@.push((*field, value@));
            assert(after.drop_last() =~= self.log@);
        }
        if str_eq(name, "message") {
            render(&mut self.message, value);
        } else {
            push_str(&mut self.keyed, " ");
            push_str(&mut self.keyed, name);
            push_str(&mut self.keyed, "=");
            render(&mut self.keyed, value);
        }
        self.log = Ghost(self.log@.push((*field, value@)));
    }
}

/// Why no syslog record can be made of an event.
#[derive(Clone, Copy, Debug, PartialEq, Eq, Structural)]
pub enum SyslogError {
    /// A value of the event holds a nul byte, which would end the message
    /// early.
    InteriorNul,
}

/// The syslog record of an event: its priority, and its message as bytes
/// with the nul that ends it. An event whose values hold a nul byte gives no
/// record.
pub fn on_event(facility: Facility, event: &Event<'_>) -> (r: Result<(Priority, Vec<u8>), SyslogError>)
    ensures
        match r {
            Ok((priority, message)) => {
                &&& priority.0 == 8 * facility.number() + Severity::of_level(
                    event.spec_metadata()@.level,
                ).number()
                &&& message@ == encode_utf8(body(event.spec_fields().recorded())).push(0u8)
                &&& !encode_utf8(body(event.spec_fields().recorded())).contains(0u8)
            },
            Err(e) => e == SyslogError::InteriorNul && encode_utf8(
                body(event.spec_fields().recorded()),
            ).contains(0u8),
        },
{
    let mut visitor = EventVisitor::new();
    event.record(&mut visitor);
    assert(Seq::<(Field, Payload)>::empty() + event.spec_fields().recorded()
        =~= event.spec_fields().recorded());
    let text = visitor.finish();
    let bytes = text.as_str().as_bytes();
    let mut message: Vec<u8> = Vec::new();
    let mut i: usize = 0;
    while i < bytes.len()
        invariant
            i <= bytes@.len(),
            bytes@ == encode_utf8(body(event.spec_fields().recorded())),
            message@ == bytes@.subrange(0, i as int),
            forall|j: int| 0 <= j < i ==> bytes@[j] != 0u8,
        decreases bytes@.len() - i,
    {
        if bytes[i] == 0 {
            assert(bytes@.contains(0u8));
            return Err(SyslogError::InteriorNul);
        }
        message.push(bytes[i]);
        assert(message@ =~= bytes@.subrange(0, i + 1));
        i += 1;
    }
    assert(message@ =~= bytes@);
    message.push(0);
    let priority = Priority::new(facility, event.metadata().level());
    Ok((priority, message))
}

} // verus!
