use span_tracing::event::Event;
use span_tracing::field::{Field, FieldSet, Value, ValueSet, Visit};
use span_tracing::flame::FlameLayer;
use span_tracing::metadata::{Identifier, Kind, Level, Metadata};
use span_tracing::registry::sharded::Registry;
use span_tracing::registry::span;
use span_tracing::rolling::{join, InnerAppender, Rotation, FAR_FUTURE};
use span_tracing::span::{Attributes, Id};
use span_tracing::syslog::{
    on_event, EventVisitor, Facility, Options, Priority, Severity, SyslogError,
};
use span_tracing::text::{push_decimal, render};

fn meta(
    name: &'static str,
    module: Option<&'static str>,
    file: Option<&'static str>,
    line: Option<u32>,
) -> &'static Metadata {
    Box::leak(Box::new(Metadata::new(
        name,
        "exporters::test",
        Level::INFO,
        file,
        line,
        module,
        FieldSet::new(&[], Identifier(1)),
        Kind::SPAN,
    )))
}

fn no_values() -> ValueSet<'static> {
    let none: &'static [(Field, Option<Value<'static>>)] = &[];
    ValueSet::new(FieldSet::new(&[], Identifier(1)), none)
}

fn decimal(n: u128) -> String {
    let mut s = String::new();
    push_decimal(&mut s, n);
    s
}

#[test]
fn numbers_are_written_in_decimal() {
    assert_eq!(decimal(0), "0");
    assert_eq!(decimal(7), "7");
    assert_eq!(decimal(10), "10");
    assert_eq!(decimal(1905), "1905");
    assert_eq!(decimal(u64::MAX as u128), "18446744073709551615");
    assert_eq!(decimal(u128::MAX), "340282366920938463463374607431768211455");
    let mut s = String::from("n=");
    push_decimal(&mut s, 42);
    assert_eq!(s, "n=42");
}

#[test]
fn a_frame_leaves_out_what_the_metadata_lacks() {
    let mut registry = Registry::new();
    let values = no_values();
    let cases = [
        (meta("root", Some("m"), Some("f"), Some(7)), "m::root:f:7"),
        (meta("root", None, Some("f"), Some(7)), "root:f:7"),
        (meta("root", Some("m"), None, Some(7)), "m::root:7"),
        (meta("root", Some("m"), Some("f"), None), "m::root:f"),
        (meta("root", None, None, None), "root"),
        (meta("root", Some("a::b"), Some("src/lib.rs"), Some(4294967295)), "a::b::root:src/lib.rs:4294967295"),
    ];
    for (m, expected) in cases {
        let id = registry.new_span(&Attributes::new_root(m, &values));
        let mut dest = String::from("> ");
        span_tracing::flame::write(&mut dest, &span(&registry, &id).unwrap());
        assert_eq!(dest, format!("> {}", expected));
    }
}

#[test]
fn flamegraph_lines_of_a_single_root_span() {
    let mut registry = Registry::new();
    let values = no_values();
    let root =
        registry.new_span(&Attributes::new_root(meta("root", Some("m"), Some("f"), Some(7)), &values));
    let mut layer = FlameLayer::new(0);
    // entering: the stack holds the ancestors only, and a root has none
    assert_eq!(layer.on_enter(&root, &registry, "worker", 1500).unwrap(), "worker 1500");
    // leaving: the span itself closes the stack
    assert_eq!(
        layer.on_exit(&root, &registry, "worker", 4000).unwrap(),
        "worker; m::root:f:7 2500"
    );
}

#[test]
fn flamegraph_lines_hold_the_stack_from_the_root_down() {
    let mut registry = Registry::new();
    let values = no_values();
    let a = registry.new_span(&Attributes::new_root(meta("a", Some("m"), Some("f"), Some(1)), &values));
    let b = registry.new_span(&Attributes::child_of(a, meta("b", Some("m"), None, None), &values));
    let c = registry.new_span(&Attributes::child_of(b, meta("c", None, Some("g"), Some(3)), &values));
    let mut layer = FlameLayer::new(100);
    assert_eq!(
        layer.on_enter(&c, &registry, "main", 150).unwrap(),
        "main; m::a:f:1; m::b 50"
    );
    assert_eq!(
        layer.on_exit(&c, &registry, "main", 150).unwrap(),
        "main; m::a:f:1; m::b; c:g:3 0"
    );
    assert_eq!(layer.on_enter(&b, &registry, "main", 160).unwrap(), "main; m::a:f:1 10");
    assert_eq!(layer.on_exit(&a, &registry, "main", 200).unwrap(), "main; m::a:f:1 40");
}

#[test]
fn a_span_that_is_gone_gives_no_flamegraph_line() {
    let registry = Registry::new();
    let mut layer = FlameLayer::new(5);
    assert!(layer.on_enter(&Id::from_u64(9), &registry, "t", 10).is_none());
    assert!(layer.on_exit(&Id::from_u64(9), &registry, "t", 20).is_none());
    // the time of the last line has not moved
    assert_eq!(layer.time_since_last_event(25), 20);
    assert_eq!(layer.time_since_last_event(25), 0);
    // a clock that runs backwards counts as no time
    assert_eq!(layer.time_since_last_event(3), 0);
    assert_eq!(layer.time_since_last_event(4), 1);
}

#[test]
fn levels_map_to_syslog_severities() {
    assert_eq!(Severity::from(Level::ERROR), Severity::LOG_ERR);
    assert_eq!(Severity::from(Level::WARN), Severity::LOG_WARNING);
    assert_eq!(Severity::from(Level::INFO), Severity::LOG_NOTICE);
    assert_eq!(Severity::from(Level::DEBUG), Severity::LOG_INFO);
    assert_eq!(Severity::from(Level::TRACE), Severity::LOG_DEBUG);
    assert_eq!(Facility::default(), Facility::LOG_USER);
}

#[test]
fn syslog_numbers_are_those_of_libc() {
    assert_eq!(Severity::LOG_EMERG.code(), libc::LOG_EMERG);
    assert_eq!(Severity::LOG_ALERT.code(), libc::LOG_ALERT);
    assert_eq!(Severity::LOG_CRIT.code(), libc::LOG_CRIT);
    assert_eq!(Severity::LOG_ERR.code(), libc::LOG_ERR);
    assert_eq!(Severity::LOG_WARNING.code(), libc::LOG_WARNING);
    assert_eq!(Severity::LOG_NOTICE.code(), libc::LOG_NOTICE);
    assert_eq!(Severity::LOG_INFO.code(), libc::LOG_INFO);
    assert_eq!(Severity::LOG_DEBUG.code(), libc::LOG_DEBUG);

    assert_eq!(Facility::LOG_KERN.code(), libc::LOG_KERN);
    assert_eq!(Facility::LOG_USER.code(), libc::LOG_USER);
    assert_eq!(Facility::LOG_MAIL.code(), libc::LOG_MAIL);
    assert_eq!(Facility::LOG_DAEMON.code(), libc::LOG_DAEMON);
    assert_eq!(Facility::LOG_AUTH.code(), libc::LOG_AUTH);
    assert_eq!(Facility::LOG_SYSLOG.code(), libc::LOG_SYSLOG);
    assert_eq!(Facility::LOG_LPR.code(), libc::LOG_LPR);
    assert_eq!(Facility::LOG_NEWS.code(), libc::LOG_NEWS);
    assert_eq!(Facility::LOG_UUCP.code(), libc::LOG_UUCP);
    assert_eq!(Facility::LOG_CRON.code(), libc::LOG_CRON);
    assert_eq!(Facility::LOG_AUTHPRIV.code(), libc::LOG_AUTHPRIV);
    assert_eq!(Facility::LOG_FTP.code(), libc::LOG_FTP);
    assert_eq!(Facility::LOG_LOCAL0.code(), libc::LOG_LOCAL0);
    assert_eq!(Facility::LOG_LOCAL1.code(), libc::LOG_LOCAL1);
    assert_eq!(Facility::LOG_LOCAL2.code(), libc::LOG_LOCAL2);
    assert_eq!(Facility::LOG_LOCAL3.code(), libc::LOG_LOCAL3);
    assert_eq!(Facility::LOG_LOCAL4.code(), libc::LOG_LOCAL4);
    assert_eq!(Facility::LOG_LOCAL5.code(), libc::LOG_LOCAL5);
    assert_eq!(Facility::LOG_LOCAL6.code(), libc::LOG_LOCAL6);
    assert_eq!(Facility::LOG_LOCAL7.code(), libc::LOG_LOCAL7);

    assert_eq!(Options::log_pid().0, libc::LOG_PID);
    assert_eq!(Options::log_cons().0, libc::LOG_CONS);
    assert_eq!(Options::log_odelay().0, libc::LOG_ODELAY);
    assert_eq!(Options::log_ndelay().0, libc::LOG_NDELAY);
    assert_eq!(Options::log_nowait().0, libc::LOG_NOWAIT);
    assert_eq!(Options::log_perror().0, libc::LOG_PERROR);
    assert_eq!(Options::empty().0, 0);
    assert_eq!(
        Options::log_pid().bitor(Options::log_perror()).0,
        libc::LOG_PID | libc::LOG_PERROR
    );
}

#[test]
fn a_priority_is_facility_and_severity() {
    assert_eq!(Priority::new(Facility::LOG_USER, Level::ERROR).0, 8 | 3);
    assert_eq!(Priority::new(Facility::LOG_USER, Level::ERROR).0, 11);
    assert_eq!(Priority::new(Facility::LOG_KERN, Level::TRACE).0, 7);
    assert_eq!(Priority::new(Facility::LOG_LOCAL7, Level::INFO).0, 184 + 5);
    assert_eq!(Priority::new(Facility::LOG_DAEMON, Level::WARN).0, libc::LOG_DAEMON | libc::LOG_WARNING);
    assert_eq!(Priority::new(Facility::LOG_MAIL, Level::DEBUG).0, libc::LOG_MAIL | libc::LOG_INFO);
}

fn rendered(value: Value<'_>) -> String {
    let mut s = String::new();
    render(&mut s, &value);
    s
}

#[test]
fn values_are_written_as_their_debug_form() {
    assert_eq!(rendered(Value::Bool(true)), "true");
    assert_eq!(rendered(Value::Bool(false)), "false");
    assert_eq!(rendered(Value::I64(0)), "0");
    assert_eq!(rendered(Value::I64(-1)), "-1");
    assert_eq!(rendered(Value::I64(i64::MIN)), "-9223372036854775808");
    assert_eq!(rendered(Value::I64(i64::MAX)), "9223372036854775807");
    assert_eq!(rendered(Value::U64(u64::MAX)), "18446744073709551615");
    assert_eq!(rendered(Value::F64(0, "0.0")), "0.0");
    assert_eq!(rendered(Value::Str("plain")), "\"plain\"");
    assert_eq!(rendered(Value::Str("a \"b\"\n\0")), "\"a \\\"b\\\"\\n\\0\"");
    assert_eq!(rendered(Value::Display("shown as is")), "shown as is");
    assert_eq!(rendered(Value::Debug("Some(1)")), "Some(1)");
    assert_eq!(rendered(Value::Error("it broke")), "it broke");
}

fn event_meta(fields: FieldSet, level: Level) -> &'static Metadata {
    Box::leak(Box::new(Metadata::new(
        "event",
        "exporters::test",
        level,
        None,
        None,
        None,
        fields,
        Kind::EVENT,
    )))
}

#[test]
fn a_syslog_message_has_the_message_first_and_then_the_pairs() {
    let fields = FieldSet::new(&["message", "answer", "question"], Identifier(2));
    let all = fields.iter();
    let entries = [
        (all[0], Some(Value::Debug("hello from my event"))),
        (all[1], Some(Value::U64(42))),
        (all[2], Some(Value::Str("life, the universe, and everything"))),
    ];
    let values = ValueSet::new(fields, &entries);
    let event = Event::new(event_meta(fields, Level::WARN), &values);
    let (priority, message) = on_event(Facility::LOG_USER, &event).unwrap();
    assert_eq!(priority.0, libc::LOG_USER | libc::LOG_WARNING);
    assert_eq!(
        message,
        b"hello from my event answer=42 question=\"life, the universe, and everything\"\0"
    );
}

#[test]
fn the_message_comes_first_wherever_it_is_declared() {
    let fields = FieldSet::new(&["a", "message", "b"], Identifier(2));
    let all = fields.iter();
    let entries = [
        (all[2], Some(Value::Bool(false))),
        (all[1], Some(Value::Display("msg"))),
        (all[0], Some(Value::I64(-3))),
    ];
    let values = ValueSet::new(fields, &entries);
    let event = Event::new(event_meta(fields, Level::TRACE), &values);
    let (priority, message) = on_event(Facility::LOG_LOCAL0, &event).unwrap();
    assert_eq!(priority.0, 128 + 7);
    assert_eq!(message, b"msg a=-3 b=false\0");

    // without a message the pairs begin with their space
    let entries = [(all[0], Some(Value::U64(1)))];
    let values = ValueSet::new(fields, &entries);
    let event = Event::new(event_meta(fields, Level::ERROR), &values);
    assert_eq!(on_event(Facility::LOG_USER, &event).unwrap().1, b" a=1\0");

    // and without any value only the nul is left
    let none: [(Field, Option<Value>); 0] = [];
    let values = ValueSet::new(fields, &none);
    let event = Event::new(event_meta(fields, Level::ERROR), &values);
    assert_eq!(on_event(Facility::LOG_USER, &event).unwrap().1, b"\0");
}

#[test]
fn a_nul_inside_the_message_gives_no_record() {
    let fields = FieldSet::new(&["message", "k"], Identifier(2));
    let all = fields.iter();
    let entries = [(all[0], Some(Value::Display("cut\0here"))), (all[1], Some(Value::U64(1)))];
    let values = ValueSet::new(fields, &entries);
    let event = Event::new(event_meta(fields, Level::INFO), &values);
    assert_eq!(on_event(Facility::LOG_USER, &event), Err(SyslogError::InteriorNul));

    // the debug form of a string escapes the nul
    let entries = [(all[1], Some(Value::Str("cut\0here")))];
    let values = ValueSet::new(fields, &entries);
    let event = Event::new(event_meta(fields, Level::INFO), &values);
    assert_eq!(on_event(Facility::LOG_USER, &event).unwrap().1, b" k=\"cut\\0here\"\0");
}

#[test]
fn the_syslog_visitor_writes_utf8() {
    let fields = FieldSet::new(&["message", "naïve"], Identifier(2));
    let all = fields.iter();
    let mut visitor = EventVisitor::new();
    visitor.record_str(&all[1], "é");
    visitor.record_debug(&all[0], "grüß");
    visitor.record_bool(&all[1], true);
    assert_eq!(visitor.finish(), "grüß naïve=\"é\" naïve=true");
}

#[test]
fn file_names_join_prefix_and_date() {
    assert_eq!(join("app.log", Some("2020-02-01")), "app.log.2020-02-01");
    assert_eq!(join("app.log", None), "app.log");
    assert_eq!(join("", Some("x")), ".x");
    // 2020-02-01 10:01:00 UTC
    let now = 1580551260;
    assert_eq!(Rotation::MINUTELY.join_date("app.log", now), "app.log.2020-02-01-10-01");
    assert_eq!(Rotation::HOURLY.join_date("app.log", now), "app.log.2020-02-01-10");
    assert_eq!(Rotation::DAILY.join_date("app.log", now), "app.log.2020-02-01");
    assert_eq!(Rotation::NEVER.join_date("app.log", now), "app.log");
    assert_eq!(Rotation::DAILY.join_date("app", 0), "app.1970-01-01");
    assert_eq!(Rotation::MINUTELY.join_date("app", -1), "app.1969-12-31-23-59");
    // a time that is no date leaves the prefix alone
    assert_eq!(Rotation::DAILY.join_date("app", i64::MAX), "app");
}

#[test]
fn the_next_file_is_due_at_the_next_boundary() {
    let now = 1580551260 + 17; // 2020-02-01 10:01:17 UTC
    assert_eq!(Rotation::MINUTELY.round_date(now), 1580551260);
    assert_eq!(Rotation::HOURLY.round_date(now), 1580551200);
    assert_eq!(Rotation::DAILY.round_date(now), 1580515200);
    assert_eq!(Rotation::NEVER.round_date(now), FAR_FUTURE);
    assert_eq!(Rotation::MINUTELY.next_date(now), 1580551320);
    assert_eq!(Rotation::HOURLY.next_date(now), 1580554800);
    assert_eq!(Rotation::DAILY.next_date(now), 1580601600);
    assert_eq!(Rotation::NEVER.next_date(now), 253370768400);
    // on a boundary the next one is a whole period away
    assert_eq!(Rotation::MINUTELY.next_date(1580551260), 1580551320);
    // before 1970 boundaries still lie below the time
    assert_eq!(Rotation::MINUTELY.round_date(-1), -60);
    assert_eq!(Rotation::MINUTELY.next_date(-1), 0);
    assert_eq!(Rotation::DAILY.round_date(-86400), -86400);
    assert_eq!(Rotation::DAILY.round_date(-86401), -172800);
    assert_eq!(Rotation::DAILY.next_date(-86401), -86400);
    // at the end of time nothing is due any more
    assert_eq!(Rotation::DAILY.next_date(i64::MAX), i64::MAX);
    assert_eq!(Rotation::HOURLY.next_date(i64::MIN), i64::MIN + 3600);
}

#[test]
fn an_appender_rolls_over_at_the_first_write_past_the_boundary() {
    let start = 1580551260 + 17; // 2020-02-01 10:01:17 UTC
    let (mut appender, first) = InnerAppender::new("/var/log", "app.log", Rotation::HOURLY, start);
    assert_eq!(first, "app.log.2020-02-01-10");
    assert_eq!(appender.log_directory(), "/var/log");
    assert!(!appender.should_rollover(start));
    assert!(!appender.should_rollover(1580554799));
    assert!(appender.should_rollover(1580554800));

    assert_eq!(appender.refresh_writer(start + 60), None);
    assert_eq!(appender.refresh_writer(1580554799), None);
    // the first write of the next hour, well past its beginning
    assert_eq!(appender.refresh_writer(1580554800 + 5), Some("app.log.2020-02-01-11".to_string()));
    // whether or not the file could be opened, the hour is not asked for again
    assert_eq!(appender.refresh_writer(1580554800 + 6), None);
    assert!(appender.should_rollover(1580554800 + 3600));
    // hours without a write are skipped
    assert_eq!(
        appender.refresh_writer(1580554800 + 3 * 3600),
        Some("app.log.2020-02-01-14".to_string())
    );

    let (mut never, name) = InnerAppender::new("logs", "once", Rotation::NEVER, start);
    assert_eq!(name, "once");
    assert_eq!(never.refresh_writer(start + 1_000_000_000), None);
    assert!(never.should_rollover(FAR_FUTURE));
}
