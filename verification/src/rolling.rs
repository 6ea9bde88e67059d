//! Rolling log files: when a new file is due and what it is called.
//!
//! Time is counted in whole seconds since 1970-01-01 00:00:00 UTC, without
//! leap seconds.
use vstd::prelude::*;
use std::fmt::Write;
use chrono::{DateTime, Utc};
use crate::text::push_str;

verus! {

/// How often a new log file is begun.
#[allow(non_camel_case_types)]
#[derive(Clone, Copy, Debug, PartialEq, Eq, Structural)]
pub enum Rotation {
    MINUTELY,
    HOURLY,
    DAILY,
    NEVER,
}

/// The time that stands for "never": 9999-01-01 01:00:00 UTC.
pub const FAR_FUTURE: i64 = 253370768400;

/// The date and time `secs` in UTC, written after the strftime pattern
/// `pattern`; `None` where the time is out of the range of dates or the
/// pattern cannot be written.
pub uninterp spec fn utc_text(secs: i64, pattern: Seq<char>) -> Option<Seq<char>>;

/// Writes a time after a strftime pattern.
///
/// Trusted: `DateTime::from_timestamp` of chrono makes the UTC date and time
/// of a number of seconds, or `None` out of range; `DateTime::format` writes
/// it after the pattern. The text depends on the two arguments alone.
#[verifier::external_body]
fn format_utc(secs: i64, pattern: &str) -> (text: Option<String>)
    ensures
        text is Some <==> utc_text(secs, pattern@) is Some,
        text is Some ==> text->0@ == utc_text(secs, pattern@)->0,
{
    let date: DateTime<Utc> = DateTime::from_timestamp(secs, 0)?;
    let mut text = String::new();
    match write!(&mut text, "{}", date.format(pattern)) {
        Ok(()) => Some(text),
        Err(_) => None,
    }
}

/// `date` rounded down to a multiple of `period`.
pub open spec fn floor_to(date: int, period: int) -> int {
    date - date % period
}

fn floor_secs(date: i64, period: i64) -> (r: i64)
    requires
        0 < period <= 86400,
        date >= i64::MIN + 86400,
    ensures
        r == floor_to(date as int, period as int),
{
    if date >= 0 {
        date - date % period
    } else {
        // the remainder of a negative number, taken on its mirror image
        let m = (-(date + 1)) % period;
        proof {
            let d = date as int;
            let p = period as int;
            let q = (-(d + 1)) / p;
            vstd::arithmetic::div_mod::lemma_fundamental_div_mod(-(d + 1), p);
            assert(-(d + 1) == p * q + m);
            assert(d == (-q - 1) * p + (p - 1 - m)) by (nonlinear_arith)
                requires
                    -(d + 1) == p * q + m,
            ;
            vstd::arithmetic::div_mod::lemma_fundamental_div_mod_converse(
                d,
                p,
                -q - 1,
                p - 1 - m,
            );
        }
        date - (period - 1 - m)
    }
}

impl Rotation {
    /// Seconds between two files, where files are ever begun anew.
    pub open spec fn period(self) -> Option<int> {
        match self {
            Rotation::MINUTELY => Some(60),
            Rotation::HOURLY => Some(3600),
            Rotation::DAILY => Some(86400),
            Rotation::NEVER => None,
        }
    }

    /// The strftime pattern of the date in a file name.
    pub open spec fn pattern(self) -> Option<Seq<char>> {
        match self {
            Rotation::MINUTELY => Some("%F-%H-%M"@),
            Rotation::HOURLY => Some("%F-%H"@),
            Rotation::DAILY => Some("%F"@),
            Rotation::NEVER => None,
        }
    }

    /// The start of the minute, hour or day that `date` lies in.
    pub open spec fn spec_round_date(self, date: i64) -> int {
        match self.period() {
            Some(p) => floor_to(date as int, p),
            None => FAR_FUTURE as int,
        }
    }

    /// The first time after `date` at which a new file is due.
    pub open spec fn spec_next_date(self, date: i64) -> int {
        match self.period() {
            Some(p) => floor_to(date as int, p) + p,
            None => FAR_FUTURE as int,
        }
    }

    fn seconds(self) -> (p: Option<i64>)
        ensures
            match p {
                Some(n) => self.period() == Some(n as int),
                None => self.period() is None,
            },
    {
        match self {
            Rotation::MINUTELY => Some(60),
            Rotation::HOURLY => Some(3600),
            Rotation::DAILY => Some(86400),
            Rotation::NEVER => None,
        }
    }

    /// The start of the minute, hour or day that `date` lies in; the far
    /// future for files that never roll. Times within a day of the least
    /// number are left as they are.
    pub fn round_date(&self, date: i64) -> (r: i64)
        ensures
            date >= i64::MIN + 86400 ==> r == self.spec_round_date(date),
            date < i64::MIN + 86400 ==> r == if self.period() is Some {
                date
            } else {
                FAR_FUTURE
            },
    {
        match self.seconds() {
            Some(p) => {
                if date < i64::MIN + 86400 {
                    date
                } else {
                    floor_secs(date, p)
                }
            },
            None => FAR_FUTURE,
        }
    }

    /// The first time after `date` at which a new file is due; the far
    /// future for files that never roll. Where that time cannot be counted
    /// any more, the greatest number stands for it.
    pub fn next_date(&self, date: i64) -> (r: i64)
        ensures
            r == self.next_date_value(date),
    {
        match self.seconds() {
            Some(p) => {
                if date < i64::MIN + 86400 {
                    date + p
                } else {
                    let floor = floor_secs(date, p);
                    proof {
                        vstd::arithmetic::div_mod::lemma_mod_bound(date as int, p as int);
                    }
                    if floor > i64::MAX - p {
                        i64::MAX
                    } else {
                        floor + p
                    }
                }
            },
            None => FAR_FUTURE,
        }
    }

    /// The name of the file for the time `date`: the prefix, a dot and the
    /// date as far as the rotation tells files apart; the prefix alone for
    /// files that never roll.
    pub fn join_date(&self, filename: &str, date: i64) -> (name: String)
        ensures
            name@ == join_text(
                filename@,
                match self.pattern() {
                    Some(p) => utc_text(date, p),
                    None => None,
                },
            ),
    {
        let text = match self {
            Rotation::MINUTELY => format_utc(date, "%F-%H-%M"),
            Rotation::HOURLY => format_utc(date, "%F-%H"),
            Rotation::DAILY => format_utc(date, "%F"),
            Rotation::NEVER => None,
        };
        match text {
            Some(t) => join(filename, Some(t.as_str())),
            None => join(filename, None),
        }
    }
}

/// A file name made of a prefix and the text of a date: `prefix.date`, or
/// the prefix alone where there is no date.
pub open spec fn join_text(prefix: Seq<char>, date: Option<Seq<char>>) -> Seq<char> {
    match date {
        Some(d) => prefix + "."@ + d,
        None => prefix,
    }
}

/// Makes a file name of a prefix and the text of a date.
pub fn join(prefix: &str, date: Option<&str>) -> (name: String)
    ensures
        name@ == join_text(
            prefix@,
            match date {
                Some(d) => Some(d@),
                None => None,
            },
        ),
{
    let mut name = String::new();
    push_str(&mut name, prefix);
    match date {
        Some(d) => {
            push_str(&mut name, ".");
            push_str(&mut name, d);
        },
        None => {},
    }
    assert(Seq::<char>::empty() + prefix@ =~= prefix@);
    name
}

/// Decides when a rolling log file is replaced by the next one. Opening and
/// writing the files is left to the caller.
pub struct InnerAppender {
    log_directory: String,
    log_filename_prefix: String,
    next_date: i64,
    rotation: Rotation,
}

impl InnerAppender {
    /// The directory that the files are written to.
    pub closed spec fn directory(self) -> Seq<char> {
        self.log_directory@
    }

    /// The prefix of the file names.
    pub closed spec fn prefix(self) -> Seq<char> {
        self.log_filename_prefix@
    }

    /// The time from which the next file is due.
    pub closed spec fn due(self) -> i64 {
        self.next_date
    }

    /// How often a new file is begun.
    pub closed spec fn rotation(self) -> Rotation {
        self.rotation
    }

    /// An appender that begins at the time `now`, and the name of its first
    /// file.
    pub fn new(log_directory: &str, log_filename_prefix: &str, rotation: Rotation, now: i64) -> (r:
        (InnerAppender, String))
        ensures
            r.0.directory() == log_directory@,
            r.0.prefix() == log_filename_prefix@,
            r.0.rotation() == rotation,
            r.0.due() == rotation.next_date_value(now),
            r.1@ == join_text(
                log_filename_prefix@,
                match rotation.pattern() {
                    Some(p) => utc_text(now, p),
                    None => None,
                },
            ),
    {
        let filename = rotation.join_date(log_filename_prefix, now);
        let next_date = rotation.next_date(now);
        let appender = InnerAppender {
            log_directory: log_directory.to_owned(),
            log_filename_prefix: log_filename_prefix.to_owned(),
            next_date,
            rotation,
        };
        (appender, filename)
    }

    /// The directory that the files are written to.
    pub fn log_directory(&self) -> (dir: &str)
        ensures
            dir@ == self.directory(),
    {
        self.log_directory.as_str()
    }

    /// Whether a write at the time `date` has to go to a new file.
    pub fn should_rollover(&self, date: i64) -> (r: bool)
        ensures
            r == (date >= self.due()),
    {
        date >= self.next_date
    }

    /// To be called before every write. Where a new file is due at the time
    /// `now`, returns its name and moves the due time on to the boundary
    /// after `now`; the caller opens the file and, if that fails, goes on
    /// with the file it has. Otherwise returns `None` and changes nothing.
    pub fn refresh_writer(&mut self, now: i64) -> (open: Option<String>)
        ensures
            final(self).directory() == old(self).directory(),
            final(self).prefix() == old(self).prefix(),
            final(self).rotation() == old(self).rotation(),
            now < old(self).due() ==> open is None && final(self).due() == old(self).due(),
            now >= old(self).due() ==> open is Some && final(self).due() == old(
                self,
            ).rotation().next_date_value(now) && open->0@ == join_text(
                old(self).prefix(),
                match old(self).rotation().pattern() {
                    Some(p) => utc_text(now, p),
                    None => None,
                },
            ),
    {
        if self.should_rollover(now) {
            let filename = self.rotation.join_date(self.log_filename_prefix.as_str(), now);
            self.next_date = self.rotation.next_date(now);
            Some(filename)
        } else {
            None
        }
    }
}

impl Rotation {
    /// What [`Rotation::next_date`] returns for `date`.
    pub open spec fn next_date_value(self, date: i64) -> int {
        if i64::MIN + 86400 <= date && self.spec_next_date(date) <= i64::MAX {
            self.spec_next_date(date)
        } else if self.period() is None {
            FAR_FUTURE as int
        } else if date < i64::MIN + 86400 {
            date + self.period()->0
        } else {
            i64::MAX as int
        }
    }
}

} // verus!
