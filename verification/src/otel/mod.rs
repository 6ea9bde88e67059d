//! What the export to OpenTelemetry needs of spans: their kind, the time they
//! were busy and idle, and the trace flags that follow from sampling.
use vstd::prelude::*;

pub mod builder;
pub mod tracer;
pub mod subscriber;

verus! {

/// The role of a span in a distributed trace.
#[derive(Clone, Copy, Debug, PartialEq, Eq, Structural)]
pub enum SpanKind {
    Server,
    Client,
    Producer,
    Consumer,
    Internal,
}

/// A character with the ASCII capital letters made small.
pub open spec fn folded(c: char) -> char {
    if 'A' <= c <= 'Z' {
        ((c as u32) + 32) as char
    } else {
        c
    }
}

/// Whether two texts are equal up to the case of their ASCII letters.
pub open spec fn same_ignoring_case(a: Seq<char>, b: Seq<char>) -> bool {
    a.len() == b.len() && forall|i: int| 0 <= i < a.len() ==> folded(a[i]) == folded(b[i])
}

/// Compares two string slices without regard to the case of ASCII letters.
///
/// Trusted: calls `str::eq_ignore_ascii_case`, which answers as a comparison
/// of the two slices after `to_ascii_lowercase` would: only the letters `A`
/// to `Z` are folded, every other character stands for itself.
#[verifier::external_body]
fn eq_ignore_case(a: &str, b: &str) -> (same: bool)
    ensures
        same == same_ignoring_case(a@, b@),
{
    a.eq_ignore_ascii_case(b)
}

/// The kind that a text names, whatever the case of its letters.
pub open spec fn kind_named(s: Seq<char>) -> Option<SpanKind> {
    if same_ignoring_case(s, "SERVER"@) {
        Some(SpanKind::Server)
    } else if same_ignoring_case(s, "CLIENT"@) {
        Some(SpanKind::Client)
    } else if same_ignoring_case(s, "PRODUCER"@) {
        Some(SpanKind::Producer)
    } else if same_ignoring_case(s, "CONSUMER"@) {
        Some(SpanKind::Consumer)
    } else if same_ignoring_case(s, "INTERNAL"@) {
        Some(SpanKind::Internal)
    } else {
        None
    }
}

/// The kind that a text names, whatever the case of its letters; `None` for
/// a text that names none.
pub fn str_to_span_kind(s: &str) -> (kind: Option<SpanKind>)
    ensures
        kind == kind_named(s@),
{
    if eq_ignore_case(s, "SERVER") {
        Some(SpanKind::Server)
    } else if eq_ignore_case(s, "CLIENT") {
        Some(SpanKind::Client)
    } else if eq_ignore_case(s, "PRODUCER") {
        Some(SpanKind::Producer)
    } else if eq_ignore_case(s, "CONSUMER") {
        Some(SpanKind::Consumer)
    } else if eq_ignore_case(s, "INTERNAL") {
        Some(SpanKind::Internal)
    } else {
        None
    }
}

/// What a sampler decided about a span.
#[derive(Clone, Copy, Debug, PartialEq, Eq, Structural)]
pub enum SamplingDecision {
    /// The span is neither recorded nor exported.
    Drop,
    /// The span is recorded but not exported.
    RecordOnly,
    /// The span is recorded and exported.
    RecordAndSample,
}

/// The trace flag that marks a sampled span.
pub const TRACE_FLAG_SAMPLED: u8 = 0x01;

/// The trace flags of a span after the sampler has decided: none at all for
/// a dropped span; else those of the parent, with the sampled flag cleared
/// for a span that is only recorded and set for one that is sampled.
pub fn process_sampling_result(decision: SamplingDecision, trace_flags: u8) -> (flags: Option<u8>)
    ensures
        flags == match decision {
            SamplingDecision::Drop => None,
            SamplingDecision::RecordOnly => Some(trace_flags & !TRACE_FLAG_SAMPLED),
            SamplingDecision::RecordAndSample => Some(trace_flags | TRACE_FLAG_SAMPLED),
        },
{
    match decision {
        SamplingDecision::Drop => None,
        SamplingDecision::RecordOnly => Some(trace_flags & !TRACE_FLAG_SAMPLED),
        SamplingDecision::RecordAndSample => Some(trace_flags | TRACE_FLAG_SAMPLED),
    }
}

/// How long a span has been busy, that is entered, and idle so far, in
/// nanoseconds.
#[derive(Clone, Copy, Debug, PartialEq, Eq, Structural)]
pub struct Timings {
    pub idle: u64,
    pub busy: u64,
    /// When the span was last entered or left.
    pub last: u64,
}

/// The sum of two counts, or the greatest count where the sum is out of
/// reach.
pub open spec fn capped(a: u64, b: u64) -> u64 {
    if a + b > u64::MAX {
        u64::MAX
    } else {
        (a + b) as u64
    }
}

/// The time from `last` to `now`; none where `now` lies before `last`.
pub open spec fn elapsed(last: u64, now: u64) -> u64 {
    if now >= last {
        (now - last) as u64
    } else {
        0
    }
}

impl Timings {
    /// The timings of a span that is created at the time `now`.
    pub fn new(now: u64) -> (t: Timings)
        ensures
            t == (Timings { idle: 0, busy: 0, last: now }),
    {
        Timings { idle: 0, busy: 0, last: now }
    }

    /// The span is entered at the time `now`: it was idle since the last
    /// change.
    pub fn on_enter(&mut self, now: u64)
        ensures
            *final(self) == (Timings {
                idle: capped(old(self).idle, elapsed(old(self).last, now)),
                busy: old(self).busy,
                last: now,
            }),
    {
        let passed = if now >= self.last {
            now - self.last
        } else {
            0
        };
        self.idle = if self.idle > u64::MAX - passed {
            u64::MAX
        } else {
            self.idle + passed
        };
        self.last = now;
    }

    /// The span is left at the time `now`: it was busy since the last
    /// change.
    pub fn on_exit(&mut self, now: u64)
        ensures
            *final(self) == (Timings {
                idle: old(self).idle,
                busy: capped(old(self).busy, elapsed(old(self).last, now)),
                last: now,
            }),
    {
        let passed = if now >= self.last {
            now - self.last
        } else {
            0
        };
        self.busy = if self.busy > u64::MAX - passed {
            u64::MAX
        } else {
            self.busy + passed
        };
        self.last = now;
    }
}

} // verus!
