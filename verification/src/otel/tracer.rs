//! Tracers that decide about sampling before a span is exported.
//!
//! The identifiers of a trace cannot change once a span has been exported,
//! and a span is exported only when it closes. To hand the context of a span
//! that is still open on to other processes, its sampling has to be decided
//! early, and the decision has to stand when the span closes.
use vstd::prelude::*;
use crate::otel::builder::{KeyValue, OtelContext, SamplingResult, SpanBuilder, SpanContext};
use crate::otel::{SamplingDecision, SpanKind, TRACE_FLAG_SAMPLED};

verus! {

/// Decides which spans are recorded and exported.
pub trait Sampler {
    /// The decision about a span that is about to begin.
    fn should_sample(
        &self,
        parent: &OtelContext,
        trace_id: u128,
        name: &str,
        kind: SpanKind,
        attributes: &[KeyValue],
        links: &[SpanContext],
    ) -> SamplingResult;
}

/// Makes the identifiers of traces and spans.
pub trait IdGenerator {
    /// An identifier for a new trace.
    fn new_trace_id(&mut self) -> u128;

    /// An identifier for a new span.
    fn new_span_id(&mut self) -> u64;
}

/// A tracer that can give the context of a span before the span is exported.
pub trait PreSampledTracer {
    /// The context that holds the span of `builder` as its active span,
    /// sampled as it will be when the span closes.
    fn sampled_context(&mut self, builder: &mut SpanBuilder) -> OtelContext;

    /// An identifier for a new trace.
    fn new_trace_id(&mut self) -> u128;

    /// An identifier for a new span.
    fn new_span_id(&mut self) -> u64;
}

impl OtelContext {
    /// The context without any span.
    pub open spec fn spec_empty() -> OtelContext {
        OtelContext { active: None, remote: None }
    }

    /// The context without any span.
    pub fn empty() -> (cx: OtelContext)
        ensures
            cx == OtelContext::spec_empty(),
    {
        OtelContext { active: None, remote: None }
    }

    /// Whether a span is active in the context.
    pub fn has_active_span(&self) -> (r: bool)
        ensures
            r == (self.active is Some),
    {
        self.active.is_some()
    }

    /// The context with `span` as its active span.
    pub fn with_span(&self, span: SpanContext) -> (cx: OtelContext)
        ensures
            cx == (OtelContext { active: Some(span), remote: self.remote }),
    {
        OtelContext { active: Some(span), remote: self.remote }
    }
}

/// A tracer that records nothing.
#[derive(Clone, Copy, Debug, PartialEq, Eq, Structural)]
pub struct NoopTracer {}

impl NoopTracer {
    /// A tracer that records nothing.
    pub fn new() -> NoopTracer {
        NoopTracer {}
    }
}

impl PreSampledTracer for NoopTracer {
    fn sampled_context(&mut self, builder: &mut SpanBuilder) -> (cx: OtelContext)
        ensures
            *final(builder) == *old(builder),
            cx == match old(builder).parent_context {
                Some(parent) => parent,
                None => OtelContext::spec_empty(),
            },
    {
        match builder.parent_context {
            Some(parent) => parent,
            None => OtelContext::empty(),
        }
    }

    fn new_trace_id(&mut self) -> (id: u128)
        ensures
            id == 0,
    {
        0
    }

    fn new_span_id(&mut self) -> (id: u64)
        ensures
            id == 0,
    {
        0
    }
}

/// The context that a span was given as its parent, made fit for sampling:
/// where it holds the context of a span of another process and no active
/// span, that span counts as the active one.
pub open spec fn parent_context_of(given: Option<OtelContext>) -> OtelContext {
    match given {
        Some(cx) => if cx.remote is Some && cx.active is None {
            OtelContext { active: cx.remote, remote: cx.remote }
        } else {
            cx
        },
        None => OtelContext::spec_empty(),
    }
}

/// The parent context of the span of `builder`, made fit for sampling.
pub fn build_parent_context(builder: &SpanBuilder) -> (cx: OtelContext)
    ensures
        cx == parent_context_of(builder.parent_context),
{
    match builder.parent_context {
        Some(cx) => {
            match cx.remote {
                Some(remote) => {
                    if !cx.has_active_span() {
                        cx.with_span(remote)
                    } else {
                        cx
                    }
                },
                None => cx,
            }
        },
        None => OtelContext::empty(),
    }
}

/// The trace flags of a span. A decision that was taken for the span
/// counts; without one, a span with a parent in this process has the flags
/// of its parent. A span that was dropped has no flag.
pub open spec fn flags_for(decision: Option<SamplingDecision>, parent_flags: u8) -> u8 {
    match decision {
        Some(SamplingDecision::Drop) => 0,
        Some(SamplingDecision::RecordOnly) => parent_flags & !TRACE_FLAG_SAMPLED,
        Some(SamplingDecision::RecordAndSample) => parent_flags | TRACE_FLAG_SAMPLED,
        None => parent_flags,
    }
}

/// The trace flags of a span, given the decision that was taken for it, or
/// `None` where its parent decides.
pub fn sampled_flags(decision: Option<SamplingDecision>, parent_flags: u8) -> (flags: u8)
    ensures
        flags == flags_for(decision, parent_flags),
{
    match decision {
        Some(d) => match crate::otel::process_sampling_result(d, parent_flags) {
            Some(flags) => flags,
            None => 0,
        },
        None => parent_flags,
    }
}

/// A tracer with a sampler and a maker of identifiers. Once its pipeline has
/// been shut down it gives empty contexts only.
pub struct Tracer<S, G> {
    sampler: S,
    ids: G,
    installed: bool,
}

impl<S: Sampler, G: IdGenerator> Tracer<S, G> {
    /// Whether the pipeline of the tracer is still installed.
    pub closed spec fn is_installed(self) -> bool {
        self.installed
    }

    /// A tracer whose pipeline is installed.
    pub fn new(sampler: S, ids: G) -> (t: Self)
        ensures
            t.is_installed(),
    {
        Tracer { sampler, ids, installed: true }
    }

    /// Shuts the pipeline of the tracer down.
    pub fn shut_down(&mut self)
        ensures
            !final(self).is_installed(),
    {
        self.installed = false;
    }

    /// Whether a sampler has to decide about the span of `before`: no
    /// decision is recorded, and the span has no parent or one of another
    /// process.
    pub open spec fn asks_sampler(before: SpanBuilder) -> bool {
        let parent = parent_context_of(before.parent_context);
        before.sampling_result is None && (parent.active is None || parent.active->0.is_remote)
    }

    /// What [`PreSampledTracer::sampled_context`] returns for a builder that
    /// was `before` and is `after`, where the pipeline is installed.
    pub open spec fn sampled(before: SpanBuilder, after: SpanBuilder, cx: OtelContext) -> bool {
        let parent = parent_context_of(before.parent_context);
        let parent_flags = match parent.active {
            Some(sc) => sc.trace_flags,
            None => 0,
        };
        let decision = match after.sampling_result {
            Some(result) => Some(result.decision),
            None => None,
        };
        &&& cx.remote == parent.remote
        &&& cx.active matches Some(sc) && {
            &&& !sc.is_remote
            &&& sc.span_id == match before.span_id {
                Some(id) => id,
                None => 0,
            }
            &&& sc.trace_flags == flags_for(decision, parent_flags)
            &&& parent.active matches Some(p) ==> sc.trace_id == p.trace_id
            &&& parent.active is None ==> (before.trace_id matches Some(id) ==> sc.trace_id == id)
        }
        &&& !Self::asks_sampler(before) ==> after.sampling_result == before.sampling_result
        &&& Self::asks_sampler(before) ==> after.sampling_result is Some
        &&& after.name == before.name
        &&& after.span_kind == before.span_kind
        &&& after.trace_id == before.trace_id
        &&& after.span_id == before.span_id
        &&& after.parent_context == before.parent_context
        &&& after.start_time == before.start_time
        &&& after.end_time == before.end_time
        &&& after.attributes == before.attributes
        &&& after.message_events == before.message_events
        &&& after.links == before.links
        &&& after.status_code == before.status_code
    }
}

impl<S: Sampler, G: IdGenerator> PreSampledTracer for Tracer<S, G> {
    fn sampled_context(&mut self, builder: &mut SpanBuilder) -> (cx: OtelContext)
        ensures
            final(self).is_installed() == old(self).is_installed(),
            !old(self).is_installed() ==> cx == OtelContext::spec_empty() && *final(builder)
                == *old(builder),
            old(self).is_installed() ==> Self::sampled(*old(builder), *final(builder), cx),
    {
        // Without its pipeline the tracer has nothing to sample with.
        if !self.installed {
            return OtelContext::empty();
        }
        // The parent context, with what sampling needs of it.
        let parent_cx = build_parent_context(builder);
        let (no_parent, trace_id, remote_parent, parent_flags) = match parent_cx.active {
            Some(sc) => (false, sc.trace_id, sc.is_remote, sc.trace_flags),
            None => {
                let trace_id = match builder.trace_id {
                    Some(id) => id,
                    None => self.ids.new_trace_id(),
                };
                (true, trace_id, false, 0)
            },
        };
        // Sample, or defer to a decision that was taken before.
        if builder.sampling_result.is_none() && (no_parent || remote_parent) {
            let kind = match builder.span_kind {
                Some(kind) => kind,
                None => SpanKind::Internal,
            };
            let none: Vec<KeyValue> = Vec::new();
            let no_links: Vec<SpanContext> = Vec::new();
            let result = self.sampler.should_sample(
                &parent_cx,
                trace_id,
                builder.name.as_str(),
                kind,
                match &builder.attributes {
                    Some(list) => list.as_slice(),
                    None => none.as_slice(),
                },
                match &builder.links {
                    Some(list) => list.as_slice(),
                    None => no_links.as_slice(),
                },
            );
            builder.sampling_result = Some(result);
        }
        let decision = match &builder.sampling_result {
            Some(result) => Some(result.decision),
            None => None,
        };
        let flags = sampled_flags(decision, parent_flags);
        let span_id = match builder.span_id {
            Some(id) => id,
            None => 0,
        };
        parent_cx.with_span(
            SpanContext { trace_id, span_id, trace_flags: flags, is_remote: false },
        )
    }

    fn new_trace_id(&mut self) -> (id: u128)
        ensures
            final(self).is_installed() == old(self).is_installed(),
            !old(self).is_installed() ==> id == 0,
    {
        if self.installed {
            self.ids.new_trace_id()
        } else {
            0
        }
    }

    fn new_span_id(&mut self) -> (id: u64)
        ensures
            final(self).is_installed() == old(self).is_installed(),
            !old(self).is_installed() ==> id == 0,
    {
        if self.installed {
            self.ids.new_span_id()
        } else {
            0
        }
    }
}

} // verus!
