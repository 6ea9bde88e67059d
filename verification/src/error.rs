//! Errors that remember the spans in which they arose.
use vstd::prelude::*;
use crate::metadata::Metadata;
use crate::registry::{ancestors, span, LookupSpan, SpanData};
use crate::span::Id;

verus! {

/// The spans that execution was inside of at one moment, innermost first.
pub struct SpanTrace {
    frames: Vec<&'static Metadata>,
}

/// The span `id` and its ancestors in `store`, innermost first; nothing
/// where the store does not hold the span.
pub open spec fn chain<R: LookupSpan>(store: R, id: Id) -> Seq<Id> {
    if store.data_of(id) is Some {
        seq![id] + ancestors(store, id)
    } else {
        Seq::empty()
    }
}

impl SpanTrace {
    /// The metadata of the spans of the trace, innermost first.
    pub closed spec fn view(self) -> Seq<Metadata> {
        Seq::new(self.frames@.len(), |k: int| *self.frames@[k])
    }

    /// A trace without spans.
    pub fn empty() -> (trace: SpanTrace)
        ensures
            trace.view() == Seq::<Metadata>::empty(),
    {
        let trace = SpanTrace { frames: Vec::new() };
        assert(trace.view() =~= Seq::<Metadata>::empty());
        trace
    }

    /// The trace of the context whose current span is `current`: that span
    /// and its ancestors as `store` holds them. Empty where the context is
    /// inside no span.
    pub fn capture<R: LookupSpan>(store: &R, current: Option<&Id>) -> (trace: SpanTrace)
        requires
            store.consistent(),
        ensures
            trace.view() == match current {
                Some(id) => Seq::new(
                    chain(*store, *id).len(),
                    |k: int| store.data_of(chain(*store, *id)[k])->0.meta(),
                ),
                None => Seq::empty(),
            },
    {
        let id = match current {
            Some(id) => id,
            None => {
                return SpanTrace::empty();
            },
        };
        let first = match span(store, id) {
            Some(first) => first,
            None => {
                let trace = SpanTrace::empty();
                assert(trace.view() =~= Seq::new(
                    chain(*store, *id).len(),
                    |k: int| store.data_of(chain(*store, *id)[k])->0.meta(),
                ));
                return trace;
            },
        };
        proof {
            store.lemma_parent_lower(*id);
        }
        let ghost ids = chain(*store, *id);
        let mut frames: Vec<&'static Metadata> = Vec::new();
        frames.push(first.metadata());
        let mut parents = first.parents();
        let ghost done: Seq<Id> = seq![*id];
        loop
            invariant
                parents.wf(),
                parents.store() == *store,
                done + parents.pending() == ids,
                frames@.len() == done.len(),
                forall|k: int|
                    0 <= k < done.len() ==> *(#[trigger] frames@[k]) == store.data_of(
                        done[k],
                    )->0.meta(),
            ensures
                done == ids,
                frames@.len() == ids.len(),
                forall|k: int|
                    0 <= k < ids.len() ==> *(#[trigger] frames@[k]) == store.data_of(
                        ids[k],
                    )->0.meta(),
            decreases parents.pending().len(),
        {
            let ghost before = parents.pending();
            match parents.next() {
                Some(parent) => {
                    frames.push(parent.metadata());
                    proof {
                        let grown = done.push(before[0]);
                        assert(grown + parents.pending() =~= done + before);
                        done = grown;
                    }
                },
                None => {
                    proof {
                        assert(done + parents.pending() =~= done);
                    }
                    break ;
                },
            }
        }
        let trace = SpanTrace { frames };
        assert(trace.view() =~= Seq::new(
            ids.len(),
            |k: int| store.data_of(ids[k])->0.meta(),
        ));
        trace
    }

    /// Number of spans in the trace.
    pub fn len(&self) -> (n: usize)
        ensures
            n == self.view().len(),
    {
        self.frames.len()
    }

    /// The metadata of the span at position `k`, counted from the innermost.
    pub fn frame(&self, k: usize) -> (meta: Option<&'static Metadata>)
        ensures
            match meta {
                Some(m) => k < self.view().len() && *m == self.view()[k as int],
                None => k >= self.view().len(),
            },
    {
        if k < self.frames.len() {
            Some(self.frames[k])
        } else {
            None
        }
    }
}

/// An error together with the trace of the spans in which it arose.
pub struct TracedError {
    error: String,
    span_trace: SpanTrace,
}

impl TracedError {
    /// The text of the error.
    pub closed spec fn text(self) -> Seq<char> {
        self.error@
    }

    /// The trace that the error carries.
    pub closed spec fn trace(self) -> SpanTrace {
        self.span_trace
    }

    /// Bundles the text of an error with a trace.
    pub fn new(error: String, span_trace: SpanTrace) -> (e: TracedError)
        ensures
            e.text() == error@,
            e.trace() == span_trace,
    {
        TracedError { error, span_trace }
    }

    /// The text of the error.
    pub fn message(&self) -> (s: &str)
        ensures
            s@ == self.text(),
    {
        self.error.as_str()
    }

    /// The trace of the spans in which the error arose.
    pub fn span_trace(&self) -> (t: &SpanTrace)
        ensures
            *t == self.trace(),
    {
        &self.span_trace
    }
}

} // verus!
