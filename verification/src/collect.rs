//! The contract between instrumentation and the backend that collects it.
use vstd::prelude::*;
use crate::event::Event;
use crate::field::{Field, Payload};
use crate::metadata::Metadata;
use crate::span::{Attributes, Current, Id, Parent, Record};

verus! {

/// How much a collector cares about one callsite. Cached at the callsite so
/// that a disabled site costs one load.
#[derive(Clone, Copy, Debug, PartialEq, Eq, Structural, Hash)]
pub enum Interest {
    /// The callsite is disabled: nothing is asked, nothing is recorded.
    Never,
    /// The collector decides each time the callsite is reached.
    Sometimes,
    /// The callsite is enabled without further questions.
    Always,
}

impl Interest {
    /// Position in the order `Never < Sometimes < Always`.
    pub open spec fn rank(self) -> nat {
        match self {
            Interest::Never => 0,
            Interest::Sometimes => 1,
            Interest::Always => 2,
        }
    }

    /// The lower of two interests.
    pub open spec fn spec_min(self, other: Interest) -> Interest {
        if self.rank() <= other.rank() {
            self
        } else {
            other
        }
    }

    /// The interest of a collector that never wants the callsite.
    pub fn never() -> (r: Interest)
        ensures
            r == Interest::Never,
    {
        Interest::Never
    }

    /// The interest of a collector that decides at each visit.
    pub fn sometimes() -> (r: Interest)
        ensures
            r == Interest::Sometimes,
    {
        Interest::Sometimes
    }

    /// The interest of a collector that always wants the callsite.
    pub fn always() -> (r: Interest)
        ensures
            r == Interest::Always,
    {
        Interest::Always
    }

    /// Whether the callsite is never wanted.
    pub fn is_never(&self) -> (r: bool)
        ensures
            r == (*self == Interest::Never),
    {
        matches!(self, Interest::Never)
    }

    /// Whether the collector decides at each visit.
    pub fn is_sometimes(&self) -> (r: bool)
        ensures
            r == (*self == Interest::Sometimes),
    {
        matches!(self, Interest::Sometimes)
    }

    /// Whether the callsite is always wanted.
    pub fn is_always(&self) -> (r: bool)
        ensures
            r == (*self == Interest::Always),
    {
        matches!(self, Interest::Always)
    }

    /// The lower of two interests: a layer that says `Never` disables a
    /// callsite whatever the others say.
    pub fn min(self, other: Interest) -> (r: Interest)
        ensures
            r == self.spec_min(other),
    {
        match (self, other) {
            (Interest::Never, _) => Interest::Never,
            (_, Interest::Never) => Interest::Never,
            (Interest::Sometimes, _) => Interest::Sometimes,
            (_, Interest::Sometimes) => Interest::Sometimes,
            (Interest::Always, Interest::Always) => Interest::Always,
        }
    }

    /// The interest that follows from a plain yes or no: `Always` for a
    /// callsite that is enabled, `Never` for one that is not.
    pub fn from_enabled(enabled: bool) -> (r: Interest)
        ensures
            r == if enabled {
                Interest::Always
            } else {
                Interest::Never
            },
    {
        if enabled {
            Interest::Always
        } else {
            Interest::Never
        }
    }
}

/// One callback, as a collector or a layer notes it.
pub enum Call {
    /// A span was created and got the identifier `id`.
    NewSpan { metadata: Metadata, parent: Parent, values: Seq<(Field, Payload)>, id: Id },
    /// Values were added to a span.
    Record { span: Id, values: Seq<(Field, Payload)> },
    /// A span was said to follow from another.
    FollowsFrom { span: Id, follows: Id },
    /// An event happened.
    Event { metadata: Metadata, parent: Parent, values: Seq<(Field, Payload)> },
    /// The context entered a span.
    Enter { span: Id },
    /// The context left a span.
    Exit { span: Id },
    /// A handle to a span was cloned.
    CloneSpan { span: Id },
    /// A handle to a span was dropped; `closed` tells whether the span closed.
    TryClose { span: Id, closed: bool },
    /// A layer was told that a span has closed.
    Closed { span: Id },
    /// A layer was told that a span goes by another identifier now.
    IdChange { from: Id, to: Id },
}

/// A backend that receives every span and event.
///
/// `interest_in` and `allows` name what the collector answers in its present
/// state; the two query methods return exactly that. The other methods change
/// the collector in ways that only the implementation knows, but for its
/// account of the callbacks it has received, `received`, to which each of them
/// adds one entry. `valid` is the invariant that the collector keeps: every
/// method expects it and every method that changes the collector restores it.
pub trait Collect {
    /// The invariant of the collector. A collector that states none is
    /// always in order.
    open spec fn valid(&self) -> bool {
        true
    }

    /// The callbacks received so far, oldest first. An implementation that
    /// keeps no account of its own has nothing to show here.
    open spec fn received(&self) -> Seq<Call> {
        Seq::empty()
    }

    /// Whether the collector keeps track of a current span. One that says
    /// nothing does not.
    open spec fn tracks_current(&self) -> bool {
        false
    }

    /// The span that the collector considers current, with its metadata.
    open spec fn current(&self) -> Option<(Id, Metadata)> {
        None
    }

    /// The interest that the collector has in a callsite.
    spec fn interest_in(&self, meta: Metadata) -> Interest;

    /// Whether the collector wants a span or event of a callsite right now.
    spec fn allows(&self, meta: Metadata) -> bool;

    /// Called when a callsite is registered, and again whenever the
    /// configuration of collectors changes.
    fn register_callsite(&self, meta: &'static Metadata) -> (r: Interest)
        requires
            self.valid(),
        ensures
            r == self.interest_in(*meta),
    ;

    /// Whether a span or event of the callsite is to be recorded.
    fn enabled(&self, meta: &Metadata) -> (r: bool)
        requires
            self.valid(),
        ensures
            r == self.allows(*meta),
    ;

    /// Records a new span and gives it an identifier.
    fn new_span(&mut self, attrs: &Attributes<'_>) -> (id: Id)
        requires
            old(self).valid(),
        ensures
            final(self).valid(),
            final(self).received() == old(self).received().push(
                Call::NewSpan {
                    metadata: attrs.spec_metadata(),
                    parent: attrs.parent_kind(),
                    values: attrs.spec_values().recorded(),
                    id,
                },
            ),
    ;

    /// Adds field values to a span.
    fn record(&mut self, span: &Id, values: &Record<'_>)
        requires
            old(self).valid(),
        ensures
            final(self).valid(),
            final(self).received() == old(self).received().push(
                Call::Record { span: *span, values: values.spec_values().recorded() },
            ),
    ;

    /// Notes that `span` follows from `follows` without being its child.
    fn record_follows_from(&mut self, span: &Id, follows: &Id)
        requires
            old(self).valid(),
        ensures
            final(self).valid(),
            final(self).received() == old(self).received().push(
                Call::FollowsFrom { span: *span, follows: *follows },
            ),
    ;

    /// Records a point event.
    fn event(&mut self, event: &Event<'_>)
        requires
            old(self).valid(),
        ensures
            final(self).valid(),
            final(self).received() == old(self).received().push(
                Call::Event {
                    metadata: event.spec_metadata(),
                    parent: event.parent_kind(),
                    values: event.spec_fields().recorded(),
                },
            ),
    ;

    /// The current context enters `span`.
    fn enter(&mut self, span: &Id)
        requires
            old(self).valid(),
        ensures
            final(self).valid(),
            final(self).received() == old(self).received().push(Call::Enter { span: *span }),
    ;

    /// The current context leaves `span`.
    fn exit(&mut self, span: &Id)
        requires
            old(self).valid(),
        ensures
            final(self).valid(),
            final(self).received() == old(self).received().push(Call::Exit { span: *span }),
    ;

    /// Notes one more handle to the span. Returns an identifier equal to `id`.
    fn clone_span(&mut self, id: &Id) -> (r: Id)
        requires
            old(self).valid(),
        ensures
            final(self).valid(),
            final(self).received() == old(self).received().push(Call::CloneSpan { span: *id }),
            r == *id,
    ;

    /// Notes that a handle to the span is gone. Returns `true` when the span
    /// has closed for good.
    fn try_close(&mut self, id: Id) -> (closed: bool)
        requires
            old(self).valid(),
        ensures
            final(self).valid(),
            final(self).received() == old(self).received().push(
                Call::TryClose { span: id, closed },
            ),
    ;

    /// The span that the collector considers current.
    fn current_span(&self) -> (current: Current)
        requires
            self.valid(),
        ensures
            current.spec_is_known() == self.tracks_current(),
            current.spec_inner() == self.current(),
    ;
}

} // verus!
