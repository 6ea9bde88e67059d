//! Filters: policies that decide which callsites are enabled.
use vstd::prelude::*;
use crate::collect::{Call, Collect, Interest};
use crate::event::Event;
use crate::layer::{Context, Layer};
use crate::metadata::{Level, Metadata};
use crate::span::{Attributes, Id, Record};

pub mod reload;

verus! {

/// A policy that enables or disables callsites.
///
/// `permits` and `interest_in` name what the filter answers in its present
/// state. A filter whose answer for a callsite never changes says `Always` or
/// `Never` as its interest, which is what [`Interest::from_enabled`] makes
/// of a yes or no; one that may change its mind says `Sometimes`.
pub trait Filter {
    /// Whether the filter enables a callsite right now.
    spec fn permits(&self, meta: Metadata) -> bool;

    /// The interest that the filter has in a callsite.
    spec fn interest_in(&self, meta: Metadata) -> Interest;

    /// The interest that is cached for a callsite.
    fn callsite_enabled(&self, meta: &Metadata) -> (r: Interest)
        ensures
            r == self.interest_in(*meta),
    ;

    /// Whether a span or event of the callsite is enabled.
    fn enabled(&self, meta: &Metadata) -> (r: bool)
        ensures
            r == self.permits(*meta),
    ;
}

/// A filter that enables the callsites up to a level of verbosity.
#[derive(Clone, Copy, Debug, PartialEq, Eq, Structural)]
pub struct LevelFilter {
    max: Option<Level>,
}

impl LevelFilter {
    /// The most verbose level that the filter enables; `None` for a filter
    /// that enables nothing.
    pub closed spec fn limit(self) -> Option<Level> {
        self.max
    }

    /// A filter that enables nothing.
    pub fn off() -> (f: LevelFilter)
        ensures
            f.limit() is None,
    {
        LevelFilter { max: None }
    }

    /// A filter that enables the callsites up to `level`.
    pub fn up_to(level: Level) -> (f: LevelFilter)
        ensures
            f.limit() == Some(level),
    {
        LevelFilter { max: Some(level) }
    }
}

impl Filter for LevelFilter {
    open spec fn permits(&self, meta: Metadata) -> bool {
        match self.limit() {
            Some(max) => meta@.level.rank() <= max.rank(),
            None => false,
        }
    }

    open spec fn interest_in(&self, meta: Metadata) -> Interest {
        if self.permits(meta) {
            Interest::Always
        } else {
            Interest::Never
        }
    }

    fn callsite_enabled(&self, meta: &Metadata) -> (r: Interest) {
        Interest::from_enabled(self.enabled(meta))
    }

    fn enabled(&self, meta: &Metadata) -> (r: bool) {
        match self.max {
            Some(max) => meta.level().is_within(max),
            None => false,
        }
    }
}

/// A layer that does nothing but filter: it disables the callsites that its
/// filter disables.
pub struct Filtered<F> {
    filter: F,
    log: Ghost<Seq<Call>>,
}

impl<F: Filter> Filtered<F> {
    /// The filter of the layer.
    pub closed spec fn policy(self) -> F {
        self.filter
    }

    /// The callbacks that the layer has received.
    pub closed spec fn noted(self) -> Seq<Call> {
        self.log@
    }

    /// A layer that filters with `filter`.
    pub fn new(filter: F) -> (r: Self)
        ensures
            r.policy() == filter,
            r.noted() == Seq::<Call>::empty(),
    {
        Filtered { filter, log: Ghost(Seq::empty()) }
    }

    /// The filter of the layer.
    pub fn filter(&self) -> (f: &F)
        ensures
            *f == self.policy(),
    {
        &self.filter
    }

    /// The filter of the layer, to be changed in place. The interests cached
    /// at callsites are stale after a change and have to be computed anew.
    pub fn filter_mut(&mut self) -> (f: &mut F)
        ensures
            *f == old(self).policy(),
            final(self).policy() == *final(f),
            final(self).noted() == old(self).noted(),
    {
        &mut self.filter
    }

    /// Replaces the filter of the layer and hands back the one it had. The
    /// interests cached at callsites are stale afterwards and have to be
    /// computed anew.
    pub fn replace(&mut self, filter: F) -> (had: F)
        ensures
            had == old(self).policy(),
            final(self).policy() == filter,
            final(self).noted() == old(self).noted(),
    {
        let mut next = filter;
        std::mem::swap(&mut self.filter, &mut next);
        next
    }

    fn note(&mut self, Ghost(call): Ghost<Call>)
        ensures
            final(self).policy() == old(self).policy(),
            final(self).noted() == old(self).noted().push(call),
    {
        self.log = Ghost(self.log@.push(call));
    }
}

impl<F: Filter, S: Collect> Layer<S> for Filtered<F> {
    open spec fn observed(&self) -> Seq<Call> {
        self.noted()
    }

    open spec fn interest_in(&self, meta: Metadata) -> Interest {
        self.policy().interest_in(meta)
    }

    open spec fn allows(&self, meta: Metadata) -> bool {
        self.policy().permits(meta)
    }

    fn register_callsite(&self, meta: &'static Metadata) -> (r: Interest) {
        self.filter.callsite_enabled(meta)
    }

    fn enabled(&self, meta: &Metadata, ctx: Context<'_, S>) -> (r: bool) {
        self.filter.enabled(meta)
    }

    fn new_span(&mut self, attrs: &Attributes<'_>, id: &Id, ctx: Context<'_, S>)
        ensures
            final(self).policy() == old(self).policy(),
    {
        self.note(
            Ghost(
                Call::NewSpan {
                    metadata: attrs.spec_metadata(),
                    parent: attrs.parent_kind(),
                    values: attrs.spec_values().recorded(),
                    id: *id,
                },
            ),
        );
    }

    fn on_record(&mut self, span: &Id, values: &Record<'_>, ctx: Context<'_, S>)
        ensures
            final(self).policy() == old(self).policy(),
    {
        self.note(Ghost(Call::Record { span: *span, values: values.spec_values().recorded() }));
    }

    fn on_follows_from(&mut self, span: &Id, follows: &Id, ctx: Context<'_, S>)
        ensures
            final(self).policy() == old(self).policy(),
    {
        self.note(Ghost(Call::FollowsFrom { span: *span, follows: *follows }));
    }

    fn on_event(&mut self, event: &Event<'_>, ctx: Context<'_, S>)
        ensures
            final(self).policy() == old(self).policy(),
    {
        self.note(
            Ghost(
                Call::Event {
                    metadata: event.spec_metadata(),
                    parent: event.parent_kind(),
                    values: event.spec_fields().recorded(),
                },
            ),
        );
    }

    fn on_enter(&mut self, id: &Id, ctx: Context<'_, S>)
        ensures
            final(self).policy() == old(self).policy(),
    {
        self.note(Ghost(Call::Enter { span: *id }));
    }

    fn on_exit(&mut self, id: &Id, ctx: Context<'_, S>)
        ensures
            final(self).policy() == old(self).policy(),
    {
        self.note(Ghost(Call::Exit { span: *id }));
    }

    fn on_close(&mut self, id: Id, ctx: Context<'_, S>)
        ensures
            final(self).policy() == old(self).policy(),
    {
        self.note(Ghost(Call::Closed { span: id }));
    }

    fn on_id_change(&mut self, from: &Id, to: &Id, ctx: Context<'_, S>)
        ensures
            final(self).policy() == old(self).policy(),
    {
        self.note(Ghost(Call::IdChange { from: *from, to: *to }));
    }
}

} // verus!
