//! Layers: observers stacked on top of a collector.
//!
//! A stack of layers over a base collector behaves as one collector. Every
//! callback goes to the layer and to what lies below it; a callsite is
//! enabled only where the layer and everything below it enable it.
use vstd::prelude::*;
use crate::collect::{Call, Collect, Interest};
use crate::event::Event;
use crate::metadata::Metadata;
use crate::registry::{span, LookupSpan, SpanRef};
use crate::span::{Attributes, Current, Id, Record};

verus! {

/// What a layer is handed with each callback: access to the collector below
/// it, for looking spans up and for the current span.
pub struct Context<'a, S> {
    subscriber: Option<&'a S>,
}

impl<'a, S: Collect> Context<'a, S> {
    /// The collector below the layer, if the context has one.
    pub closed spec fn collector(self) -> Option<S> {
        match self.subscriber {
            Some(s) => Some(*s),
            None => None,
        }
    }

    /// The collector below the layer, if there is one, is in order.
    pub open spec fn wf(self) -> bool {
        self.collector() is Some ==> self.collector()->0.valid()
    }

    /// A context over the collector `subscriber`.
    pub fn new(subscriber: &'a S) -> (ctx: Self)
        ensures
            ctx.collector() == Some(*subscriber),
    {
        Context { subscriber: Some(subscriber) }
    }

    /// A context without a collector.
    pub fn none() -> (ctx: Self)
        ensures
            ctx.collector() is None,
    {
        Context { subscriber: None }
    }

    /// What the collector below considers the current span; unknown where
    /// the context has no collector.
    pub fn current_span(&self) -> (current: Current)
        requires
            self.wf(),
        ensures
            current.spec_is_known() == match self.collector() {
                Some(s) => s.tracks_current(),
                None => false,
            },
            current.spec_inner() == match self.collector() {
                Some(s) => s.current(),
                None => None,
            },
    {
        match self.subscriber {
            Some(s) => s.current_span(),
            None => Current::unknown(),
        }
    }

    /// Whether the collector below wants the callsite; `false` where the
    /// context has no collector.
    pub fn enabled(&self, meta: &Metadata) -> (r: bool)
        requires
            self.wf(),
        ensures
            r == match self.collector() {
                Some(s) => s.allows(*meta),
                None => false,
            },
    {
        match self.subscriber {
            Some(s) => s.enabled(meta),
            None => false,
        }
    }
}

impl<'a, S: Collect + LookupSpan> Context<'a, S> {
    /// A reference to the span `id`, if the collector below holds it.
    pub fn span(&self, id: &Id) -> (r: Option<SpanRef<'a, S>>)
        requires
            self.collector() is Some ==> self.collector()->0.consistent(),
        ensures
            match r {
                Some(s) => {
                    &&& self.collector() is Some
                    &&& s.wf()
                    &&& s.store() == self.collector()->0
                    &&& Some(s.content()) == self.collector()->0.data_of(*id)
                },
                None => self.collector() is None || self.collector()->0.data_of(*id) is None,
            },
    {
        match self.subscriber {
            Some(s) => span(s, id),
            None => None,
        }
    }

    /// A reference to the span that the collector below considers current,
    /// if it names one and holds it.
    pub fn lookup_current(&self) -> (r: Option<SpanRef<'a, S>>)
        requires
            self.wf(),
            self.collector() is Some ==> self.collector()->0.consistent(),
        ensures
            match r {
                Some(s) => {
                    &&& self.collector() matches Some(c)
                    &&& c.current() matches Some((id, _))
                    &&& s.wf()
                    &&& s.store() == c
                    &&& Some(s.content()) == c.data_of(id)
                },
                None => self.collector() matches Some(c) ==> (c.current() matches Some((id, _))
                    ==> c.data_of(id) is None),
            },
    {
        match self.subscriber {
            Some(s) => {
                let current = s.current_span();
                match current.id() {
                    Some(id) => span(s, id),
                    None => None,
                }
            },
            None => None,
        }
    }
}

/// An observer of the callbacks that a collector `S` receives, which may
/// also disable callsites.
///
/// `observed` is the layer's account of the callbacks it has received, to
/// which each of them adds one entry. `interest_in` and `allows` name what
/// the layer answers in its present state.
pub trait Layer<S: Collect> {
    /// The invariant of the layer. A layer that states none is always in
    /// order.
    open spec fn valid(&self) -> bool {
        true
    }

    /// The callbacks received so far, oldest first. An implementation that
    /// keeps no account of its own has nothing to show here.
    open spec fn observed(&self) -> Seq<Call> {
        Seq::empty()
    }

    /// The interest that the layer has in a callsite.
    spec fn interest_in(&self, meta: Metadata) -> Interest;

    /// Whether the layer lets a span or event of a callsite pass right now.
    spec fn allows(&self, meta: Metadata) -> bool;

    /// Called when a callsite is registered.
    fn register_callsite(&self, meta: &'static Metadata) -> (r: Interest)
        requires
            self.valid(),
        ensures
            r == self.interest_in(*meta),
    ;

    /// Whether a span or event of the callsite may pass.
    fn enabled(&self, meta: &Metadata, ctx: Context<'_, S>) -> (r: bool)
        requires
            self.valid(),
            ctx.wf(),
        ensures
            r == self.allows(*meta),
    ;

    /// A span was created below and got the identifier `id`.
    fn new_span(&mut self, attrs: &Attributes<'_>, id: &Id, ctx: Context<'_, S>)
        requires
            old(self).valid(),
            ctx.wf(),
        ensures
            final(self).valid(),
            final(self).observed() == old(self).observed().push(
                Call::NewSpan {
                    metadata: attrs.spec_metadata(),
                    parent: attrs.parent_kind(),
                    values: attrs.spec_values().recorded(),
                    id: *id,
                },
            ),
    ;

    /// Values were added to a span.
    fn on_record(&mut self, span: &Id, values: &Record<'_>, ctx: Context<'_, S>)
        requires
            old(self).valid(),
            ctx.wf(),
        ensures
            final(self).valid(),
            final(self).observed() == old(self).observed().push(
                Call::Record { span: *span, values: values.spec_values().recorded() },
            ),
    ;

    /// A span was said to follow from another.
    fn on_follows_from(&mut self, span: &Id, follows: &Id, ctx: Context<'_, S>)
        requires
            old(self).valid(),
            ctx.wf(),
        ensures
            final(self).valid(),
            final(self).observed() == old(self).observed().push(
                Call::FollowsFrom { span: *span, follows: *follows },
            ),
    ;

    /// An event happened.
    fn on_event(&mut self, event: &Event<'_>, ctx: Context<'_, S>)
        requires
            old(self).valid(),
            ctx.wf(),
        ensures
            final(self).valid(),
            final(self).observed() == old(self).observed().push(
                Call::Event {
                    metadata: event.spec_metadata(),
                    parent: event.parent_kind(),
                    values: event.spec_fields().recorded(),
                },
            ),
    ;

    /// The context entered a span.
    fn on_enter(&mut self, id: &Id, ctx: Context<'_, S>)
        requires
            old(self).valid(),
            ctx.wf(),
        ensures
            final(self).valid(),
            final(self).observed() == old(self).observed().push(Call::Enter { span: *id }),
    ;

    /// The context left a span.
    fn on_exit(&mut self, id: &Id, ctx: Context<'_, S>)
        requires
            old(self).valid(),
            ctx.wf(),
        ensures
            final(self).valid(),
            final(self).observed() == old(self).observed().push(Call::Exit { span: *id }),
    ;

    /// A span has closed.
    fn on_close(&mut self, id: Id, ctx: Context<'_, S>)
        requires
            old(self).valid(),
            ctx.wf(),
        ensures
            final(self).valid(),
            final(self).observed() == old(self).observed().push(Call::Closed { span: id }),
    ;

    /// A span goes by another identifier now.
    fn on_id_change(&mut self, from: &Id, to: &Id, ctx: Context<'_, S>)
        requires
            old(self).valid(),
            ctx.wf(),
        ensures
            final(self).valid(),
            final(self).observed() == old(self).observed().push(
                Call::IdChange { from: *from, to: *to },
            ),
    ;
}

/// A layer on top of a collector, which together are a collector.
pub struct Layered<L, S> {
    layer: L,
    inner: S,
}

impl<L: Layer<S>, S: Collect> Layered<L, S> {
    /// The layer on top.
    pub closed spec fn top(self) -> L {
        self.layer
    }

    /// The collector below the layer.
    pub closed spec fn below(self) -> S {
        self.inner
    }

    /// Puts `layer` on top of `inner`.
    pub fn new(layer: L, inner: S) -> (r: Self)
        ensures
            r.top() == layer,
            r.below() == inner,
    {
        Layered { layer, inner }
    }

    /// The layer on top.
    pub fn layer(&self) -> (r: &L)
        ensures
            *r == self.top(),
    {
        &self.layer
    }

    /// The collector below the layer.
    pub fn inner(&self) -> (r: &S)
        ensures
            *r == self.below(),
    {
        &self.inner
    }

    /// The layer on top, to be changed in place.
    pub fn layer_mut(&mut self) -> (r: &mut L)
        ensures
            *r == old(self).top(),
            final(self).top() == *final(r),
            final(self).below() == old(self).below(),
    {
        &mut self.layer
    }

    /// The stack taken apart: the layer and the collector below it.
    pub fn into_parts(self) -> (r: (L, S))
        ensures
            r.0 == self.top(),
            r.1 == self.below(),
    {
        (self.layer, self.inner)
    }
}

impl<L: Layer<S>, S: Collect> Collect for Layered<L, S> {
    open spec fn valid(&self) -> bool {
        self.top().valid() && self.below().valid()
    }

    open spec fn received(&self) -> Seq<Call> {
        self.below().received()
    }

    open spec fn tracks_current(&self) -> bool {
        self.below().tracks_current()
    }

    open spec fn current(&self) -> Option<(Id, Metadata)> {
        self.below().current()
    }

    open spec fn interest_in(&self, meta: Metadata) -> Interest {
        self.top().interest_in(meta).spec_min(self.below().interest_in(meta))
    }

    open spec fn allows(&self, meta: Metadata) -> bool {
        self.top().allows(meta) && self.below().allows(meta)
    }

    fn register_callsite(&self, meta: &'static Metadata) -> (r: Interest) {
        let outer = self.layer.register_callsite(meta);
        if outer.is_never() {
            // the layer disables the callsite, whatever lies below
            return outer;
        }
        let inner = self.inner.register_callsite(meta);
        outer.min(inner)
    }

    fn enabled(&self, meta: &Metadata) -> (r: bool) {
        if self.layer.enabled(meta, Context::new(&self.inner)) {
            self.inner.enabled(meta)
        } else {
            // the layer disables the callsite: what lies below is not asked
            false
        }
    }

    fn new_span(&mut self, attrs: &Attributes<'_>) -> (id: Id)
        ensures
            final(self).top().observed() == old(self).top().observed().push(
                Call::NewSpan {
                    metadata: attrs.spec_metadata(),
                    parent: attrs.parent_kind(),
                    values: attrs.spec_values().recorded(),
                    id,
                },
            ),
    {
        let id = self.inner.new_span(attrs);
        self.layer.new_span(attrs, &id, Context::new(&self.inner));
        id
    }

    fn record(&mut self, span: &Id, values: &Record<'_>)
        ensures
            final(self).top().observed() == old(self).top().observed().push(
                Call::Record { span: *span, values: values.spec_values().recorded() },
            ),
    {
        self.layer.on_record(span, values, Context::new(&self.inner));
        self.inner.record(span, values);
    }

    fn record_follows_from(&mut self, span: &Id, follows: &Id)
        ensures
            final(self).top().observed() == old(self).top().observed().push(
                Call::FollowsFrom { span: *span, follows: *follows },
            ),
    {
        self.layer.on_follows_from(span, follows, Context::new(&self.inner));
        self.inner.record_follows_from(span, follows);
    }

    fn event(&mut self, event: &Event<'_>)
        ensures
            final(self).top().observed() == old(self).top().observed().push(
                Call::Event {
                    metadata: event.spec_metadata(),
                    parent: event.parent_kind(),
                    values: event.spec_fields().recorded(),
                },
            ),
    {
        self.layer.on_event(event, Context::new(&self.inner));
        self.inner.event(event);
    }

    fn enter(&mut self, span: &Id)
        ensures
            final(self).top().observed() == old(self).top().observed().push(
                Call::Enter { span: *span },
            ),
    {
        self.layer.on_enter(span, Context::new(&self.inner));
        self.inner.enter(span);
    }

    fn exit(&mut self, span: &Id)
        ensures
            final(self).top().observed() == old(self).top().observed().push(
                Call::Exit { span: *span },
            ),
    {
        self.layer.on_exit(span, Context::new(&self.inner));
        self.inner.exit(span);
    }

    fn clone_span(&mut self, id: &Id) -> (r: Id)
        ensures
            final(self).top().observed() == old(self).top().observed(),
    {
        let new = self.inner.clone_span(id);
        if new != *id {
            self.layer.on_id_change(id, &new, Context::new(&self.inner));
        }
        new
    }

    fn try_close(&mut self, id: Id) -> (closed: bool)
        ensures
            final(self).top().observed() == if closed {
                old(self).top().observed().push(Call::Closed { span: id })
            } else {
                old(self).top().observed()
            },
    {
        let closed = self.inner.try_close(id);
        if closed {
            self.layer.on_close(id, Context::new(&self.inner));
        }
        closed
    }

    fn current_span(&self) -> (current: Current) {
        self.inner.current_span()
    }
}

impl<L: Layer<S>, S: Collect + LookupSpan> LookupSpan for Layered<L, S> {
    type Data = S::Data;

    open spec fn consistent(&self) -> bool {
        self.below().consistent()
    }

    open spec fn data_of(&self, id: Id) -> Option<S::Data> {
        self.below().data_of(id)
    }

    open spec fn height(&self, id: Id) -> nat {
        self.below().height(id)
    }

    proof fn lemma_parent_lower(&self, id: Id) {
        self.below().lemma_parent_lower(id);
    }

    fn span_data(&self, id: &Id) -> (r: Option<S::Data>) {
        self.inner.span_data(id)
    }
}

} // verus!
