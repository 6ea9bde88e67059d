//! What an instrumentation site does when execution reaches it.
//!
//! The site asks the cached interest of its callsite first, so that a site
//! nobody wants costs next to nothing, and only then builds and hands over
//! the span or event.
use vstd::prelude::*;
use crate::callsite::{all_valid, answers, combined, Callsites};
use crate::collect::{Call, Collect, Interest};
use crate::event::Event;
use crate::field::ValueSet;
use crate::metadata::Metadata;
use crate::span::{Attributes, Id, Parent, Record};

verus! {

/// Whether a callsite is enabled, given the interest cached for it and what
/// the current collector answers when asked.
pub open spec fn decided(cached: Option<Interest>, asked: bool) -> bool {
    match cached {
        Some(Interest::Never) => false,
        Some(Interest::Always) => true,
        _ => asked,
    }
}

/// A span begins at a callsite: where the callsite is enabled, the current
/// collector, `collectors[current]`, is told of the new span and the
/// identifier it gives is returned; where not, nothing happens to any
/// collector and `None` is returned.
///
/// A callsite that is reached for the first time is registered first.
pub fn new_span<C: Collect>(
    sites: &mut Callsites,
    collectors: &mut Vec<C>,
    current: usize,
    meta: &'static Metadata,
    values: &ValueSet<'_>,
) -> (made: Option<Id>)
    requires
        old(sites).wf(),
        all_valid(old(collectors)@),
        current < old(collectors)@.len(),
    ensures
        final(sites).wf(),
        all_valid(final(collectors)@),
        old(sites).is_registered(meta.spec_callsite()) ==> final(sites).registered() == old(sites).registered(),
        !old(sites).is_registered(meta.spec_callsite()) ==> final(sites).registered() == old(sites).registered().push((*meta, combined(answers(old(collectors)@, *meta)))),
        made is Some <==> decided(
            final(sites).cached(meta.spec_callsite()),
            old(collectors)@[current as int].allows(*meta),
        ),
        made is None ==> final(collectors)@ == old(collectors)@,
        made is Some ==> {
            &&& final(collectors)@.len() == old(collectors)@.len()
            &&& forall|i: int|
                0 <= i < old(collectors)@.len() && i != current ==> final(collectors)@[i] == old(collectors)@[i]
            &&& final(collectors)@[current as int].received() == old(collectors)@[current as int].received().push(
                Call::NewSpan {
                    metadata: *meta,
                    parent: Parent::Current,
                    values: values.recorded(),
                    id: made->0,
                },
            )
        },
{
    let enabled = sites.is_enabled(meta, collectors.as_slice(), &collectors[current]);
    if !enabled {
        return None;
    }
    let attrs = Attributes::new(meta, values);
    let target = &mut collectors[current];
    let id = target.new_span(&attrs);
    Some(id)
}

/// An event happens at a callsite: where the callsite is enabled, the
/// current collector, `collectors[current]`, is told of it and `true` is
/// returned; where not, nothing happens to any collector and `false` is
/// returned.
///
/// A callsite that is reached for the first time is registered first.
pub fn event<C: Collect>(
    sites: &mut Callsites,
    collectors: &mut Vec<C>,
    current: usize,
    meta: &'static Metadata,
    values: &ValueSet<'_>,
) -> (sent: bool)
    requires
        old(sites).wf(),
        all_valid(old(collectors)@),
        current < old(collectors)@.len(),
    ensures
        final(sites).wf(),
        all_valid(final(collectors)@),
        old(sites).is_registered(meta.spec_callsite()) ==> final(sites).registered() == old(sites).registered(),
        !old(sites).is_registered(meta.spec_callsite()) ==> final(sites).registered() == old(sites).registered().push((*meta, combined(answers(old(collectors)@, *meta)))),
        sent == decided(
            final(sites).cached(meta.spec_callsite()),
            old(collectors)@[current as int].allows(*meta),
        ),
        !sent ==> final(collectors)@ == old(collectors)@,
        sent ==> {
            &&& final(collectors)@.len() == old(collectors)@.len()
            &&& forall|i: int|
                0 <= i < old(collectors)@.len() && i != current ==> final(collectors)@[i] == old(collectors)@[i]
            &&& final(collectors)@[current as int].received() == old(collectors)@[current as int].received().push(
                Call::Event { metadata: *meta, parent: Parent::Current, values: values.recorded() },
            )
        },
{
    let enabled = sites.is_enabled(meta, collectors.as_slice(), &collectors[current]);
    if !enabled {
        return false;
    }
    let ev = Event::new(meta, values);
    let target = &mut collectors[current];
    target.event(&ev);
    true
}

/// A handle to a span, as an instrumentation site holds it: the identifier
/// that the collector gave, or nothing where the callsite was disabled. A
/// handle to nothing tells the collector nothing.
pub struct Span {
    id: Option<Id>,
    meta: &'static Metadata,
}

impl Span {
    /// The identifier of the span, where there is one.
    pub closed spec fn ident(self) -> Option<Id> {
        self.id
    }

    /// The metadata of the callsite.
    pub closed spec fn site(self) -> Metadata {
        *self.meta
    }

    /// What [`Span::in_scope`] does with a collector `before`: the context
    /// enters the span, which gives `inside`; `f` makes `after` of it and
    /// returns `out`; the context leaves the span, which gives `end`.
    pub open spec fn ran_inside<C: Collect, R, F: FnOnce(C) -> (C, R)>(
        self,
        before: C,
        inside: C,
        after: C,
        end: C,
        out: R,
        f: F,
    ) -> bool {
        &&& inside.valid()
        &&& f.ensures((inside,), (after, out))
        &&& self.ident() is None ==> inside == before && end == after
        &&& self.ident() is Some ==> inside.received() == before.received().push(
            Call::Enter { span: self.ident()->0 },
        ) && end.received() == after.received().push(Call::Exit { span: self.ident()->0 })
    }

    /// A handle to the span `id` of the callsite `meta`; to nothing where
    /// `id` is `None`.
    pub fn new(id: Option<Id>, meta: &'static Metadata) -> (span: Span)
        ensures
            span.ident() == id,
            span.site() == *meta,
    {
        Span { id, meta }
    }

    /// The identifier of the span, where there is one.
    pub fn id(&self) -> (id: Option<Id>)
        ensures
            id == self.ident(),
    {
        self.id
    }

    /// The metadata of the callsite.
    pub fn metadata(&self) -> (meta: &'static Metadata)
        ensures
            *meta == self.site(),
    {
        self.meta
    }

    /// Whether the handle is one to nothing.
    pub fn is_disabled(&self) -> (r: bool)
        ensures
            r == (self.ident() is None),
    {
        self.id.is_none()
    }

    /// The context enters the span.
    pub fn enter<C: Collect>(&self, collector: &mut C)
        requires
            old(collector).valid(),
        ensures
            final(collector).valid(),
            self.ident() is None ==> *final(collector) == *old(collector),
            self.ident() is Some ==> final(collector).received() == old(collector).received().push(
                Call::Enter { span: self.ident()->0 },
            ),
    {
        match &self.id {
            Some(id) => collector.enter(id),
            None => {},
        }
    }

    /// The context leaves the span.
    pub fn exit<C: Collect>(&self, collector: &mut C)
        requires
            old(collector).valid(),
        ensures
            final(collector).valid(),
            self.ident() is None ==> *final(collector) == *old(collector),
            self.ident() is Some ==> final(collector).received() == old(collector).received().push(
                Call::Exit { span: self.ident()->0 },
            ),
    {
        match &self.id {
            Some(id) => collector.exit(id),
            None => {},
        }
    }

    /// Runs `f` inside the span: the context enters the span, `f` runs with
    /// the collector, and the context leaves the span again.
    pub fn in_scope<C: Collect, R, F: FnOnce(C) -> (C, R)>(&self, collector: C, f: F) -> (r: (C, R))
        requires
            collector.valid(),
            forall|inside: C|
                inside.valid() && (self.ident() is None ==> inside == collector) && (
                self.ident() is Some ==> inside.received() == collector.received().push(
                    Call::Enter { span: self.ident()->0 },
                )) ==> f.requires((inside,)),
            forall|inside: C, out: (C, R)| f.ensures((inside,), out) ==> out.0.valid(),
        ensures
            r.0.valid(),
            exists|inside: C, after: C| #[trigger]
                self.ran_inside(collector, inside, after, r.0, r.1, f),
    {
        let mut entered = collector;
        self.enter(&mut entered);
        let ghost inside = entered;
        let (mut left, out) = f(entered);
        let ghost after = left;
        self.exit(&mut left);
        let r = (left, out);
        assert(self.ran_inside(collector, inside, after, r.0, r.1, f));
        r
    }

    /// Adds values to the span.
    pub fn record<C: Collect>(&self, collector: &mut C, values: &ValueSet<'_>)
        requires
            old(collector).valid(),
        ensures
            final(collector).valid(),
            self.ident() is None ==> *final(collector) == *old(collector),
            self.ident() is Some ==> final(collector).received() == old(collector).received().push(
                Call::Record { span: self.ident()->0, values: values.recorded() },
            ),
    {
        match &self.id {
            Some(id) => collector.record(id, &Record::new(values)),
            None => {},
        }
    }

    /// Says that the span follows from the span `from`.
    pub fn follows_from<C: Collect>(&self, collector: &mut C, from: &Id)
        requires
            old(collector).valid(),
        ensures
            final(collector).valid(),
            self.ident() is None ==> *final(collector) == *old(collector),
            self.ident() is Some ==> final(collector).received() == old(collector).received().push(
                Call::FollowsFrom { span: self.ident()->0, follows: *from },
            ),
    {
        match &self.id {
            Some(id) => collector.record_follows_from(id, from),
            None => {},
        }
    }

    /// Another handle to the same span: the collector notes one more.
    pub fn clone_handle<C: Collect>(&self, collector: &mut C) -> (copy: Span)
        requires
            old(collector).valid(),
        ensures
            final(collector).valid(),
            copy.ident() == self.ident(),
            copy.site() == self.site(),
            self.ident() is None ==> *final(collector) == *old(collector),
            self.ident() is Some ==> final(collector).received() == old(collector).received().push(
                Call::CloneSpan { span: self.ident()->0 },
            ),
    {
        match &self.id {
            Some(id) => {
                let same = collector.clone_span(id);
                Span { id: Some(same), meta: self.meta }
            },
            None => Span { id: None, meta: self.meta },
        }
    }

    /// Gives the handle up: the collector notes one less, and says whether
    /// the span has closed with it.
    pub fn close<C: Collect>(self, collector: &mut C) -> (closed: bool)
        requires
            old(collector).valid(),
        ensures
            final(collector).valid(),
            self.ident() is None ==> !closed && *final(collector) == *old(collector),
            self.ident() is Some ==> final(collector).received() == old(collector).received().push(
                Call::TryClose { span: self.ident()->0, closed },
            ),
    {
        match self.id {
            Some(id) => collector.try_close(id),
            None => false,
        }
    }
}

} // verus!
