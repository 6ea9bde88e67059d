//! Storage for span data shared by the layers of one collector.
use vstd::prelude::*;
use crate::field::FieldSet;
use crate::metadata::Metadata;
use crate::registry::extensions::{Extensions, SpanExtensions};
use crate::span::Id;

pub mod stack;
pub mod sharded;
pub mod extensions;

verus! {

/// What a store holds of one span.
pub trait SpanData {
    /// The identifier of the span.
    spec fn ident(&self) -> Id;

    /// The metadata of the span.
    spec fn meta(&self) -> Metadata;

    /// The parent of the span, if it has one.
    spec fn parent_link(&self) -> Option<Id>;

    /// The identifier of the span.
    fn id(&self) -> (r: Id)
        ensures
            r == self.ident(),
    ;

    /// The metadata of the span.
    fn metadata(&self) -> (r: &'static Metadata)
        ensures
            *r == self.meta(),
    ;

    /// The parent of the span, if it has one.
    fn parent(&self) -> (r: Option<&Id>)
        ensures
            match r {
                Some(p) => self.parent_link() == Some(*p),
                None => self.parent_link() is None,
            },
    ;
}

/// Access to stored span data by identifier.
///
/// `data_of` names what the store holds of a span. A store that is
/// `consistent` holds the parent of every span it holds, and the parent is
/// lower than the child by `height`: so the way from a span up to its root is
/// finite, and no span is its own ancestor.
pub trait LookupSpan: Sized {
    /// The form in which the store hands out what it holds of a span.
    type Data: SpanData;

    /// The invariant of the store. A store that states none is always in
    /// order.
    open spec fn consistent(&self) -> bool {
        true
    }

    /// What the store holds of the span `id`.
    spec fn data_of(&self, id: Id) -> Option<Self::Data>;

    /// A measure that is lower for a parent than for its child. A store
    /// whose spans have parents has to state one.
    open spec fn height(&self, id: Id) -> nat {
        0
    }

    /// What is stored under an identifier is the span of that identifier;
    /// its parent, if it has one, is stored as well and is lower.
    proof fn lemma_parent_lower(&self, id: Id)
        requires
            self.consistent(),
            self.data_of(id) is Some,
        ensures
            self.data_of(id)->0.ident() == id,
            self.data_of(id)->0.parent_link() is Some ==> {
                let p = self.data_of(id)->0.parent_link()->0;
                self.data_of(p) is Some && self.height(p) < self.height(id)
            },
    ;

    /// What the store holds of the span `id`, if it holds the span.
    fn span_data(&self, id: &Id) -> (r: Option<Self::Data>)
        requires
            self.consistent(),
        ensures
            r == self.data_of(*id),
    ;
}

/// The ancestors of the span `id` in `store`, nearest first.
pub open spec fn ancestors<R: LookupSpan>(store: R, id: Id) -> Seq<Id>
    decreases store.height(id),
{
    match store.data_of(id) {
        Some(d) => match d.parent_link() {
            Some(p) => if store.height(p) < store.height(id) {
                seq![p] + ancestors(store, p)
            } else {
                Seq::empty()
            },
            None => Seq::empty(),
        },
        None => Seq::empty(),
    }
}

/// A span together with the store that holds it, for questions that need
/// both.
pub struct SpanRef<'a, R: LookupSpan> {
    registry: &'a R,
    data: R::Data,
}

/// The parents of a span, nearest first, handed out one by one.
pub struct Parents<'a, R: LookupSpan> {
    registry: &'a R,
    next: Option<Id>,
}

/// The parents of a span, root first, handed out one by one.
pub struct FromRoot<'a, R: LookupSpan> {
    registry: &'a R,
    inner: Vec<SpanRef<'a, R>>,
}

impl<'a, R: LookupSpan> SpanRef<'a, R> {
    /// The store that holds the span.
    pub closed spec fn store(self) -> R {
        *self.registry
    }

    /// What the store holds of the span.
    pub closed spec fn content(self) -> R::Data {
        self.data
    }

    /// The store is consistent and holds the span as the reference shows it.
    pub open spec fn wf(self) -> bool {
        &&& self.store().consistent()
        &&& self.store().data_of(self.content().ident()) == Some(self.content())
    }

    /// The store that holds the span.
    pub fn registry(&self) -> (r: &'a R)
        ensures
            *r == self.store(),
    {
        self.registry
    }

    /// The identifier of the span.
    pub fn id(&self) -> (r: Id)
        ensures
            r == self.content().ident(),
    {
        self.data.id()
    }

    /// The metadata of the span.
    pub fn metadata(&self) -> (r: &'static Metadata)
        ensures
            *r == self.content().meta(),
    {
        self.data.metadata()
    }

    /// The name of the span.
    pub fn name(&self) -> (r: &'static str)
        ensures
            r@ == self.content().meta()@.name,
    {
        self.data.metadata().name()
    }

    /// The fields that the span declares.
    pub fn fields(&self) -> (r: FieldSet)
        ensures
            r == self.content().meta()@.fields,
    {
        *self.data.metadata().fields()
    }

    /// The identifier of the parent of the span, or `None` for a root.
    pub fn parent_id(&self) -> (r: Option<&Id>)
        ensures
            match r {
                Some(p) => self.content().parent_link() == Some(*p),
                None => self.content().parent_link() is None,
            },
    {
        self.data.parent()
    }

    /// A reference to the parent of the span, or `None` for a root.
    pub fn parent(&self) -> (r: Option<SpanRef<'a, R>>)
        requires
            self.wf(),
        ensures
            match r {
                Some(p) => {
                    &&& p.wf()
                    &&& p.store() == self.store()
                    &&& self.content().parent_link() == Some(p.content().ident())
                    &&& self.store().height(p.content().ident()) < self.store().height(
                        self.content().ident(),
                    )
                },
                None => self.content().parent_link() is None,
            },
    {
        proof {
            self.registry.lemma_parent_lower(self.data.ident());
        }
        match self.data.parent() {
            Some(id) => {
                proof {
                    self.registry.lemma_parent_lower(*id);
                }
                match self.registry.span_data(id) {
                    Some(data) => Some(SpanRef { registry: self.registry, data }),
                    None => None,
                }
            },
            None => None,
        }
    }

    /// What a layer has noted of this span in its store of annotations, if
    /// it has noted anything.
    pub fn extensions<'b, T>(&self, store: &'b SpanExtensions<T>) -> (r: Option<&'b Extensions<T>>)
        requires
            store.wf(),
        ensures
            match r {
                Some(map) => store.view().contains_key(self.content().ident().value()) && *map
                    == store.view()[self.content().ident().value()] && map.wf(),
                None => !store.view().contains_key(self.content().ident().value()),
            },
    {
        let id = self.data.id();
        store.of(&id)
    }

    /// What a layer has noted of this span in its store of annotations, to
    /// be changed in place. A span of which nothing is noted yet gets an
    /// empty map first.
    pub fn extensions_mut<'b, T>(&self, store: &'b mut SpanExtensions<T>) -> (r: &'b mut Extensions<
        T,
    >)
        requires
            old(store).wf(),
        ensures
            r.wf(),
            old(store).view().contains_key(self.content().ident().value()) ==> *r == old(store).view()[self.content().ident().value()],
            !old(store).view().contains_key(self.content().ident().value()) ==> r.view()
                == Map::<u64, T>::empty(),
            final(store).is_update_of(*old(store), self.content().ident().value(), *final(r)),
    {
        let id = self.data.id();
        store.of_mut(&id)
    }

    /// The parents of the span, nearest first.
    pub fn parents(&self) -> (r: Parents<'a, R>)
        requires
            self.wf(),
        ensures
            r.wf(),
            r.store() == self.store(),
            r.pending() == ancestors(self.store(), self.content().ident()),
    {
        proof {
            self.registry.lemma_parent_lower(self.data.ident());
        }
        let next = match self.parent() {
            Some(parent) => Some(parent.id()),
            None => None,
        };
        Parents { registry: self.registry, next }
    }

    /// The parents of the span, root first.
    pub fn from_root(&self) -> (r: FromRoot<'a, R>)
        requires
            self.wf(),
        ensures
            r.wf(),
            r.store() == self.store(),
            r.pending() == ancestors(self.store(), self.content().ident()).reverse(),
    {
        let mut found: Vec<SpanRef<'a, R>> = Vec::new();
        let mut parents = self.parents();
        let ghost all = parents.pending();
        loop
            invariant
                parents.wf(),
                parents.store() == self.store(),
                forall|k: int| 0 <= k < found@.len() ==> (#[trigger] found@[k]).wf() && found@[k].store() == self.store(),
                refs_ids(found@) + parents.pending() == all,
            ensures
                parents.pending().len() == 0,
            decreases parents.pending().len(),
        {
            let ghost before = parents.pending();
            let ghost had = refs_ids(found@);
            match parents.next() {
                Some(span) => {
                    found.push(span);
                    proof {
                        assert(refs_ids(found@) =~= had.push(before[0]));
                        assert(had.push(before[0]) + parents.pending() =~= had + before);
                    }
                },
                None => {
                    break ;
                },
            }
        }
        proof {
            assert(refs_ids(found@) + parents.pending() =~= refs_ids(found@));
        }
        FromRoot { registry: self.registry, inner: found }
    }
}

/// A reference to the span `id`, if `store` holds the span.
pub fn span<'a, R: LookupSpan>(store: &'a R, id: &Id) -> (r: Option<SpanRef<'a, R>>)
    requires
        store.consistent(),
    ensures
        match r {
            Some(s) => s.wf() && s.store() == *store && Some(s.content()) == store.data_of(*id),
            None => store.data_of(*id) is None,
        },
{
    proof {
        if store.data_of(*id) is Some {
            store.lemma_parent_lower(*id);
        }
    }
    match store.span_data(id) {
        Some(data) => Some(SpanRef { registry: store, data }),
        None => None,
    }
}

/// The identifiers of the spans that `refs` refer to.
pub open spec fn refs_ids<'a, R: LookupSpan>(refs: Seq<SpanRef<'a, R>>) -> Seq<Id> {
    Seq::new(refs.len(), |k: int| refs[k].content().ident())
}

impl<'a, R: LookupSpan> Parents<'a, R> {
    /// The store that holds the spans.
    pub closed spec fn store(self) -> R {
        *self.registry
    }

    /// The store is consistent and holds the span that comes next.
    pub closed spec fn wf(self) -> bool {
        &&& self.registry.consistent()
        &&& self.next is Some ==> self.registry.data_of(self.next->0) is Some
    }

    /// The identifiers of the spans still to come, in the order in which
    /// they come.
    pub closed spec fn pending(self) -> Seq<Id> {
        match self.next {
            Some(id) => seq![id] + ancestors(*self.registry, id),
            None => Seq::empty(),
        }
    }

    /// The next parent, or `None` after the root.
    pub fn next(&mut self) -> (r: Option<SpanRef<'a, R>>)
        requires
            old(self).wf(),
        ensures
            final(self).wf(),
            final(self).store() == old(self).store(),
            match r {
                Some(s) => {
                    &&& old(self).pending().len() > 0
                    &&& s.wf()
                    &&& s.store() == old(self).store()
                    &&& s.content().ident() == old(self).pending()[0]
                    &&& final(self).pending() == old(self).pending().subrange(
                        1,
                        old(self).pending().len() as int,
                    )
                },
                None => old(self).pending().len() == 0 && final(self).pending().len() == 0,
            },
    {
        let id = match self.next {
            Some(id) => id,
            None => {
                return None;
            },
        };
        proof {
            self.registry.lemma_parent_lower(id);
        }
        let span = match span(self.registry, &id) {
            Some(span) => span,
            None => {
                return None;
            },
        };
        self.next = match span.parent() {
            Some(parent) => Some(parent.id()),
            None => None,
        };
        proof {
            assert(self.pending() =~= old(self).pending().subrange(
                1,
                old(self).pending().len() as int,
            ));
        }
        Some(span)
    }
}

impl<'a, R: LookupSpan> FromRoot<'a, R> {
    /// The store that holds the spans.
    pub closed spec fn store(self) -> R {
        *self.registry
    }

    /// Every span still to come is held by the store, which is consistent.
    pub closed spec fn wf(self) -> bool {
        forall|k: int|
            0 <= k < self.inner@.len() ==> (#[trigger] self.inner@[k]).wf() && self.inner@[k].store()
                == *self.registry
    }

    /// The identifiers of the spans still to come, in the order in which
    /// they come.
    pub closed spec fn pending(self) -> Seq<Id> {
        refs_ids(self.inner@).reverse()
    }

    /// The next span on the way from the root down, or `None` after the
    /// immediate parent.
    pub fn next(&mut self) -> (r: Option<SpanRef<'a, R>>)
        requires
            old(self).wf(),
        ensures
            final(self).wf(),
            final(self).store() == old(self).store(),
            match r {
                Some(s) => {
                    &&& old(self).pending().len() > 0
                    &&& s.wf()
                    &&& s.store() == old(self).store()
                    &&& s.content().ident() == old(self).pending()[0]
                    &&& final(self).pending() == old(self).pending().subrange(
                        1,
                        old(self).pending().len() as int,
                    )
                },
                None => old(self).pending().len() == 0 && final(self).pending().len() == 0,
            },
    {
        let r = self.inner.pop();
        proof {
            if r is Some {
                assert(self.pending() =~= old(self).pending().subrange(
                    1,
                    old(self).pending().len() as int,
                ));
            }
        }
        r
    }

    /// How many spans are still to come.
    pub fn len(&self) -> (n: usize)
        ensures
            n == self.pending().len(),
    {
        self.inner.len()
    }
}

} // verus!
