//! Span identifiers and the payloads that describe spans to a collector.
use vstd::prelude::*;
use crate::field::{Field, ValueSet, Visit};
use crate::metadata::Metadata;

verus! {

/// Identifies a span within the context of one collector. Never zero.
#[derive(Clone, Copy, Debug, PartialEq, Eq, Structural, Hash)]
pub struct Id(u64);

/// How the parent of a new span is chosen.
#[derive(Clone, Copy, Debug, PartialEq, Eq, Structural)]
pub enum Parent {
    /// The span is the root of a new trace tree.
    Root,
    /// The span is a child of whatever span is current where it is created.
    Current,
    /// The span is a child of the given span.
    Explicit(Id),
}

/// What a collector is told about a span when the span is created.
#[derive(Clone, Copy, Debug)]
pub struct Attributes<'a> {
    metadata: &'static Metadata,
    values: &'a ValueSet<'a>,
    parent: Parent,
}

/// Field values added to a span that is already open.
#[derive(Clone, Copy, Debug)]
pub struct Record<'a> {
    values: &'a ValueSet<'a>,
}

/// What a collector considers the current span: a span with its metadata,
/// known to be none, or unknown because the collector does not track it.
#[derive(Clone, Copy, Debug)]
pub struct Current {
    inner: CurrentInner,
}

#[derive(Clone, Copy, Debug)]
enum CurrentInner {
    Current { id: Id, metadata: &'static Metadata },
    NoSpan,
    Untracked,
}

impl Id {
    #[verifier::type_invariant]
    closed spec fn non_zero(self) -> bool {
        self.0 != 0
    }

    /// The number behind the identifier.
    pub closed spec fn value(self) -> u64 {
        self.0
    }

    /// The identifier whose number is `v`.
    pub closed spec fn of(v: u64) -> Id {
        Id(v)
    }

    /// An identifier is known by its number.
    pub proof fn lemma_of_value(self)
        ensures
            Id::of(self.value()) == self,
    {
    }

    /// The number of the identifier made of `v` is `v`.
    pub proof fn lemma_value_of(v: u64)
        ensures
            Id::of(v).value() == v,
    {
    }

    /// The identifier with the number `u`, which must not be zero.
    pub fn from_u64(u: u64) -> (id: Id)
        requires
            u != 0,
        ensures
            id.value() == u,
    {
        Id(u)
    }

    /// The identifier with the number `id`, or `None` where `id` is zero.
    pub fn from_non_zero_u64(id: u64) -> (made: Option<Id>)
        ensures
            id == 0 ==> made is None,
            id != 0 ==> made is Some && made->0.value() == id,
    {
        if id == 0 {
            None
        } else {
            Some(Id(id))
        }
    }

    /// The number behind the identifier.
    pub fn into_u64(&self) -> (u: u64)
        ensures
            u == self.value(),
            u != 0,
    {
        proof {
            use_type_invariant(self);
        }
        self.0
    }

    /// The number behind the identifier, which is never zero.
    pub fn into_non_zero_u64(&self) -> (u: u64)
        ensures
            u == self.value(),
            u != 0,
    {
        self.into_u64()
    }
}

impl<'a> Attributes<'a> {
    /// The metadata of the new span.
    pub closed spec fn spec_metadata(self) -> Metadata {
        *self.metadata
    }

    /// The values that the new span is created with.
    pub closed spec fn spec_values(self) -> ValueSet<'a> {
        *self.values
    }

    /// How the parent of the new span is chosen.
    pub closed spec fn parent_kind(self) -> Parent {
        self.parent
    }

    /// Describes a new child of the current span.
    pub fn new(metadata: &'static Metadata, values: &'a ValueSet<'a>) -> (attrs: Self)
        ensures
            attrs.spec_metadata() == *metadata,
            attrs.spec_values() == *values,
            attrs.parent_kind() == Parent::Current,
    {
        Attributes { metadata, values, parent: Parent::Current }
    }

    /// Describes a new span at the root of its own trace tree.
    pub fn new_root(metadata: &'static Metadata, values: &'a ValueSet<'a>) -> (attrs: Self)
        ensures
            attrs.spec_metadata() == *metadata,
            attrs.spec_values() == *values,
            attrs.parent_kind() == Parent::Root,
    {
        Attributes { metadata, values, parent: Parent::Root }
    }

    /// Describes a new child of the span `parent`.
    pub fn child_of(parent: Id, metadata: &'static Metadata, values: &'a ValueSet<'a>) -> (attrs:
        Self)
        ensures
            attrs.spec_metadata() == *metadata,
            attrs.spec_values() == *values,
            attrs.parent_kind() == Parent::Explicit(parent),
    {
        Attributes { metadata, values, parent: Parent::Explicit(parent) }
    }

    /// The metadata of the new span.
    pub fn metadata(&self) -> (meta: &'static Metadata)
        ensures
            *meta == self.spec_metadata(),
    {
        self.metadata
    }

    /// The values that the new span is created with.
    pub fn values(&self) -> (values: &ValueSet<'a>)
        ensures
            *values == self.spec_values(),
    {
        self.values
    }

    /// Whether the new span is to be a root.
    pub fn is_root(&self) -> (r: bool)
        ensures
            r == (self.parent_kind() == Parent::Root),
    {
        matches!(self.parent, Parent::Root)
    }

    /// Whether the parent of the new span is decided by the context in which
    /// it is created: the current span where there is one, else none.
    pub fn is_contextual(&self) -> (r: bool)
        ensures
            r == (self.parent_kind() == Parent::Current),
    {
        matches!(self.parent, Parent::Current)
    }

    /// The explicitly given parent of the new span, if there is one.
    pub fn parent(&self) -> (p: Option<&Id>)
        ensures
            match p {
                Some(id) => self.parent_kind() == Parent::Explicit(*id),
                None => !(self.parent_kind() is Explicit),
            },
    {
        match &self.parent {
            Parent::Explicit(p) => Some(p),
            _ => None,
        }
    }

    /// Hands every value of these attributes to `visitor`, in the declaration
    /// order of the fields.
    pub fn record<V: Visit>(&self, visitor: &mut V)
        requires
            old(visitor).valid(),
        ensures
            final(visitor).valid(),
            final(visitor).seen() == old(visitor).seen() + self.spec_values().recorded(),
    {
        self.values.record(visitor)
    }

    /// Whether these attributes hold a value for `field`.
    pub fn contains(&self, field: &Field) -> (r: bool)
        ensures
            r == self.spec_values().holds(*field),
    {
        self.values.contains(field)
    }

    /// Whether these attributes hold no value at all.
    pub fn is_empty(&self) -> (r: bool)
        ensures
            r == self.spec_values().holds_nothing(),
    {
        self.values.is_empty()
    }
}

impl<'a> Record<'a> {
    /// The values of the record.
    pub closed spec fn spec_values(self) -> ValueSet<'a> {
        *self.values
    }

    /// A record of `values`.
    pub fn new(values: &'a ValueSet<'a>) -> (rec: Self)
        ensures
            rec.spec_values() == *values,
    {
        Record { values }
    }

    /// Hands every value of the record to `visitor`, in the declaration order
    /// of the fields.
    pub fn record<V: Visit>(&self, visitor: &mut V)
        requires
            old(visitor).valid(),
        ensures
            final(visitor).valid(),
            final(visitor).seen() == old(visitor).seen() + self.spec_values().recorded(),
    {
        self.values.record(visitor)
    }

    /// Whether the record holds a value for `field`.
    pub fn contains(&self, field: &Field) -> (r: bool)
        ensures
            r == self.spec_values().holds(*field),
    {
        self.values.contains(field)
    }

    /// Whether the record holds no value at all.
    pub fn is_empty(&self) -> (r: bool)
        ensures
            r == self.spec_values().holds_nothing(),
    {
        self.values.is_empty()
    }
}

impl Current {
    /// The current span and its metadata, where there is one and it is known.
    pub closed spec fn spec_inner(self) -> Option<(Id, Metadata)> {
        match self.inner {
            CurrentInner::Current { id, metadata } => Some((id, *metadata)),
            _ => None,
        }
    }

    /// Whether the collector tracks a current span at all.
    pub closed spec fn spec_is_known(self) -> bool {
        !(self.inner is Untracked)
    }

    /// The current context is inside the span `id`.
    pub fn new(id: Id, metadata: &'static Metadata) -> (cur: Current)
        ensures
            cur.spec_is_known(),
            cur.spec_inner() == Some((id, *metadata)),
    {
        Current { inner: CurrentInner::Current { id, metadata } }
    }

    /// The current context is known not to be inside a span.
    pub fn none() -> (cur: Current)
        ensures
            cur.spec_is_known(),
            cur.spec_inner() is None,
    {
        Current { inner: CurrentInner::NoSpan }
    }

    /// The collector does not track a current span.
    pub fn unknown() -> (cur: Current)
        ensures
            !cur.spec_is_known(),
            cur.spec_inner() is None,
    {
        Current { inner: CurrentInner::Untracked }
    }

    /// Whether the collector that made this value tracks a current span.
    pub fn is_known(&self) -> (r: bool)
        ensures
            r == self.spec_is_known(),
    {
        !matches!(self.inner, CurrentInner::Untracked)
    }

    /// The current span and its metadata, where there is one and it is known.
    pub fn into_inner(self) -> (r: Option<(Id, &'static Metadata)>)
        ensures
            match r {
                Some((id, meta)) => self.spec_inner() == Some((id, *meta)),
                None => self.spec_inner() is None,
            },
    {
        match self.inner {
            CurrentInner::Current { id, metadata } => Some((id, metadata)),
            _ => None,
        }
    }

    /// The current span, where there is one and it is known.
    pub fn id(&self) -> (r: Option<&Id>)
        ensures
            match r {
                Some(id) => self.spec_inner() matches Some((i, _)) && i == *id,
                None => self.spec_inner() is None,
            },
    {
        match &self.inner {
            CurrentInner::Current { id, .. } => Some(id),
            _ => None,
        }
    }

    /// The metadata of the current span, where there is one and it is known.
    pub fn metadata(&self) -> (r: Option<&'static Metadata>)
        ensures
            match r {
                Some(meta) => self.spec_inner() matches Some((_, m)) && m == *meta,
                None => self.spec_inner() is None,
            },
    {
        match self.inner {
            CurrentInner::Current { metadata, .. } => Some(metadata),
            _ => None,
        }
    }
}

} // verus!
