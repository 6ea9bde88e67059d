//! Point events.
use vstd::prelude::*;
use crate::field::{ValueSet, Visit};
use crate::metadata::Metadata;
use crate::span::{Id, Parent};

verus! {

/// An instantaneous record: metadata, field values and, optionally, the span
/// it happened in.
#[derive(Clone, Copy, Debug)]
pub struct Event<'a> {
    fields: &'a ValueSet<'a>,
    metadata: &'static Metadata,
    parent: Parent,
}

impl<'a> Event<'a> {
    /// The metadata of the event.
    pub closed spec fn spec_metadata(self) -> Metadata {
        *self.metadata
    }

    /// The values of the event.
    pub closed spec fn spec_fields(self) -> ValueSet<'a> {
        *self.fields
    }

    /// How the span that the event belongs to is chosen.
    pub closed spec fn parent_kind(self) -> Parent {
        self.parent
    }

    /// An event that belongs to the current span.
    pub fn new(metadata: &'static Metadata, fields: &'a ValueSet<'a>) -> (ev: Self)
        ensures
            ev.spec_metadata() == *metadata,
            ev.spec_fields() == *fields,
            ev.parent_kind() == Parent::Current,
    {
        Event { fields, metadata, parent: Parent::Current }
    }

    /// An event that belongs to the span `parent`, or to no span where
    /// `parent` is `None`.
    pub fn new_child_of(
        parent: Option<Id>,
        metadata: &'static Metadata,
        fields: &'a ValueSet<'a>,
    ) -> (ev: Self)
        ensures
            ev.spec_metadata() == *metadata,
            ev.spec_fields() == *fields,
            ev.parent_kind() == match parent {
                Some(p) => Parent::Explicit(p),
                None => Parent::Root,
            },
    {
        let parent = match parent {
            Some(p) => Parent::Explicit(p),
            None => Parent::Root,
        };
        Event { fields, metadata, parent }
    }

    /// The metadata of the event.
    pub fn metadata(&self) -> (meta: &'static Metadata)
        ensures
            *meta == self.spec_metadata(),
    {
        self.metadata
    }

    /// The values of the event.
    pub fn fields(&self) -> (values: &ValueSet<'a>)
        ensures
            *values == self.spec_fields(),
    {
        self.fields
    }

    /// Whether the event belongs to no span.
    pub fn is_root(&self) -> (r: bool)
        ensures
            r == (self.parent_kind() == Parent::Root),
    {
        matches!(self.parent, Parent::Root)
    }

    /// Whether the event belongs to whatever span is current.
    pub fn is_contextual(&self) -> (r: bool)
        ensures
            r == (self.parent_kind() == Parent::Current),
    {
        matches!(self.parent, Parent::Current)
    }

    /// The explicitly given span of the event, if there is one.
    pub fn parent(&self) -> (p: Option<&Id>)
        ensures
            match p {
                Some(id) => self.parent_kind() == Parent::Explicit(*id),
                None => !(self.parent_kind() is Explicit),
            },
    {
        match &self.parent {
            Parent::Explicit(p) => Some(p),
            _ => None,
        }
    }

    /// Hands every value of the event to `visitor`, in the declaration order
    /// of the fields.
    pub fn record<V: Visit>(&self, visitor: &mut V)
        requires
            old(visitor).valid(),
        ensures
            final(visitor).valid(),
            final(visitor).seen() == old(visitor).seen() + self.spec_fields().recorded(),
    {
        self.fields.record(visitor)
    }
}

} // verus!
