use span_tracing::collect::Collect;
use span_tracing::field::{Field, FieldSet, Value, ValueSet};
use span_tracing::metadata::{Identifier, Kind, Level, Metadata};
use span_tracing::registry::sharded::Registry;
use span_tracing::registry::stack::{SpanStack, INLINE};
use span_tracing::registry::{span, SpanData};
use span_tracing::span::{Attributes, Id};
use std::collections::HashSet;

fn meta(name: &'static str) -> &'static Metadata {
    Box::leak(Box::new(Metadata::new(
        name,
        "registry::test",
        Level::INFO,
        None,
        None,
        None,
        FieldSet::new(&[], Identifier(1)),
        Kind::SPAN,
    )))
}

fn no_values() -> ValueSet<'static> {
    let none: &'static [(Field, Option<Value<'static>>)] = &[];
    ValueSet::new(FieldSet::new(&[], Identifier(1)), none)
}

fn open(registry: &mut Registry, name: &'static str) -> Id {
    let values = no_values();
    registry.new_span(&Attributes::new(meta(name), &values))
}

fn open_root(registry: &mut Registry, name: &'static str) -> Id {
    let values = no_values();
    registry.new_span(&Attributes::new_root(meta(name), &values))
}

fn open_child(registry: &mut Registry, parent: Id, name: &'static str) -> Id {
    let values = no_values();
    registry.new_span(&Attributes::child_of(parent, meta(name), &values))
}

fn parent_of(registry: &Registry, id: &Id) -> Option<Id> {
    registry.span_data(id).unwrap().parent().cloned()
}

#[test]
fn contextual_parent_is_the_current_span() {
    let mut registry = Registry::new();
    let a = open(&mut registry, "a");
    assert_eq!(a.into_u64(), 1);
    assert!(registry.enter(&a));
    let b = open(&mut registry, "b");
    assert_eq!(parent_of(&registry, &b), Some(Id::from_u64(1)));
    assert!(registry.exit(&a));
    let c = open(&mut registry, "c");
    assert_eq!(parent_of(&registry, &c), None);
}

#[test]
fn explicit_parent_needs_no_entering() {
    let mut registry = Registry::new();
    let a = open(&mut registry, "a");
    assert_eq!(a.into_u64(), 1);
    let b = open_child(&mut registry, a, "b");
    assert_eq!(parent_of(&registry, &b), Some(Id::from_u64(1)));

    // whatever the current span is
    let other = open(&mut registry, "other");
    assert!(registry.enter(&other));
    let c = open_child(&mut registry, a, "c");
    assert_eq!(parent_of(&registry, &c), Some(Id::from_u64(1)));
}

#[test]
fn root_spans_ignore_the_current_span() {
    let mut registry = Registry::new();
    let a = open(&mut registry, "a");
    registry.enter(&a);
    let r = open_root(&mut registry, "r");
    assert_eq!(parent_of(&registry, &r), None);
}

#[test]
fn a_parent_that_is_gone_is_no_parent() {
    let mut registry = Registry::new();
    let a = open(&mut registry, "a");
    assert!(registry.try_close(a));
    let b = open_child(&mut registry, a, "b");
    assert_eq!(parent_of(&registry, &b), None);
}

#[test]
fn span_data_shows_what_was_stored() {
    let mut registry = Registry::new();
    let a = open(&mut registry, "alpha");
    let data = registry.span_data(&a).unwrap();
    assert_eq!(data.id(), a);
    assert_eq!(data.metadata().name(), "alpha");
    assert!(data.parent().is_none());
    assert_eq!(data.ref_count(), 1);
    assert!(registry.span_data(&Id::from_u64(999)).is_none());
}

#[test]
fn clone_then_close_keeps_the_reference_count() {
    let mut registry = Registry::new();
    let a = open(&mut registry, "a");
    assert_eq!(registry.span_data(&a).unwrap().ref_count(), 1);
    assert_eq!(registry.clone_span(&a), a);
    assert_eq!(registry.span_data(&a).unwrap().ref_count(), 2);
    assert!(!registry.try_close(a));
    assert_eq!(registry.span_data(&a).unwrap().ref_count(), 1);
    assert_eq!(registry.span_data(&a).unwrap().metadata().name(), "a");
}

#[test]
fn closed_spans_cannot_be_looked_up() {
    let mut registry = Registry::new();
    let a = open(&mut registry, "a");
    assert!(registry.try_close(a));
    assert!(registry.span_data(&a).is_none());
    // closing again is a miss, not a failure
    assert!(!registry.try_close(a));
    assert_eq!(registry.clone_span(&a), a);
    assert!(registry.span_data(&a).is_none());
    // the slot is used again under a new identifier
    let b = open(&mut registry, "b");
    assert_ne!(a, b);
    assert!(registry.span_data(&a).is_none());
    assert_eq!(registry.span_data(&b).unwrap().metadata().name(), "b");
}

#[test]
fn a_parent_outlives_its_children() {
    let mut registry = Registry::new();
    let parent = open(&mut registry, "parent");
    let child = open_child(&mut registry, parent, "child");
    assert_eq!(registry.span_data(&parent).unwrap().ref_count(), 2);

    // the last handle to the parent goes, the child keeps it in the store
    assert!(!registry.try_close(parent));
    assert!(registry.span_data(&parent).is_some());
    assert_eq!(registry.span_data(&parent).unwrap().ref_count(), 1);
    // further attempts cannot take the parent from under the child
    assert!(!registry.try_close(parent));
    assert!(registry.span_data(&parent).is_some());

    // with the child the parent goes as well
    assert!(registry.try_close(child));
    assert!(registry.span_data(&child).is_none());
    assert!(registry.span_data(&parent).is_none());
}

#[test]
fn closing_walks_up_only_as_far_as_nothing_else_refers() {
    let mut registry = Registry::new();
    let root = open(&mut registry, "root");
    let mid = open_child(&mut registry, root, "mid");
    let leaf = open_child(&mut registry, mid, "leaf");
    let other = open_child(&mut registry, root, "other");
    assert!(!registry.try_close(mid));
    assert!(!registry.try_close(root));
    assert!(registry.try_close(leaf));
    assert!(registry.span_data(&leaf).is_none());
    assert!(registry.span_data(&mid).is_none());
    // `other` still refers to the root
    assert_eq!(registry.span_data(&root).unwrap().ref_count(), 1);
    assert!(registry.try_close(other));
    assert!(registry.span_data(&root).is_none());
}

#[test]
fn ten_thousand_spans_never_share_an_identifier() {
    let mut registry = Registry::new();
    let mut ever: HashSet<u64> = HashSet::new();
    let mut live: Vec<Id> = Vec::new();
    for round in 0..10_000u32 {
        let id = open_root(&mut registry, "s");
        assert!(ever.insert(id.into_u64()), "identifier issued twice");
        assert!(registry.span_data(&id).is_some());
        live.push(id);
        // keep a few spans open, close the others at once
        if round % 7 != 0 {
            let gone = live.pop().unwrap();
            assert!(registry.try_close(gone));
            assert!(registry.span_data(&gone).is_none());
        }
    }
    for id in &live {
        assert!(registry.span_data(id).is_some());
    }
    for id in live {
        assert!(registry.try_close(id));
    }
    for number in ever {
        assert!(registry.span_data(&Id::from_u64(number)).is_none());
    }
    assert!(registry.can_open());
}

#[test]
fn identifiers_name_shard_slot_and_generation() {
    let mut registry = Registry::new();
    // four shards are filled in turn, then the second slot of the first
    let ids: Vec<u64> = (0..5).map(|_| open_root(&mut registry, "s").into_u64()).collect();
    assert_eq!(ids, vec![1, 2, 3, 4, 5]);
    // the slot of the first span comes back one generation later
    assert!(registry.try_close(Id::from_u64(1)));
    let later: Vec<u64> = (0..4).map(|_| open_root(&mut registry, "s").into_u64()).collect();
    assert!(later.contains(&(1 + (1u64 << 32))));
}

#[test]
fn the_current_span_is_the_innermost_entered() {
    let mut registry = Registry::new();
    let a = open(&mut registry, "a");
    let b = open(&mut registry, "b");
    assert!(registry.current_span().is_known());
    assert!(registry.current_span().id().is_none());
    registry.enter(&a);
    assert_eq!(registry.current_span().id(), Some(&a));
    registry.enter(&b);
    assert_eq!(registry.current_span().id(), Some(&b));
    assert_eq!(registry.current_span().metadata().unwrap().name(), "b");
    assert!(registry.exit(&b));
    assert_eq!(registry.current_span().id(), Some(&a));
    assert!(registry.exit(&a));
    assert!(registry.current_span().id().is_none());
}

#[test]
fn leaving_an_outer_span_leaves_the_inner_ones_too() {
    let mut registry = Registry::new();
    let a = open(&mut registry, "a");
    let b = open(&mut registry, "b");
    let c = open(&mut registry, "c");
    registry.enter(&a);
    registry.enter(&b);
    registry.enter(&c);
    assert!(registry.exit(&b));
    assert_eq!(registry.current_span().id(), Some(&a));
    // a span that was not entered changes nothing
    assert!(!registry.exit(&c));
    assert_eq!(registry.current_span().id(), Some(&a));
}

#[test]
fn a_closed_span_on_the_stack_is_not_current() {
    let mut registry = Registry::new();
    let a = open(&mut registry, "a");
    registry.enter(&a);
    assert!(registry.try_close(a));
    assert!(registry.current_span().is_known());
    assert!(registry.current_span().id().is_none());
}

#[test]
fn the_stack_outgrows_its_inline_room() {
    let mut stack = SpanStack::new();
    for n in 1..=40u64 {
        assert!(stack.push(&Id::from_u64(n)));
        assert_eq!(stack.depth(), n as usize);
        assert_eq!(stack.current(), Some(Id::from_u64(n)));
    }
    assert!(stack.pop(&Id::from_u64(40)));
    assert_eq!(stack.current(), Some(Id::from_u64(39)));
    // the last entry of a span that was entered twice is the one that goes
    assert!(stack.push(&Id::from_u64(5)));
    assert!(stack.pop(&Id::from_u64(5)));
    assert_eq!(stack.depth(), 39);
    assert!(stack.pop(&Id::from_u64(5)));
    assert_eq!(stack.depth(), 4);
    assert_eq!(stack.current(), Some(Id::from_u64(4)));
    assert!(!stack.pop(&Id::from_u64(5)));
    assert_eq!(stack.depth(), 4);
    assert!(SpanStack::new().current().is_none());
}

#[test]
fn parents_come_nearest_first_and_from_root_reversed() {
    let mut registry = Registry::new();
    let root = open(&mut registry, "root");
    let mid = open_child(&mut registry, root, "mid");
    let leaf = open_child(&mut registry, mid, "leaf");

    let leaf_ref = span(&registry, &leaf).unwrap();
    assert_eq!(leaf_ref.id(), leaf);
    assert_eq!(leaf_ref.name(), "leaf");
    assert_eq!(leaf_ref.metadata().target(), "registry::test");
    assert!(leaf_ref.fields().is_empty());
    assert_eq!(leaf_ref.parent_id(), Some(&mid));
    assert_eq!(leaf_ref.parent().unwrap().name(), "mid");

    let mut parents = leaf_ref.parents();
    assert_eq!(parents.next().unwrap().name(), "mid");
    assert_eq!(parents.next().unwrap().name(), "root");
    assert!(parents.next().is_none());
    assert!(parents.next().is_none());

    let mut from_root = leaf_ref.from_root();
    assert_eq!(from_root.len(), 2);
    assert_eq!(from_root.next().unwrap().name(), "root");
    assert_eq!(from_root.next().unwrap().name(), "mid");
    assert!(from_root.next().is_none());

    let root_ref = span(&registry, &root).unwrap();
    assert!(root_ref.parent().is_none());
    assert!(root_ref.parent_id().is_none());
    assert!(root_ref.parents().next().is_none());
    assert_eq!(root_ref.from_root().len(), 0);
    assert!(span(&registry, &Id::from_u64(77)).is_none());
}

#[test]
fn the_registry_is_a_collector_that_wants_everything() {
    let mut registry = Registry::new();
    let m = meta("m");
    assert!(registry.register_callsite(m).is_always());
    assert!(registry.enabled(m));
    let values = no_values();
    let id = Collect::new_span(&mut registry, &Attributes::new(m, &values));
    Collect::enter(&mut registry, &id);
    assert_eq!(Collect::current_span(&registry).id(), Some(&id));
    Collect::exit(&mut registry, &id);
    assert_eq!(Collect::clone_span(&mut registry, &id), id);
    assert!(!Collect::try_close(&mut registry, id));
    assert!(Collect::try_close(&mut registry, id));
}

#[test]
fn entering_always_succeeds_up_to_the_inline_depth() {
    assert_eq!(INLINE, 16);
    let mut registry = Registry::new();
    let mut stack = SpanStack::new();
    for n in 1..=INLINE as u64 {
        assert!(stack.push(&Id::from_u64(n)));
        assert!(registry.enter(&Id::from_u64(n)));
        assert_eq!(registry.current_span().id(), None);
    }
    assert_eq!(stack.depth(), INLINE);
    // leaving makes room again
    assert!(stack.pop(&Id::from_u64(1)));
    assert_eq!(stack.depth(), 0);
    assert!(stack.push(&Id::from_u64(5)));
    assert_eq!(stack.current(), Some(Id::from_u64(5)));
}
