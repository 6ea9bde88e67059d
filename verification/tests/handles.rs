use span_tracing::callsite::Callsites;
use span_tracing::collect::Collect;
use span_tracing::field::{Field, FieldSet, Value, ValueSet};
use span_tracing::instrument::{self, Span};
use span_tracing::layer::Layered;
use span_tracing::filter::{Filtered, LevelFilter};
use span_tracing::metadata::{Identifier, Kind, Level, Metadata};
use span_tracing::registry::sharded::Registry;
use span_tracing::span::Id;

fn site(name: &'static str, level: Level, id: u64) -> &'static Metadata {
    Box::leak(Box::new(Metadata::new(
        name,
        "handles::test",
        level,
        None,
        None,
        None,
        FieldSet::new(&["n"], Identifier(id)),
        Kind::SPAN,
    )))
}

fn no_values(meta: &Metadata) -> ValueSet<'static> {
    let none: &'static [(Field, Option<Value<'static>>)] = &[];
    ValueSet::new(*meta.fields(), none)
}

#[test]
fn a_span_handle_follows_the_life_of_its_span() {
    let mut sites = Callsites::new();
    let mut collectors = vec![Registry::new()];
    let meta = site("work", Level::INFO, 1);
    let values = no_values(meta);
    let id = instrument::new_span(&mut sites, &mut collectors, 0, meta, &values);
    let span = Span::new(id, meta);
    assert!(!span.is_disabled());
    assert_eq!(span.metadata().name(), "work");
    let id = span.id().unwrap();
    let registry = &mut collectors[0];

    span.enter(registry);
    assert_eq!(registry.current_span().id(), Some(&id));
    span.exit(registry);
    assert!(registry.current_span().id().is_none());

    let copy = span.clone_handle(registry);
    assert_eq!(copy.id(), Some(id));
    assert_eq!(registry.span_data(&id).unwrap().ref_count(), 2);
    assert!(!copy.close(registry));
    assert!(registry.span_data(&id).is_some());
    span.record(registry, &values);
    span.follows_from(registry, &Id::from_u64(77));
    assert!(span.close(registry));
    assert!(registry.span_data(&id).is_none());
}

#[test]
fn code_runs_inside_a_span() {
    let mut registry = Registry::new();
    let meta = site("outer", Level::INFO, 1);
    let values = no_values(meta);
    let id = Collect::new_span(&mut registry, &span_tracing::span::Attributes::new(meta, &values));
    let span = Span::new(Some(id), meta);
    let (registry, seen) = span.in_scope(registry, |r: Registry| {
        let current = r.current_span().id().cloned();
        (r, current)
    });
    assert_eq!(seen, Some(id));
    assert!(registry.current_span().id().is_none());
}

#[test]
fn a_handle_to_nothing_tells_the_collector_nothing() {
    let mut sites = Callsites::new();
    let mut collectors = vec![Layered::new(Filtered::new(LevelFilter::off()), Registry::new())];
    let meta = site("quiet", Level::INFO, 1);
    let values = no_values(meta);
    let id = instrument::new_span(&mut sites, &mut collectors, 0, meta, &values);
    assert!(id.is_none());
    let span = Span::new(id, meta);
    assert!(span.is_disabled());
    assert_eq!(span.id(), None);
    let stack = &mut collectors[0];
    span.enter(stack);
    assert!(stack.current_span().id().is_none());
    span.exit(stack);
    span.record(stack, &values);
    span.follows_from(stack, &Id::from_u64(1));
    let copy = span.clone_handle(stack);
    assert!(copy.is_disabled());
    assert!(!copy.close(stack));
    assert!(!span.close(stack));
    assert!(stack.inner().can_open());
}
