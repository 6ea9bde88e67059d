use span_tracing::error::{SpanTrace, TracedError};
use span_tracing::field::{Field, FieldSet, Value, ValueSet};
use span_tracing::metadata::{Identifier, Kind, Level, Metadata};
use span_tracing::otel::{
    process_sampling_result, str_to_span_kind, SamplingDecision, SpanKind, Timings,
    TRACE_FLAG_SAMPLED,
};
use span_tracing::registry::extensions::{Extensions, SpanExtensions};
use span_tracing::registry::span;
use span_tracing::registry::sharded::Registry;
use span_tracing::span::{Attributes, Id};

fn meta(name: &'static str) -> &'static Metadata {
    Box::leak(Box::new(Metadata::new(
        name,
        "extras::test",
        Level::INFO,
        None,
        None,
        None,
        FieldSet::new(&[], Identifier(1)),
        Kind::SPAN,
    )))
}

fn no_values() -> ValueSet<'static> {
    let none: &'static [(Field, Option<Value<'static>>)] = &[];
    ValueSet::new(FieldSet::new(&[], Identifier(1)), none)
}

#[test]
fn a_span_trace_holds_the_current_span_and_its_ancestors() {
    let mut registry = Registry::new();
    let values = no_values();
    let root = registry.new_span(&Attributes::new_root(meta("root"), &values));
    let mid = registry.new_span(&Attributes::child_of(root, meta("mid"), &values));
    let leaf = registry.new_span(&Attributes::child_of(mid, meta("leaf"), &values));

    let trace = SpanTrace::capture(&registry, Some(&leaf));
    assert_eq!(trace.len(), 3);
    assert_eq!(trace.frame(0).unwrap().name(), "leaf");
    assert_eq!(trace.frame(1).unwrap().name(), "mid");
    assert_eq!(trace.frame(2).unwrap().name(), "root");
    assert!(trace.frame(3).is_none());

    assert_eq!(SpanTrace::capture(&registry, Some(&root)).len(), 1);
    assert_eq!(SpanTrace::capture(&registry, None).len(), 0);
    assert_eq!(SpanTrace::capture(&registry, Some(&Id::from_u64(99))).len(), 0);
    assert_eq!(SpanTrace::empty().len(), 0);
}

#[test]
fn a_traced_error_keeps_text_and_trace() {
    let mut registry = Registry::new();
    let values = no_values();
    let a = registry.new_span(&Attributes::new_root(meta("a"), &values));
    let err = TracedError::new("disk full".to_string(), SpanTrace::capture(&registry, Some(&a)));
    assert_eq!(err.message(), "disk full");
    assert_eq!(err.span_trace().len(), 1);
    assert_eq!(err.span_trace().frame(0).unwrap().name(), "a");
}

#[test]
fn span_kinds_are_named_in_any_case() {
    assert_eq!(str_to_span_kind("SERVER"), Some(SpanKind::Server));
    assert_eq!(str_to_span_kind("server"), Some(SpanKind::Server));
    assert_eq!(str_to_span_kind("Client"), Some(SpanKind::Client));
    assert_eq!(str_to_span_kind("pRoDuCeR"), Some(SpanKind::Producer));
    assert_eq!(str_to_span_kind("consumer"), Some(SpanKind::Consumer));
    assert_eq!(str_to_span_kind("INTERNAL"), Some(SpanKind::Internal));
    assert_eq!(str_to_span_kind(""), None);
    assert_eq!(str_to_span_kind("servers"), None);
    assert_eq!(str_to_span_kind("serve"), None);
    assert_eq!(str_to_span_kind(" server"), None);
    // only ASCII letters are folded: this is a Kelvin sign, not a `K`
    assert_eq!(str_to_span_kind("\u{212a}"), None);
}

#[test]
fn sampling_sets_or_clears_the_sampled_flag() {
    assert_eq!(TRACE_FLAG_SAMPLED, 1);
    assert_eq!(process_sampling_result(SamplingDecision::Drop, 0xff), None);
    assert_eq!(process_sampling_result(SamplingDecision::RecordOnly, 0x01), Some(0x00));
    assert_eq!(process_sampling_result(SamplingDecision::RecordOnly, 0xff), Some(0xfe));
    assert_eq!(process_sampling_result(SamplingDecision::RecordOnly, 0x02), Some(0x02));
    assert_eq!(process_sampling_result(SamplingDecision::RecordAndSample, 0x00), Some(0x01));
    assert_eq!(process_sampling_result(SamplingDecision::RecordAndSample, 0xfe), Some(0xff));
    assert_eq!(process_sampling_result(SamplingDecision::RecordAndSample, 0x01), Some(0x01));
}

#[test]
fn timings_count_busy_and_idle_time() {
    let mut t = Timings::new(100);
    assert_eq!(t, Timings { idle: 0, busy: 0, last: 100 });
    t.on_enter(130);
    assert_eq!(t, Timings { idle: 30, busy: 0, last: 130 });
    t.on_exit(200);
    assert_eq!(t, Timings { idle: 30, busy: 70, last: 200 });
    t.on_enter(200);
    t.on_exit(205);
    assert_eq!(t, Timings { idle: 30, busy: 75, last: 205 });
    // a clock that runs backwards counts as no time
    t.on_enter(5);
    assert_eq!(t, Timings { idle: 30, busy: 75, last: 5 });
    // counts stay at the top rather than wrap around
    let mut full = Timings { idle: u64::MAX - 1, busy: u64::MAX, last: 0 };
    full.on_enter(10);
    full.on_exit(20);
    assert_eq!(full, Timings { idle: u64::MAX, busy: u64::MAX, last: 20 });
}

#[test]
fn extensions_hold_one_value_per_key() {
    let mut ext: Extensions<String> = Extensions::new();
    assert_eq!(ext.len(), 0);
    assert!(!ext.contains(1));
    assert!(ext.get(1).is_none());
    assert_eq!(ext.replace(1, "one".to_string()), None);
    assert_eq!(ext.replace(2, "two".to_string()), None);
    assert_eq!(ext.replace(3, "three".to_string()), None);
    assert_eq!(ext.len(), 3);
    assert_eq!(ext.get(2).map(|s| s.as_str()), Some("two"));
    assert_eq!(ext.replace(2, "zwei".to_string()), Some("two".to_string()));
    assert_eq!(ext.len(), 3);
    assert_eq!(ext.get(2).map(|s| s.as_str()), Some("zwei"));
    assert_eq!(ext.remove(1), Some("one".to_string()));
    assert_eq!(ext.remove(1), None);
    assert_eq!(ext.len(), 2);
    assert!(ext.contains(2));
    assert!(ext.contains(3));
    assert_eq!(ext.get(3).map(|s| s.as_str()), Some("three"));
    ext.clear();
    assert_eq!(ext.len(), 0);
    assert!(!ext.contains(3));
}

#[test]
fn a_layer_keeps_timings_by_span() {
    let mut registry = Registry::new();
    let values = no_values();
    let a = registry.new_span(&Attributes::new_root(meta("a"), &values));
    let mut timings: Extensions<Timings> = Extensions::new();
    timings.replace(a.into_u64(), Timings::new(0));
    let mut t = *timings.get(a.into_u64()).unwrap();
    t.on_enter(7);
    t.on_exit(10);
    timings.replace(a.into_u64(), t);
    assert!(registry.try_close(a));
    assert_eq!(timings.remove(a.into_u64()), Some(Timings { idle: 7, busy: 3, last: 10 }));
}

#[test]
fn extensions_change_in_place() {
    let mut ext: Extensions<u64> = Extensions::new();
    assert!(ext.get_mut(1).is_none());
    ext.replace(1, 10);
    *ext.get_mut(1).unwrap() += 5;
    assert_eq!(ext.get(1), Some(&15));
    *ext.entry(1, 100) += 1;
    assert_eq!(ext.get(1), Some(&16));
    *ext.entry(2, 100) += 1;
    assert_eq!(ext.get(2), Some(&101));
    assert_eq!(ext.len(), 2);
}

#[test]
fn layers_annotate_spans_through_their_references() {
    const TIMINGS: u64 = 1;
    let mut registry = Registry::new();
    let values = no_values();
    let a = registry.new_span(&Attributes::new_root(meta("a"), &values));
    let b = registry.new_span(&Attributes::new_root(meta("b"), &values));
    let mut store: SpanExtensions<Timings> = SpanExtensions::new();

    let a_ref = span(&registry, &a).unwrap();
    assert!(a_ref.extensions(&store).is_none());
    a_ref.extensions_mut(&mut store).replace(TIMINGS, Timings::new(0));
    a_ref.extensions_mut(&mut store).get_mut(TIMINGS).unwrap().on_enter(4);
    a_ref.extensions_mut(&mut store).get_mut(TIMINGS).unwrap().on_exit(10);
    assert_eq!(
        a_ref.extensions(&store).unwrap().get(TIMINGS),
        Some(&Timings { idle: 4, busy: 6, last: 10 })
    );
    // the other span has annotations of its own
    let b_ref = span(&registry, &b).unwrap();
    assert!(b_ref.extensions(&store).is_none());
    assert_eq!(b_ref.extensions_mut(&mut store).len(), 0);
    assert!(b_ref.extensions(&store).unwrap().get(TIMINGS).is_none());
    assert!(store.of(&a).is_some());

    // when the span closes its annotations are cleared
    assert!(registry.try_close(a));
    let had = store.clear(&a).unwrap();
    assert_eq!(had.get(TIMINGS), Some(&Timings { idle: 4, busy: 6, last: 10 }));
    assert!(store.of(&a).is_none());
    assert!(store.clear(&a).is_none());
    assert!(store.of(&b).is_some());
}
