use span_tracing::event::Event;
use span_tracing::field::{Field, FieldSet, Value, ValueSet};
use span_tracing::metadata::{Identifier, Kind, Level, Metadata};
use span_tracing::otel::builder::{
    AttrValue, KeyValue, OtelContext, SamplingResult, SpanBuilder, SpanContext, StatusCode,
};
use span_tracing::otel::subscriber::{layer, subscriber, OpenTelemetrySubscriber};
use span_tracing::otel::tracer::{
    build_parent_context, sampled_flags, IdGenerator, NoopTracer, PreSampledTracer, Sampler, Tracer,
};
use span_tracing::otel::{SamplingDecision, SpanKind, TRACE_FLAG_SAMPLED};
use span_tracing::span::{Attributes, Id, Parent};

const TRACE_FLAG_NOT_SAMPLED: u8 = 0x00;

/// A tracer that samples nothing and makes no identifiers.
struct TestTracer;

impl PreSampledTracer for TestTracer {
    fn sampled_context(&mut self, _builder: &mut SpanBuilder) -> OtelContext {
        OtelContext::empty()
    }

    fn new_trace_id(&mut self) -> u128 {
        0
    }

    fn new_span_id(&mut self) -> u64 {
        0
    }
}

fn site(name: &'static str, names: &'static [&'static str], kind: Kind, level: Level) -> &'static Metadata {
    Box::leak(Box::new(Metadata::new(
        name,
        "otel::test",
        level,
        None,
        None,
        None,
        FieldSet::new(names, Identifier(1)),
        kind,
    )))
}

/// Creates a span as `debug_span!(name, field = value, ..)` does and closes
/// it at once; returns what is exported.
fn one_span(
    layer: &mut OpenTelemetrySubscriber<TestTracer>,
    name: &'static str,
    names: &'static [&'static str],
    values: &[Value<'_>],
    ambient: OtelContext,
) -> SpanBuilder {
    let meta = site(name, names, Kind::SPAN, Level::DEBUG);
    let fields = *meta.fields();
    let entries: Vec<(Field, Option<Value<'_>>)> =
        fields.iter().into_iter().zip(values.iter().map(|v| Some(*v))).collect();
    let set = ValueSet::new(fields, &entries);
    let id = Id::from_u64(1);
    layer.new_span(&Attributes::new(meta, &set), &id, None, ambient, 1_000, 50);
    layer.on_close(id, 2_000).expect("the span that was just created")
}

#[test]
fn subscriber_dynamic_span_names() {
    let dynamic_name = "GET http://example.com".to_string();
    let mut layer = subscriber().with_tracer(TestTracer);
    let built = one_span(
        &mut layer,
        "static_name",
        &["otel.name"],
        &[Value::Str(dynamic_name.as_str())],
        OtelContext::empty(),
    );
    let recorded_name = Some(built.name.clone());
    assert_eq!(recorded_name, Some(dynamic_name))
}

#[test]
fn layer_dynamic_span_names() {
    let dynamic_name = "GET http://example.com".to_string();
    let mut layer = layer().with_tracer(TestTracer);
    // recorded through the debug form of the value, as older callers do
    let built = one_span(
        &mut layer,
        "static_name",
        &["otel.name"],
        &[Value::Display(dynamic_name.as_str())],
        OtelContext::empty(),
    );
    assert_eq!(Some(built.name.clone()), Some(dynamic_name));
    // without the field the name of the callsite stays
    let built = one_span(&mut layer, "static_name", &[], &[], OtelContext::empty());
    assert_eq!(built.name, "static_name");
}

#[test]
fn span_kind() {
    let mut layer = subscriber().with_tracer(TestTracer);
    let built =
        one_span(&mut layer, "request", &["otel.kind"], &[Value::Display("Server")], OtelContext::empty());
    let recorded_kind = built.span_kind;
    assert_eq!(recorded_kind, Some(SpanKind::Server))
}

#[test]
fn trace_id_from_existing_context() {
    let mut layer = subscriber().with_tracer(TestTracer);
    let trace_id = 42u128;
    let existing_cx = OtelContext::empty().with_span(SpanContext {
        trace_id,
        span_id: 1,
        trace_flags: 0,
        is_remote: false,
    });
    let built = one_span(&mut layer, "request", &["otel.kind"], &[Value::Display("Server")], existing_cx);
    let recorded_trace_id = built.parent_context.as_ref().unwrap().active.unwrap().trace_id;
    assert_eq!(recorded_trace_id, trace_id);
    // the span joins that trace instead of beginning one
    assert_eq!(built.trace_id, None);
}

#[test]
fn includes_timings() {
    let mut layer = subscriber().with_tracer(TestTracer).with_tracked_inactivity(true);
    let built = one_span(&mut layer, "request", &[], &[], OtelContext::empty());
    let attributes = built.attributes.as_ref().unwrap();
    let keys = attributes.iter().map(|attr| attr.key).collect::<Vec<&str>>();
    assert!(keys.contains(&"idle_ns"));
    assert!(keys.contains(&"busy_ns"));
}

fn text(attribute: &KeyValue) -> (&str, String) {
    let value = match &attribute.value {
        AttrValue::Bool(b) => format!("bool:{}", b),
        AttrValue::I64(n) => format!("i64:{}", n),
        AttrValue::Text(s) => format!("text:{}", s),
    };
    (attribute.key, value)
}

#[test]
fn timings_tell_busy_from_idle() {
    let mut layer = subscriber().with_tracer(TestTracer);
    let meta = site("work", &[], Kind::SPAN, Level::INFO);
    let none: [(Field, Option<Value>); 0] = [];
    let set = ValueSet::new(*meta.fields(), &none);
    let id = Id::from_u64(7);
    layer.new_span(&Attributes::new_root(meta, &set), &id, None, OtelContext::empty(), 1_000, 100);
    layer.on_enter(&id, 130);
    layer.on_exit(&id, 200);
    layer.on_enter(&id, 260);
    layer.on_exit(&id, 265);
    // a span that the layer does not know is left alone
    layer.on_enter(&Id::from_u64(8), 300);
    let built = layer.on_close(id, 9_000).unwrap();
    assert_eq!(built.start_time, Some(1_000));
    assert_eq!(built.end_time, Some(9_000));
    let attributes: Vec<(&str, String)> = built.attributes.as_ref().unwrap().iter().map(text).collect();
    assert_eq!(
        attributes,
        vec![("busy_ns", "text:75".to_string()), ("idle_ns", "text:90".to_string())]
    );
    assert!(layer.on_close(id, 9_001).is_none());

    let mut untracked = subscriber().with_tracer(TestTracer).with_tracked_inactivity(false);
    let built = one_span(&mut untracked, "request", &[], &[], OtelContext::empty());
    assert!(built.attributes.is_none());
}

#[test]
fn values_become_typed_attributes() {
    let mut layer = subscriber().with_tracer(TestTracer).with_tracked_inactivity(false);
    let built = one_span(
        &mut layer,
        "request",
        &["flag", "count", "big", "ratio", "who", "shown", "otel.name", "otel.kind", "odd"],
        &[
            Value::Bool(true),
            Value::I64(-3),
            Value::U64(7),
            Value::F64(0, "0.5"),
            Value::Str("me"),
            Value::Debug("Some(1)"),
            Value::Debug("renamed"),
            Value::Str("no kind at all"),
            Value::Error("broken"),
        ],
        OtelContext::empty(),
    );
    assert_eq!(built.name, "renamed");
    assert_eq!(built.span_kind, None);
    let attributes: Vec<(&str, String)> = built.attributes.as_ref().unwrap().iter().map(text).collect();
    assert_eq!(
        attributes,
        vec![
            ("flag", "bool:true".to_string()),
            ("count", "i64:-3".to_string()),
            ("big", "text:7".to_string()),
            ("ratio", "text:0.5".to_string()),
            ("who", "text:me".to_string()),
            ("shown", "text:Some(1)".to_string()),
            ("odd", "text:broken".to_string()),
        ]
    );
}

#[test]
fn a_boolean_is_never_a_name() {
    let mut layer = subscriber().with_tracer(TestTracer).with_tracked_inactivity(false);
    let built = one_span(
        &mut layer,
        "request",
        &["otel.name", "otel.kind"],
        &[Value::Bool(true), Value::I64(1)],
        OtelContext::empty(),
    );
    assert_eq!(built.name, "request");
    let attributes: Vec<(&str, String)> = built.attributes.as_ref().unwrap().iter().map(text).collect();
    assert_eq!(
        attributes,
        vec![("otel.name", "bool:true".to_string()), ("otel.kind", "i64:1".to_string())]
    );
}

#[test]
fn records_and_events_reach_the_builder_of_their_span() {
    let mut layer = subscriber().with_tracer(TestTracer).with_tracked_inactivity(false);
    let meta = site("work", &["a"], Kind::SPAN, Level::INFO);
    let a = meta.fields().field("a").unwrap();
    let entries = [(a, Some(Value::I64(1)))];
    let set = ValueSet::new(*meta.fields(), &entries);
    let id = Id::from_u64(3);
    layer.new_span(&Attributes::new_root(meta, &set), &id, None, OtelContext::empty(), 10, 0);

    let entries = [(a, Some(Value::Str("again")))];
    let more = ValueSet::new(*meta.fields(), &entries);
    layer.on_record(&id, &more);
    layer.on_record(&Id::from_u64(99), &more);

    let emeta = site("event", &["message", "code"], Kind::EVENT, Level::ERROR);
    let fields = emeta.fields().iter();
    let entries = [(fields[0], Some(Value::Debug("it failed"))), (fields[1], Some(Value::I64(5)))];
    let values = ValueSet::new(*emeta.fields(), &entries);
    let event = Event::new(emeta, &values);
    // outside of any span the event is ignored
    layer.on_event(&event, None, 20);
    layer.on_event(&event, Some(Id::from_u64(99)), 21);
    layer.on_event(&event, Some(id), 22);

    let built = layer.on_close(id, 30).unwrap();
    let attributes: Vec<(&str, String)> = built.attributes.as_ref().unwrap().iter().map(text).collect();
    assert_eq!(attributes, vec![("a", "i64:1".to_string()), ("a", "text:again".to_string())]);
    assert_eq!(built.status_code, Some(StatusCode::Error));
    let events = built.message_events.as_ref().unwrap();
    assert_eq!(events.len(), 1);
    assert_eq!(events[0].name, "it failed");
    assert_eq!(events[0].timestamp, 22);
    let attributes: Vec<(&str, String)> = events[0].attributes.iter().map(text).collect();
    assert_eq!(
        attributes,
        vec![
            ("level", "text:ERROR".to_string()),
            ("target", "text:otel::test".to_string()),
            ("code", "i64:5".to_string()),
        ]
    );
}

/// A maker of identifiers that counts up.
struct Counting {
    next: u64,
}

impl IdGenerator for Counting {
    fn new_trace_id(&mut self) -> u128 {
        self.next += 1;
        self.next as u128
    }

    fn new_span_id(&mut self) -> u64 {
        self.next += 1;
        self.next
    }
}

/// The samplers of the tests.
enum TestSampler {
    AlwaysOn,
    AlwaysOff,
    ParentBased(Box<TestSampler>),
}

impl Sampler for TestSampler {
    fn should_sample(
        &self,
        parent: &OtelContext,
        trace_id: u128,
        name: &str,
        kind: SpanKind,
        attributes: &[KeyValue],
        links: &[SpanContext],
    ) -> SamplingResult {
        let decision = match self {
            TestSampler::AlwaysOn => SamplingDecision::RecordAndSample,
            TestSampler::AlwaysOff => SamplingDecision::Drop,
            TestSampler::ParentBased(delegate) => match parent.active {
                Some(sc) if sc.trace_id != 0 && sc.span_id != 0 => {
                    if sc.trace_flags & TRACE_FLAG_SAMPLED != 0 {
                        SamplingDecision::RecordAndSample
                    } else {
                        SamplingDecision::Drop
                    }
                }
                _ => {
                    delegate
                        .should_sample(parent, trace_id, name, kind, attributes, links)
                        .decision
                }
            },
        };
        SamplingResult { decision, attributes: Vec::new() }
    }
}

fn tracer(sampler: TestSampler) -> Tracer<TestSampler, Counting> {
    Tracer::new(sampler, Counting { next: 100 })
}

#[test]
fn assigns_default_trace_id_if_missing() {
    let mut tracer = tracer(TestSampler::AlwaysOn);
    let mut builder = SpanBuilder::from_name("empty");
    builder.span_id = Some(1);
    builder.trace_id = None;
    let cx = tracer.sampled_context(&mut builder);
    let span_context = cx.active.unwrap();

    assert!(span_context.is_valid());
}

fn span_context(trace_flags: u8, is_remote: bool) -> SpanContext {
    SpanContext { trace_id: 1, span_id: 1, trace_flags, is_remote }
}

fn with_remote(sc: SpanContext) -> OtelContext {
    OtelContext { active: None, remote: Some(sc) }
}

fn previous(decision: SamplingDecision) -> Option<SamplingResult> {
    Some(SamplingResult { decision, attributes: vec![] })
}

fn sampler_data() -> Vec<(&'static str, TestSampler, OtelContext, Option<SamplingResult>, bool)> {
    vec![
        // No parent samples
        ("empty_parent_cx_always_on", TestSampler::AlwaysOn, OtelContext::empty(), None, true),
        ("empty_parent_cx_always_off", TestSampler::AlwaysOff, OtelContext::empty(), None, false),

        // Remote parent samples
        ("remote_parent_cx_always_on", TestSampler::AlwaysOn, with_remote(span_context(TRACE_FLAG_SAMPLED, true)), None, true),
        ("remote_parent_cx_always_off", TestSampler::AlwaysOff, with_remote(span_context(TRACE_FLAG_SAMPLED, true)), None, false),
        ("sampled_remote_parent_cx_parent_based", TestSampler::ParentBased(Box::new(TestSampler::AlwaysOff)), with_remote(span_context(TRACE_FLAG_SAMPLED, true)), None, true),
        ("unsampled_remote_parent_cx_parent_based", TestSampler::ParentBased(Box::new(TestSampler::AlwaysOn)), with_remote(span_context(TRACE_FLAG_NOT_SAMPLED, true)), None, false),

        // Existing sampling result defers
        ("previous_drop_result_always_on", TestSampler::AlwaysOn, OtelContext::empty(), previous(SamplingDecision::Drop), false),
        ("previous_record_and_sample_result_always_off", TestSampler::AlwaysOff, OtelContext::empty(), previous(SamplingDecision::RecordAndSample), true),

        // Existing local parent, defers
        ("previous_drop_result_always_on", TestSampler::AlwaysOn, OtelContext::empty(), previous(SamplingDecision::Drop), false),
        ("previous_record_and_sample_result_always_off", TestSampler::AlwaysOff, OtelContext::empty(), previous(SamplingDecision::RecordAndSample), true),
    ]
}

#[test]
fn sampled_context() {
    for (name, sampler, parent_cx, previous_sampling_result, is_sampled) in sampler_data() {
        let mut tracer = tracer(sampler);
        let mut builder = SpanBuilder::from_name("parent");
        builder.parent_context = Some(parent_cx);
        builder.sampling_result = previous_sampling_result;
        let sampled = tracer.sampled_context(&mut builder);

        assert_eq!(
            sampled.active.unwrap().trace_flags & TRACE_FLAG_SAMPLED != 0,
            is_sampled,
            "{}",
            name
        )
    }
}

#[test]
fn a_local_parent_decides_for_its_children() {
    let local = OtelContext::empty().with_span(span_context(TRACE_FLAG_SAMPLED, false));
    let mut tracer = tracer(TestSampler::AlwaysOff);
    let mut builder = SpanBuilder::from_name("child");
    builder.parent_context = Some(local);
    builder.span_id = Some(9);
    let cx = tracer.sampled_context(&mut builder);
    // the sampler was not asked
    assert!(builder.sampling_result.is_none());
    assert_eq!(
        cx.active,
        Some(SpanContext { trace_id: 1, span_id: 9, trace_flags: TRACE_FLAG_SAMPLED, is_remote: false })
    );
}

#[test]
fn a_tracer_without_pipeline_gives_empty_contexts() {
    let mut tracer = tracer(TestSampler::AlwaysOn);
    tracer.shut_down();
    let mut builder = SpanBuilder::from_name("late");
    builder.span_id = Some(1);
    assert_eq!(tracer.sampled_context(&mut builder), OtelContext::empty());
    assert!(builder.sampling_result.is_none());
    assert_eq!(tracer.new_trace_id(), 0);
    assert_eq!(tracer.new_span_id(), 0);

    let mut noop = NoopTracer::new();
    let mut builder = SpanBuilder::from_name("noop");
    assert_eq!(noop.sampled_context(&mut builder), OtelContext::empty());
    builder.parent_context = Some(with_remote(span_context(0, true)));
    assert_eq!(noop.sampled_context(&mut builder), with_remote(span_context(0, true)));
    assert_eq!(noop.new_trace_id(), 0);
    assert_eq!(noop.new_span_id(), 0);
}

#[test]
fn a_remote_context_counts_as_the_parent() {
    let remote = span_context(TRACE_FLAG_SAMPLED, true);
    let mut builder = SpanBuilder::from_name("b");
    assert_eq!(build_parent_context(&builder), OtelContext::empty());
    builder.parent_context = Some(with_remote(remote));
    assert_eq!(
        build_parent_context(&builder),
        OtelContext { active: Some(remote), remote: Some(remote) }
    );
    let local = span_context(0, false);
    builder.parent_context = Some(OtelContext { active: Some(local), remote: Some(remote) });
    assert_eq!(
        build_parent_context(&builder),
        OtelContext { active: Some(local), remote: Some(remote) }
    );
    assert_eq!(sampled_flags(None, 0x03), 0x03);
    assert_eq!(sampled_flags(Some(SamplingDecision::Drop), 0x03), 0x00);
    assert_eq!(sampled_flags(Some(SamplingDecision::RecordOnly), 0x03), 0x02);
    assert_eq!(sampled_flags(Some(SamplingDecision::RecordAndSample), 0x02), 0x03);
}

#[test]
fn children_get_the_context_of_their_parent() {
    let mut layer = OpenTelemetrySubscriber::new(tracer(TestSampler::AlwaysOn));
    let meta = site("s", &[], Kind::SPAN, Level::INFO);
    let none: [(Field, Option<Value>); 0] = [];
    let set = ValueSet::new(*meta.fields(), &none);
    let parent = Id::from_u64(1);
    let child = Id::from_u64(2);
    let other = Id::from_u64(3);
    layer.new_span(&Attributes::new_root(meta, &set), &parent, None, OtelContext::empty(), 0, 0);
    layer.new_span(&Attributes::child_of(parent, meta, &set), &child, None, OtelContext::empty(), 1, 1);
    layer.new_span(&Attributes::new(meta, &set), &other, Some(parent), OtelContext::empty(), 2, 2);
    layer.on_follows_from(&other, &child);

    assert_eq!(layer.parent_context(Parent::Root, Some(parent), OtelContext::empty()), OtelContext::empty());
    let parent_built = layer.on_close(parent, 10).unwrap();
    let child_built = layer.on_close(child, 11).unwrap();
    let other_built = layer.on_close(other, 12).unwrap();

    // the root began a trace and was sampled when its child asked for its context
    let trace = parent_built.trace_id.unwrap();
    assert!(parent_built.sampling_result.is_some());
    assert_eq!(parent_built.parent_context, Some(OtelContext::empty()));
    for built in [&child_built, &other_built] {
        let cx = built.parent_context.unwrap().active.unwrap();
        assert_eq!(cx.trace_id, trace);
        assert_eq!(Some(cx.span_id), parent_built.span_id);
        assert_eq!(cx.trace_flags & TRACE_FLAG_SAMPLED, TRACE_FLAG_SAMPLED);
        assert_eq!(built.trace_id, None);
    }
    let links = other_built.links.as_ref().unwrap();
    assert_eq!(links.len(), 1);
    assert_eq!(Some(links[0].span_id), child_built.span_id);
    assert_eq!(links[0].trace_id, trace);
    assert!(child_built.links.is_none());
}
