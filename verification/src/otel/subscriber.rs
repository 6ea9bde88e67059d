//! A layer that gathers, span by span, what is exported when a span closes.
use vstd::prelude::*;
use crate::event::Event;
use crate::field::{ValueSet, Visit};
use crate::metadata::Level;
use crate::otel::builder::{
    attributes_view,
    event_gathered,
    list_view,
    push_attribute,
    span_gathered,
    AttrValue,
    AttrView,
    KeyValue,
    KeyValueView,
    OtelContext,
    OtelEvent,
    SpanAttributeVisitor,
    SpanBuilder,
    SpanContext,
    SpanEventVisitor,
    StatusCode,
};
use crate::otel::tracer::{NoopTracer, PreSampledTracer};
use crate::otel::Timings;
use crate::registry::extensions::Extensions;
use crate::span::{Attributes, Id, Parent};
use crate::text::{decimal, push_decimal};

verus! {

/// Gathers the data of spans for export. For every span that is open it
/// keeps a builder and, where inactivity is tracked, the time that the span
/// was busy and idle.
pub struct OpenTelemetrySubscriber<T> {
    tracer: T,
    tracked_inactivity: bool,
    builders: Extensions<SpanBuilder>,
    timings: Extensions<Timings>,
}

/// The layer under the name it had when it was the only one of its kind.
pub type OpenTelemetryLayer<T> = OpenTelemetrySubscriber<T>;

/// A layer that gathers spans without exporting them: to be given a tracer
/// with [`OpenTelemetrySubscriber::with_tracer`].
pub fn subscriber() -> (r: OpenTelemetrySubscriber<NoopTracer>)
    ensures
        r.wf(),
        r.tracks_inactivity(),
        r.builders() == Map::<u64, SpanBuilder>::empty(),
        r.timings() == Map::<u64, Timings>::empty(),
{
    OpenTelemetrySubscriber::new(NoopTracer::new())
}

/// A layer that gathers spans without exporting them: to be given a tracer
/// with [`OpenTelemetrySubscriber::with_tracer`].
pub fn layer() -> (r: OpenTelemetryLayer<NoopTracer>)
    ensures
        r.wf(),
        r.tracks_inactivity(),
        r.builders() == Map::<u64, SpanBuilder>::empty(),
        r.timings() == Map::<u64, Timings>::empty(),
{
    subscriber()
}

/// The text of a count of nanoseconds.
fn count_text(n: u64) -> (text: String)
    ensures
        text@ == decimal(n as nat),
{
    let mut text = String::new();
    push_decimal(&mut text, n as u128);
    assert(Seq::<char>::empty() + decimal(n as nat) =~= decimal(n as nat));
    text
}

/// The two attributes that tell how long a span was busy and idle.
pub open spec fn timing_attributes(timings: Timings) -> Seq<KeyValueView> {
    seq![
        KeyValueView { key: "busy_ns"@, value: AttrView::Text(decimal(timings.busy as nat)) },
        KeyValueView { key: "idle_ns"@, value: AttrView::Text(decimal(timings.idle as nat)) },
    ]
}

/// Whether a span with the parent context `parent` begins a trace of its
/// own: it has no parent context, or one without any span.
pub open spec fn needs_trace_id(parent: Option<OtelContext>) -> bool {
    match parent {
        Some(cx) => cx.active is None && cx.remote is None,
        None => true,
    }
}

impl<T: PreSampledTracer> OpenTelemetrySubscriber<T> {
    /// The builders of the open spans, by the numbers of the spans.
    pub closed spec fn builders(self) -> Map<u64, SpanBuilder> {
        self.builders.view()
    }

    /// The timings of the open spans, by the numbers of the spans.
    pub closed spec fn timings(self) -> Map<u64, Timings> {
        self.timings.view()
    }

    /// Whether the layer tracks how long spans are busy and idle.
    pub closed spec fn tracks_inactivity(self) -> bool {
        self.tracked_inactivity
    }

    /// The invariant of the layer.
    pub closed spec fn wf(self) -> bool {
        self.builders.wf() && self.timings.wf()
    }

    /// A layer that exports through `tracer` and tracks inactivity.
    pub fn new(tracer: T) -> (r: Self)
        ensures
            r.wf(),
            r.tracks_inactivity(),
            r.builders() == Map::<u64, SpanBuilder>::empty(),
            r.timings() == Map::<u64, Timings>::empty(),
    {
        OpenTelemetrySubscriber {
            tracer,
            tracked_inactivity: true,
            builders: Extensions::new(),
            timings: Extensions::new(),
        }
    }

    /// The same layer with another tracer.
    pub fn with_tracer<U: PreSampledTracer>(self, tracer: U) -> (r: OpenTelemetrySubscriber<U>)
        requires
            self.wf(),
        ensures
            r.wf(),
            r.tracks_inactivity() == self.tracks_inactivity(),
            r.builders() == self.builders(),
            r.timings() == self.timings(),
    {
        OpenTelemetrySubscriber {
            tracer,
            tracked_inactivity: self.tracked_inactivity,
            builders: self.builders,
            timings: self.timings,
        }
    }

    /// The same layer, tracking inactivity or not.
    pub fn with_tracked_inactivity(self, tracked_inactivity: bool) -> (r: Self)
        requires
            self.wf(),
        ensures
            r.wf(),
            r.tracks_inactivity() == tracked_inactivity,
            r.builders() == self.builders(),
            r.timings() == self.timings(),
    {
        OpenTelemetrySubscriber {
            tracer: self.tracer,
            tracked_inactivity,
            builders: self.builders,
            timings: self.timings,
        }
    }

    /// The context of the span `id` as its tracer samples it, where the
    /// layer keeps a builder for the span.
    fn context_of(&mut self, id: u64) -> (cx: Option<OtelContext>)
        requires
            old(self).wf(),
        ensures
            final(self).wf(),
            final(self).timings() == old(self).timings(),
            final(self).tracks_inactivity() == old(self).tracks_inactivity(),
            final(self).builders().dom() == old(self).builders().dom(),
            forall|k: u64|
                k != id && old(self).builders().contains_key(k) ==> final(self).builders()[k]
                    == old(self).builders()[k],
            cx is Some <==> old(self).builders().contains_key(id),
    {
        match self.builders.remove(id) {
            Some(builder) => {
                let mut builder = builder;
                let cx = self.tracer.sampled_context(&mut builder);
                let _ = self.builders.replace(id, builder);
                assert(self.builders.view().dom() =~= old(self).builders.view().dom());
                Some(cx)
            },
            None => {
                assert(self.builders.view() =~= old(self).builders.view());
                None
            },
        }
    }

    /// The context that a new span gets as its parent: that of the span its
    /// attributes name; for a span whose parent is left to the context, that
    /// of the current span or, without one, the ambient context; none for a
    /// root. Contexts of spans are those that the tracer samples.
    pub fn parent_context(&mut self, kind: Parent, current: Option<Id>, ambient: OtelContext) -> (cx:
        OtelContext)
        requires
            old(self).wf(),
        ensures
            final(self).wf(),
            final(self).timings() == old(self).timings(),
            final(self).tracks_inactivity() == old(self).tracks_inactivity(),
            final(self).builders().dom() == old(self).builders().dom(),
            kind == Parent::Root ==> cx == OtelContext::spec_empty() && final(self).builders()
                == old(self).builders(),
            kind matches Parent::Explicit(p) ==> {
                &&& forall|k: u64|
                    k != p.value() && old(self).builders().contains_key(k) ==> final(self).builders()[k] == old(self).builders()[k]
                &&& !old(self).builders().contains_key(p.value()) ==> cx
                    == OtelContext::spec_empty()
            },
            kind == Parent::Current ==> match current {
                Some(c) => {
                    &&& forall|k: u64|
                        k != c.value() && old(self).builders().contains_key(k) ==> final(self).builders()[k] == old(self).builders()[k]
                    &&& !old(self).builders().contains_key(c.value()) ==> cx == ambient
                },
                None => cx == ambient && final(self).builders() == old(self).builders(),
            },
    {
        match kind {
            Parent::Explicit(parent) => {
                match self.context_of(parent.into_u64()) {
                    Some(cx) => cx,
                    None => OtelContext::empty(),
                }
            },
            Parent::Current => {
                match current {
                    Some(id) => match self.context_of(id.into_u64()) {
                        Some(cx) => cx,
                        None => ambient,
                    },
                    None => ambient,
                }
            },
            Parent::Root => OtelContext::empty(),
        }
    }

    /// A span has been created with the identifier `id`, at the time `now`
    /// of the calendar and `instant` of the steady clock. `current` is the
    /// current span and `ambient` the context that surrounds the program.
    ///
    /// The layer begins a builder for the span with the name of its
    /// callsite, gives it an identifier of the tracer and, for a span that
    /// begins a trace, a trace identifier, and fills it from the values of
    /// the span.
    pub fn new_span(
        &mut self,
        attrs: &Attributes<'_>,
        id: &Id,
        current: Option<Id>,
        ambient: OtelContext,
        now: u64,
        instant: u64,
    )
        requires
            old(self).wf(),
        ensures
            final(self).wf(),
            final(self).tracks_inactivity() == old(self).tracks_inactivity(),
            final(self).timings() == if old(self).tracks_inactivity() && !old(self).timings().contains_key(id.value()) {
                old(self).timings().insert(id.value(), Timings { idle: 0, busy: 0, last: instant })
            } else {
                old(self).timings()
            },
            final(self).builders().dom() == old(self).builders().dom().insert(id.value()),
            ({
                let b = final(self).builders()[id.value()];
                &&& b.start_time == Some(now)
                &&& b.end_time is None
                &&& b.span_id is Some
                &&& b.parent_context is Some
                &&& b.trace_id is Some <==> needs_trace_id(b.parent_context)
                &&& b.message_events is None
                &&& b.links is None
                &&& b.status_code is None
                &&& b.sampling_result is None
                &&& b.name@ == match span_gathered(attrs.spec_values().recorded()).name {
                    Some(name) => name,
                    None => attrs.spec_metadata()@.name,
                }
                &&& b.span_kind == match span_gathered(attrs.spec_values().recorded()).kind {
                    Some(kind) => kind,
                    None => None,
                }
                &&& attributes_view(b.attributes) == span_gathered(
                    attrs.spec_values().recorded(),
                ).attributes
            }),
    {
        let key = id.into_u64();
        if self.tracked_inactivity && !self.timings.contains(key) {
            let _ = self.timings.replace(key, Timings::new(instant));
        }
        let mut builder = SpanBuilder::from_name(attrs.metadata().name());
        builder.start_time = Some(now);
        // Eagerly assign the span id, so that children have a stable parent.
        builder.span_id = Some(self.tracer.new_span_id());
        let kind = match attrs.parent() {
            Some(p) => Parent::Explicit(*p),
            None => if attrs.is_root() {
                Parent::Root
            } else {
                Parent::Current
            },
        };
        let parent = self.parent_context(kind, current, ambient);
        builder.parent_context = Some(parent);
        // A parent context without any span leaves the span without a
        // trace: it begins one.
        if !parent.has_active_span() && parent.remote.is_none() {
            builder.trace_id = Some(self.tracer.new_trace_id());
        }
        let mut visitor = SpanAttributeVisitor::new();
        attrs.record(&mut visitor);
        assert(visitor.seen() =~= attrs.spec_values().recorded());
        visitor.apply(&mut builder);
        assert(attributes_view(builder.attributes) =~= span_gathered(
            attrs.spec_values().recorded(),
        ).attributes);
        let _ = self.builders.replace(key, builder);
        assert(self.builders.view().dom() =~= old(self).builders.view().dom().insert(key));
    }

    /// The context has entered the span `id` at the time `instant`: the span
    /// was idle until now.
    pub fn on_enter(&mut self, id: &Id, instant: u64)
        requires
            old(self).wf(),
        ensures
            final(self).wf(),
            final(self).tracks_inactivity() == old(self).tracks_inactivity(),
            final(self).builders() == old(self).builders(),
            final(self).timings() == if old(self).timings().contains_key(id.value()) {
                let t = old(self).timings()[id.value()];
                old(self).timings().insert(
                    id.value(),
                    Timings {
                        idle: crate::otel::capped(t.idle, crate::otel::elapsed(t.last, instant)),
                        busy: t.busy,
                        last: instant,
                    },
                )
            } else {
                old(self).timings()
            },
    {
        let key = id.into_u64();
        match self.timings.remove(key) {
            Some(t) => {
                let mut t = t;
                t.on_enter(instant);
                let _ = self.timings.replace(key, t);
                assert(self.timings.view() =~= old(self).timings.view().insert(key, t));
            },
            None => {
                assert(self.timings.view() =~= old(self).timings.view());
            },
        }
    }

    /// The context has left the span `id` at the time `instant`: the span
    /// was busy until now.
    pub fn on_exit(&mut self, id: &Id, instant: u64)
        requires
            old(self).wf(),
        ensures
            final(self).wf(),
            final(self).tracks_inactivity() == old(self).tracks_inactivity(),
            final(self).builders() == old(self).builders(),
            final(self).timings() == if old(self).timings().contains_key(id.value()) {
                let t = old(self).timings()[id.value()];
                old(self).timings().insert(
                    id.value(),
                    Timings {
                        idle: t.idle,
                        busy: crate::otel::capped(t.busy, crate::otel::elapsed(t.last, instant)),
                        last: instant,
                    },
                )
            } else {
                old(self).timings()
            },
    {
        let key = id.into_u64();
        match self.timings.remove(key) {
            Some(t) => {
                let mut t = t;
                t.on_exit(instant);
                let _ = self.timings.replace(key, t);
                assert(self.timings.view() =~= old(self).timings.view().insert(key, t));
            },
            None => {
                assert(self.timings.view() =~= old(self).timings.view());
            },
        }
    }

    /// Values have been added to the span `id`: the builder of the span is
    /// filled from them.
    pub fn on_record(&mut self, id: &Id, values: &ValueSet<'_>)
        requires
            old(self).wf(),
        ensures
            final(self).wf(),
            final(self).tracks_inactivity() == old(self).tracks_inactivity(),
            final(self).timings() == old(self).timings(),
            final(self).builders().dom() == old(self).builders().dom(),
            forall|k: u64|
                k != id.value() && old(self).builders().contains_key(k) ==> final(self).builders()[k] == old(self).builders()[k],
            old(self).builders().contains_key(id.value()) ==> ({
                let was = old(self).builders()[id.value()];
                let b = final(self).builders()[id.value()];
                &&& b.trace_id == was.trace_id
                &&& b.span_id == was.span_id
                &&& b.parent_context == was.parent_context
                &&& b.start_time == was.start_time
                &&& b.end_time == was.end_time
                &&& b.message_events == was.message_events
                &&& b.links == was.links
                &&& b.status_code == was.status_code
                &&& b.sampling_result == was.sampling_result
                &&& b.name@ == match span_gathered(values.recorded()).name {
                    Some(name) => name,
                    None => was.name@,
                }
                &&& b.span_kind == match span_gathered(values.recorded()).kind {
                    Some(kind) => kind,
                    None => was.span_kind,
                }
                &&& attributes_view(b.attributes) == attributes_view(was.attributes)
                    + span_gathered(values.recorded()).attributes
            }),
    {
        let key = id.into_u64();
        match self.builders.remove(key) {
            Some(builder) => {
                let mut builder = builder;
                let mut visitor = SpanAttributeVisitor::new();
                values.record(&mut visitor);
                assert(visitor.seen() =~= values.recorded());
                visitor.apply(&mut builder);
                let _ = self.builders.replace(key, builder);
                assert(self.builders.view().dom() =~= old(self).builders.view().dom());
            },
            None => {
                assert(self.builders.view() =~= old(self).builders.view());
            },
        }
    }

    /// The span `id` has been said to follow from the span `follows`: the
    /// context of `follows`, as the tracer samples it, becomes a link of
    /// `id`. Nothing is linked where the layer keeps no builder for one of
    /// the two.
    pub fn on_follows_from(&mut self, id: &Id, follows: &Id)
        requires
            old(self).wf(),
        ensures
            final(self).wf(),
            final(self).tracks_inactivity() == old(self).tracks_inactivity(),
            final(self).timings() == old(self).timings(),
            final(self).builders().dom() == old(self).builders().dom(),
            forall|k: u64|
                k != id.value() && k != follows.value() && old(self).builders().contains_key(k)
                    ==> final(self).builders()[k] == old(self).builders()[k],
            !old(self).builders().contains_key(id.value()) || !old(self).builders().contains_key(
                follows.value(),
            ) ==> final(self).builders() == old(self).builders(),
            old(self).builders().contains_key(id.value()) && old(self).builders().contains_key(
                follows.value(),
            ) && id.value() != follows.value() ==> ({
                let was = old(self).builders()[id.value()];
                let b = final(self).builders()[id.value()];
                let had: Seq<SpanContext> = match was.links {
                    Some(links) => links@,
                    None => Seq::empty(),
                };
                &&& b.links matches Some(links) && links@.len() == had.len() + 1
                    && links@.drop_last() == had
                &&& b.name == was.name
                &&& b.span_kind == was.span_kind
                &&& b.trace_id == was.trace_id
                &&& b.span_id == was.span_id
                &&& b.parent_context == was.parent_context
                &&& b.start_time == was.start_time
                &&& b.end_time == was.end_time
                &&& b.attributes == was.attributes
                &&& b.message_events == was.message_events
                &&& b.status_code == was.status_code
                &&& b.sampling_result == was.sampling_result
            }),
    {
        let key = id.into_u64();
        if !self.builders.contains(key) || !self.builders.contains(follows.into_u64()) {
            return ;
        }
        let follows_cx = match self.context_of(follows.into_u64()) {
            Some(cx) => cx,
            None => OtelContext::empty(),
        };
        let link = match follows_cx.active {
            Some(sc) => sc,
            None => SpanContext { trace_id: 0, span_id: 0, trace_flags: 0, is_remote: false },
        };
        match self.builders.remove(key) {
            Some(builder) => {
                let mut builder = builder;
                let mut links = match builder.links.take() {
                    Some(links) => links,
                    None => Vec::new(),
                };
                let ghost had = links@;
                links.push(link);
                assert(links@.drop_last() =~= had);
                builder.links = Some(links);
                let _ = self.builders.replace(key, builder);
                assert(self.builders.view().dom() =~= old(self).builders.view().dom());
            },
            None => {},
        }
    }

    /// An event has happened at the time `now` while `current` was the
    /// current span. The event is noted with that span: named by its
    /// message, with its level and target and its other values as
    /// attributes. An event at the level `ERROR` marks a span without a
    /// status as failed. Events outside of spans are ignored.
    pub fn on_event(&mut self, event: &Event<'_>, current: Option<Id>, now: u64)
        requires
            old(self).wf(),
        ensures
            final(self).wf(),
            final(self).tracks_inactivity() == old(self).tracks_inactivity(),
            final(self).timings() == old(self).timings(),
            final(self).builders().dom() == old(self).builders().dom(),
            current is None ==> final(self).builders() == old(self).builders(),
            current matches Some(c) ==> {
                &&& forall|k: u64|
                    k != c.value() && old(self).builders().contains_key(k) ==> final(self).builders()[k] == old(self).builders()[k]
                &&& old(self).builders().contains_key(c.value()) ==> ({
                    let was = old(self).builders()[c.value()];
                    let b = final(self).builders()[c.value()];
                    &&& b.name == was.name
                    &&& b.span_kind == was.span_kind
                    &&& b.attributes == was.attributes
                    &&& b.links == was.links
                    &&& b.status_code == if was.status_code is None && event.spec_metadata()@.level
                        == Level::ERROR {
                        Some(StatusCode::Error)
                    } else {
                        was.status_code
                    }
                    &&& b.message_events matches Some(events) && {
                        &&& events@.len() == (match was.message_events {
                            Some(e) => e@.len(),
                            None => 0,
                        }) + 1
                        &&& events@.last().timestamp == now
                        &&& events@.last().name@ == match event_gathered(
                            event.spec_fields().recorded(),
                        ).name {
                            Some(name) => name,
                            None => Seq::empty(),
                        }
                        &&& list_view(events@.last().attributes@) == seq![
                            KeyValueView {
                                key: "level"@,
                                value: AttrView::Text(event.spec_metadata()@.level.spec_name()),
                            },
                            KeyValueView {
                                key: "target"@,
                                value: AttrView::Text(event.spec_metadata()@.target),
                            },
                        ] + event_gathered(event.spec_fields().recorded()).attributes
                    }
                })
            },
    {
        // Ignore events that are not in the context of a span.
        let key = match current {
            Some(id) => id.into_u64(),
            None => {
                return ;
            },
        };
        let builder = match self.builders.remove(key) {
            Some(builder) => builder,
            None => {
                assert(self.builders.view() =~= old(self).builders.view());
                return ;
            },
        };
        let mut builder = builder;
        let meta = event.metadata();
        let mut attributes: Vec<KeyValue> = Vec::new();
        attributes.push(
            KeyValue { key: "level", value: AttrValue::Text(meta.level().as_str().to_owned()) },
        );
        attributes.push(
            KeyValue { key: "target", value: AttrValue::Text(meta.target().to_owned()) },
        );
        assert(list_view(attributes@) =~= seq![
            KeyValueView {
                key: "level"@,
                value: AttrView::Text(event.spec_metadata()@.level.spec_name()),
            },
            KeyValueView {
                key: "target"@,
                value: AttrView::Text(event.spec_metadata()@.target),
            },
        ]);
        let mut visitor = SpanEventVisitor::new();
        event.record(&mut visitor);
        assert(visitor.seen() =~= event.spec_fields().recorded());
        let otel_event = visitor.into_event(now, attributes);
        if builder.status_code.is_none() && matches!(meta.level(), Level::ERROR) {
            builder.status_code = Some(StatusCode::Error);
        }
        let mut events = match builder.message_events.take() {
            Some(events) => events,
            None => Vec::new(),
        };
        events.push(otel_event);
        builder.message_events = Some(events);
        let _ = self.builders.replace(key, builder);
        assert(self.builders.view().dom() =~= old(self).builders.view().dom());
    }

    /// The span `id` has closed at the time `now`. Its builder is handed
    /// back for export, with the end of the span and, where its timings were
    /// tracked, with how long it was busy and idle; the layer forgets the
    /// span. `None` for a span that the layer keeps no builder for.
    pub fn on_close(&mut self, id: Id, now: u64) -> (done: Option<SpanBuilder>)
        requires
            old(self).wf(),
        ensures
            final(self).wf(),
            final(self).tracks_inactivity() == old(self).tracks_inactivity(),
            final(self).builders() == old(self).builders().remove(id.value()),
            final(self).timings() == old(self).timings().remove(id.value()),
            done is Some <==> old(self).builders().contains_key(id.value()),
            done matches Some(b) ==> ({
                let was = old(self).builders()[id.value()];
                &&& b.end_time == Some(now)
                &&& b.name == was.name
                &&& b.span_kind == was.span_kind
                &&& b.trace_id == was.trace_id
                &&& b.span_id == was.span_id
                &&& b.parent_context == was.parent_context
                &&& b.start_time == was.start_time
                &&& b.message_events == was.message_events
                &&& b.links == was.links
                &&& b.status_code == was.status_code
                &&& b.sampling_result == was.sampling_result
                &&& attributes_view(b.attributes) == if old(self).timings().contains_key(
                    id.value(),
                ) {
                    attributes_view(was.attributes) + timing_attributes(
                        old(self).timings()[id.value()],
                    )
                } else {
                    attributes_view(was.attributes)
                }
                &&& !old(self).timings().contains_key(id.value()) ==> b.attributes
                    == was.attributes
            }),
    {
        let key = id.into_u64();
        let timings = self.timings.remove(key);
        match self.builders.remove(key) {
            Some(builder) => {
                let mut builder = builder;
                // Append busy/idle timings when enabled.
                match timings {
                    Some(t) => {
                        let ghost before = attributes_view(builder.attributes);
                        push_attribute(
                            &mut builder.attributes,
                            KeyValue { key: "busy_ns", value: AttrValue::Text(count_text(t.busy)) },
                        );
                        push_attribute(
                            &mut builder.attributes,
                            KeyValue { key: "idle_ns", value: AttrValue::Text(count_text(t.idle)) },
                        );
                        assert(attributes_view(builder.attributes) =~= before + timing_attributes(
                            t,
                        ));
                    },
                    None => {},
                }
                builder.end_time = Some(now);
                Some(builder)
            },
            None => None,
        }
    }
}

} // verus!
