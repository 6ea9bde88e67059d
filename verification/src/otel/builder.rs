//! The data of a span on its way to export, and the visitors that fill it
//! from recorded values.
use vstd::prelude::*;
use crate::field::{Field, Payload, Value, Visit};
use crate::otel::{kind_named, str_to_span_kind, SamplingDecision, SpanKind};
use crate::text::{render, rendered, str_eq};

verus! {

/// The value of an attribute.
#[derive(Debug)]
pub enum AttrValue {
    Bool(bool),
    I64(i64),
    Text(String),
}

/// What an [`AttrValue`] holds.
pub enum AttrView {
    Bool(bool),
    I64(int),
    Text(Seq<char>),
}

impl View for AttrValue {
    type V = AttrView;

    open spec fn view(&self) -> AttrView {
        match self {
            AttrValue::Bool(b) => AttrView::Bool(*b),
            AttrValue::I64(n) => AttrView::I64(*n as int),
            AttrValue::Text(s) => AttrView::Text(s@),
        }
    }
}

/// An attribute: a key and a value.
#[derive(Debug)]
pub struct KeyValue {
    pub key: &'static str,
    pub value: AttrValue,
}

/// What a [`KeyValue`] holds.
pub struct KeyValueView {
    pub key: Seq<char>,
    pub value: AttrView,
}

impl View for KeyValue {
    type V = KeyValueView;

    open spec fn view(&self) -> KeyValueView {
        KeyValueView { key: self.key@, value: self.value@ }
    }
}

/// What a list of attributes holds, in order.
pub open spec fn list_view(list: Seq<KeyValue>) -> Seq<KeyValueView> {
    Seq::new(list.len(), |i: int| list[i]@)
}

/// What the attributes of a builder or event hold, in order; nothing where
/// there is no list yet.
pub open spec fn attributes_view(attributes: Option<Vec<KeyValue>>) -> Seq<KeyValueView> {
    match attributes {
        Some(list) => list_view(list@),
        None => Seq::empty(),
    }
}

/// What identifies a span in a distributed trace.
#[derive(Clone, Copy, Debug, PartialEq, Eq, Structural)]
pub struct SpanContext {
    pub trace_id: u128,
    pub span_id: u64,
    pub trace_flags: u8,
    pub is_remote: bool,
}

impl SpanContext {
    /// A context is valid where neither of its identifiers is zero.
    pub open spec fn spec_is_valid(self) -> bool {
        self.trace_id != 0 && self.span_id != 0
    }

    /// Whether neither identifier of the context is zero.
    pub fn is_valid(&self) -> (r: bool)
        ensures
            r == self.spec_is_valid(),
    {
        self.trace_id != 0 && self.span_id != 0
    }
}

/// The state of a span at the end of its life.
#[derive(Clone, Copy, Debug, PartialEq, Eq, Structural)]
pub enum StatusCode {
    Unset,
    Fine,
    Error,
}

/// An event as it is exported with its span.
#[derive(Debug)]
pub struct OtelEvent {
    pub name: String,
    /// Nanoseconds since the start of 1970.
    pub timestamp: u64,
    pub attributes: Vec<KeyValue>,
}

/// What a sampler decided about a span, with the attributes it adds.
#[derive(Debug)]
pub struct SamplingResult {
    pub decision: SamplingDecision,
    pub attributes: Vec<KeyValue>,
}

/// The surroundings of a span in a distributed trace: the span that is
/// active there, or the context of a span of another process.
#[derive(Clone, Copy, Debug, PartialEq, Eq, Structural)]
pub struct OtelContext {
    pub active: Option<SpanContext>,
    pub remote: Option<SpanContext>,
}

/// What is known of a span before it is exported.
#[derive(Debug)]
pub struct SpanBuilder {
    pub name: String,
    pub span_kind: Option<SpanKind>,
    pub trace_id: Option<u128>,
    pub span_id: Option<u64>,
    pub parent_context: Option<OtelContext>,
    /// Nanoseconds since the start of 1970.
    pub start_time: Option<u64>,
    /// Nanoseconds since the start of 1970.
    pub end_time: Option<u64>,
    pub attributes: Option<Vec<KeyValue>>,
    pub message_events: Option<Vec<OtelEvent>>,
    pub links: Option<Vec<SpanContext>>,
    pub status_code: Option<StatusCode>,
    pub sampling_result: Option<SamplingResult>,
}

impl SpanBuilder {
    /// A builder for a span called `name`, of which nothing else is known.
    pub fn from_name(name: &str) -> (b: SpanBuilder)
        ensures
            b.name@ == name@,
            b.span_kind is None,
            b.trace_id is None,
            b.span_id is None,
            b.parent_context is None,
            b.start_time is None,
            b.end_time is None,
            b.attributes is None,
            b.message_events is None,
            b.links is None,
            b.status_code is None,
            b.sampling_result is None,
    {
        SpanBuilder {
            name: name.to_owned(),
            span_kind: None,
            trace_id: None,
            span_id: None,
            parent_context: None,
            start_time: None,
            end_time: None,
            attributes: None,
            message_events: None,
            links: None,
            status_code: None,
            sampling_result: None,
        }
    }
}

/// Appends an attribute to a list that may not exist yet.
pub fn push_attribute(attributes: &mut Option<Vec<KeyValue>>, attribute: KeyValue)
    ensures
        *final(attributes) is Some,
        attributes_view(*final(attributes)) == attributes_view(*old(attributes)).push(attribute@),
{
    let mut list = match attributes.take() {
        Some(list) => list,
        None => Vec::new(),
    };
    list.push(attribute);
    assert(list_view(list@) =~= attributes_view(*old(attributes)).push(attribute@));
    *attributes = Some(list);
}

/// The text of a value as an attribute shows it: a string as it is, any
/// other value in its debug form.
pub open spec fn shown(value: Payload) -> Seq<char> {
    match value {
        Payload::Str(s) => s,
        other => rendered(other),
    }
}

fn show(value: &Value<'_>) -> (text: String)
    ensures
        text@ == shown(value@),
{
    match *value {
        Value::Str(s) => s.to_owned(),
        _ => {
            let mut text = String::new();
            render(&mut text, value);
            assert(Seq::<char>::empty() + rendered(value@) =~= rendered(value@));
            text
        },
    }
}

/// The attribute that a value makes under the key `key`: booleans and
/// signed integers keep their type, everything else is text.
pub open spec fn attribute_of(key: Seq<char>, value: Payload) -> KeyValueView {
    KeyValueView {
        key,
        value: match value {
            Payload::Bool(b) => AttrView::Bool(b),
            Payload::I64(n) => AttrView::I64(n),
            other => AttrView::Text(shown(other)),
        },
    }
}

fn make_attribute(key: &'static str, value: &Value<'_>) -> (attribute: KeyValue)
    ensures
        attribute@ == attribute_of(key@, value@),
{
    let value = match *value {
        Value::Bool(b) => AttrValue::Bool(b),
        Value::I64(n) => AttrValue::I64(n),
        _ => AttrValue::Text(show(value)),
    };
    KeyValue { key, value }
}

/// What the values of a span tell of it: its name and its kind, where a
/// value says so, and its attributes.
pub struct Gathered {
    pub name: Option<Seq<char>>,
    pub kind: Option<Option<SpanKind>>,
    pub attributes: Seq<KeyValueView>,
}

/// Nothing gathered yet.
pub open spec fn nothing() -> Gathered {
    Gathered { name: None, kind: None, attributes: Seq::empty() }
}

/// What one value of a span adds. A string or a text under `otel.name` is
/// the name of the span and one under `otel.kind` names its kind; every
/// other value is an attribute.
pub open spec fn attribute_step(so_far: Gathered, field: Field, value: Payload) -> Gathered {
    let special = !(value is Bool) && !(value is I64);
    if special && field.spec_name() == "otel.name"@ {
        Gathered { name: Some(shown(value)), ..so_far }
    } else if special && field.spec_name() == "otel.kind"@ {
        Gathered { kind: Some(kind_named(shown(value))), ..so_far }
    } else {
        Gathered {
            attributes: so_far.attributes.push(attribute_of(field.spec_name(), value)),
            ..so_far
        }
    }
}

/// What the values `seen` of a span tell of it.
pub open spec fn span_gathered(seen: Seq<(Field, Payload)>) -> Gathered
    decreases seen.len(),
{
    if seen.len() == 0 {
        nothing()
    } else {
        attribute_step(span_gathered(seen.drop_last()), seen.last().0, seen.last().1)
    }
}

/// What one value of an event adds: the value of the field `message` is the
/// name of the event, every other value is an attribute.
pub open spec fn event_step(so_far: Gathered, field: Field, value: Payload) -> Gathered {
    if field.spec_name() == "message"@ {
        Gathered { name: Some(shown(value)), ..so_far }
    } else {
        Gathered {
            attributes: so_far.attributes.push(attribute_of(field.spec_name(), value)),
            ..so_far
        }
    }
}

/// What the values `seen` of an event tell of it.
pub open spec fn event_gathered(seen: Seq<(Field, Payload)>) -> Gathered
    decreases seen.len(),
{
    if seen.len() == 0 {
        nothing()
    } else {
        event_step(event_gathered(seen.drop_last()), seen.last().0, seen.last().1)
    }
}

/// The characters of an optional string.
pub open spec fn text_of(s: Option<String>) -> Option<Seq<char>> {
    match s {
        Some(t) => Some(t@),
        None => None,
    }
}

/// Gathers from the values of a span what they tell of it.
pub struct SpanAttributeVisitor {
    name: Option<String>,
    kind: Option<Option<SpanKind>>,
    attributes: Vec<KeyValue>,
    log: Ghost<Seq<(Field, Payload)>>,
}

impl SpanAttributeVisitor {
    /// What the visitor has gathered.
    pub closed spec fn gathered(self) -> Gathered {
        Gathered {
            name: text_of(self.name),
            kind: self.kind,
            attributes: list_view(self.attributes@),
        }
    }

    /// The visitor has gathered what the values it has seen tell.
    pub closed spec fn wf(self) -> bool {
        self.gathered() == span_gathered(self.log@)
    }

    /// A visitor that has seen nothing.
    pub fn new() -> (v: SpanAttributeVisitor)
        ensures
            v.wf(),
            v.seen() == Seq::<(Field, Payload)>::empty(),
    {
        let v = SpanAttributeVisitor {
            name: None,
            kind: None,
            attributes: Vec::new(),
            log: Ghost(Seq::empty()),
        };
        assert(list_view(v.attributes@) =~= Seq::<KeyValueView>::empty());
        v
    }

    /// Puts what the visitor has gathered into `builder`: the name and the
    /// kind where a value has told them, and the attributes after those that
    /// the builder has.
    pub fn apply(self, builder: &mut SpanBuilder)
        requires
            self.wf(),
        ensures
            final(builder).name@ == match span_gathered(self.seen()).name {
                Some(name) => name,
                None => old(builder).name@,
            },
            span_gathered(self.seen()).name is None ==> final(builder).name == old(builder).name,
            final(builder).span_kind == match span_gathered(self.seen()).kind {
                Some(kind) => kind,
                None => old(builder).span_kind,
            },
            attributes_view(final(builder).attributes) == attributes_view(old(builder).attributes)
                + span_gathered(self.seen()).attributes,
            span_gathered(self.seen()).attributes.len() == 0 ==> final(builder).attributes == old(builder).attributes,
            final(builder).trace_id == old(builder).trace_id,
            final(builder).span_id == old(builder).span_id,
            final(builder).parent_context == old(builder).parent_context,
            final(builder).start_time == old(builder).start_time,
            final(builder).end_time == old(builder).end_time,
            final(builder).message_events == old(builder).message_events,
            final(builder).links == old(builder).links,
            final(builder).status_code == old(builder).status_code,
            final(builder).sampling_result == old(builder).sampling_result,
    {
        match self.name {
            Some(name) => {
                builder.name = name;
            },
            None => {},
        }
        match self.kind {
            Some(kind) => {
                builder.span_kind = kind;
            },
            None => {},
        }
        let ghost gathered = list_view(self.attributes@);
        let ghost before = attributes_view(builder.attributes);
        let mut rest = self.attributes;
        if rest.len() > 0 {
            let mut list = match builder.attributes.take() {
                Some(list) => list,
                None => Vec::new(),
            };
            assert(list_view(list@) =~= before);
            list.append(&mut rest);
            assert(list_view(list@) =~= before + gathered);
            builder.attributes = Some(list);
        } else {
            assert(before + gathered =~= before);
        }
    }
}

impl Visit for SpanAttributeVisitor {
    open spec fn valid(&self) -> bool {
        self.wf()
    }

    closed spec fn seen(&self) -> Seq<(Field, Payload)> {
        self.log@
    }

    fn record_value(&mut self, field: &Field, value: &Value<'_>) {
        let name = field.name();
        let special = match *value {
            Value::Bool(_) => false,
            Value::I64(_) => false,
            _ => true,
        };
        proof {
            let after = self.log@.push((*field, value@));
            assert(after.drop_last() =~= self.log@);
        }
        if special && str_eq(name, "otel.name") {
            self.name = Some(show(value));
        } else if special && str_eq(name, "otel.kind") {
            let text = show(value);
            self.kind = Some(str_to_span_kind(text.as_str()));
        } else {
            let ghost before = list_view(self.attributes@);
            let attribute = make_attribute(name, value);
            self.attributes.push(attribute);
            assert(list_view(self.attributes@) =~= before.push(attribute@));
        }
        self.log = Ghost(self.log@.push((*field, value@)));
    }
}

/// Gathers from the values of an event what they tell of it.
pub struct SpanEventVisitor {
    name: Option<String>,
    attributes: Vec<KeyValue>,
    log: Ghost<Seq<(Field, Payload)>>,
}

impl SpanEventVisitor {
    /// What the visitor has gathered.
    pub closed spec fn gathered(self) -> Gathered {
        Gathered { name: text_of(self.name), kind: None, attributes: list_view(self.attributes@) }
    }

    /// The visitor has gathered what the values it has seen tell.
    pub closed spec fn wf(self) -> bool {
        self.gathered() == event_gathered(self.log@)
    }

    /// A visitor that has seen nothing.
    pub fn new() -> (v: SpanEventVisitor)
        ensures
            v.wf(),
            v.seen() == Seq::<(Field, Payload)>::empty(),
    {
        let v = SpanEventVisitor { name: None, attributes: Vec::new(), log: Ghost(Seq::empty()) };
        assert(list_view(v.attributes@) =~= Seq::<KeyValueView>::empty());
        v
    }

    /// The event for export: named as the values have told, or without a
    /// name, and with the attributes `first` followed by those gathered.
    pub fn into_event(self, timestamp: u64, first: Vec<KeyValue>) -> (e: OtelEvent)
        requires
            self.wf(),
        ensures
            e.timestamp == timestamp,
            e.name@ == match event_gathered(self.seen()).name {
                Some(name) => name,
                None => Seq::empty(),
            },
            list_view(e.attributes@) == list_view(first@) + event_gathered(
                self.seen(),
            ).attributes,
    {
        let name = match self.name {
            Some(name) => name,
            None => String::new(),
        };
        let ghost gathered = list_view(self.attributes@);
        let ghost given = list_view(first@);
        let mut attributes = first;
        let mut rest = self.attributes;
        attributes.append(&mut rest);
        assert(list_view(attributes@) =~= given + gathered);
        OtelEvent { name, timestamp, attributes }
    }
}

impl Visit for SpanEventVisitor {
    open spec fn valid(&self) -> bool {
        self.wf()
    }

    closed spec fn seen(&self) -> Seq<(Field, Payload)> {
        self.log@
    }

    fn record_value(&mut self, field: &Field, value: &Value<'_>) {
        let name = field.name();
        proof {
            let after = self.log@.push((*field, value@));
            assert(after.drop_last() =~= self.log@);
        }
        if str_eq(name, "message") {
            self.name = Some(show(value));
        } else {
            let ghost before = list_view(self.attributes@);
            let attribute = make_attribute(name, value);
            self.attributes.push(attribute);
            assert(list_view(self.attributes@) =~= before.push(attribute@));
        }
        self.log = Ghost(self.log@.push((*field, value@)));
    }
}

} // verus!
