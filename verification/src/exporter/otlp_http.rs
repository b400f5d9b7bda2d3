//! The OTLP trace payload: what each message of an export request holds.

use std::borrow::Cow;

use vstd::prelude::*;
use vstd::string::*;

use crate::propagation::TraceFlags;
use crate::span::{cow_str, AttributeValue, Event, FinishedSpan, Link, SpanKind, Status};
use crate::time::Timestamp;

verus! {

/// The content type of an OTLP/HTTP request.
pub const PROTOBUF_CONTENT_TYPE: &'static str = "application/x-protobuf";

/// The service name where none is configured.
pub const DEFAULT_SERVICE_NAME: &'static str = "unknown_service";

/// The name of the instrumentation scope.
pub const SCOPE_NAME: &'static str = "auspex";

/// The version of the instrumentation scope.
pub const SCOPE_VERSION: &'static str = "0.1.0";

/// The value of a key.
#[derive(Debug, PartialEq, Eq)]
pub enum Value {
    StringValue(String),
    BoolValue(bool),
    IntValue(i64),
    /// The IEEE 754 bits of a double-precision number.
    DoubleValue(u64),
}

/// A value of any type.
#[derive(Debug, PartialEq, Eq)]
pub struct AnyValue {
    pub value: Option<Value>,
}

/// A key and its value.
#[derive(Debug, PartialEq, Eq)]
pub struct KeyValue {
    pub key: String,
    pub value: Option<AnyValue>,
}

/// An event in a payload.
#[derive(Debug, PartialEq, Eq)]
pub struct SpanEvent {
    pub time_unix_nano: u64,
    pub name: String,
    pub attributes: Vec<KeyValue>,
    pub dropped_attributes_count: u32,
}

/// A link in a payload.
#[derive(Debug, PartialEq, Eq)]
pub struct SpanLink {
    pub trace_id: Vec<u8>,
    pub span_id: Vec<u8>,
    pub trace_state: String,
    pub attributes: Vec<KeyValue>,
    pub dropped_attributes_count: u32,
    pub flags: u32,
}

/// A status in a payload.
#[derive(Debug, PartialEq, Eq)]
pub struct SpanStatus {
    pub message: String,
    pub code: i32,
}

/// A span in a payload.
#[derive(Debug, PartialEq, Eq)]
pub struct Span {
    pub trace_id: Vec<u8>,
    pub span_id: Vec<u8>,
    pub trace_state: String,
    pub parent_span_id: Vec<u8>,
    pub flags: u32,
    pub name: String,
    pub kind: i32,
    pub start_time_unix_nano: u64,
    pub end_time_unix_nano: u64,
    pub attributes: Vec<KeyValue>,
    pub dropped_attributes_count: u32,
    pub events: Vec<SpanEvent>,
    pub dropped_events_count: u32,
    pub links: Vec<SpanLink>,
    pub dropped_links_count: u32,
    pub status: Option<SpanStatus>,
}

/// What produced the spans: the service and its attributes.
#[derive(Debug, PartialEq, Eq)]
pub struct Resource {
    pub attributes: Vec<KeyValue>,
    pub dropped_attributes_count: u32,
}

/// What instrumented the spans.
#[derive(Debug, PartialEq, Eq)]
pub struct InstrumentationScope {
    pub name: String,
    pub version: String,
    pub attributes: Vec<KeyValue>,
    pub dropped_attributes_count: u32,
}

/// The spans of a scope.
#[derive(Debug, PartialEq, Eq)]
pub struct ScopeSpans {
    pub scope: Option<InstrumentationScope>,
    pub spans: Vec<Span>,
    pub schema_url: String,
}

/// The spans of a resource.
#[derive(Debug, PartialEq, Eq)]
pub struct ResourceSpans {
    pub resource: Option<Resource>,
    pub scope_spans: Vec<ScopeSpans>,
    pub schema_url: String,
}

/// An export request.
#[derive(Debug, PartialEq, Eq)]
pub struct ExportTraceServiceRequest {
    pub resource_spans: Vec<ResourceSpans>,
}

/// Nanoseconds since the epoch, as far as 64 bits hold them; zero before it.
pub open spec fn unix_nanos(t: Timestamp) -> u64 {
    if t@ < 0 {
        0
    } else if t@ <= u64::MAX {
        t@ as u64
    } else {
        u64::MAX
    }
}

/// Nanoseconds since the epoch. Saturates rather than wraps: they overflow 64
/// bits in the year 2554.
pub fn system_time_to_nanos(t: &Timestamp) -> (r: u64)
    ensures
        r == unix_nanos(*t),
{
    match t.since_epoch() {
        None => 0,
        Some(n) => if n <= u64::MAX as u128 {
            n as u64
        } else {
            u64::MAX
        },
    }
}

/// What a value in a payload says.
pub open spec fn value_of(v: Value) -> crate::span::ValueView {
    match v {
        Value::StringValue(s) => crate::span::ValueView::Text(s@),
        Value::BoolValue(b) => crate::span::ValueView::Bool(b),
        Value::IntValue(i) => crate::span::ValueView::Int(i),
        Value::DoubleValue(bits) => crate::span::ValueView::Float(bits),
    }
}

/// Whether a key and its value in a payload say what an attribute says.
pub open spec fn pair_says(kv: KeyValue, key: Seq<char>, value: crate::span::ValueView) -> bool {
    &&& kv.key@ == key
    &&& kv.value is Some
    &&& kv.value->0.value is Some
    &&& value_of(kv.value->0.value->0) == value
}

/// Whether the keys and values in a payload say, one by one, what a list of
/// attributes says.
pub open spec fn pairs_say(
    kvs: Seq<KeyValue>,
    list: Seq<(Seq<char>, crate::span::ValueView)>,
) -> bool {
    &&& kvs.len() == list.len()
    &&& forall|i: int|
        0 <= i < kvs.len() ==> pair_says(#[trigger] kvs[i], list[i].0, list[i].1)
}

/// Whether an event in a payload says what an event says.
pub open spec fn event_says(p: SpanEvent, e: crate::span::EventView) -> bool {
    &&& p.time_unix_nano == unix_nanos(e.timestamp)
    &&& p.name@ == e.name
    &&& pairs_say(p.attributes@, e.attributes)
    &&& p.dropped_attributes_count == 0
}

/// Whether a link in a payload says what a link says.
pub open spec fn link_says(p: SpanLink, l: crate::span::LinkView) -> bool {
    &&& p.trace_id@ == l.trace_id@
    &&& p.span_id@ == l.span_id@
    &&& p.trace_state@ == ""@
    &&& pairs_say(p.attributes@, l.attributes)
    &&& p.dropped_attributes_count == 0
    &&& p.flags == 0
}

/// Whether a status in a payload says what a status says.
pub open spec fn status_says(p: SpanStatus, s: crate::span::StatusView) -> bool {
    match s {
        crate::span::StatusView::Unset => p.code == 0 && p.message@ == ""@,
        crate::span::StatusView::Okay => p.code == 1 && p.message@ == ""@,
        crate::span::StatusView::Error { message } => p.code == 2 && p.message@ == message,
    }
}

/// The number of a span kind. Only servers and clients have their own.
pub open spec fn kind_number(kind: SpanKind) -> i32 {
    match kind {
        SpanKind::Server => 2,
        SpanKind::Client => 3,
        _ => 1,
    }
}

/// Whether a span in a payload says what a span says.
pub open spec fn span_says(p: Span, s: crate::span::SpanView) -> bool {
    &&& p.trace_id@ == s.trace_id@
    &&& p.span_id@ == s.span_id@
    &&& p.parent_span_id@ == (match s.parent_span_id {
        Some(id) => id@,
        None => seq![],
    })
    &&& p.trace_state@ == (match s.trace_state {
        Some(t) => t,
        None => ""@,
    })
    &&& p.flags == crate::propagation::traceparent::clean_flags(s.is_sampled)
    &&& p.name@ == s.name
    &&& p.kind == kind_number(s.kind)
    &&& p.start_time_unix_nano == unix_nanos(s.start_time)
    &&& s.end_time matches Some(end) && p.end_time_unix_nano == unix_nanos(end)
    &&& pairs_say(p.attributes@, s.attributes)
    &&& p.dropped_attributes_count == s.dropped_attributes_count
    &&& p.events@.len() == s.events.len()
    &&& forall|i: int| 0 <= i < s.events.len() ==> event_says(#[trigger] p.events@[i], s.events[i])
    &&& p.dropped_events_count == s.dropped_events_count
    &&& p.links@.len() == s.links.len()
    &&& forall|i: int| 0 <= i < s.links.len() ==> link_says(#[trigger] p.links@[i], s.links[i])
    &&& p.dropped_links_count == s.dropped_links_count
    &&& p.status is Some
    &&& status_says(p.status->0, s.status)
}

/// The attributes of the resource: the service name first, and then the
/// configured ones, all of them texts.
pub open spec fn resource_list(
    service_name: Seq<char>,
    attributes: Seq<(Seq<char>, Seq<char>)>,
) -> Seq<(Seq<char>, crate::span::ValueView)> {
    seq![("service.name"@, crate::span::ValueView::Text(service_name))] + attributes.map_values(
        |p: (Seq<char>, Seq<char>)| (p.0, crate::span::ValueView::Text(p.1)),
    )
}

/// Whether an export request carries the spans, in order, of one resource and
/// one scope, and nothing else.
pub open spec fn request_says(
    r: ExportTraceServiceRequest,
    batch: Seq<FinishedSpan>,
    service_name: Seq<char>,
    attributes: Seq<(Seq<char>, Seq<char>)>,
) -> bool {
    let rs = r.resource_spans@[0];
    let ss = rs.scope_spans@[0];
    &&& r.resource_spans@.len() == 1
    &&& rs.resource is Some
    &&& pairs_say(rs.resource->0.attributes@, resource_list(service_name, attributes))
    &&& rs.resource->0.dropped_attributes_count == 0
    &&& rs.schema_url@ == ""@
    &&& rs.scope_spans@.len() == 1
    &&& ss.scope is Some
    &&& ss.scope->0.name@ == SCOPE_NAME@
    &&& ss.scope->0.version@ == SCOPE_VERSION@
    &&& ss.scope->0.attributes@.len() == 0
    &&& ss.scope->0.dropped_attributes_count == 0
    &&& ss.schema_url@ == ""@
    &&& ss.spans@.len() == batch.len()
    &&& forall|i: int| 0 <= i < batch.len() ==> span_says(#[trigger] ss.spans@[i], batch[i]@)
}

fn attribute_value_to_any_value(v: &AttributeValue) -> (r: AnyValue)
    ensures
        r.value is Some,
        value_of(r.value->0) == v@,
{
    let value = match v {
        AttributeValue::String(s) => Value::StringValue(cow_str(s).to_owned()),
        AttributeValue::Int(i) => Value::IntValue(*i),
        AttributeValue::Float(bits) => Value::DoubleValue(*bits),
        AttributeValue::Bool(b) => Value::BoolValue(*b),
    };
    AnyValue { value: Some(value) }
}

fn to_key_value(key: &str, value: &AttributeValue) -> (r: KeyValue)
    ensures
        pair_says(r, key@, value@),
{
    KeyValue { key: key.to_owned(), value: Some(attribute_value_to_any_value(value)) }
}

fn attributes_to_proto(attrs: &[(Cow<'static, str>, AttributeValue)]) -> (r: Vec<KeyValue>)
    ensures
        pairs_say(r@, crate::span::attributes_view(attrs@)),
{
    let mut out: Vec<KeyValue> = Vec::new();
    let mut i: usize = 0;
    let ghost list = crate::span::attributes_view(attrs@);
    while i < attrs.len()
        invariant
            i <= attrs@.len(),
            list == crate::span::attributes_view(attrs@),
            out@.len() == i,
            forall|k: int| 0 <= k < i ==> pair_says(#[trigger] out@[k], list[k].0, list[k].1),
        decreases attrs.len() - i,
    {
        let kv = to_key_value(cow_str(&attrs[i].0), &attrs[i].1);
        assert(pair_says(kv, list[i as int].0, list[i as int].1));
        out.push(kv);
        i += 1;
    }
    out
}

fn event_to_proto(e: &Event) -> (r: SpanEvent)
    ensures
        event_says(r, e@),
{
    SpanEvent {
        time_unix_nano: system_time_to_nanos(&e.timestamp),
        name: cow_str(&e.name).to_owned(),
        attributes: attributes_to_proto(e.attributes.as_slice()),
        dropped_attributes_count: 0,
    }
}

fn link_to_proto(l: &Link) -> (r: SpanLink)
    ensures
        link_says(r, l@),
{
    SpanLink {
        trace_id: l.trace_id.to_vec(),
        span_id: l.span_id.to_vec(),
        trace_state: "".to_owned(),
        attributes: attributes_to_proto(l.attributes.as_slice()),
        dropped_attributes_count: 0,
        flags: 0,
    }
}

fn status_to_proto(s: &Status) -> (r: SpanStatus)
    ensures
        status_says(r, s@),
{
    match s {
        Status::Unset => SpanStatus { code: 0, message: "".to_owned() },
        Status::Okay => SpanStatus { code: 1, message: "".to_owned() },
        Status::Error { message } => SpanStatus { code: 2, message: cow_str(message).to_owned() },
    }
}

fn span_kind_to_proto(kind: SpanKind) -> (r: i32)
    ensures
        r == kind_number(kind),
{
    match kind {
        SpanKind::Server => 2,
        SpanKind::Client => 3,
        SpanKind::Internal | SpanKind::Producer | SpanKind::Consumer => 1,
    }
}

/// The payload of one span.
pub fn finished_span_to_proto(s: &FinishedSpan) -> (r: Span)
    ensures
        span_says(r, s@),
{
    let mut events: Vec<SpanEvent> = Vec::new();
    let live_events = s.events.as_slice();
    let mut i: usize = 0;
    while i < live_events.len()
        invariant
            i <= live_events@.len(),
            events@.len() == i,
            forall|k: int| 0 <= k < i ==> event_says(#[trigger] events@[k], live_events@[k]@),
        decreases live_events.len() - i,
    {
        events.push(event_to_proto(&live_events[i]));
        i += 1;
    }
    let mut links: Vec<SpanLink> = Vec::new();
    let live_links = s.links.as_slice();
    let mut j: usize = 0;
    while j < live_links.len()
        invariant
            j <= live_links@.len(),
            links@.len() == j,
            forall|k: int| 0 <= k < j ==> link_says(#[trigger] links@[k], live_links@[k]@),
        decreases live_links.len() - j,
    {
        links.push(link_to_proto(&live_links[j]));
        j += 1;
    }
    Span {
        trace_id: s.trace_id.to_vec(),
        span_id: s.span_id.to_vec(),
        parent_span_id: match &s.parent_span_id {
            Some(id) => id.to_vec(),
            None => Vec::new(),
        },
        name: cow_str(&s.name).to_owned(),
        kind: span_kind_to_proto(s.kind),
        start_time_unix_nano: system_time_to_nanos(&s.start_time),
        end_time_unix_nano: system_time_to_nanos(&s.end_time),
        attributes: attributes_to_proto(s.attributes.as_slice()),
        dropped_attributes_count: s.dropped_attributes_count,
        events,
        dropped_events_count: s.dropped_events_count,
        links,
        dropped_links_count: s.dropped_links_count,
        status: Some(status_to_proto(&s.status)),
        trace_state: match &s.trace_state {
            Some(state) => state.as_str().to_owned(),
            None => "".to_owned(),
        },
        flags: TraceFlags::from_sampled(s.is_sampled).as_u8() as u32,
    }
}

/// The attributes of the resource.
fn resource_attributes_to_proto(service_name: &str, attributes: &Vec<(String, String)>) -> (r: Vec<
    KeyValue,
>)
    ensures
        pairs_say(r@, resource_list(service_name@, crate::config::pairs_view(attributes@))),
{
    let ghost list = resource_list(service_name@, crate::config::pairs_view(attributes@));
    let mut out: Vec<KeyValue> = Vec::new();
    out.push(
        to_key_value(
            "service.name",
            &AttributeValue::String(Cow::Owned(service_name.to_owned())),
        ),
    );
    let mut i: usize = 0;
    while i < attributes.len()
        invariant
            i <= attributes@.len(),
            list == resource_list(service_name@, crate::config::pairs_view(attributes@)),
            out@.len() == i + 1,
            forall|k: int| 0 <= k <= i ==> pair_says(#[trigger] out@[k], list[k].0, list[k].1),
        decreases attributes.len() - i,
    {
        let value = AttributeValue::String(Cow::Owned(attributes[i].1.clone()));
        let kv = to_key_value(attributes[i].0.as_str(), &value);
        assert(pair_says(kv, list[i + 1].0, list[i + 1].1));
        out.push(kv);
        i += 1;
    }
    out
}

/// The export request for a batch: one resource with the service name and the
/// configured attributes, one scope, and the spans in order.
pub fn build_export_request(
    batch: &Vec<FinishedSpan>,
    service_name: &str,
    resource_attributes: &Vec<(String, String)>,
) -> (r: ExportTraceServiceRequest)
    ensures
        request_says(
            r,
            batch@,
            service_name@,
            crate::config::pairs_view(resource_attributes@),
        ),
{
    let mut spans: Vec<Span> = Vec::new();
    let mut i: usize = 0;
    while i < batch.len()
        invariant
            i <= batch@.len(),
            spans@.len() == i,
            forall|k: int| 0 <= k < i ==> span_says(#[trigger] spans@[k], batch@[k]@),
        decreases batch.len() - i,
    {
        spans.push(finished_span_to_proto(&batch[i]));
        i += 1;
    }
    let resource = Resource {
        attributes: resource_attributes_to_proto(service_name, resource_attributes),
        dropped_attributes_count: 0,
    };
    let scope = InstrumentationScope {
        name: SCOPE_NAME.to_owned(),
        version: SCOPE_VERSION.to_owned(),
        attributes: Vec::new(),
        dropped_attributes_count: 0,
    };
    let mut scope_spans: Vec<ScopeSpans> = Vec::new();
    scope_spans.push(ScopeSpans { scope: Some(scope), spans, schema_url: "".to_owned() });
    let mut resource_spans: Vec<ResourceSpans> = Vec::new();
    resource_spans.push(
        ResourceSpans { resource: Some(resource), scope_spans, schema_url: "".to_owned() },
    );
    ExportTraceServiceRequest { resource_spans }
}

/// The service name is in the payload exactly once, and first, where the
/// resource attributes do not hold it.
pub proof fn law_service_name_once(
    r: ExportTraceServiceRequest,
    batch: Seq<FinishedSpan>,
    service_name: Seq<char>,
    attributes: Seq<(Seq<char>, Seq<char>)>,
    i: int,
)
    requires
        request_says(r, batch, service_name, attributes),
        crate::config::attributes_settled(attributes),
        0 <= i < r.resource_spans@[0].resource->0.attributes@.len(),
    ensures
        r.resource_spans@[0].resource->0.attributes@[i].key@ == "service.name"@ <==> i == 0,
{
    let kvs = r.resource_spans@[0].resource->0.attributes@;
    let list = resource_list(service_name, attributes);
    assert(pair_says(kvs[i], list[i].0, list[i].1));
    if i > 0 {
        assert(list[i].0 == attributes[i - 1].0);
    }
}

/// The sampled flag is bit zero of the flags in the payload.
pub proof fn law_sampled_flag_is_bit_zero(p: Span, s: crate::span::SpanView)
    requires
        span_says(p, s),
    ensures
        p.flags % 2 == 1 <==> s.is_sampled,
        p.flags <= 1,
{
}

/// The payload of a span says what the span says, field by field: identifiers as
/// bytes, no parent as no bytes, no trace state as an empty text, times in
/// nanoseconds since the epoch, and the kind and the status by their numbers.
pub proof fn law_payload_says_span(p: Span, s: crate::span::SpanView)
    requires
        span_says(p, s),
    ensures
        p.trace_id@ == s.trace_id@,
        p.span_id@ == s.span_id@,
        s.parent_span_id matches Some(id) ==> p.parent_span_id@ == id@,
        s.parent_span_id is None ==> p.parent_span_id@.len() == 0,
        s.trace_state matches Some(t) ==> p.trace_state@ == t,
        s.trace_state is None ==> p.trace_state@.len() == 0,
        s.is_sampled ==> p.flags == 1,
        !s.is_sampled ==> p.flags == 0,
        p.name@ == s.name,
        s.kind == SpanKind::Server ==> p.kind == 2,
        s.kind == SpanKind::Client ==> p.kind == 3,
        s.kind != SpanKind::Server && s.kind != SpanKind::Client ==> p.kind == 1,
        0 <= s.start_time@ <= u64::MAX ==> p.start_time_unix_nano == s.start_time@,
        s.start_time@ < 0 ==> p.start_time_unix_nano == 0,
        s.start_time@ > u64::MAX ==> p.start_time_unix_nano == u64::MAX,
        s.end_time matches Some(end) && {
            &&& 0 <= end@ <= u64::MAX ==> p.end_time_unix_nano == end@
            &&& end@ < 0 ==> p.end_time_unix_nano == 0
            &&& end@ > u64::MAX ==> p.end_time_unix_nano == u64::MAX
        },
        p.dropped_attributes_count == s.dropped_attributes_count,
        p.dropped_events_count == s.dropped_events_count,
        p.dropped_links_count == s.dropped_links_count,
        p.status matches Some(status) && match s.status {
            crate::span::StatusView::Unset => status.code == 0 && status.message@.len() == 0,
            crate::span::StatusView::Okay => status.code == 1 && status.message@.len() == 0,
            crate::span::StatusView::Error { message } => status.code == 2 && status.message@
                == message,
        },
{
    reveal_strlit("");
}

/// Keys and values in a payload that say a list of attributes say it one by one,
/// in order: the same key, and the same value in the form of its own type.
pub proof fn law_payload_attribute(
    kvs: Seq<KeyValue>,
    list: Seq<(Seq<char>, crate::span::ValueView)>,
    i: int,
)
    requires
        pairs_say(kvs, list),
        0 <= i < list.len(),
    ensures
        kvs.len() == list.len(),
        kvs[i].key@ == list[i].0,
        kvs[i].value matches Some(any) && any.value matches Some(value) && match list[i].1 {
            crate::span::ValueView::Text(t) => value matches Value::StringValue(x) && x@ == t,
            crate::span::ValueView::Int(n) => value == Value::IntValue(n),
            crate::span::ValueView::Bool(b) => value == Value::BoolValue(b),
            crate::span::ValueView::Float(bits) => value == Value::DoubleValue(bits),
        },
{
    assert(pair_says(kvs[i], list[i].0, list[i].1));
}

/// The attributes, the events and the links of a span are all in its payload, in
/// order: an event with its name, its time and its attributes, a link with the
/// identifiers that it names and its attributes.
pub proof fn law_payload_lists(p: Span, s: crate::span::SpanView, i: int)
    requires
        span_says(p, s),
    ensures
        pairs_say(p.attributes@, s.attributes),
        p.attributes@.len() == s.attributes.len(),
        p.events@.len() == s.events.len(),
        p.links@.len() == s.links.len(),
        0 <= i < s.events.len() ==> {
            &&& p.events@[i].name@ == s.events[i].name
            &&& 0 <= s.events[i].timestamp@ <= u64::MAX ==> p.events@[i].time_unix_nano
                == s.events[i].timestamp@
            &&& pairs_say(p.events@[i].attributes@, s.events[i].attributes)
            &&& p.events@[i].dropped_attributes_count == 0
        },
        0 <= i < s.links.len() ==> {
            &&& p.links@[i].trace_id@ == s.links[i].trace_id@
            &&& p.links@[i].span_id@ == s.links[i].span_id@
            &&& p.links@[i].trace_state@.len() == 0
            &&& pairs_say(p.links@[i].attributes@, s.links[i].attributes)
            &&& p.links@[i].dropped_attributes_count == 0 && p.links@[i].flags == 0
        },
{
    reveal_strlit("");
    if 0 <= i < s.events.len() {
        assert(event_says(p.events@[i], s.events[i]));
    }
    if 0 <= i < s.links.len() {
        assert(link_says(p.links@[i], s.links[i]));
    }
}

/// Two spans with the same payload agree on everything that a reader of the
/// payload tells apart.
pub proof fn law_payload_tells_spans_apart(
    p: Span,
    a: crate::span::SpanView,
    b: crate::span::SpanView,
)
    requires
        span_says(p, a),
        span_says(p, b),
    ensures
        a.trace_id == b.trace_id,
        a.span_id == b.span_id,
        a.parent_span_id == b.parent_span_id,
        a.is_sampled == b.is_sampled,
        a.name == b.name,
        a.attributes == b.attributes,
        a.status == b.status,
        a.events.len() == b.events.len(),
        a.links.len() == b.links.len(),
{
    crate::context::TraceId::law_bytes_identify(a.trace_id, b.trace_id);
    crate::context::SpanId::law_bytes_identify(a.span_id, b.span_id);
    match (a.parent_span_id, b.parent_span_id) {
        (Some(x), Some(y)) => {
            crate::context::SpanId::law_bytes_identify(x, y);
        },
        (Some(x), None) => {
            crate::context::SpanId::law_bytes_identify(x, x);
        },
        (None, Some(y)) => {
            crate::context::SpanId::law_bytes_identify(y, y);
        },
        _ => {},
    }
    assert forall|i: int| 0 <= i < a.attributes.len() implies a.attributes[i] == b.attributes[i] by {
        assert(pair_says(p.attributes@[i], a.attributes[i].0, a.attributes[i].1));
        assert(pair_says(p.attributes@[i], b.attributes[i].0, b.attributes[i].1));
    }
    assert(a.attributes =~= b.attributes);
}

/// An export request carries every span of the batch, in order, under one
/// resource that names the service first and then has each configured attribute,
/// and under one scope of this library.
pub proof fn law_request_carries_batch(
    r: ExportTraceServiceRequest,
    batch: Seq<FinishedSpan>,
    service_name: Seq<char>,
    attributes: Seq<(Seq<char>, Seq<char>)>,
    i: int,
)
    requires
        request_says(r, batch, service_name, attributes),
    ensures
        r.resource_spans@.len() == 1,
        ({
            let rs = r.resource_spans@[0];
            let kvs = rs.resource->0.attributes@;
            &&& rs.resource is Some
            &&& kvs.len() == attributes.len() + 1
            &&& kvs[0].key@ == "service.name"@
            &&& kvs[0].value matches Some(any) && any.value matches Some(Value::StringValue(x))
                && x@ == service_name
            &&& 0 <= i < attributes.len() ==> {
                &&& kvs[i + 1].key@ == attributes[i].0
                &&& kvs[i + 1].value matches Some(any) && any.value matches Some(
                    Value::StringValue(x),
                ) && x@ == attributes[i].1
            }
            &&& rs.scope_spans@.len() == 1
            &&& rs.scope_spans@[0].scope matches Some(scope) && scope.name@ == "auspex"@
                && scope.version@ == "0.1.0"@
            &&& rs.scope_spans@[0].spans@.len() == batch.len()
            &&& 0 <= i < batch.len() ==> span_says(rs.scope_spans@[0].spans@[i], batch[i]@)
        }),
{
    let kvs = r.resource_spans@[0].resource->0.attributes@;
    let list = resource_list(service_name, attributes);
    assert(pair_says(kvs[0], list[0].0, list[0].1));
    if 0 <= i < attributes.len() {
        assert(pair_says(kvs[i + 1], list[i + 1].0, list[i + 1].1));
        assert(list[i + 1].0 == attributes[i].0);
    }
}

} // verus!
