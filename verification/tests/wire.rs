use std::borrow::Cow;

use auspex::context::{SpanId, TraceId};
use auspex::exporter::otlp_http::{
    build_export_request, ExportTraceServiceRequest, KeyValue, Span, SpanEvent, SpanLink, Value,
};
use auspex::exporter::tags::TagValue;
use auspex::exporter::zipkin::{build_payload, ZipkinSpan};
use auspex::lists::FewAttributes;
use auspex::span::{Event, Link, OtelSpan};
use auspex::time::Timestamp;
use prost::encoding::{
    bool, bytes, decode_key, double, fixed32, fixed64, int32, int64, skip_field, string, uint32,
    DecodeContext, WireType,
};

fn nested(tag: u32, messages: Vec<Vec<u8>>, out: &mut Vec<u8>) {
    for message in messages {
        bytes::encode(tag, &message, out);
    }
}

fn key_value(kv: &KeyValue) -> Vec<u8> {
    let mut value = Vec::new();
    match kv.value.as_ref().and_then(|v| v.value.as_ref()) {
        Some(Value::StringValue(s)) => string::encode(1, s, &mut value),
        Some(Value::BoolValue(b)) => bool::encode(2, b, &mut value),
        Some(Value::IntValue(i)) => int64::encode(3, i, &mut value),
        Some(Value::DoubleValue(bits)) => double::encode(4, &f64::from_bits(*bits), &mut value),
        None => {}
    }
    let mut out = Vec::new();
    string::encode(1, &kv.key, &mut out);
    bytes::encode(2, &value, &mut out);
    out
}

fn key_values(list: &[KeyValue]) -> Vec<Vec<u8>> {
    list.iter().map(key_value).collect()
}

fn event(e: &SpanEvent) -> Vec<u8> {
    let mut out = Vec::new();
    fixed64::encode(1, &e.time_unix_nano, &mut out);
    string::encode(2, &e.name, &mut out);
    nested(3, key_values(&e.attributes), &mut out);
    uint32::encode(4, &e.dropped_attributes_count, &mut out);
    out
}

fn link(l: &SpanLink) -> Vec<u8> {
    let mut out = Vec::new();
    bytes::encode(1, &l.trace_id, &mut out);
    bytes::encode(2, &l.span_id, &mut out);
    string::encode(3, &l.trace_state, &mut out);
    nested(4, key_values(&l.attributes), &mut out);
    fixed32::encode(6, &l.flags, &mut out);
    out
}

fn span(s: &Span) -> Vec<u8> {
    let mut out = Vec::new();
    bytes::encode(1, &s.trace_id, &mut out);
    bytes::encode(2, &s.span_id, &mut out);
    string::encode(3, &s.trace_state, &mut out);
    bytes::encode(4, &s.parent_span_id, &mut out);
    string::encode(5, &s.name, &mut out);
    int32::encode(6, &s.kind, &mut out);
    fixed64::encode(7, &s.start_time_unix_nano, &mut out);
    fixed64::encode(8, &s.end_time_unix_nano, &mut out);
    nested(9, key_values(&s.attributes), &mut out);
    nested(11, s.events.iter().map(event).collect(), &mut out);
    nested(13, s.links.iter().map(link).collect(), &mut out);
    fixed32::encode(16, &s.flags, &mut out);
    out
}

fn encoded(request: &ExportTraceServiceRequest) -> Vec<u8> {
    let mut out = Vec::new();
    for resource_spans in &request.resource_spans {
        let mut message = Vec::new();
        for scope_spans in &resource_spans.scope_spans {
            let mut scope = Vec::new();
            nested(2, scope_spans.spans.iter().map(span).collect(), &mut scope);
            bytes::encode(2, &scope, &mut message);
        }
        bytes::encode(1, &message, &mut out);
    }
    out
}

/// The length-delimited fields of a message with one tag.
fn decoded(message: &[u8], wanted: u32) -> Vec<Vec<u8>> {
    let mut buf = message;
    let mut found = Vec::new();
    while !buf.is_empty() {
        let (tag, wire_type) = decode_key(&mut buf).expect("a key");
        if wire_type == WireType::LengthDelimited {
            let mut field: Vec<u8> = Vec::new();
            bytes::merge(wire_type, &mut field, &mut buf, DecodeContext::default())
                .expect("a field");
            if tag == wanted {
                found.push(field);
            }
        } else {
            skip_field(wire_type, tag, &mut buf, DecodeContext::default()).expect("a field");
        }
    }
    found
}

#[test]
fn mapping_roundtrips_through_prost() {
    let trace_id = TraceId::generate();
    let span_id = SpanId::generate();
    let mut span = OtelSpan::new(trace_id, span_id, None, Cow::Borrowed("decode-test"));
    span.record("foo".into(), true.into());

    span.add_event(Event {
        name: "exception".into(),
        timestamp: Timestamp { before_epoch: false, secs: 3, nanos: 4 },
        attributes: FewAttributes::from_items(vec![("exception.type".into(), "Boom".into())]),
    });
    let linked_trace = TraceId::generate();
    let linked_span = SpanId::generate();
    span.add_link(Link {
        trace_id: linked_trace,
        span_id: linked_span,
        attributes: FewAttributes::from_items(vec![("link.kind".into(), 1i64.into())]),
    });

    let req = build_export_request(&vec![span.finish()], "svc", &Vec::new());
    assert_eq!(req.resource_spans[0].scope_spans[0].spans[0].events[0].time_unix_nano, 3_000_000_004);
    let message = encoded(&req);

    let resource_spans = decoded(&message, 1);
    assert_eq!(resource_spans.len(), 1);
    let spans = decoded(&decoded(&resource_spans[0], 2)[0], 2);
    assert_eq!(spans.len(), 1);
    let span = &spans[0];
    assert_eq!(decoded(span, 5), vec![b"decode-test".to_vec()]);
    assert_eq!(decoded(span, 1), vec![trace_id.as_bytes().to_vec()]);
    assert_eq!(decoded(span, 2), vec![span_id.as_bytes().to_vec()]);

    let events = decoded(span, 11);
    assert_eq!(events.len(), 1, "the event should survive the roundtrip");
    assert_eq!(decoded(&events[0], 2), vec![b"exception".to_vec()]);
    assert_eq!(decoded(&decoded(&events[0], 3)[0], 1), vec![b"exception.type".to_vec()]);

    let links = decoded(span, 13);
    assert_eq!(links.len(), 1, "the link should survive the roundtrip");
    assert_eq!(decoded(&links[0], 1), vec![linked_trace.as_bytes().to_vec()]);
    assert_eq!(decoded(&links[0], 2), vec![linked_span.as_bytes().to_vec()]);
    assert_eq!(decoded(&decoded(&links[0], 4)[0], 1), vec![b"link.kind".to_vec()]);
}

fn json_text(text: &str) -> serde_json::Value {
    serde_json::Value::String(text.to_string())
}

fn json_span(s: &ZipkinSpan) -> serde_json::Value {
    let mut endpoint = serde_json::Map::new();
    endpoint.insert("serviceName".to_string(), json_text(&s.local_endpoint.service_name));
    let mut tags = serde_json::Map::new();
    for (key, value) in s.tags.entries() {
        let text = match value {
            TagValue::Text(t) => t.clone(),
            TagValue::Float(bits) => f64::from_bits(*bits).to_string(),
        };
        tags.insert(key.clone(), json_text(&text));
    }
    let mut span = serde_json::Map::new();
    span.insert("traceId".to_string(), json_text(&s.trace_id));
    span.insert("id".to_string(), json_text(&s.id));
    if let Some(parent) = &s.parent_id {
        span.insert("parentId".to_string(), json_text(parent));
    }
    span.insert("name".to_string(), json_text(&s.name));
    if let Some(kind) = s.kind {
        span.insert("kind".to_string(), json_text(kind));
    }
    span.insert("timestamp".to_string(), s.timestamp.into());
    span.insert("duration".to_string(), s.duration.into());
    span.insert("localEndpoint".to_string(), serde_json::Value::Object(endpoint));
    if !tags.is_empty() {
        span.insert("tags".to_string(), serde_json::Value::Object(tags));
    }
    serde_json::Value::Object(span)
}

#[test]
fn serialized_payload_is_valid_zipkin_v2_json() {
    let live = OtelSpan::new(TraceId::generate(), SpanId::generate(), None, Cow::Borrowed("GET /"));
    let spans = build_payload(&vec![live.finish()], "svc", &Vec::new());
    let values: Vec<serde_json::Value> = spans.iter().map(json_span).collect();
    let bytes = serde_json::to_vec(&values).expect("serialize");
    let json: serde_json::Value = serde_json::from_slice(&bytes).expect("valid JSON");

    let arr = json.as_array().expect("top level is an array");
    assert_eq!(arr.len(), 1);
    let s = &arr[0];
    assert_eq!(
        s["traceId"].as_str().map(str::len),
        Some(32),
        "128-bit trace id, 32 hex chars"
    );
    assert_eq!(s["id"].as_str().map(str::len), Some(16), "64-bit span id, 16 hex chars");
    assert_eq!(s["name"], "GET /");
    assert_eq!(s["localEndpoint"]["serviceName"], "svc");
    assert!(s["timestamp"].is_u64(), "timestamp is microseconds (number)");
    assert!(spans[0].timestamp > 1_600_000_000_000_000, "timestamp is microseconds");
    assert!(spans[0].parent_id.is_none());
}
