use std::borrow::Cow;

use auspex::context::{SpanContext, SpanId, TraceId};
use auspex::field::{intern_wellknown, u64_to_attribute_value, EventVisitor, FieldVisitor};
use auspex::layer::{
    begin_span, extract_remote_parent, resolve_lineage, start_span, RemoteExtractor,
};
use auspex::lists::FewAttributes;
use auspex::propagation::TraceState;
use auspex::span::{
    is_protected_http_attribute, AttributeValue, Event, FinishedSpan, Link, OtelSpan, SpanKind,
    Status,
};
use auspex::time::Timestamp;

fn new_span(name: &'static str) -> OtelSpan {
    OtelSpan::new(TraceId::zero(), SpanId::zero(), None, Cow::Borrowed(name))
}

fn at(secs: u64) -> Timestamp {
    Timestamp { before_epoch: false, secs, nanos: 0 }
}

fn text(s: &str) -> AttributeValue {
    AttributeValue::String(Cow::Owned(s.to_string()))
}

fn value<'a>(span: &'a FinishedSpan, key: &str) -> Option<&'a AttributeValue> {
    span.attributes.items().iter().find(|(k, _)| k == key).map(|(_, v)| v)
}

fn log(span: &mut OtelSpan, message: &str, error_level: bool) {
    let mut event = EventVisitor::named(Cow::Borrowed("event src/main.rs:1"));
    event.record_text("message", message.to_string());
    span.on_event(event, error_level);
}

#[test]
fn attribute_value_from_conversions() {
    let v: AttributeValue = "static".into();
    assert!(matches!(v, AttributeValue::String(Cow::Borrowed(_))));

    let v: AttributeValue = "owned".to_string().into();
    assert!(matches!(v, AttributeValue::String(Cow::Owned(_))));

    let v: AttributeValue = 42i64.into();
    assert!(matches!(v, AttributeValue::Int(42)));

    let v: AttributeValue = true.into();
    assert!(matches!(v, AttributeValue::Bool(true)));

    let v: AttributeValue = (-7i32).into();
    assert!(matches!(v, AttributeValue::Int(-7)));
}

#[test]
fn span_lifecycle() {
    let mut span = new_span("test-span");
    assert!(span.end_time.is_none());
    assert!(span.duration().is_none());
    span.end();
    assert!(span.end_time.is_some());
    assert!(span.duration().is_some());
}

#[test]
fn status_default_is_unset() {
    assert_eq!(Status::default(), Status::Unset);
    assert_eq!(SpanKind::default(), SpanKind::Internal);
}

#[test]
fn finished_span_is_immutable_snapshot() {
    let mut live = new_span("test-span");
    live.record("key1".into(), "value1".into());
    live.end();

    let finished = live.finish();

    assert_eq!(finished.name, "test-span");
    assert!(finished.end_time.at_least(&finished.start_time));
    assert_eq!(value(&finished, "key1"), Some(&"value1".into()));
    let copy = finished.clone();
    assert_eq!(copy.attributes, finished.attributes);
    assert_eq!(copy.end_time, finished.end_time);
}

#[test]
fn finishing_span_sets_end_time_exactly_once() {
    let mut live = new_span("test");
    live.end();
    let finished = live.finish();
    assert!(finished.end_time.at_least(&finished.start_time));

    let mut live = new_span("test");
    live.end_at(at(7));
    live.end_at(at(9));
    assert_eq!(live.finish_at(at(11)).end_time, at(7));
}

#[test]
fn finished_span_preserves_dropped_counts() {
    let live = new_span("test");
    let finished = live.finish();

    assert_eq!(finished.dropped_attributes_count, 0);
    assert_eq!(finished.dropped_events_count, 0);
    assert_eq!(finished.dropped_links_count, 0);
}

#[test]
fn record_overwrites_existing_key() {
    let mut span = new_span("test");
    span.record("http.status_code".into(), 200i32.into());
    span.record("http.status_code".into(), 404i32.into());

    let items = span.attributes.items();
    assert_eq!(items.len(), 1);
    assert!(matches!(&items[0], (k, AttributeValue::Int(404)) if k == "http.status_code"));
    assert_eq!(span.dropped_attributes_count, 0);
}

#[test]
fn record_appends_new_keys() {
    let mut span = new_span("test");
    span.record("method".into(), "GET".into());
    span.record("path".into(), "/users".into());

    assert_eq!(span.attributes.items().len(), 2);
    assert_eq!(span.dropped_attributes_count, 0);
}

#[test]
fn record_drops_on_overflow_and_tracks_count() {
    let mut span = new_span("overflow-test");

    for i in 0..16i64 {
        span.record(Cow::Owned(format!("key-{i}")), i.into());
    }
    assert_eq!(span.attributes.items().len(), 16);
    assert_eq!(span.dropped_attributes_count, 0);

    span.record("extra-1".into(), 1i64.into());
    span.record("extra-2".into(), 2i64.into());

    assert_eq!(span.attributes.items().len(), 16);
    assert_eq!(span.dropped_attributes_count, 2);
}

#[test]
fn protected_http_attributes_are_never_dropped() {
    let mut span = new_span("http-test");

    for i in 0..16i64 {
        span.record(Cow::Owned(format!("user.attr.{i}")), i.into());
    }

    span.record("http.response.status_code".into(), 200i64.into());
    span.record("http.route".into(), "/users/{id}".into());
    span.record("error.type".into(), "io::Error".into());

    assert_eq!(span.dropped_attributes_count, 0);
    let items = span.attributes.items();
    assert!(items.iter().any(|(k, _)| k == "http.response.status_code"));
    assert!(items.iter().any(|(k, _)| k == "http.route"));
    assert!(items.iter().any(|(k, _)| k == "error.type"));
    assert_eq!(items.len(), 16);
    assert_eq!(items[0].0, "http.response.status_code");
}

#[test]
fn only_a_span_full_of_protected_attributes_drops_one() {
    let mut span = new_span("full");
    for i in 0..16 {
        span.record(Cow::Owned(format!("http.response.header.h{i}")), text("v"));
    }
    span.record("error.type".into(), text("x"));
    assert_eq!(span.dropped_attributes_count, 1);
    assert!(span.attributes.items().iter().all(|(k, _)| k != "error.type"));
    span.dropped_attributes_count = u32::MAX;
    span.record("other".into(), text("x"));
    assert_eq!(span.dropped_attributes_count, u32::MAX);
}

#[test]
fn protected_keys() {
    assert!(is_protected_http_attribute("http.response.body.size"));
    assert!(is_protected_http_attribute("http.response.header.x"));
    assert!(!is_protected_http_attribute("http.response.header"));
    assert!(!is_protected_http_attribute("http.request.method"));
}

#[test]
fn wellknown_texts_are_borrowed() {
    for s in [
        "", "GET", "HEAD", "POST", "PUT", "DELETE", "CONNECT", "OPTIONS", "TRACE", "PATCH", "http",
        "https",
    ] {
        let c = intern_wellknown(s);
        assert!(matches!(c, Cow::Borrowed(_)), "{s}");
        assert_eq!(c, s);
    }
    let c = intern_wellknown("get");
    assert!(matches!(c, Cow::Owned(_)));
    assert_eq!(c, "get");
}

#[test]
fn unsigned_values_that_do_not_fit_become_text() {
    assert_eq!(u64_to_attribute_value(7), AttributeValue::Int(7));
    assert_eq!(u64_to_attribute_value(i64::MAX as u64), AttributeValue::Int(i64::MAX));
    assert_eq!(u64_to_attribute_value(i64::MAX as u64 + 1), text("9223372036854775808"));
    assert_eq!(u64_to_attribute_value(u64::MAX), text("18446744073709551615"));
}

#[test]
fn control_fields_set_the_span_and_are_no_attributes() {
    let mut span = new_span("before");
    let mut visitor = FieldVisitor { span: &mut span };
    visitor.record_str("otel.name", "after");
    visitor.record_str("otel.kind", "server");
    visitor.record_str("otel.status_code", "ERROR");
    visitor.record_str("otel.status_message", "boom");
    visitor.record_str("remote.trace_id", "x");
    visitor.record_str("remote.parent_span_id", "x");
    visitor.record_bool("remote.sampled", true);
    visitor.record_str("remote.trace_state", "x");
    visitor.record_i64("otel.name", 3);
    visitor.record_str("http.response.header", "x_id=a=b");
    visitor.record_str("http.response.header", "no separator");
    visitor.record_u64("n", 5);
    visitor.record_float_bits("f", 2.5f64.to_bits());
    visitor.record_text("e", "error text".to_string());
    visitor.record_bool("b", false);
    let finished = span.finish();
    assert_eq!(finished.name, "after");
    assert_eq!(finished.kind, SpanKind::Server);
    assert_eq!(finished.status, Status::Error { message: "boom".into() });
    assert_eq!(finished.attributes.items().len(), 5);
    assert_eq!(value(&finished, "http.response.header.x_id"), Some(&text("a=b")));
    assert_eq!(value(&finished, "n"), Some(&AttributeValue::Int(5)));
    assert_eq!(value(&finished, "f"), Some(&AttributeValue::Float(2.5f64.to_bits())));
    assert_eq!(value(&finished, "e"), Some(&text("error text")));
    assert_eq!(value(&finished, "b"), Some(&AttributeValue::Bool(false)));
}

#[test]
fn span_kinds_by_name() {
    for (name, kind) in [
        ("server", SpanKind::Server),
        ("client", SpanKind::Client),
        ("producer", SpanKind::Producer),
        ("consumer", SpanKind::Consumer),
        ("other", SpanKind::Internal),
    ] {
        let mut span = new_span("s");
        span.visit("otel.kind", text(name));
        assert_eq!(span.kind, kind);
    }
}

#[test]
fn status_codes_by_name() {
    let mut span = new_span("s");
    span.visit("otel.status_code", text("error"));
    assert_eq!(span.status, Status::Error { message: "".into() });
    span.visit("otel.status_code", text("OK"));
    assert_eq!(span.status, Status::Okay);
    span.visit("otel.status_code", text("whatever"));
    assert_eq!(span.status, Status::Unset);
    span.visit("otel.status_code", AttributeValue::Int(2));
    assert_eq!(span.status, Status::Unset);
    assert!(span.attributes.items().is_empty());
}

#[test]
fn a_status_message_may_come_before_its_code() {
    let mut span = new_span("s");
    span.visit("otel.status_message", text("boom"));
    assert_eq!(span.status, Status::Unset);
    assert!(span.attributes.items().is_empty());
    span.visit("otel.status_code", text("error"));
    assert_eq!(span.status, Status::Error { message: "boom".into() });
    assert!(span.attributes.items().is_empty());

    let mut span = new_span("s");
    span.visit("otel.status_code", text("error"));
    span.visit("otel.status_message", text("boom"));
    assert_eq!(span.status, Status::Error { message: "boom".into() });
    assert!(span.attributes.items().is_empty());
}

#[test]
fn a_status_code_takes_the_message_that_waits_for_it() {
    let mut span = new_span("s");
    span.visit("otel.status_message", text("early"));
    span.visit("otel.status_message", text("later"));
    span.visit("otel.status_code", text("ok"));
    assert_eq!(span.status, Status::Okay);
    span.visit("otel.status_code", text("error"));
    assert_eq!(span.status, Status::Error { message: "".into() });

    let mut span = new_span("s");
    span.visit("otel.status_message", AttributeValue::Int(1));
    span.visit("otel.status_code", text("error"));
    assert_eq!(span.status, Status::Error { message: "".into() });

    let mut span = new_span("s");
    span.visit("otel.status_message", text("never exported"));
    let finished = span.finish();
    assert_eq!(finished.status, Status::Unset);
    assert!(finished.attributes.items().is_empty());
}

#[test]
fn event_fields() {
    let mut event = EventVisitor::default();
    assert_eq!(event.name, "event");
    event.record_str("message", "hello");
    event.record_str("otel.status_code", "error");
    event.record_i64("i", -3);
    event.record_u64("u", u64::MAX);
    event.record_bool("b", true);
    event.record_text("d", "Some(1)".to_string());
    assert_eq!(event.name, "hello");
    let items = event.attributes.items();
    assert_eq!(items.len(), 4);
    assert_eq!(items[0], ("i".into(), AttributeValue::Int(-3)));
    assert_eq!(items[1], ("u".into(), text("18446744073709551615")));
    assert_eq!(items[2], ("b".into(), AttributeValue::Bool(true)));
    assert_eq!(items[3], ("d".into(), text("Some(1)")));
    event.record_i64("message", -12);
    assert_eq!(event.name, "-12");
    event.record_bool("message", true);
    assert_eq!(event.name, "true");
}

#[test]
fn top_level_span_gets_generated_nonzero_trace_id() {
    let (span, _) = begin_span(None, None, None, Cow::Borrowed("top-level"));
    let finished = span.close();
    assert!(
        !finished.trace_id.is_zero(),
        "root span must get a real generated TraceId"
    );
    assert!(!finished.span_id.is_zero(), "span must get a real generated SpanId");
    assert!(finished.parent_span_id.is_none(), "root span should have no parent");
    assert!(finished.is_sampled);
}

#[test]
fn nested_spans_inherit_trace_id_and_correct_parent() {
    let (parent, parent_ctx) = begin_span(None, None, None, Cow::Borrowed("parent-span"));
    let (child, _) = begin_span(None, Some(parent_ctx), None, Cow::Borrowed("child-span"));

    let child = child.close();
    let parent = parent.close();

    assert_eq!(child.trace_id, parent.trace_id, "child must inherit parent's trace_id");
    assert!(!child.trace_id.is_zero(), "trace_id must be a real generated value");
    assert_eq!(
        child.parent_span_id,
        Some(parent.span_id),
        "child's parent_span_id must match the parent's span_id"
    );
    assert!(parent.parent_span_id.is_none(), "the outermost span is a root");
}

#[test]
fn explicit_parent_beats_current_tracing_context() {
    let (first, first_ctx) = begin_span(None, None, None, Cow::Borrowed("first-in-context"));
    let (_second, second_ctx) =
        begin_span(None, Some(first_ctx.clone()), None, Cow::Borrowed("second-in-context"));
    let (explicit, _) =
        begin_span(Some(first_ctx), Some(second_ctx), None, Cow::Borrowed("explicit-child"));

    let explicit_child = explicit.close();
    let first = first.close();

    assert_eq!(explicit_child.trace_id, first.trace_id);
    assert_eq!(
        explicit_child.parent_span_id,
        Some(first.span_id),
        "explicit parent must be respected even when another span is 'current'"
    );
}

#[test]
fn remote_parent_counts_only_without_a_local_one() {
    let mut fields = RemoteExtractor::default();
    fields.record_text("remote.trace_id", "\"4bf92f3577b34da6a3ce929d0e0e4736\"");
    fields.record_text("remote.parent_span_id", "00f067aa0ba902b7");
    fields.record_bool("remote.sampled", false);
    fields.record_str("remote.trace_state", " a=b ");
    fields.record_str("other", "x");
    fields.record_bool("other", true);
    fields.record_text("remote.sampled", "true");
    let remote = extract_remote_parent(fields).expect("a trace id was given");
    assert_eq!(remote.trace_id.to_string(), "4bf92f3577b34da6a3ce929d0e0e4736");
    assert_eq!(remote.parent_span_id.map(|s| s.to_string()).as_deref(), Some("00f067aa0ba902b7"));
    assert!(!remote.is_sampled);
    assert_eq!(remote.trace_state.as_ref().map(TraceState::as_str), Some("a=b"));

    let trace = remote.trace_id;
    let (span, ctx) = begin_span(None, None, Some(remote), Cow::Borrowed("s"));
    assert_eq!(span.trace_id, trace);
    assert_eq!(ctx.trace_id, trace);
    assert!(!ctx.is_sampled);
    assert!(!span.is_sampled);
    assert_eq!(span.trace_state, ctx.trace_state);
    assert_eq!(span.span_id, ctx.span_id);
}

#[test]
fn fields_without_a_trace_id_announce_no_remote_parent() {
    let mut fields = RemoteExtractor::default();
    fields.record_str("remote.trace_id", "not an id");
    fields.record_str("remote.parent_span_id", "00f067aa0ba902b7");
    fields.record_str("remote.sampled", "true");
    assert!(extract_remote_parent(fields).is_none());

    let mut fields = RemoteExtractor::default();
    fields.record_str("remote.trace_id", "4bf92f3577b34da6a3ce929d0e0e4736");
    let remote = extract_remote_parent(fields).expect("a trace id was given");
    assert!(remote.is_sampled);
    assert!(remote.parent_span_id.is_none());
    assert!(remote.trace_state.is_none());
}

#[test]
fn a_span_without_a_lineage_starts_the_fresh_trace() {
    let fresh = TraceId::from_bytes([9; 16]);
    let id = SpanId::from_bytes([8; 8]);
    let lineage = resolve_lineage(None, None, None);
    assert_eq!(lineage.trace_id, None);
    let (span, ctx) = start_span(lineage, fresh, id, Cow::Borrowed("s"), at(3));
    assert_eq!(span.trace_id, fresh);
    assert_eq!(span.start_time, at(3));
    assert_eq!(ctx, SpanContext::new(fresh, id, true));
}

#[test]
fn event_inside_span_attaches_to_current_span() {
    let mut span = new_span("parent-with-event");
    log(&mut span, "hello from inside the span", false);
    let finished = span.close();
    assert!(!finished.events.items().is_empty(), "event should be attached to the span");
    assert_eq!(finished.events.items()[0].name, "hello from inside the span");
}

#[test]
fn error_level_event_sets_status_error() {
    let mut span = new_span("span-receiving-error-event");
    log(&mut span, "something went wrong", true);
    let finished = span.close();
    assert!(matches!(finished.status, Status::Error { .. }));
    assert_eq!(finished.status, Status::Error { message: "something went wrong".into() });
    assert_eq!(value(&finished, "otel.status_code"), Some(&text("error")));
    assert_eq!(value(&finished, "otel.status_message"), Some(&text("something went wrong")));
}

#[test]
fn event_with_exception_message_field_sets_status_error() {
    let mut span = new_span("span-with-exception");
    let mut event = EventVisitor::named(Cow::Borrowed("event"));
    event.record_str("exception.message", "boom");
    event.record_text("message", "log line".to_string());
    span.on_event(event, false);
    let finished = span.close();
    assert!(matches!(finished.status, Status::Error { .. }));
    assert_eq!(finished.status, Status::Error { message: "boom".into() });
}

#[test]
fn error_messages_show_values_that_are_no_text() {
    for (v, shown) in [(-4i64, "Int(-4)"), (5, "Int(5)")] {
        let mut span = new_span("s");
        let mut event = EventVisitor::named(Cow::Borrowed("event"));
        event.record_i64("error", v);
        span.on_event_at(event, false, at(1));
        assert_eq!(span.status, Status::Error { message: Cow::Owned(shown.to_string()) });
    }
    let mut span = new_span("s");
    let mut event = EventVisitor::named(Cow::Borrowed("event"));
    event.record_bool("error", true);
    span.on_event_at(event, false, at(1));
    assert_eq!(span.status, Status::Error { message: "Bool(true)".into() });

    let mut span = new_span("s");
    let mut event = EventVisitor::named(Cow::Borrowed("the event"));
    event.record_str("error.type", "Boom");
    span.on_event_at(event, false, at(1));
    assert_eq!(span.status, Status::Error { message: "the event".into() });
    assert_eq!(span.events.items()[0].timestamp, at(1));

    let mut span = new_span("s");
    span.on_event_at(EventVisitor::named(Cow::Borrowed("")), true, at(1));
    assert_eq!(span.status, Status::Error { message: "".into() });
    assert_eq!(span.attributes.items().len(), 1);
}

#[test]
fn ninth_event_increments_dropped_events_count() {
    let mut span = new_span("overflow-test");
    for i in 0..10 {
        log(&mut span, &format!("event {i}"), false);
    }
    let finished = span.close();
    assert_eq!(
        finished.dropped_events_count, 2,
        "10 events with capacity 8 should drop 2"
    );
    assert_eq!(finished.events.items().len(), 8);
}

#[test]
fn event_attribute_overflow_does_not_panic() {
    let mut span = new_span("event-attr-test");
    let mut event = EventVisitor::named(Cow::Borrowed("event"));
    for (name, v) in [("a", 1i64), ("b", 2), ("c", 3), ("d", 4), ("e", 5), ("f", 6), ("g", 7)] {
        event.record_i64(name, v);
    }
    event.record_text("message", "fat event".to_string());
    span.on_event(event, false);
    let finished = span.close();
    assert_eq!(finished.events.items()[0].attributes.items().len(), 7);
    assert_eq!(finished.dropped_attributes_count, 0);
}

#[test]
fn normal_event_after_error_event_does_not_clear_status() {
    let mut span = new_span("precedence-test");
    log(&mut span, "first error", true);
    log(&mut span, "normal event after error", false);
    let finished = span.close();
    assert!(
        matches!(finished.status, Status::Error { .. }),
        "a normal event after an error event must not clear the Error status"
    );
    assert_eq!(finished.status, Status::Error { message: "first error".into() });
}

#[test]
fn explicit_otel_status_ok_after_error_event_overrides() {
    let mut span = new_span("precedence-test");
    log(&mut span, "first error", true);
    FieldVisitor { span: &mut span }.record_str("otel.status_code", "ok");
    let finished = span.close();
    assert!(
        matches!(finished.status, Status::Okay),
        "explicit otel.status_code=ok after an error event must result in Ok status"
    );
    assert_eq!(value(&finished, "otel.status_message"), None);
}

#[test]
fn explicit_error_after_error_event_takes_its_message() {
    let mut span = new_span("s");
    log(&mut span, "first error", true);
    span.visit("otel.status_code", text("error"));
    assert_eq!(span.status, Status::Error { message: "first error".into() });
}

#[test]
fn link_has_empty_attributes_in_v0_1_and_within_same_trace() {
    let (_root, root_ctx) = begin_span(None, None, None, Cow::Borrowed("root-for-link"));
    let (mut child, _) =
        begin_span(None, Some(root_ctx.clone()), None, Cow::Borrowed("child-with-follows"));
    child.follow(&root_ctx);
    let child_finished = child.close();

    let links = child_finished.links.items();
    assert_eq!(links.len(), 1, "exactly one follows_from link expected");
    let link = &links[0];
    assert_eq!(link.trace_id, child_finished.trace_id, "link stays in same trace");
    assert!(!link.span_id.is_zero(), "followed span_id must be real");
    assert_ne!(link.span_id, child_finished.span_id, "link target != self");
    assert!(link.attributes.items().is_empty(), "Link.attributes must be empty in v0.1");
    assert_eq!(child_finished.dropped_links_count, 0);
    assert_eq!(link.span_id, root_ctx.span_id);
}

#[test]
fn fifth_link_increments_dropped_links_count() {
    let (mut root, _) = begin_span(None, None, None, Cow::Borrowed("root-with-many-follows"));
    for _ in 0..6 {
        let (_, target) = begin_span(None, None, None, Cow::Borrowed("target"));
        root.follow(&target);
    }
    let finished = root.close();
    assert_eq!(finished.links.items().len(), 4, "only 4 links stored");
    assert_eq!(
        finished.dropped_links_count, 2,
        "5th and 6th links must increment dropped_links_count"
    );
}

#[test]
fn events_and_links_survive_a_clone() {
    let mut span = new_span("s");
    span.add_event(Event {
        name: "e".into(),
        timestamp: at(1),
        attributes: FewAttributes::from_items(vec![("k".into(), text("v"))]),
    });
    span.add_link(Link {
        trace_id: TraceId::from_bytes([1; 16]),
        span_id: SpanId::from_bytes([2; 8]),
        attributes: FewAttributes::from_items(vec![("n".into(), AttributeValue::Int(1))]),
    });
    span.status = Status::Error { message: "m".into() };
    let finished = span.finish_at(at(2));
    let copy = finished.clone();
    assert_eq!(copy.events, finished.events);
    assert_eq!(copy.links, finished.links);
    assert_eq!(copy.status, finished.status);
    assert_eq!(copy.events.items()[0].attributes.items()[0].0, "k");
}

#[test]
fn durations_between_points_in_time() {
    let before = Timestamp { before_epoch: true, secs: 1, nanos: 500 };
    let epoch = Timestamp { before_epoch: true, secs: 0, nanos: 0 };
    let after = Timestamp { before_epoch: false, secs: 2, nanos: 1 };
    assert_eq!(after.since(&before), Some(3_000_000_501));
    assert_eq!(before.since(&after), None);
    assert_eq!(epoch.since_epoch(), Some(0));
    assert_eq!(before.since_epoch(), None);
    assert_eq!(after.since_epoch(), Some(2_000_000_001));
    assert_eq!(epoch.since(&before), Some(1_000_000_500));
    assert_eq!(before.since(&epoch), None);
    assert_eq!(after.since(&epoch), Some(2_000_000_001));

    let mut span = OtelSpan::new_at(TraceId::zero(), SpanId::zero(), None, "s".into(), at(5));
    assert_eq!(span.duration(), None);
    span.end_at(at(3));
    assert_eq!(span.duration(), None);
    let mut span = OtelSpan::new_at(TraceId::zero(), SpanId::zero(), None, "s".into(), at(5));
    span.end_at(at(8));
    assert_eq!(span.duration(), Some(3_000_000_000));
}

#[test]
fn a_new_span_starts_now() {
    let span = new_span("s");
    assert!(!span.start_time.before_epoch);
    assert!(span.start_time.secs > 1_600_000_000);
    assert!(span.start_time.nanos < 1_000_000_000);
}
