use std::borrow::Cow;
use std::time::Duration;

use auspex::context::{SpanId, TraceId};
use auspex::exporter::batch::{should_log, BatchWorker, WorkerAction, WorkerEvent};
use auspex::exporter::otlp_http::{
    build_export_request, finished_span_to_proto, system_time_to_nanos, ExportTraceServiceRequest,
    Span, Value, PROTOBUF_CONTENT_TYPE, SCOPE_NAME,
};
use auspex::exporter::post::{
    build_header_map, classify, Disposition, PostAttempts, PostStep, Reply,
};
use auspex::exporter::retry::{jitter_from_draw, jitter_parts, Backoff, JITTER_PARTS};
use auspex::exporter::tags::{TagValue, Tags};
use auspex::exporter::zipkin::{duration_micros, micros_since_epoch, zipkin_kind, ZipkinSpan};
use auspex::exporter::ExportError;
use auspex::lists::FewAttributes;
use auspex::pipeline::{build_exporter, send_outcome, Pipeline, SendOutcome};
use auspex::propagation::TraceState;
use auspex::sink::ExporterKind;
use auspex::span::{AttributeValue, Event, FinishedSpan, Link, OtelSpan, SpanKind, Status};
use auspex::time::Timestamp;
use auspex::Config;

fn pairs(list: &[(&str, &str)]) -> Vec<(String, String)> {
    list.iter().map(|(k, v)| (k.to_string(), v.to_string())).collect()
}

fn live(name: &'static str) -> OtelSpan {
    OtelSpan::new(TraceId::generate(), SpanId::generate(), None, Cow::Borrowed(name))
}

fn finished(name: &'static str) -> FinishedSpan {
    live(name).finish()
}

fn at(secs: u64, nanos: u32) -> Timestamp {
    Timestamp { before_epoch: false, secs, nanos }
}

fn first_span(req: &ExportTraceServiceRequest) -> &Span {
    &req.resource_spans[0].scope_spans[0].spans[0]
}

fn resource_text<'a>(req: &'a ExportTraceServiceRequest, key: &str) -> Option<&'a str> {
    let resource = req.resource_spans[0].resource.as_ref().expect("resource present");
    resource
        .attributes
        .iter()
        .find(|kv| kv.key == key)
        .and_then(|kv| kv.value.as_ref())
        .and_then(|v| v.value.as_ref())
        .and_then(|v| match v {
            Value::StringValue(s) => Some(s.as_str()),
            _ => None,
        })
}

fn tag<'a>(span: &'a ZipkinSpan, key: &str) -> Option<&'a str> {
    span.tags.get(key).and_then(|v| match v {
        TagValue::Text(s) => Some(s.as_str()),
        TagValue::Float(_) => None,
    })
}

fn enabled_config() -> Config {
    Config::default()
        .with_service_name("svc")
        .with_sink_uri("http://localhost:4318")
}

#[test]
fn payload_includes_required_resource_attributes() {
    let req = build_export_request(&vec![finished("s")], "checkout-api", &Vec::new());
    assert_eq!(
        resource_text(&req, "service.name"),
        Some("checkout-api"),
        "service.name should be the configured value"
    );
}

#[test]
fn payload_includes_configured_resource_attributes() {
    let attrs = pairs(&[("service.version", "0.10.7"), ("deployment.environment", "prod")]);
    let req = build_export_request(&vec![finished("s")], "checkout-api", &attrs);
    assert_eq!(resource_text(&req, "service.version"), Some("0.10.7"));
    assert_eq!(resource_text(&req, "deployment.environment"), Some("prod"));
    let resource = req.resource_spans[0].resource.as_ref().expect("resource present");
    assert_eq!(resource.attributes.iter().filter(|kv| kv.key == "service.name").count(), 1);
    assert_eq!(resource.attributes[0].key, "service.name");
}

#[test]
fn otlp_headers_from_config_applied_to_request() {
    let headers = build_header_map(PROTOBUF_CONTENT_TYPE, &pairs(&[("x-api-key", "secret")]))
        .expect("headers build");
    assert_eq!(headers.get("x-api-key").and_then(|v| v.to_str().ok()), Some("secret"));
    assert_eq!(
        headers.get("content-type").and_then(|v| v.to_str().ok()),
        Some(PROTOBUF_CONTENT_TYPE),
    );
}

#[test]
fn invalid_header_name_fails_construction() {
    let result = build_header_map(PROTOBUF_CONTENT_TYPE, &pairs(&[("bad header", "v")]));
    assert!(result.is_err(), "a header name with a space is not valid HTTP");
    assert_eq!(
        result.unwrap_err().message,
        "invalid header name \"bad header\": invalid HTTP header name"
    );
}

#[test]
fn invalid_header_value_fails_construction() {
    let result = build_header_map("text/plain", &pairs(&[("ok", "fine"), ("x\u{7f}", "v")]));
    assert_eq!(
        result.unwrap_err().message,
        "invalid header name \"x\\u{7f}\": invalid HTTP header name"
    );
    let result = build_header_map("text/plain", &pairs(&[("x", "line\nbreak")]));
    assert_eq!(
        result.unwrap_err().message,
        "invalid header value for \"x\": failed to parse header value"
    );
}

#[test]
fn header_names_and_values_at_the_edges() {
    let all = "!#$%&'*+-.^_`|~09azAZ";
    let headers = build_header_map("text/plain", &pairs(&[(all, "tab\tand é")])).expect("valid");
    assert_eq!(
        headers.get("!#$%&'*+-.^_`|~09azaz").map(|v| v.as_bytes().to_vec()),
        Some("tab\tand é".as_bytes().to_vec())
    );
    for bad in ["", "a b", "a:b", "a\"", "a(", "a,", "a/", "a{", "é", "a@"] {
        assert!(build_header_map("text/plain", &pairs(&[(bad, "v")])).is_err(), "{bad}");
    }
    let long = "a".repeat(65535);
    assert!(build_header_map("text/plain", &pairs(&[(long.as_str(), "v")])).is_ok());
    let longer = "a".repeat(65536);
    assert!(build_header_map("text/plain", &pairs(&[(longer.as_str(), "v")])).is_err());
    for bad in ["\u{0}", "\r", "\u{1f}", "\u{7f}"] {
        assert!(build_header_map("text/plain", &pairs(&[("x", bad)])).is_err());
    }
}

fn many_headers(n: usize) -> Vec<(String, String)> {
    (0..n).map(|i| (format!("x-{i}"), "v".to_string())).collect()
}

#[test]
fn a_request_takes_many_headers() {
    let headers = build_header_map("text/plain", &many_headers(10_000)).expect("room for them");
    assert_eq!(headers.len(), 10_001);
    assert_eq!(headers.get("x-9999").and_then(|v| v.to_str().ok()), Some("v"));

    let same = vec![("X-A".to_string(), "1".to_string()); 20_000];
    let headers = build_header_map("text/plain", &same).expect("one name only");
    assert_eq!(headers.len(), 2);
}

#[test]
fn more_headers_than_a_request_takes_are_an_error() {
    let err = build_header_map("text/plain", &many_headers(24_576)).expect_err("too many");
    assert_eq!(err.to_string(), "export error: too many headers: max size reached");

    let config = enabled_config().with_headers(many_headers(30_000));
    assert!(build_exporter(&config).is_none());
    let (pipeline, worker) = Pipeline::from_config(config);
    assert!(pipeline.is_enabled());
    assert!(worker.is_none());
    assert_eq!(pipeline.send(finished("s")), SendOutcome::Dropped);
}

#[test]
fn a_later_header_takes_the_place_of_an_earlier_one() {
    let headers = build_header_map(
        "text/plain",
        &pairs(&[("X-A", "1"), ("x-a", "2"), ("Content-Type", "custom")]),
    )
    .expect("valid");
    assert_eq!(headers.len(), 2);
    assert_eq!(headers.get("x-a").and_then(|v| v.to_str().ok()), Some("2"));
    assert_eq!(headers.get("content-type").and_then(|v| v.to_str().ok()), Some("custom"));
}

#[test]
fn payload_preserves_sampled_flag_on_span_flags() {
    for sampled in [true, false] {
        let mut span = live("s");
        span.is_sampled = sampled;
        let req = build_export_request(&vec![span.finish()], "svc", &Vec::new());
        let sampled_bit = first_span(&req).flags & 1 != 0;
        assert_eq!(sampled_bit, sampled, "sampled flag should map to span flags bit 0");
    }
}

#[test]
fn payload_preserves_tracestate_on_span() {
    let mut span = live("s");
    span.trace_state = TraceState::from_header("vendor=abc123");
    assert!(span.trace_state.is_some(), "test fixture should be a valid tracestate");

    let req = build_export_request(&vec![span.finish()], "svc", &Vec::new());
    assert_eq!(first_span(&req).trace_state, "vendor=abc123");
}

#[test]
fn payload_includes_dropped_counts() {
    let mut span = live("s");
    span.dropped_attributes_count = 3;
    span.dropped_events_count = 5;
    span.dropped_links_count = 7;

    let req = build_export_request(&vec![span.finish()], "svc", &Vec::new());
    let span = first_span(&req);
    assert_eq!(span.dropped_attributes_count, 3);
    assert_eq!(span.dropped_events_count, 5);
    assert_eq!(span.dropped_links_count, 7);
}

#[test]
fn payload_values_kinds_and_statuses() {
    let parent = SpanId::from_bytes([5; 8]);
    let mut span = OtelSpan::new_at(
        TraceId::from_bytes([1; 16]),
        SpanId::from_bytes([2; 8]),
        Some(parent),
        "s".into(),
        at(10, 20),
    );
    span.record("i".into(), AttributeValue::Int(-1));
    span.record("b".into(), AttributeValue::Bool(true));
    span.record("f".into(), AttributeValue::Float(0.5f64.to_bits()));
    span.record("t".into(), "x".into());
    span.kind = SpanKind::Client;
    span.status = Status::Error { message: "m".into() };
    let p = finished_span_to_proto(&span.finish_at(at(11, 0)));
    assert_eq!(p.parent_span_id, parent.to_vec());
    assert_eq!(p.kind, 3);
    assert_eq!(p.start_time_unix_nano, 10_000_000_020);
    assert_eq!(p.end_time_unix_nano, 11_000_000_000);
    let status = p.status.expect("status");
    assert_eq!((status.code, status.message.as_str()), (2, "m"));
    let values: Vec<Value> = p
        .attributes
        .into_iter()
        .map(|kv| kv.value.expect("value").value.expect("value"))
        .collect();
    assert_eq!(
        values,
        vec![
            Value::IntValue(-1),
            Value::BoolValue(true),
            Value::DoubleValue(0.5f64.to_bits()),
            Value::StringValue("x".to_string()),
        ]
    );

    let mut span = live("s");
    span.kind = SpanKind::Server;
    span.status = Status::Okay;
    let p = finished_span_to_proto(&span.finish());
    assert_eq!(p.kind, 2);
    assert_eq!(p.status.map(|s| s.code), Some(1));
    assert!(p.parent_span_id.is_empty());
    assert_eq!(p.trace_state, "");
    for kind in [SpanKind::Internal, SpanKind::Producer, SpanKind::Consumer] {
        let mut span = live("s");
        span.kind = kind;
        let p = finished_span_to_proto(&span.finish());
        assert_eq!(p.kind, 1);
        assert_eq!(p.status.map(|s| s.code), Some(0));
    }
}

#[test]
fn scope_names_the_library() {
    let req = build_export_request(&Vec::new(), "svc", &Vec::new());
    let scope = req.resource_spans[0].scope_spans[0].scope.as_ref().expect("scope");
    assert_eq!(scope.name, SCOPE_NAME);
    assert_eq!(scope.name, "auspex");
    assert_eq!(scope.version, "0.1.0");
    assert!(req.resource_spans[0].scope_spans[0].spans.is_empty());
}

#[test]
fn times_saturate() {
    assert_eq!(system_time_to_nanos(&at(1, 5)), 1_000_000_005);
    assert_eq!(system_time_to_nanos(&at(u64::MAX, 0)), u64::MAX);
    let before = Timestamp { before_epoch: true, secs: 1, nanos: 0 };
    assert_eq!(system_time_to_nanos(&before), 0);
    assert_eq!(micros_since_epoch(&before), 0);
    assert_eq!(micros_since_epoch(&at(1, 5999)), 1_000_005);
    assert_eq!(micros_since_epoch(&at(u64::MAX, 0)), u64::MAX);
    assert_eq!(duration_micros(&at(1, 0), &at(2, 1500)), 1_000_001);
    assert_eq!(duration_micros(&at(2, 0), &at(1, 0)), 0);
    assert_eq!(duration_micros(&before, &at(1, 0)), 2_000_000);
}

#[test]
fn default_policy_matches_v0_1_spec() {
    let b = Backoff::default();
    assert_eq!(b.base(), Duration::from_millis(100));
    assert_eq!(b.cap(), Duration::from_secs(5));
    assert_eq!(b.max_retries(), 2);
}

/// A jitter fraction in parts.
fn jitter(fraction: f64) -> u64 {
    (fraction * JITTER_PARTS as f64) as u64
}

fn millis(n: u64) -> Option<u128> {
    Some(Duration::from_millis(n).as_nanos())
}

#[test]
fn ceiling_grows_exponentially_with_max_jitter() {
    let b = Backoff::default();
    assert_eq!(b.delay_for(1, jitter(1.0)), millis(100));
    assert_eq!(b.delay_for(2, jitter(1.0)), millis(200));
    assert_eq!(b.ceiling_for(1), Some(100));
    assert_eq!(b.ceiling_for(2), Some(200));
}

#[test]
fn ceiling_is_clamped_to_cap() {
    let b = Backoff { base_ms: 4000, cap_ms: 5000, max_retries: 5 };
    assert_eq!(b.delay_for(1, jitter(1.0)), millis(4000));
    assert_eq!(b.delay_for(2, jitter(1.0)), millis(5000));
    assert_eq!(b.delay_for(3, jitter(1.0)), millis(5000));
}

#[test]
fn zero_jitter_yields_zero_delay() {
    let b = Backoff::default();
    assert_eq!(b.delay_for(1, jitter(0.0)), millis(0));
}

#[test]
fn jitter_scales_within_the_ceiling() {
    let b = Backoff::default();
    assert_eq!(b.delay_for(1, jitter(0.5)), millis(50));
}

#[test]
fn out_of_range_jitter_is_clamped() {
    let b = Backoff::default();
    assert_eq!(b.delay_for(1, jitter(2.0)), millis(100));
    assert_eq!(b.delay_for(1, jitter(-1.0)), millis(0));
    assert_eq!(b.delay_for(1, u64::MAX), millis(100));
}

#[test]
fn delays_are_rounded_to_the_nearest_nanosecond() {
    let b = Backoff { base_ms: 1, cap_ms: 1, max_retries: 1 };
    for parts in [1u64, 1 << 20, JITTER_PARTS / 3, JITTER_PARTS - 1] {
        let exact = Duration::from_millis(1).mul_f64(parts as f64 / JITTER_PARTS as f64);
        assert_eq!(b.delay_for(1, parts), Some(exact.as_nanos()), "{parts}");
    }
    let long = Backoff { base_ms: u64::MAX, cap_ms: u64::MAX, max_retries: 1 };
    assert_eq!(long.delay_for(1, JITTER_PARTS), Some(u64::MAX as u128 * 1_000_000));
}

#[test]
fn ceilings_far_out() {
    let b = Backoff { base_ms: 1, cap_ms: u64::MAX, max_retries: u32::MAX };
    assert_eq!(b.ceiling_for(32), Some(1 << 31));
    assert_eq!(b.ceiling_for(33), Some(u32::MAX as u64));
    assert_eq!(b.ceiling_for(u32::MAX), Some(u32::MAX as u64));
}

#[test]
fn returns_none_once_budget_exhausted() {
    let b = Backoff::default();
    assert_eq!(b.ceiling_for(0), None);
    assert_eq!(b.delay_for(0, jitter(1.0)), None);
    assert_eq!(b.delay_for(3, jitter(1.0)), None, "max_retries is 2, so attempt 3 is out of budget");
}

#[test]
fn jitter_fraction_is_in_unit_interval() {
    for _ in 0..1_000 {
        let f = jitter_parts() as f64 / JITTER_PARTS as f64;
        assert!((0.0..1.0).contains(&f), "jitter {f} out of [0,1)");
    }
}

#[test]
fn jitter_is_the_top_of_the_draw() {
    assert_eq!(jitter_from_draw(true, [0xff; 8]), JITTER_PARTS - 1);
    assert_eq!(jitter_from_draw(true, [0; 8]), 0);
    assert_eq!(jitter_from_draw(true, [0, 0, 0, 0, 0, 0, 0, 0x80]), JITTER_PARTS / 2);
    assert_eq!(jitter_from_draw(true, [0, 8, 0, 0, 0, 0, 0, 0]), 1);
    assert_eq!(jitter_from_draw(false, [0; 8]), JITTER_PARTS - 2);
}

#[test]
fn transient_500_triggers_retry_then_succeeds() {
    let mut attempts = PostAttempts::new(Backoff::default());
    assert_eq!(attempts.after(classify(Reply::Status(500)), JITTER_PARTS), PostStep::Wait(100_000_000));
    assert_eq!(attempts.after(classify(Reply::Status(200)), JITTER_PARTS), PostStep::Done);
}

#[test]
fn retry_budget_exhausted_drops_batch_and_logs_once() {
    let mut attempts = PostAttempts::new(Backoff::default());
    assert_eq!(attempts.after(classify(Reply::Status(500)), JITTER_PARTS), PostStep::Wait(100_000_000));
    assert_eq!(
        attempts.after(classify(Reply::Transport("timeout".to_string())), JITTER_PARTS / 2),
        PostStep::Wait(100_000_000)
    );
    assert_eq!(
        attempts.after(classify(Reply::Status(500)), JITTER_PARTS),
        PostStep::Failed(ExportError::new(
            "export failed after 3 attempts: server returned 500 Internal Server Error".to_string()
        ))
    );
}

#[test]
fn permanent_4xx_fails_fast_without_retry() {
    let mut attempts = PostAttempts::new(Backoff::default());
    assert_eq!(
        attempts.after(classify(Reply::Status(400)), JITTER_PARTS),
        PostStep::Failed(ExportError::new(
            "export rejected: server returned 400 Bad Request".to_string()
        ))
    );
}

#[test]
fn replies_are_classified() {
    assert_eq!(classify(Reply::Status(299)), Disposition::Success);
    assert_eq!(
        classify(Reply::Status(429)),
        Disposition::Retryable("server returned 429 Too Many Requests".to_string())
    );
    assert_eq!(
        classify(Reply::Status(301)),
        Disposition::Permanent("server returned 301 Moved Permanently".to_string())
    );
    assert_eq!(
        classify(Reply::Status(600)),
        Disposition::Permanent("server returned 600 <unknown status code>".to_string())
    );
    assert_eq!(
        classify(Reply::Transport("x".to_string())),
        Disposition::Retryable("transport error: x".to_string())
    );
}

#[test]
fn export_error_text() {
    let e = ExportError::new("boom".to_string());
    assert_eq!(e.message, "boom");
    assert_eq!(e.to_string(), "export error: boom");
    assert_eq!(e.clone(), e);
}

fn names(batch: &[FinishedSpan]) -> Vec<String> {
    batch.iter().map(|s| s.name.to_string()).collect()
}

fn run(worker: &mut BatchWorker, events: Vec<WorkerEvent>) -> Vec<Vec<FinishedSpan>> {
    let mut out = Vec::new();
    for event in events {
        let action: WorkerAction = worker.on_event(event);
        if let Some(batch) = action.flush {
            out.push(batch);
        }
    }
    out
}

#[test]
fn batch_worker_flushes_on_max_batch() {
    let mut worker = BatchWorker::new(3);
    let mut events: Vec<WorkerEvent> =
        (0..4).map(|_| WorkerEvent::Span(finished("span"))).collect();
    events.push(WorkerEvent::Closed);
    let batches = run(&mut worker, events);
    assert_eq!(batches.len(), 2);
    assert_eq!(batches[0].len(), 3);
    assert_eq!(batches[1].len(), 1);
}

#[test]
fn batch_worker_flushes_on_schedule_delay_with_partial_batch() {
    let mut worker = BatchWorker::new(10);
    assert!(!worker.has_pending_batch());
    let first = worker.on_event(WorkerEvent::Span(finished("a")));
    assert!(first.reset_timer);
    assert!(first.flush.is_none());
    let second = worker.on_event(WorkerEvent::Span(finished("b")));
    assert!(!second.reset_timer);
    assert!(worker.has_pending_batch());
    let tick = worker.on_event(WorkerEvent::Tick);
    assert!(!tick.stop);
    assert_eq!(names(&tick.flush.expect("a partial batch")), vec!["a", "b"]);
    assert!(!worker.has_pending_batch());
    let end = worker.on_event(WorkerEvent::Closed);
    assert!(end.stop);
    assert!(end.flush.is_none());
}

#[test]
fn batches_keep_the_order_and_lose_nothing() {
    let mut worker = BatchWorker::new(2);
    let events = vec![
        WorkerEvent::Span(finished("a")),
        WorkerEvent::Tick,
        WorkerEvent::Tick,
        WorkerEvent::Span(finished("b")),
        WorkerEvent::Span(finished("c")),
        WorkerEvent::Span(finished("d")),
        WorkerEvent::Closed,
    ];
    let batches = run(&mut worker, events);
    let sizes: Vec<usize> = batches.iter().map(|b| b.len()).collect();
    assert_eq!(sizes, vec![1, 2, 1]);
    let all: Vec<String> = batches.iter().flat_map(|b| names(b)).collect();
    assert_eq!(all, vec!["a", "b", "c", "d"]);
}

#[test]
fn a_limit_of_zero_sends_each_span_alone() {
    let mut worker = BatchWorker::new(0);
    let batches = run(
        &mut worker,
        vec![WorkerEvent::Span(finished("a")), WorkerEvent::Span(finished("b"))],
    );
    assert_eq!(batches.len(), 2);
}

#[test]
fn failures_are_logged_at_most_every_thirty_seconds() {
    assert!(should_log(None));
    assert!(!should_log(Some(30_000_000_000)));
    assert!(should_log(Some(30_000_000_001)));
}

#[test]
fn tags_include_all_finished_span_attributes() {
    let mut span = live("s");
    span.record("str".into(), "v".into());
    span.record("int".into(), 42i64.into());
    span.record("float".into(), AttributeValue::Float(1.5f64.to_bits()));
    span.record("bool".into(), true.into());

    let span = ZipkinSpan::from_finished(&span.finish(), "svc", &Vec::new());
    assert_eq!(tag(&span, "str"), Some("v"));
    assert_eq!(tag(&span, "int"), Some("42"));
    match span.tags.get("float") {
        Some(TagValue::Float(bits)) => assert_eq!(f64::from_bits(*bits).to_string(), "1.5"),
        other => panic!("unexpected {other:?}"),
    }
    assert_eq!(tag(&span, "bool"), Some("true"));
}

#[test]
fn resource_attributes_appear_as_tags_and_service_name_stays_in_endpoint() {
    let attrs = pairs(&[("service.version", "0.10.7"), ("deployment.environment", "prod")]);
    let span = ZipkinSpan::from_finished(&finished("GET /"), "checkout-api", &attrs);

    assert_eq!(tag(&span, "service.version"), Some("0.10.7"));
    assert_eq!(tag(&span, "deployment.environment"), Some("prod"));
    assert_eq!(span.local_endpoint.service_name, "checkout-api");
    assert!(span.tags.get("service.name").is_none(), "service.name must not be a tag");
}

#[test]
fn span_attributes_win_over_resource_attributes() {
    let mut span = live("s");
    span.record("region".into(), "span".into());
    let span =
        ZipkinSpan::from_finished(&span.finish(), "svc", &pairs(&[("region", "resource")]));
    assert_eq!(tag(&span, "region"), Some("span"));
}

#[test]
fn span_kind_server_is_mapped_to_zipkin_server_kind() {
    let mut span = live("s");
    span.kind = SpanKind::Server;
    assert_eq!(
        ZipkinSpan::from_finished(&span.finish(), "svc", &Vec::new()).kind,
        Some("SERVER")
    );

    let internal = finished("s");
    assert_eq!(ZipkinSpan::from_finished(&internal, "svc", &Vec::new()).kind, None);
    assert_eq!(zipkin_kind(SpanKind::Client), Some("CLIENT"));
    assert_eq!(zipkin_kind(SpanKind::Producer), Some("PRODUCER"));
    assert_eq!(zipkin_kind(SpanKind::Consumer), Some("CONSUMER"));
}

#[test]
fn sampled_flag_preserved_in_zipkin_payload() {
    for sampled in [true, false] {
        let mut span = live("s");
        span.is_sampled = sampled;
        let span = ZipkinSpan::from_finished(&span.finish(), "svc", &Vec::new());
        assert_eq!(tag(&span, "otel.sampled"), Some(sampled.to_string().as_str()));
    }
}

#[test]
fn links_preserved_as_zipkin_annotations() {
    let mut span = live("s");
    let linked_trace = TraceId::generate();
    let linked_span = SpanId::generate();
    span.add_event(Event {
        name: "e".into(),
        timestamp: at(1, 2500),
        attributes: FewAttributes::from_items(Vec::new()),
    });
    span.add_link(Link {
        trace_id: linked_trace,
        span_id: linked_span,
        attributes: FewAttributes::from_items(Vec::new()),
    });

    let span = ZipkinSpan::from_finished(&span.finish(), "svc", &Vec::new());
    let expected = format!("link:{}/{}", linked_trace.to_string(), linked_span.to_string());
    assert!(
        span.annotations.iter().any(|a| a.value == expected),
        "expected an annotation referencing the link"
    );
    assert_eq!(span.annotations.len(), 2);
    assert_eq!(span.annotations[0].value, "e");
    assert_eq!(span.annotations[0].timestamp, 1_000_002);
    assert_eq!(span.annotations[1].timestamp, 0);
}

#[test]
fn error_status_becomes_zipkin_error_tag() {
    let mut span = live("s");
    span.status = Status::Error { message: "boom".into() };
    let span = ZipkinSpan::from_finished(&span.finish(), "svc", &Vec::new());
    assert_eq!(tag(&span, "error"), Some("boom"));

    let mut span = live("s");
    span.status = Status::Error { message: "".into() };
    let span = ZipkinSpan::from_finished(&span.finish(), "svc", &Vec::new());
    assert_eq!(tag(&span, "error"), Some("true"));
    let span = ZipkinSpan::from_finished(&finished("s"), "svc", &Vec::new());
    assert_eq!(tag(&span, "error"), None);
}

#[test]
fn zipkin_times_and_identifiers() {
    let mut span = OtelSpan::new_at(
        TraceId::from_bytes([0xab; 16]),
        SpanId::from_bytes([0xcd; 8]),
        Some(SpanId::from_bytes([0xef; 8])),
        "s".into(),
        at(2, 0),
    );
    span.end_at(at(2, 7_654_321));
    let z = ZipkinSpan::from_finished(&span.finish(), "svc", &Vec::new());
    assert_eq!(z.trace_id, "abababababababababababababababab");
    assert_eq!(z.id, "cdcdcdcdcdcdcdcd");
    assert_eq!(z.parent_id.as_deref(), Some("efefefefefefefef"));
    assert_eq!(z.timestamp, 2_000_000);
    assert_eq!(z.duration, 7_654);
}

#[test]
fn tags_are_kept_in_the_order_of_their_keys() {
    let mut tags = Tags::new();
    for key in ["b", "a", "", "ab", "é", "z", "a", "B"] {
        tags.insert(key.to_string(), TagValue::Text(format!("v-{key}")));
    }
    tags.insert("z".to_string(), TagValue::Text("last".to_string()));
    let keys: Vec<&str> = tags.entries().iter().map(|(k, _)| k.as_str()).collect();
    assert_eq!(keys, vec!["", "B", "a", "ab", "b", "z", "é"]);
    assert_eq!(tags.get("z"), Some(&TagValue::Text("last".to_string())));
    assert_eq!(tags.get("c"), None);
}

#[test]
fn pipeline_from_config_respects_enabled() {
    let (p, worker) = Pipeline::from_config(Config::default());
    assert!(!p.is_enabled());
    assert!(worker.is_none());

    let (p2, worker) = Pipeline::from_config(enabled_config());
    assert!(p2.is_enabled());
    let worker = worker.expect("a worker for an enabled pipeline");
    assert_eq!(worker.max_batch, 512);
    assert_eq!(worker.schedule_delay, Duration::from_secs(5));
    assert_eq!(worker.plan.kind, ExporterKind::Otlp);
    assert_eq!(worker.plan.url.as_str(), "http://localhost:4318/v1/traces");
    assert_eq!(worker.plan.service_name, "svc");
    assert_eq!(p2.config().service_name.as_deref(), Some("svc"));
}

#[test]
fn send_is_noop_when_disabled() {
    let (p, _) = Pipeline::from_config(Config::default());
    let live = OtelSpan::new(TraceId::zero(), SpanId::zero(), None, Cow::Borrowed("test"));
    assert_eq!(p.send(live.finish()), SendOutcome::Ignored);
    assert_eq!(p.dropped_count(), 0);
}

#[test]
fn test_pipeline_receives_finished_spans() {
    let (pipeline, mut receiver) = Pipeline::with_capacity(enabled_config(), 4);
    let live = OtelSpan::new(TraceId::zero(), SpanId::zero(), None, Cow::Borrowed("test-span"));
    assert_eq!(pipeline.send(live.finish()), SendOutcome::Accepted);
    let received = receiver.try_recv().expect("should have received a FinishedSpan");
    assert_eq!(received.name, "test-span");
}

#[test]
fn production_channel_drops_and_counts_on_full() {
    let config = Config::default()
        .with_service_name("bp-test")
        .with_sink_uri("http://localhost:4318");
    let (pipeline, mut rx) = Pipeline::with_capacity(config, 1);

    let make_span = |name: &str| {
        OtelSpan::new(TraceId::zero(), SpanId::zero(), None, Cow::Owned(name.to_string())).finish()
    };

    pipeline.send(make_span("span-1"));
    assert_eq!(pipeline.dropped_count(), 0);

    pipeline.send(make_span("span-2"));
    assert_eq!(pipeline.dropped_count(), 1);

    pipeline.send(make_span("span-3"));
    assert_eq!(pipeline.dropped_count(), 2);

    let first = rx.try_recv().expect("one span should have been buffered");
    assert_eq!(first.name, "span-1");

    assert!(rx.try_recv().is_err(), "channel should now be empty after drain");

    pipeline.send(make_span("span-4"));
    assert_eq!(pipeline.dropped_count(), 2, "drain allowed 4th to be accepted");

    pipeline.send(make_span("span-5"));
    assert_eq!(pipeline.dropped_count(), 3);
}

#[test]
fn the_worker_receives_what_is_sent() {
    let (pipeline, worker) = Pipeline::from_config(enabled_config());
    let mut receiver = worker.expect("a worker for an enabled pipeline").receiver;
    assert_eq!(receiver.max_capacity(), 2048);
    assert_eq!(pipeline.send(finished("sent")), SendOutcome::Accepted);
    assert_eq!(receiver.try_recv().expect("the span that was sent").name, "sent");

    let (_, receiver) = Pipeline::with_capacity(enabled_config(), 7);
    assert_eq!(receiver.max_capacity(), 7);
}

#[test]
fn what_goes_out_is_the_span_to_the_channel() {
    let (pipeline, mut receiver) = Pipeline::with_capacity(enabled_config(), 1);
    let (sender, span) = pipeline.outgoing(finished("s")).expect("an enabled pipeline");
    assert_eq!(span.name, "s");
    sender.try_send(span).expect("room in the channel");
    assert_eq!(receiver.try_recv().expect("the span that was sent").name, "s");

    let (disabled, _receiver) = Pipeline::with_capacity(Config::default(), 1);
    assert!(disabled.outgoing(finished("s")).is_none());
}

#[test]
fn a_disabled_pipeline_builds_no_headers() {
    let config = Config::default().with_headers(many_headers(30_000));
    let (pipeline, worker) = Pipeline::from_config(config);
    assert!(!pipeline.is_enabled());
    assert!(worker.is_none());
}

#[test]
fn spans_without_a_worker_are_dropped_and_counted() {
    let (pipeline, worker) = Pipeline::from_config(enabled_config());
    drop(worker);
    assert_eq!(pipeline.send(finished("s")), SendOutcome::Dropped);
    assert_eq!(pipeline.dropped_count(), 1);
}

#[test]
fn outcomes_of_sending() {
    assert_eq!(send_outcome(false, Some(true)), SendOutcome::Ignored);
    assert_eq!(send_outcome(true, Some(true)), SendOutcome::Accepted);
    assert_eq!(send_outcome(true, Some(false)), SendOutcome::Dropped);
    assert_eq!(send_outcome(true, None), SendOutcome::Dropped);
}

#[test]
fn exporters_of_a_configuration() {
    let zipkin = Config::default()
        .with_sink_uri("zipkin+http://h:9411")
        .with_headers(pairs(&[("X-Key", "v")]))
        .with_resource_attributes(pairs(&[("region", "eu")]));
    let plan = build_exporter(&zipkin).expect("a Zipkin exporter");
    assert_eq!(plan.kind, ExporterKind::Zipkin);
    assert_eq!(plan.url.as_str(), "http://h:9411/api/v2/spans");
    assert_eq!(plan.service_name, "unknown_service");
    assert_eq!(plan.resource_attributes, pairs(&[("region", "eu")]));
    assert_eq!(
        plan.headers.get("content-type").and_then(|v| v.to_str().ok()),
        Some("application/json")
    );
    assert_eq!(plan.headers.get("x-key").and_then(|v| v.to_str().ok()), Some("v"));

    let bad = enabled_config().with_headers(pairs(&[("bad header", "v")]));
    assert!(build_exporter(&bad).is_none());
    let unresolved = Config::default().with_service_name("s").with_sink_uri("grpc://h");
    assert!(build_exporter(&unresolved).is_none());
    let mut mixed = enabled_config();
    mixed.exporter = ExporterKind::Zipkin;
    assert!(build_exporter(&mixed).is_none());
}
