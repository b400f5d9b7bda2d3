use std::borrow::Cow;
use std::time::Duration;

use auspex::layer::{begin_span, extract_remote_parent, RemoteExtractor};
use auspex::middleware::{
    build_root_span, error_fields, is_sensitive_response_header, lower_prefixes,
    normalize_response_header_name, plan_request, response_fields, RequestHead, ResponseHeader,
};
use auspex::sink::ExporterKind;
use auspex::span::{AttributeValue, FinishedSpan, OtelSpan, Status};
use auspex::{Config, ConfigError, Environment, InitError, Tracer, TracerBuilder};

fn env(vars: &[(&str, &str)]) -> Environment {
    Environment::new(pairs(vars))
}

fn pairs(list: &[(&str, &str)]) -> Vec<(String, String)> {
    list.iter().map(|(k, v)| (k.to_string(), v.to_string())).collect()
}

fn request(path: &str) -> RequestHead {
    RequestHead {
        method: "GET".to_string(),
        path: path.to_string(),
        query: None,
        scheme: None,
        route: None,
        traceparent: None,
        tracestate: None,
        user_agent: None,
        host: None,
    }
}

fn header(name: &str, values: &[&str]) -> ResponseHeader {
    ResponseHeader {
        name: name.to_string(),
        values: values.iter().map(|v| Some(v.to_string())).collect(),
    }
}

fn record(span: &mut OtelSpan, fields: Vec<(&'static str, AttributeValue)>) {
    for (field, value) in fields {
        span.visit(field, value);
    }
}

/// Serves one request the way the middleware does, up to the finished span.
fn serve(
    head: &RequestHead,
    status: u16,
    headers: &Vec<ResponseHeader>,
    prefixes: &[&str],
) -> FinishedSpan {
    let root = build_root_span(head);
    let mut remote = RemoteExtractor::default();
    if let Some(r) = &root.remote {
        remote.record_text("remote.trace_id", &r.trace_id);
        remote.record_text("remote.parent_span_id", &r.parent_span_id);
        remote.record_bool("remote.sampled", r.sampled);
        remote.record_str("remote.trace_state", &r.trace_state);
    }
    let (mut span, _) =
        begin_span(None, None, extract_remote_parent(remote), Cow::Borrowed("HTTP request"));
    record(&mut span, root.fields);
    let prefixes = lower_prefixes(&prefixes.iter().map(|p| p.to_string()).collect());
    record(&mut span, response_fields(status, headers, &prefixes));
    span.close()
}

fn value<'a>(span: &'a FinishedSpan, key: &str) -> Option<&'a AttributeValue> {
    span.attributes.items().iter().find(|(k, _)| k == key).map(|(_, v)| v)
}

fn text(s: &str) -> AttributeValue {
    AttributeValue::String(Cow::Owned(s.to_string()))
}

#[test]
fn crate_compiles() {
    assert!(!Tracer::new(&env(&[])).is_enabled());
}

#[test]
fn public_api_surface_is_available_at_root() {
    let _: Option<Tracer> = None;
    let _: Option<Config> = None;
    let _: Option<TracerBuilder> = None;
    let _: Option<ConfigError> = None;
    let _: Option<InitError> = None;
}

#[test]
fn tracer_service_constructs_and_disabled_path_works() {
    let tracer = Tracer::from_config(Config::default());
    assert!(!tracer.is_enabled());
}

#[test]
fn builder_setters_override_env_values() {
    // A service name in the environment, and one on the builder.
    let t = TracerBuilder::new()
        .with_service_name("builder-svc")
        .build(&env(&[("OTEL_SERVICE_NAME", "env-svc")]));
    assert_eq!(t.config().service_name.as_deref(), Some("builder-svc"));

    // A sink in the environment, and another on the builder.
    let t = TracerBuilder::new()
        .with_service_name("svc")
        .with_sink_uri("http://builder:9411")
        .build(&env(&[("OTEL_EXPORTER_OTLP_TRACES_ENDPOINT", "http://env:4318")]));
    let cfg = t.config();
    assert!(cfg.sink_uri.as_deref().is_some_and(|s| s.contains("builder:9411")));
    assert!(matches!(cfg.exporter, ExporterKind::Otlp));
    assert!(cfg.endpoint.is_some());

    // Lists on the builder replace those of the environment.
    let t = TracerBuilder::new()
        .with_service_name("svc")
        .with_sink_uri("http://ex")
        .with_headers(pairs(&[("c", "d")]))
        .with_capture_header_prefixes(vec!["trace-".to_string()])
        .build(&env(&[
            ("OTEL_EXPORTER_OTLP_HEADERS", "a=b"),
            ("AUSPEX_CAPTURE_HEADERS_PREFIX", "x-"),
        ]));
    let cfg = t.config();
    assert_eq!(cfg.headers, vec![("c".to_string(), "d".to_string())]);
    assert_eq!(cfg.capture_header_prefixes, vec!["trace-".to_string()]);

    // What the builder does not set is left to the environment.
    let t = TracerBuilder::new()
        .with_service_name("svc")
        .with_sink_uri("http://ex")
        .build(&env(&[
            ("OTEL_BSP_MAX_EXPORT_BATCH_SIZE", "2048"),
            ("OTEL_BSP_SCHEDULE_DELAY", "30000"),
        ]));
    let cfg = t.config();
    assert_eq!(cfg.max_export_batch_size, 2048);
    assert_eq!(cfg.schedule_delay, Duration::from_secs(30));
}

#[test]
fn a_builder_sink_that_does_not_resolve_disables() {
    let t = Tracer::builder()
        .with_service_name("svc")
        .with_sink_uri("grpc://h")
        .build(&env(&[("OTEL_SINK_URI", "http://env:4318")]));
    assert!(!t.is_enabled());
    assert!(t.config().endpoint.is_none());
}

#[test]
fn a_disabled_configuration_without_a_service_name_is_no_error() {
    let config = Config {
        sink_uri: Some("http://example.com".into()),
        disabled: true,
        ..Config::default()
    };
    let t = Tracer::try_from_config(config).expect("an explicitly disabled configuration");
    assert!(!t.is_enabled());

    let config = Config::default().with_sink_uri("http://example.com");
    assert_eq!(Tracer::try_from_config(config), Err(ConfigError::MissingServiceName));
}

#[test]
fn requests_pass_through_while_export_is_disabled() {
    let head = request("/x");
    assert!(plan_request(false, &head).is_none());
    let root = plan_request(true, &head).expect("a span while export is enabled");
    assert_eq!(root.fields, build_root_span(&head).fields);
}

#[test]
fn builder_batch_settings_win() {
    let builder = Tracer::builder()
        .with_service_name("svc")
        .with_sink_uri("http://ex")
        .with_max_batch_size(7)
        .with_schedule_delay(Duration::from_millis(9));
    let t = builder.clone().build(&env(&[
        ("OTEL_BSP_MAX_EXPORT_BATCH_SIZE", "2048"),
        ("OTEL_BSP_SCHEDULE_DELAY", "30000"),
    ]));
    assert_eq!(t.config().max_export_batch_size, 7);
    assert_eq!(t.config().schedule_delay, Duration::from_millis(9));
    assert_eq!(builder, builder.clone());
}

#[test]
fn builder_resource_attributes_override_matching_keys() {
    let t = Tracer::builder()
        .with_sink_uri("http://ex")
        .with_resource_attributes(pairs(&[("service.version", "2"), ("region", "eu")]))
        .build(&env(&[
            ("OTEL_SERVICE_NAME", "svc"),
            ("OTEL_RESOURCE_ATTRIBUTES", "service.version=1,zone=a"),
        ]));
    assert_eq!(
        t.config().resource_attributes,
        pairs(&[("service.version", "2"), ("zone", "a"), ("region", "eu")])
    );
    assert_eq!(t.config().service_name.as_deref(), Some("svc"));
}

#[test]
fn builder_build_twice_produces_independent_tracers() {
    let t1 = TracerBuilder::new().with_service_name("svc1").build(&env(&[]));
    let t2 = TracerBuilder::new().with_service_name("svc2").build(&env(&[]));
    assert_ne!(t1, t2);
    assert_eq!(t1.config().service_name.as_deref(), Some("svc1"));
    assert_eq!(t2.config().service_name.as_deref(), Some("svc2"));
}

#[test]
fn try_from_config_distinguishes_misconfig_from_disabled() {
    let full = Config::default()
        .with_service_name("svc")
        .with_sink_uri("http://localhost:4318");
    let t = Tracer::try_from_config(full).expect("full config should succeed");
    assert!(t.is_enabled());

    let empty = Config::default();
    let t = Tracer::try_from_config(empty).expect("no-sink config must succeed as disabled");
    assert!(!t.is_enabled());

    let partial = Config::default().with_sink_uri("http://example.com");
    let e = Tracer::try_from_config(partial).expect_err("partial must error");
    assert!(matches!(e, ConfigError::MissingServiceName));
}

#[test]
fn a_sink_that_cannot_be_used_leaves_the_tracer_disabled() {
    let config = Config::default().with_service_name("svc").with_sink_uri("grpc://h:4317");
    assert!(!Tracer::from_config(config.clone()).is_enabled());
    assert!(!Tracer::try_from_config(config).expect("no error").is_enabled());
    let t = Tracer::builder()
        .with_service_name("svc")
        .with_sink_uri("ftp://h")
        .build(&env(&[]));
    assert!(!t.is_enabled());
}

#[test]
fn the_environment_alone_makes_a_tracer() {
    let full = env(&[("OTEL_SERVICE_NAME", "svc"), ("OTEL_SINK_URI", "http://h:4318")]);
    assert!(Tracer::new(&full).is_enabled());
    assert!(Tracer::try_new(&full).expect("full environment").is_enabled());
    let partial = env(&[("OTEL_SINK_URI", "http://h:4318")]);
    assert!(!Tracer::new(&partial).is_enabled());
    assert_eq!(Tracer::try_new(&partial), Err(ConfigError::MissingServiceName));
    let off = env(&[("OTEL_SINK_URI", "http://h:4318"), ("OTEL_TRACES_EXPORTER", "none")]);
    assert!(!Tracer::try_new(&off).expect("explicitly off").is_enabled());
    let t = Tracer::new(&full);
    assert_eq!(t, t.clone());
}

#[test]
fn axum_matched_path_produces_correct_route_and_name() {
    let mut head = request("/users/42");
    head.route = Some("/users/{id}".to_string());
    let span = serve(&head, 200, &Vec::new(), &[]);
    assert_eq!(span.name, "GET /users/{id}");
    assert_eq!(value(&span, "http.route"), Some(&text("/users/{id}")));
    assert_eq!(value(&span, "url.path"), Some(&text("/users/42")));
}

#[test]
fn raw_paths_are_never_span_names() {
    let span = serve(&request("/users/42"), 200, &Vec::new(), &[]);
    assert_eq!(span.name, "GET");
    assert!(matches!(span.name, Cow::Borrowed(_)));
    assert_eq!(value(&span, "http.route"), None);
}

#[test]
fn request_attributes() {
    let mut head = request("/p");
    head.query = Some("a=1".to_string());
    head.scheme = Some("https".to_string());
    head.user_agent = Some("curl".to_string());
    head.host = Some("example.com".to_string());
    let span = serve(&head, 204, &Vec::new(), &[]);
    assert_eq!(value(&span, "http.request.method"), Some(&text("GET")));
    assert_eq!(value(&span, "url.query"), Some(&text("a=1")));
    assert_eq!(value(&span, "url.scheme"), Some(&text("https")));
    assert_eq!(value(&span, "network.protocol.name"), Some(&text("http")));
    assert_eq!(value(&span, "user_agent.original"), Some(&text("curl")));
    assert_eq!(value(&span, "server.address"), Some(&text("example.com")));

    let span = serve(&request("/p"), 204, &Vec::new(), &[]);
    assert_eq!(value(&span, "url.query"), None);
    assert_eq!(value(&span, "url.scheme"), Some(&text("http")));
    assert_eq!(value(&span, "user_agent.original"), None);
    assert_eq!(value(&span, "server.address"), None);
    assert_eq!(span.dropped_attributes_count, 0);
}

#[test]
fn inbound_trace_context_is_adopted() {
    let mut head = request("/p");
    head.traceparent =
        Some("00-4bf92f3577b34da6a3ce929d0e0e4736-00f067aa0ba902b7-00".to_string());
    head.tracestate = Some(" vendor=abc ".to_string());
    let span = serve(&head, 200, &Vec::new(), &[]);
    assert_eq!(span.trace_id.to_string(), "4bf92f3577b34da6a3ce929d0e0e4736");
    assert_eq!(span.parent_span_id.map(|s| s.to_string()).as_deref(), Some("00f067aa0ba902b7"));
    assert!(!span.is_sampled);
    assert_eq!(span.trace_state.as_ref().map(|t| t.as_str()), Some("vendor=abc"));
    assert!(span.attributes.items().iter().all(|(k, _)| !k.starts_with("remote.")));
}

#[test]
fn tracestate_without_a_valid_traceparent_is_ignored() {
    let mut head = request("/p");
    head.tracestate = Some("vendor=abc".to_string());
    assert!(build_root_span(&head).remote.is_none());
    head.traceparent = Some("junk".to_string());
    assert!(build_root_span(&head).remote.is_none());
    head.traceparent =
        Some("00-4bf92f3577b34da6a3ce929d0e0e4736-00f067aa0ba902b7-01".to_string());
    head.tracestate = None;
    let remote = build_root_span(&head).remote.expect("a remote parent");
    assert_eq!(remote.trace_state, "");
    assert!(remote.sampled);
}

#[test]
fn two_hundred_response_records_status_code_and_unset_otel_status() {
    let span = serve(&request("/ok"), 200, &Vec::new(), &[]);
    assert_eq!(value(&span, "http.response.status_code"), Some(&AttributeValue::Int(200)));
    assert!(matches!(span.status, Status::Unset), "a 200 must leave OTEL status Unset");
    assert_eq!(value(&span, "error.type"), None);
}

#[test]
fn five_hundred_response_sets_error_status_and_error_type() {
    let span = serve(&request("/boom"), 500, &Vec::new(), &[]);
    assert_eq!(value(&span, "http.response.status_code"), Some(&AttributeValue::Int(500)));
    assert!(matches!(span.status, Status::Error { .. }), "a 5xx must set OTEL Error status");
    assert_eq!(value(&span, "error.type"), Some(&text("500")));
}

#[test]
fn client_errors_leave_the_status_alone() {
    let span = serve(&request("/gone"), 499, &Vec::new(), &[]);
    assert_eq!(span.status, Status::Unset);
    assert_eq!(value(&span, "error.type"), None);
}

#[test]
fn service_errors_set_error_status() {
    let (mut span, _) = begin_span(None, None, None, Cow::Borrowed("s"));
    record(&mut span, error_fields("my::Error"));
    let span = span.close();
    assert_eq!(span.status, Status::Error { message: "".into() });
    assert_eq!(value(&span, "error.type"), Some(&text("my::Error")));
}

#[test]
fn response_header_matching_prefix_is_captured() {
    let headers = vec![header("x-trace-foo", &["bar"]), header("content-type", &["text/plain"])];
    let span = serve(&request("/hdr"), 200, &headers, &["x-trace-"]);
    assert_eq!(value(&span, "http.response.header.x_trace_foo"), Some(&text("bar")));
    assert_eq!(value(&span, "http.response.header.content_type"), None);
}

#[test]
fn response_header_in_denylist_is_never_captured_even_with_matching_prefix() {
    let headers = vec![header("authorization", &["secret"])];
    let span = serve(&request("/auth"), 200, &headers, &["auth"]);
    assert!(span
        .attributes
        .items()
        .iter()
        .all(|(k, _)| !k.starts_with("http.response.header.authorization")));
    for name in [
        "Authorization",
        "cookie",
        "SET-COOKIE",
        "proxy-authorization",
        "Proxy-Authenticate",
    ] {
        assert!(is_sensitive_response_header(name), "{name}");
    }
    assert!(!is_sensitive_response_header("x-authorization"));
}

#[test]
fn multi_valued_header_joined_with_comma() {
    let headers = vec![header("x-vals", &["one", "two"])];
    let span = serve(&request("/multi"), 200, &headers, &["x-"]);
    assert_eq!(value(&span, "http.response.header.x_vals"), Some(&text("one,two")));
}

#[test]
fn values_that_are_no_text_are_left_out() {
    let headers = vec![
        ResponseHeader {
            name: "x-a".to_string(),
            values: vec![None, Some("1".to_string()), None, Some("2".to_string())],
        },
        ResponseHeader { name: "x-b".to_string(), values: vec![None] },
    ];
    let span = serve(&request("/"), 200, &headers, &["X-"]);
    assert_eq!(value(&span, "http.response.header.x_a"), Some(&text("1,2")));
    assert_eq!(value(&span, "http.response.header.x_b"), None);
    let span = serve(&request("/"), 200, &headers, &[]);
    assert_eq!(value(&span, "http.response.header.x_a"), None);
}

#[test]
fn header_names_are_normalized() {
    assert_eq!(normalize_response_header_name("X-Request-ID"), "x_request_id");
    assert_eq!(normalize_response_header_name("plain"), "plain");
    assert_eq!(
        lower_prefixes(&vec!["X-A".to_string(), "b".to_string()]),
        vec!["x-a".to_string(), "b".to_string()]
    );
}
