use std::time::Duration;

use auspex::config::{parse_headers, parse_kv_pairs};
use auspex::sink::{resolve_endpoint, Endpoint, ExporterKind};
use auspex::{Config, ConfigError, Environment, InitError};

fn env(vars: &[(&str, &str)]) -> Environment {
    Environment::new(pairs(vars))
}

fn pairs(list: &[(&str, &str)]) -> Vec<(String, String)> {
    list.iter().map(|(k, v)| (k.to_string(), v.to_string())).collect()
}

#[test]
fn default_is_disabled() {
    let c = Config::default();
    assert!(c.disabled);
    assert!(!c.is_enabled());
    assert!(c.service_name.is_none());
    assert_eq!(c.max_export_batch_size, 512);
    assert_eq!(c.schedule_delay, Duration::from_secs(5));
    assert_eq!(c.exporter, ExporterKind::default());
}

#[test]
fn withers_update_fields() {
    let c = Config::default()
        .with_service_name("test-svc")
        .with_sink_uri("http://localhost:4318");
    assert_eq!(c.service_name.as_deref(), Some("test-svc"));
    assert_eq!(c.sink_uri.as_deref(), Some("http://localhost:4318"));
    assert!(!c.disabled);
    assert!(c.is_enabled());
}

#[test]
fn disabled_wins() {
    let c = Config::default().with_sink_uri("http://example.com").disabled();
    assert!(c.disabled);
    assert!(!c.is_enabled());
}

#[test]
fn from_env_basic_parsing_does_not_panic() {
    let c = Config::from_env(&env(&[]));
    assert_eq!(c, Config::default());
}

#[test]
fn builder_value_overrides_env() {
    let base = Config::default().with_service_name("from-env-value");
    let overridden = base.with_service_name("explicit-builder-value");
    assert_eq!(overridden.service_name.as_deref(), Some("explicit-builder-value"));
}

#[test]
fn otel_sink_uri_overrides_standard_otlp_endpoint() {
    let c = Config::from_env(&env(&[
        ("OTEL_SINK_URI", "http://auspex-sink.example.com:4318"),
        ("OTEL_EXPORTER_OTLP_ENDPOINT", "http://standard-otlp.example.com:4318"),
    ]));
    assert_eq!(c.sink_uri.as_deref(), Some("http://auspex-sink.example.com:4318"));
    assert!(!c.disabled);
}

#[test]
fn otel_traces_exporter_none_disables_even_with_sink() {
    let c = Config::from_env(&env(&[
        ("OTEL_SINK_URI", "http://should-be-ignored.example.com"),
        ("OTEL_TRACES_EXPORTER", "none"),
    ]));
    assert!(c.disabled);
    assert!(c.sink_uri.is_none());
    assert!(!c.is_enabled());
}

#[test]
fn exporter_none_is_matched_in_any_case() {
    let c = Config::from_env(&env(&[
        ("OTEL_SINK_URI", "http://example.com"),
        ("OTEL_TRACES_EXPORTER", "  NoNe "),
    ]));
    assert!(c.disabled);
    let c = Config::from_env(&env(&[
        ("OTEL_SINK_URI", "http://example.com"),
        ("OTEL_TRACES_EXPORTER", "otlp"),
    ]));
    assert!(!c.disabled);
}

#[test]
fn otlp_endpoint_path_default_is_v1_traces() {
    let ep = resolve_endpoint("http://collector.example.com").expect("valid OTLP endpoint");
    match ep {
        Endpoint::OtlpHttp(u) => {
            assert_eq!(u.path(), "/v1/traces");
            assert_eq!(u.scheme(), "http");
            assert_eq!(u.as_str(), "http://collector.example.com/v1/traces");
        }
        _ => panic!("expected OtlpHttp with default path"),
    }
}

#[test]
fn zipkin_endpoint_path_default_is_api_v2_spans() {
    let ep = resolve_endpoint("zipkin+https://zipkin.example.com").expect("valid Zipkin endpoint");
    match ep {
        Endpoint::Zipkin(u) => {
            assert_eq!(u.scheme(), "https", "the zipkin+ prefix must be stripped");
            assert_eq!(u.path(), "/api/v2/spans");
        }
        _ => panic!("expected Zipkin with default path"),
    }
}

#[test]
fn zipkin_plus_https_scheme_routes_to_zipkin() {
    let ep = resolve_endpoint("zipkin+https://jaeger.example.com:9411").expect("valid Zipkin endpoint");
    assert!(matches!(ep, Endpoint::Zipkin(_)));
}

#[test]
fn zipkin_endpoint_uses_usable_http_scheme() {
    match resolve_endpoint("zipkin+http://localhost:9411").expect("valid") {
        Endpoint::Zipkin(u) => {
            assert_eq!(u.scheme(), "http");
            assert_eq!(u.host_str(), Some("localhost"));
            assert_eq!(u.port(), Some(9411));
            assert_eq!(u.path(), "/api/v2/spans");
        }
        _ => panic!("expected Zipkin endpoint"),
    }
    match resolve_endpoint("zipkin://localhost:9411").expect("valid") {
        Endpoint::Zipkin(u) => {
            assert_eq!(u.scheme(), "http", "bare zipkin:// maps to http");
            assert_eq!(u.port(), Some(9411));
        }
        _ => panic!("expected Zipkin endpoint"),
    }
}

#[test]
fn grpc_scheme_rejected_in_v0_1() {
    let err = resolve_endpoint("grpc://collector:4317").unwrap_err();
    assert!(matches!(err, ConfigError::InvalidExporterEndpoint(_)));
    let msg = err.to_string();
    assert!(msg.contains("gRPC"));
    assert!(msg.contains("v0.1"));
    assert!(resolve_endpoint("otlp+grpc://collector:4317").is_err());
}

#[test]
fn a_path_in_the_endpoint_is_kept() {
    match resolve_endpoint("  HTTPS://x ").unwrap_err() {
        ConfigError::InvalidExporterEndpoint(m) => {
            assert_eq!(m, "unsupported or unparseable endpoint: HTTPS://x");
        }
        other => panic!("unexpected {other:?}"),
    }
    match resolve_endpoint("https://h:8443/custom/path?q=1").expect("valid") {
        Endpoint::OtlpHttp(u) => {
            assert_eq!(u.path(), "/custom/path");
            assert_eq!(u.port(), Some(8443));
            assert_eq!(u.as_str(), "https://h:8443/custom/path?q=1");
        }
        _ => panic!("expected OTLP"),
    }
    match resolve_endpoint("http://h/?q=1").expect("valid") {
        Endpoint::OtlpHttp(u) => assert_eq!(u.as_str(), "http://h/v1/traces?q=1"),
        _ => panic!("expected OTLP"),
    }
}

#[test]
fn unusable_endpoints_say_why() {
    assert_eq!(
        resolve_endpoint("   "),
        Err(ConfigError::InvalidExporterEndpoint("empty endpoint".to_string()))
    );
    assert_eq!(
        resolve_endpoint("ftp://h"),
        Err(ConfigError::InvalidExporterEndpoint(
            "unsupported or unparseable endpoint: ftp://h".to_string()
        ))
    );
    assert_eq!(
        resolve_endpoint("http://"),
        Err(ConfigError::InvalidExporterEndpoint(
            "unsupported or unparseable endpoint: http://".to_string()
        ))
    );
    assert_eq!(
        resolve_endpoint("zipkin+ftp://h"),
        Err(ConfigError::InvalidExporterEndpoint(
            "unsupported or unparseable endpoint: zipkin+ftp://h".to_string()
        ))
    );
}

fn otlp_url(vars: &[(&str, &str)]) -> String {
    match Config::from_env(&env(vars)).endpoint.expect("an endpoint") {
        Endpoint::OtlpHttp(u) => u.as_str().to_string(),
        Endpoint::Zipkin(_) => panic!("expected an OTLP endpoint"),
    }
}

#[test]
fn the_endpoint_for_traces_is_used_as_it_is() {
    let name = "OTEL_EXPORTER_OTLP_TRACES_ENDPOINT";
    for (given, used) in [
        ("http://traces.example.com:4318/", "http://traces.example.com:4318/"),
        (" http://traces.example.com:4318 ", "http://traces.example.com:4318/"),
        ("https://t/custom?q=1", "https://t/custom?q=1"),
        ("http://t/v1/traces", "http://t/v1/traces"),
    ] {
        assert_eq!(otlp_url(&[(name, given)]), used);
    }
    let c = Config::from_env(&env(&[(name, "http://traces.example.com:4318/")]));
    assert_eq!(c.sink_uri.as_deref(), Some("http://traces.example.com:4318/"));
    assert_eq!(c.exporter, ExporterKind::Otlp);
    match c.endpoint.expect("an endpoint") {
        Endpoint::OtlpHttp(u) => assert_eq!(u.path(), "/"),
        Endpoint::Zipkin(_) => panic!("expected an OTLP endpoint"),
    }
}

#[test]
fn the_general_endpoint_is_a_base() {
    let name = "OTEL_EXPORTER_OTLP_ENDPOINT";
    for (given, used) in [
        ("http://localhost:4318", "http://localhost:4318/v1/traces"),
        ("http://localhost:4318/", "http://localhost:4318/v1/traces"),
        ("https://h/otlp", "https://h/otlp/v1/traces"),
        ("https://h/otlp/", "https://h/otlp/v1/traces"),
        ("https://h/a%20b/c d/../e?q=1", "https://h/a%20b/e/v1/traces?q=1"),
        ("http://h//", "http://h//v1/traces"),
    ] {
        assert_eq!(otlp_url(&[(name, given)]), used);
    }
}

#[test]
fn the_sink_uri_gets_a_path_only_where_it_has_none() {
    let name = "OTEL_SINK_URI";
    assert_eq!(otlp_url(&[(name, "http://h:4318/")]), "http://h:4318/v1/traces");
    assert_eq!(otlp_url(&[(name, "http://h/otlp")]), "http://h/otlp");
    for name in ["OTEL_EXPORTER_OTLP_TRACES_ENDPOINT", "OTEL_EXPORTER_OTLP_ENDPOINT"] {
        for (given, path) in [("zipkin://h", "/api/v2/spans"), ("zipkin+http://h/own", "/own")] {
            let c = Config::from_env(&env(&[(name, given)]));
            match c.endpoint.expect("an endpoint") {
                Endpoint::Zipkin(u) => assert_eq!(u.path(), path),
                Endpoint::OtlpHttp(_) => panic!("expected a Zipkin endpoint"),
            }
        }
    }
}

#[test]
fn a_sink_that_does_not_resolve_leaves_no_earlier_endpoint() {
    let c = Config::default().with_sink_uri("http://good:4318").with_sink_uri("grpc://h");
    assert_eq!(c.sink_uri.as_deref(), Some("grpc://h"));
    assert!(c.endpoint.is_none());
    assert_eq!(c.exporter, ExporterKind::Disabled);
}

#[test]
fn from_env_disables_on_invalid_endpoint() {
    let c = Config::from_env(&env(&[
        ("OTEL_SINK_URI", "grpc://collector:4317"),
        ("OTEL_SERVICE_NAME", "test-service"),
    ]));
    assert!(c.disabled);
    assert!(c.sink_uri.is_none());
    assert!(c.endpoint.is_none());
    assert_eq!(c.exporter, ExporterKind::Disabled);
}

#[test]
fn with_sink_uri_populates_typed_fields() {
    let c = Config::default().with_sink_uri("zipkin+https://zipkin.example.com");

    assert_eq!(c.sink_uri.as_deref(), Some("zipkin+https://zipkin.example.com"));
    assert!(c.endpoint.is_some());
    assert_eq!(c.exporter, ExporterKind::Zipkin);
}

#[test]
fn traces_specific_otlp_endpoint_takes_precedence() {
    let c = Config::from_env(&env(&[
        ("OTEL_EXPORTER_OTLP_ENDPOINT", "http://generic.example.com:4318"),
        ("OTEL_EXPORTER_OTLP_TRACES_ENDPOINT", "http://traces.example.com:4318"),
    ]));
    assert_eq!(c.sink_uri.as_deref(), Some("http://traces.example.com:4318"));
}

#[test]
fn a_blank_sink_hides_the_endpoints_of_less_weight() {
    let c = Config::from_env(&env(&[
        ("OTEL_SINK_URI", "  "),
        ("OTEL_EXPORTER_OTLP_ENDPOINT", "http://generic.example.com:4318"),
    ]));
    assert!(c.sink_uri.is_none());
    assert!(c.disabled);
}

#[test]
fn try_new_returns_error_on_sink_without_service_name() {
    let c = Config::from_env(&env(&[("OTEL_SINK_URI", "http://example.com")]));
    assert!(c.sink_uri.is_some());
    assert!(c.service_name.is_none());
    assert!(!c.can_export());
}

#[test]
fn new_silently_disables_on_sink_without_service_name() {
    let c = Config::from_env(&env(&[("OTEL_SINK_URI", "http://example.com")]));
    assert!(c.sink_uri.is_some());
    assert!(c.service_name.is_none());
}

#[test]
fn from_env_populates_typed_endpoint_and_exporter() {
    let c = Config::from_env(&env(&[("OTEL_SINK_URI", "zipkin+https://jaeger.local:9411")]));
    assert!(c.endpoint.is_some());
    assert_eq!(c.exporter, ExporterKind::Zipkin);
    if let Some(Endpoint::Zipkin(u)) = &c.endpoint {
        assert!(u.as_str().contains("jaeger.local"));
    } else {
        panic!("expected Zipkin endpoint");
    }
}

#[test]
fn bsp_schedule_delay_is_parsed_as_milliseconds() {
    let c = Config::from_env(&env(&[("OTEL_BSP_SCHEDULE_DELAY", "500")]));
    assert_eq!(c.schedule_delay, Duration::from_millis(500));
    let c = Config::from_env(&env(&[("OTEL_BSP_SCHEDULE_DELAY", "5000")]));
    assert_eq!(c.schedule_delay, Duration::from_secs(5));
}

#[test]
fn bsp_schedule_delay_bad_value_falls_back_to_default() {
    let c = Config::from_env(&env(&[("OTEL_BSP_SCHEDULE_DELAY", "not-a-number")]));
    assert_eq!(c.schedule_delay, Duration::from_secs(5));
}

#[test]
fn numbers_out_of_range_keep_the_default() {
    for bad in ["0", "3600000", "-1", "", "99999999999999999999999999"] {
        let c = Config::from_env(&env(&[("OTEL_BSP_SCHEDULE_DELAY", bad)]));
        assert_eq!(c.schedule_delay, Duration::from_secs(5), "{bad}");
    }
    let c = Config::from_env(&env(&[("OTEL_BSP_SCHEDULE_DELAY", "3599999")]));
    assert_eq!(c.schedule_delay, Duration::from_millis(3_599_999));
    for bad in ["0", "10001", "x"] {
        let c = Config::from_env(&env(&[("OTEL_BSP_MAX_EXPORT_BATCH_SIZE", bad)]));
        assert_eq!(c.max_export_batch_size, 512, "{bad}");
    }
    let c = Config::from_env(&env(&[("OTEL_BSP_MAX_EXPORT_BATCH_SIZE", " +10000 ")]));
    assert_eq!(c.max_export_batch_size, 10_000);
}

#[test]
fn otlp_headers_parses_comma_separated_pairs() {
    let headers = parse_headers("a=b,c=d, malformed, x= , =y");
    assert_eq!(
        headers,
        vec![("a".to_string(), "b".to_string()), ("c".to_string(), "d".to_string()),]
    );
}

#[test]
fn a_value_keeps_further_equals_signs() {
    assert_eq!(parse_kv_pairs(" k = a=b "), pairs(&[("k", "a=b")]));
    assert_eq!(parse_kv_pairs(""), pairs(&[]));
}

#[test]
fn headers_for_traces_count_only_where_there_are_no_others() {
    let c = Config::from_env(&env(&[
        ("OTEL_EXPORTER_OTLP_HEADERS", "a=b"),
        ("OTEL_EXPORTER_OTLP_TRACES_HEADERS", "c=d"),
    ]));
    assert_eq!(c.headers, pairs(&[("a", "b")]));
    let c = Config::from_env(&env(&[
        ("OTEL_EXPORTER_OTLP_HEADERS", "malformed"),
        ("OTEL_EXPORTER_OTLP_TRACES_HEADERS", "c=d"),
    ]));
    assert_eq!(c.headers, pairs(&[("c", "d")]));
}

#[test]
fn capture_headers_prefix_empty_means_no_capture() {
    let c = Config::from_env(&env(&[("AUSPEX_CAPTURE_HEADERS_PREFIX", "")]));
    assert!(c.capture_header_prefixes.is_empty());

    let c = Config::from_env(&env(&[("AUSPEX_CAPTURE_HEADERS_PREFIX", "x-request-id, x-trace")]));
    assert!(!c.capture_header_prefixes.is_empty());
    assert_eq!(
        c.capture_header_prefixes,
        vec!["x-request-id".to_string(), "x-trace".to_string()]
    );
}

#[test]
fn with_resource_attributes_merges_and_overrides_by_key() {
    let c = Config::default()
        .with_resource_attributes(pairs(&[
            ("service.version", "1.0.0"),
            ("deployment.environment", "dev"),
        ]))
        .with_resource_attributes(pairs(&[
            ("deployment.environment", "prod"),
            ("region", "us-east-1"),
        ]));
    assert_eq!(
        c.resource_attributes,
        vec![
            ("service.version".to_string(), "1.0.0".to_string()),
            ("deployment.environment".to_string(), "prod".to_string()),
            ("region".to_string(), "us-east-1".to_string()),
        ]
    );
}

#[test]
fn resource_attributes_never_store_service_name() {
    let c = Config::default()
        .with_resource_attributes(pairs(&[("service.name", "promoted"), ("service.version", "9")]));
    assert_eq!(c.service_name.as_deref(), Some("promoted"));
    assert_eq!(
        c.resource_attributes,
        vec![("service.version".to_string(), "9".to_string())]
    );
}

#[test]
fn explicit_service_name_wins_over_resource_attribute() {
    let c = Config::default()
        .with_service_name("explicit")
        .with_resource_attributes(pairs(&[("service.name", "from-attrs")]));
    assert_eq!(c.service_name.as_deref(), Some("explicit"));
    assert!(c.resource_attributes.is_empty());
}

#[test]
fn from_env_parses_resource_attributes() {
    let c = Config::from_env(&env(&[(
        "OTEL_RESOURCE_ATTRIBUTES",
        "service.version=0.10.7, deployment.environment=prod , bogus, =noKey, noValue=",
    )]));
    assert_eq!(
        c.resource_attributes,
        vec![
            ("service.version".to_string(), "0.10.7".to_string()),
            ("deployment.environment".to_string(), "prod".to_string()),
        ]
    );
}

#[test]
fn from_env_resource_attributes_unset_means_empty() {
    let c = Config::from_env(&env(&[]));
    assert!(c.resource_attributes.is_empty());
}

#[test]
fn otel_service_name_wins_over_service_name_in_resource_attributes() {
    let c = Config::from_env(&env(&[
        ("OTEL_SERVICE_NAME", "explicit-svc"),
        ("OTEL_RESOURCE_ATTRIBUTES", "service.name=from-attrs,service.version=2"),
    ]));
    assert_eq!(c.service_name.as_deref(), Some("explicit-svc"));
    assert_eq!(
        c.resource_attributes,
        vec![("service.version".to_string(), "2".to_string())]
    );
}

#[test]
fn service_name_promoted_from_resource_attributes_when_otel_service_name_absent() {
    let c = Config::from_env(&env(&[(
        "OTEL_RESOURCE_ATTRIBUTES",
        "service.name=promoted-svc",
    )]));
    assert_eq!(c.service_name.as_deref(), Some("promoted-svc"));
    assert!(c.resource_attributes.is_empty());
}

#[test]
fn giving_the_same_attributes_twice_changes_nothing() {
    let attributes = || pairs(&[("b", "1"), ("a", "2"), ("service.name", "svc"), ("b", "3")]);
    let once = Config::default()
        .with_resource_attributes(pairs(&[("a", "0")]))
        .with_resource_attributes(attributes());
    assert_eq!(once.resource_attributes, pairs(&[("a", "2"), ("b", "3")]));
    assert_eq!(once.clone().with_resource_attributes(attributes()), once);
}

#[test]
fn attributes_stand_in_the_order_of_their_keys() {
    let c = Config::default()
        .with_resource_attributes(pairs(&[("z", "1"), ("m", "2")]))
        .with_resource_attributes(pairs(&[("b", "3"), ("m", "4"), ("a", "5"), ("b", "6")]));
    assert_eq!(
        c.resource_attributes,
        pairs(&[("z", "1"), ("m", "4"), ("b", "6"), ("a", "5")])
    );
}

#[test]
fn lists_of_pairs_split_at_commas() {
    let mut halves = parse_headers("a=1, b = 2");
    halves.extend(parse_headers("bad,c=3="));
    assert_eq!(parse_headers("a=1, b = 2,bad,c=3="), halves);
    assert_eq!(halves, pairs(&[("a", "1"), ("b", "2"), ("c", "3=")]));
}

#[test]
fn long_bases_resolve() {
    let base = format!("http://h/{}", "a/".repeat(100_000));
    let url = otlp_url(&[("OTEL_EXPORTER_OTLP_ENDPOINT", &base)]);
    assert_eq!(url, format!("{base}v1/traces"));
}

#[test]
fn blank_settings_change_nothing() {
    let c = Config::default().with_service_name("svc").with_service_name("  ");
    assert_eq!(c.service_name.as_deref(), Some("svc"));
    let c = c.with_sink_uri(" \t ");
    assert_eq!(c, c.clone());
    assert!(c.disabled);
    assert!(c.sink_uri.is_none());
}

#[test]
fn an_unresolvable_sink_is_kept_as_text() {
    let c = Config::default().with_sink_uri(" grpc://h ");
    assert_eq!(c.sink_uri.as_deref(), Some("grpc://h"));
    assert!(c.endpoint.is_none());
    assert!(c.is_enabled());
}

#[test]
fn environment_lookup_takes_the_first_entry() {
    let e = env(&[("A", "1"), ("B", "2"), ("A", "3")]);
    assert_eq!(e.get("A"), Some("1"));
    assert_eq!(e.get("B"), Some("2"));
    assert_eq!(e.get("C"), None);
}

#[test]
fn config_error_is_error_and_displayable() {
    let e = ConfigError::MissingServiceName;
    let s = e.to_string();
    assert!(s.contains("SERVICE_NAME"));
    assert_eq!(s, "OTEL_SERVICE_NAME is required for enabled export");
}

#[test]
fn init_error_from_config_error() {
    let c = ConfigError::InvalidConfig("bad".into());
    let i: InitError = c.into();
    assert!(matches!(i, InitError::Config(_)));
    assert!(i.to_string().contains("configuration error"));
    assert_eq!(i.to_string(), "configuration error: invalid configuration: bad");
}

#[test]
fn init_error_display_for_subscriber() {
    let e = InitError::GlobalSubscriberAlreadySet;
    let s = e.to_string();
    assert!(s.contains("subscriber_layer"));
}

#[test]
fn other_error_texts() {
    assert_eq!(
        ConfigError::InvalidExporterEndpoint("x".to_string()).to_string(),
        "invalid exporter endpoint: x"
    );
    assert_eq!(
        InitError::Other("y".to_string()).to_string(),
        "initialization error: y"
    );
    assert_eq!(InitError::Other("y".to_string()).clone(), InitError::Other("y".to_string()));
}
