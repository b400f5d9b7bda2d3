use std::borrow::Cow;

use auspex::context::{ParseError as IdParseError, SpanId, TraceId};
use auspex::propagation::tracestate::MAX_TRACESTATE_LEN;
use auspex::propagation::{
    parse_traceparent, TraceFlags, TraceParent, TraceParentParseError as ParseError, TraceState,
};
use auspex::span::OtelSpan;

#[test]
fn rejects_wrong_number_of_segments() {
    assert!(parse_traceparent("00-abc").is_err());
    assert!(parse_traceparent("00-abc-def").is_err());
    assert!(parse_traceparent("00-abc-def-01-extra").is_err());
    assert_eq!(parse_traceparent("00-abc"), Err(ParseError::InvalidFormat));
}

#[test]
fn rejects_unsupported_version() {
    assert!(matches!(
        parse_traceparent("01-4bf92f3577b34da6a3ce929d0e0e4736-00f067aa0ba902b7-01"),
        Err(ParseError::UnsupportedVersion)
    ));
    assert!(matches!(
        parse_traceparent("ff-4bf92f3577b34da6a3ce929d0e0e4736-00f067aa0ba902b7-01"),
        Err(ParseError::UnsupportedVersion)
    ));
}

#[test]
fn rejects_invalid_trace_id_via_id_parser() {
    assert!(matches!(
        parse_traceparent("00-short-00f067aa0ba902b7-01"),
        Err(ParseError::InvalidTraceId(_))
    ));
    assert!(matches!(
        parse_traceparent("00-zzzzzzzzzzzzzzzzzzzzzzzzzzzzzzzz-00f067aa0ba902b7-01"),
        Err(ParseError::InvalidTraceId(_))
    ));
    assert!(matches!(
        parse_traceparent("00-00000000000000000000000000000000-00f067aa0ba902b7-01"),
        Err(ParseError::InvalidTraceId(IdParseError::Zero))
    ));
}

#[test]
fn rejects_invalid_parent_id_via_id_parser() {
    assert!(matches!(
        parse_traceparent("00-4bf92f3577b34da6a3ce929d0e0e4736-short-01"),
        Err(ParseError::InvalidParentId(_))
    ));
    assert!(matches!(
        parse_traceparent("00-4bf92f3577b34da6a3ce929d0e0e4736-0000000000000000-01"),
        Err(ParseError::InvalidParentId(IdParseError::Zero))
    ));
}

#[test]
fn rejects_bad_flags_length() {
    assert!(parse_traceparent("00-4bf92f3577b34da6a3ce929d0e0e4736-00f067aa0ba902b7-1").is_err());
    assert!(parse_traceparent("00-4bf92f3577b34da6a3ce929d0e0e4736-00f067aa0ba902b7-010").is_err());
}

#[test]
fn rejects_non_hex_flags() {
    assert!(parse_traceparent("00-4bf92f3577b34da6a3ce929d0e0e4736-00f067aa0ba902b7-gg").is_err());
}

#[test]
fn parses_canonical_w3c_example() {
    let header = "00-4bf92f3577b34da6a3ce929d0e0e4736-00f067aa0ba902b7-01";
    let tp = parse_traceparent(header).expect("valid traceparent");

    assert_eq!(tp.trace_id.to_string(), "4bf92f3577b34da6a3ce929d0e0e4736");
    assert_eq!(tp.parent_id.to_string(), "00f067aa0ba902b7");
    assert!(tp.flags.is_sampled());
}

#[test]
fn parses_unsampled_flag() {
    let header = "00-4bf92f3577b34da6a3ce929d0e0e4736-00f067aa0ba902b7-00";
    let tp = parse_traceparent(header).expect("traceparent should be parsed");
    assert!(!tp.flags.is_sampled());
}

#[test]
fn accepts_uppercase_hex_in_ids_and_flags() {
    let header = "00-4BF92F3577B34DA6A3CE929D0E0E4736-00F067AA0BA902B7-01";
    let tp = parse_traceparent(header).expect("case-insensitive hex");
    assert!(tp.flags.is_sampled());
    let flags = parse_traceparent("00-4bf92f3577b34da6a3ce929d0e0e4736-00f067aa0ba902b7-aF")
        .expect("valid flags")
        .flags;
    assert_eq!(flags.as_u8(), 0xaf);
}

#[test]
fn formatter_emits_lowercase_and_correct_flags() {
    let trace = "4bf92f3577b34da6a3ce929d0e0e4736"
        .parse::<TraceId>()
        .expect("trace id should be parsed");
    let parent = "00f067aa0ba902b7".parse::<SpanId>().expect("spanid should be parsed");

    let sampled = TraceParent {
        trace_id: trace,
        parent_id: parent,
        flags: TraceFlags::from_sampled(true),
    };
    assert_eq!(
        sampled.to_string(),
        "00-4bf92f3577b34da6a3ce929d0e0e4736-00f067aa0ba902b7-01"
    );

    let unsampled = TraceParent {
        trace_id: trace,
        parent_id: parent,
        flags: TraceFlags::from_sampled(false),
    };
    assert_eq!(
        unsampled.to_string(),
        "00-4bf92f3577b34da6a3ce929d0e0e4736-00f067aa0ba902b7-00"
    );
}

#[test]
fn formatter_cleans_unknown_flag_bits() {
    let trace = "4bf92f3577b34da6a3ce929d0e0e4736"
        .parse::<TraceId>()
        .expect("tradeid should be parsed");
    let parent = "00f067aa0ba902b7".parse::<SpanId>().expect("spanid should be parsed");

    let dirty_sampled = TraceParent {
        trace_id: trace,
        parent_id: parent,
        flags: TraceFlags::from_bits(0b0000_0011),
    };
    assert_eq!(
        dirty_sampled.to_string(),
        "00-4bf92f3577b34da6a3ce929d0e0e4736-00f067aa0ba902b7-01"
    );

    let dirty_unsampled = TraceParent {
        trace_id: trace,
        parent_id: parent,
        flags: TraceFlags::from_bits(0b0000_0010),
    };
    assert_eq!(
        dirty_unsampled.to_string(),
        "00-4bf92f3577b34da6a3ce929d0e0e4736-00f067aa0ba902b7-00"
    );
}

#[test]
fn traceparent_roundtrips() {
    for sampled in [true, false] {
        for seed in [1u8, 2, 0x80, 0xff] {
            let original = TraceParent {
                trace_id: TraceId::from_bytes([seed; 16]),
                parent_id: SpanId::from_bytes([seed; 8]),
                flags: TraceFlags::from_sampled(sampled),
            };
            assert_eq!(parse_traceparent(&original.to_string()), Ok(original));
        }
    }
}

#[test]
fn version_is_looked_at_before_anything_else() {
    assert_eq!(parse_traceparent(""), Err(ParseError::UnsupportedVersion));
    assert_eq!(parse_traceparent("01-abc"), Err(ParseError::UnsupportedVersion));
    assert_eq!(parse_traceparent("00"), Err(ParseError::InvalidFormat));
}

#[test]
fn traceparent_error_texts() {
    assert_eq!(ParseError::InvalidFormat.to_string(), "invalid traceparent format");
    assert_eq!(
        ParseError::UnsupportedVersion.to_string(),
        "unsupported traceparent version (only 00 is supported in v0.1)"
    );
    assert_eq!(
        ParseError::InvalidTraceId(IdParseError::InvalidHex).to_string(),
        "invalid trace-id: invalid hex digit"
    );
    assert_eq!(
        ParseError::InvalidParentId(IdParseError::Zero).to_string(),
        "invalid parent-id: zero ID is not allowed"
    );
}

#[test]
fn valid_tracestate_is_preserved() {
    let input = "vendor1=value1,vendor2=value2";
    let ts = TraceState::from_header(input).expect("should be valid");
    assert_eq!(ts.as_str(), input);
}

#[test]
fn whitespace_is_trimmed_on_construction() {
    let ts = TraceState::from_header("  foo=bar,baz=quux  ").expect("should be valid");
    assert_eq!(ts.as_str(), "foo=bar,baz=quux");
    assert_eq!(TraceState::from_header(ts.as_str()), Some(ts));
}

#[test]
fn empty_after_trim_is_rejected() {
    assert!(TraceState::from_header("").is_none());
    assert!(TraceState::from_header("   \t\n  ").is_none());
}

#[test]
fn over_budget_is_rejected() {
    let too_long = "a".repeat(MAX_TRACESTATE_LEN + 1);
    assert!(TraceState::from_header(&too_long).is_none());

    let at_limit = "a".repeat(MAX_TRACESTATE_LEN);
    assert!(TraceState::from_header(&at_limit).is_some());
}

#[test]
fn budget_is_counted_in_bytes() {
    assert!(TraceState::from_header(&"é".repeat(256)).is_some());
    assert!(TraceState::from_header(&"é".repeat(257)).is_none());
}

#[test]
fn can_be_attached_to_otel_span() {
    let ts = TraceState::from_header("rojo=val1").expect("valid tracestate");
    let tid = TraceId::from_bytes([1; 16]);
    let sid = SpanId::from_bytes([2; 8]);

    let mut span = OtelSpan::new(tid, sid, None, Cow::Borrowed("test"));
    span.trace_state = Some(ts);

    assert_eq!(span.trace_state.as_ref().map(TraceState::as_str), Some("rojo=val1"));
}
