use auspex::context::{hex_digit, ParseError, SpanContext, SpanId, TraceId};
use auspex::propagation::TraceState;

#[test]
fn trace_id_roundtrip_bytes() {
    let original = TraceId::from_bytes([1, 2, 3, 4, 5, 6, 7, 8, 9, 10, 11, 12, 13, 14, 15, 16]);
    let bytes = *original.as_bytes();
    let roundtripped = TraceId::from_bytes(bytes);
    assert_eq!(original, roundtripped);
}

#[test]
fn trace_id_display_and_from_str() {
    let id = TraceId::from_bytes([0x0a; 16]);
    let s = id.to_string();
    assert_eq!(s.len(), 32);
    assert_eq!(s, "0a0a0a0a0a0a0a0a0a0a0a0a0a0a0a0a");

    let parsed: TraceId = s.parse().expect("valid hex");
    assert_eq!(parsed, id);
}

#[test]
fn span_id_roundtrip_and_display() {
    let id = SpanId::from_bytes([0xde, 0xad, 0xbe, 0xef, 0x00, 0x00, 0x00, 0x01]);
    let s = id.to_string();
    assert_eq!(s, "deadbeef00000001");

    let parsed: SpanId = s.parse().expect("valid hex in test");
    assert_eq!(parsed, id);
}

#[test]
fn invalid_lengths_rejected() {
    assert!("1234".parse::<TraceId>().is_err());
    assert!("deadbeef".parse::<SpanId>().is_err());
}

#[test]
fn zero_detection() {
    assert!(TraceId::zero().is_zero());
    assert!(!TraceId::from_bytes([1; 16]).is_zero());
    assert!(SpanId::zero().is_zero());
}

#[test]
fn generate_never_produces_zero() {
    for _ in 0..100 {
        assert!(!TraceId::generate().is_zero());
        assert!(!SpanId::generate().is_zero());
    }
}

#[test]
fn parse_errors_distinguish_cases() {
    assert_eq!("".parse::<TraceId>(), Err(ParseError::InvalidLength));
    assert_eq!("zzzz".parse::<SpanId>(), Err(ParseError::InvalidLength));
    assert_eq!(
        "gggggggggggggggggggggggggggggggg".parse::<TraceId>(),
        Err(ParseError::InvalidHex)
    );
    assert_eq!(
        "00000000000000000000000000000000".parse::<TraceId>(),
        Err(ParseError::Zero)
    );
    assert_eq!("0000000000000000".parse::<SpanId>(), Err(ParseError::Zero));
}

#[test]
fn trace_id_roundtrips_through_display_and_parse() {
    for last in [1u8, 0x7f, 0x80, 0xff] {
        let mut bytes = [0u8; 16];
        bytes[15] = last;
        bytes[3] = 0xab;
        let id = TraceId::from_bytes(bytes);
        assert_eq!(id.as_bytes(), &bytes);
        assert_eq!(id.to_string().parse::<TraceId>(), Ok(id));
    }
}

#[test]
fn span_id_roundtrips_through_display_and_parse() {
    for last in [1u8, 0x7f, 0x80, 0xff] {
        let mut bytes = [0u8; 8];
        bytes[7] = last;
        let id = SpanId::from_bytes(bytes);
        assert_eq!(id.as_bytes(), &bytes);
        assert_eq!(id.to_vec(), bytes.to_vec());
        assert_eq!(id.to_string().parse::<SpanId>(), Ok(id));
    }
}

#[test]
fn uppercase_digits_name_the_same_identifier() {
    assert_eq!("DEADBEEF00000001".parse::<SpanId>(), "deadbeef00000001".parse::<SpanId>());
}

#[test]
fn length_is_counted_in_bytes() {
    // Sixteen characters, but more than sixteen bytes.
    assert_eq!("éééééééééééééééé".parse::<SpanId>(), Err(ParseError::InvalidLength));
    // Eight characters of two bytes each: the right number of bytes, no digits.
    assert_eq!("éééééééé".parse::<SpanId>(), Err(ParseError::InvalidHex));
}

#[test]
fn parse_error_texts() {
    assert_eq!(ParseError::InvalidLength.to_string(), "invalid length");
    assert_eq!(ParseError::InvalidHex.to_string(), "invalid hex digit");
    assert_eq!(ParseError::Zero.to_string(), "zero ID is not allowed");
}

#[test]
fn hex_digits_of_either_case() {
    assert_eq!(hex_digit(b'0'), Ok(0));
    assert_eq!(hex_digit(b'9'), Ok(9));
    assert_eq!(hex_digit(b'a'), Ok(10));
    assert_eq!(hex_digit(b'F'), Ok(15));
    assert_eq!(hex_digit(b'g'), Err("invalid hex digit in TraceId"));
    assert_eq!(hex_digit(b'/'), Err("invalid hex digit in TraceId"));
}

#[test]
fn identifiers_from_slices_need_their_length() {
    assert_eq!(TraceId::try_from(&[7u8; 16][..]), Ok(TraceId::from_bytes([7; 16])));
    assert_eq!(TraceId::try_from(&[7u8; 15][..]), Err("TraceId must be exactly 16 bytes"));
    assert_eq!(SpanId::try_from(&[7u8; 8][..]), Ok(SpanId::from_bytes([7; 8])));
    assert_eq!(SpanId::try_from(&[7u8; 9][..]), Err("SpanId must be exactly 8 bytes"));
    assert_eq!(TraceId::from([3u8; 16]), TraceId::from_bytes([3; 16]));
    assert_eq!(SpanId::from([3u8; 8]), SpanId::from_bytes([3; 8]));
}

#[test]
fn a_draw_counts_only_if_it_succeeded_and_is_not_zero() {
    assert_eq!(TraceId::from_draw(true, [1; 16]), Some(TraceId::from_bytes([1; 16])));
    assert_eq!(TraceId::from_draw(false, [1; 16]), None);
    assert_eq!(TraceId::from_draw(true, [0; 16]), None);
    assert_eq!(SpanId::from_draw(true, [1; 8]), Some(SpanId::from_bytes([1; 8])));
    assert_eq!(SpanId::from_draw(true, [0; 8]), None);
}

#[test]
fn generated_identifiers_differ() {
    assert_ne!(TraceId::generate(), TraceId::generate());
    assert_ne!(SpanId::generate(), SpanId::generate());
}

#[test]
fn can_attach_to_span_context() {
    let ts = TraceState::from_header("rojo=val1,verde=val2").expect("should get tracestate");
    let tid = TraceId::from_bytes([1; 16]);
    let sid = SpanId::from_bytes([2; 8]);

    let ctx = SpanContext::new(tid, sid, true).with_trace_state(ts);

    assert_eq!(
        ctx.trace_state.as_ref().map(TraceState::as_str),
        Some("rojo=val1,verde=val2")
    );
    assert_eq!(ctx.clone(), ctx);
}

#[test]
fn absence_does_not_allocate_on_containers() {
    let ctx: SpanContext = SpanContext::new(
        TraceId::from_bytes([0; 16]),
        SpanId::from_bytes([0; 8]),
        false,
    );
    assert!(ctx.trace_state.is_none());
}

#[test]
fn a_parsed_identifier_writes_back_in_small_letters() {
    let text = "0AF7651916CD43DD8448EB211C80319C";
    let id: TraceId = text.parse().expect("a trace identifier");
    assert_eq!(id.to_string(), text.to_lowercase());
    let id: SpanId = "B7ad6B7169203331".parse().expect("a span identifier");
    assert_eq!(id.to_string(), "b7ad6b7169203331");
}
