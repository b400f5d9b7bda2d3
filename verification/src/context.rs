//! Trace context: the identifiers of a trace and of a span, their hexadecimal
//! text, and the context that a span hands to its descendants.

use std::str::FromStr;

use vstd::prelude::*;
use vstd::string::*;
use vstd::utf8::*;

use crate::propagation::TraceState;

verus! {

/// Why a text is not a trace or span identifier.
#[derive(Debug, Clone, Copy, PartialEq, Eq, Structural)]
pub enum ParseError {
    /// Wrong number of characters or bytes.
    InvalidLength,
    /// Non-hex digit encountered.
    InvalidHex,
    /// The all-zero identifier.
    Zero,
}

impl ParseError {
    /// The text that describes the error.
    pub open spec fn text(self) -> Seq<char> {
        match self {
            ParseError::InvalidLength => "invalid length"@,
            ParseError::InvalidHex => "invalid hex digit"@,
            ParseError::Zero => "zero ID is not allowed"@,
        }
    }

    /// A human-readable description.
    pub fn to_string(&self) -> (r: String)
        ensures
            r@ == self.text(),
    {
        match self {
            ParseError::InvalidLength => "invalid length".to_owned(),
            ParseError::InvalidHex => "invalid hex digit".to_owned(),
            ParseError::Zero => "zero ID is not allowed".to_owned(),
        }
    }
}

/// Whether every byte is zero.
pub open spec fn all_zero(bytes: Seq<u8>) -> bool {
    forall|i: int| 0 <= i < bytes.len() ==> bytes[i] == 0
}

/// Whether `b` is an ASCII hexadecimal digit, of either case.
pub open spec fn is_hex(b: u8) -> bool {
    48 <= b <= 57 || 97 <= b <= 102 || 65 <= b <= 70
}

/// The value of an ASCII hexadecimal digit.
pub open spec fn hex_value(b: u8) -> int {
    if 48 <= b <= 57 {
        b - 48
    } else if 97 <= b <= 102 {
        b - 87
    } else {
        b - 55
    }
}

/// The lowercase hexadecimal digit of a value below sixteen.
pub open spec fn hex_char(n: int) -> char {
    if n < 10 {
        (48 + n) as char
    } else {
        (87 + n) as char
    }
}

/// Lowercase hexadecimal, two digits for each byte.
pub open spec fn hex_text(bytes: Seq<u8>) -> Seq<char> {
    Seq::new(
        2 * bytes.len(),
        |i: int|
            hex_char(
                if i % 2 == 0 {
                    bytes[i / 2] as int / 16
                } else {
                    bytes[i / 2] as int % 16
                },
            ),
    )
}

/// The bytes that pairs of hexadecimal digits write.
pub open spec fn hex_bytes(digits: Seq<u8>) -> Seq<u8> {
    Seq::new(
        digits.len() / 2,
        |i: int| (hex_value(digits[2 * i]) * 16 + hex_value(digits[2 * i + 1])) as u8,
    )
}

/// Whether every byte is a hexadecimal digit.
pub open spec fn all_hex(digits: Seq<u8>) -> bool {
    forall|i: int| 0 <= i < digits.len() ==> is_hex(digits[i])
}

/// The identifier of `width` bytes that `text` writes: `2 * width` hexadecimal
/// digits that are not all zero, or the reason why it is none.
pub open spec fn parsed_id(text: Seq<char>, width: nat) -> Result<Seq<u8>, ParseError> {
    let digits = encode_utf8(text);
    if digits.len() != 2 * width {
        Err(ParseError::InvalidLength)
    } else if !all_hex(digits) {
        Err(ParseError::InvalidHex)
    } else if all_zero(hex_bytes(digits)) {
        Err(ParseError::Zero)
    } else {
        Ok(hex_bytes(digits))
    }
}

/// What a parse returned is what the text says.
pub open spec fn parse_agrees<T: View<V = Seq<u8>>>(
    r: Result<T, ParseError>,
    expected: Result<Seq<u8>, ParseError>,
) -> bool {
    match r {
        Ok(id) => expected == Ok::<Seq<u8>, ParseError>(id@),
        Err(e) => expected == Err::<Seq<u8>, ParseError>(e),
    }
}

/// The value of one ASCII hexadecimal digit.
pub fn hex_digit(c: u8) -> (r: Result<u8, &'static str>)
    ensures
        r is Ok <==> is_hex(c),
        r matches Ok(v) ==> v == hex_value(c) && v < 16,
        r matches Err(e) ==> e@ == "invalid hex digit in TraceId"@,
{
    if 48 <= c && c <= 57 {
        Ok(c - 48)
    } else if 97 <= c && c <= 102 {
        Ok(c - 87)
    } else if 65 <= c && c <= 70 {
        Ok(c - 55)
    } else {
        Err("invalid hex digit in TraceId")
    }
}

/// The bytes of an identifier of `width` bytes, or why `s` writes none.
fn parse_id(s: &str, width: usize) -> (r: Result<Vec<u8>, ParseError>)
    requires
        width <= 16,
    ensures
        parse_agrees(r, parsed_id(s@, width as nat)),
        r matches Ok(v) ==> v@.len() == width,
{
    let digits = s.as_bytes();
    if digits.len() != 2 * width {
        return Err(ParseError::InvalidLength);
    }
    let mut bytes: Vec<u8> = Vec::new();
    let mut zero: bool = true;
    let mut i: usize = 0;
    while i < width
        invariant
            width <= 16,
            digits@ == encode_utf8(s@),
            digits@.len() == 2 * width,
            i <= width,
            forall|k: int| 0 <= k < 2 * i ==> is_hex(digits@[k]),
            bytes@ == hex_bytes(digits@).take(i as int),
            zero == all_zero(bytes@),
        decreases width - i,
    {
        let high = match hex_digit(digits[2 * i]) {
            Ok(v) => v,
            Err(_) => {
                return Err(ParseError::InvalidHex);
            },
        };
        let low = match hex_digit(digits[2 * i + 1]) {
            Ok(v) => v,
            Err(_) => {
                return Err(ParseError::InvalidHex);
            },
        };
        let byte = high * 16 + low;
        let ghost before = bytes@;
        bytes.push(byte);
        assert(bytes@ =~= hex_bytes(digits@).take(i + 1));
        if byte != 0 {
            zero = false;
            assert(bytes@[i as int] != 0);
        } else if !zero {
            proof {
                let k = choose|k: int| 0 <= k < before.len() && before[k] != 0;
                assert(bytes@[k] != 0);
            }
        }
        i += 1;
    }
    assert(bytes@ =~= hex_bytes(digits@));
    if zero {
        Err(ParseError::Zero)
    } else {
        Ok(bytes)
    }
}

/// Lowercase hexadecimal of a byte slice.
fn format_id(bytes: &[u8]) -> (r: String)
    ensures
        r@ == hex_text(bytes@),
{
    let mut out = String::new();
    let mut i: usize = 0;
    while i < bytes.len()
        invariant
            i <= bytes@.len(),
            out@ == hex_text(bytes@.take(i as int)),
        decreases bytes.len() - i,
    {
        let b = bytes[i];
        let high = b / 16;
        let low = b % 16;
        out.push(if high < 10 { (48 + high) as char } else { (87 + high) as char });
        out.push(if low < 10 { (48 + low) as char } else { (87 + low) as char });
        assert(out@ =~= hex_text(bytes@.take(i + 1)));
        i += 1;
    }
    assert(bytes@.take(bytes@.len() as int) =~= bytes@);
    out
}

/// Reading the hexadecimal text of some bytes gives those bytes back, unless
/// they are all zero.
pub proof fn law_identifier_reads_back(bytes: Seq<u8>)
    ensures
        hex_text(bytes).len() == 2 * bytes.len(),
        is_ascii_chars(hex_text(bytes)),
        forall|i: int| 0 <= i < hex_text(bytes).len() ==> #[trigger] hex_text(bytes)[i] != '-',
        parsed_id(hex_text(bytes), bytes.len()) == (if all_zero(bytes) {
            Err::<Seq<u8>, ParseError>(ParseError::Zero)
        } else {
            Ok::<Seq<u8>, ParseError>(bytes)
        }),
{
    let text = hex_text(bytes);
    assert(is_ascii_chars(text));
    is_ascii_chars_encode_utf8(text);
    let digits = encode_utf8(text);
    assert forall|i: int| 0 <= i < digits.len() implies is_hex(digits[i]) by {
        assert(text[i] as u8 == digits[i]);
    }
    assert forall|i: int| 0 <= i < bytes.len() implies hex_bytes(digits)[i] == bytes[i] by {
        assert(text[2 * i] as u8 == digits[2 * i]);
        assert(text[2 * i + 1] as u8 == digits[2 * i + 1]);
        assert((2 * i) / 2 == i && (2 * i + 1) / 2 == i);
        assert((2 * i) % 2 == 0 && (2 * i + 1) % 2 == 1);
    }
    assert(hex_bytes(digits) =~= bytes);
}

/// An identifier that was read from a text is written back as that text, in
/// small letters.
pub proof fn law_identifier_writes_back(text: Seq<char>, width: nat)
    requires
        parsed_id(text, width) is Ok,
    ensures
        hex_text(parsed_id(text, width)->Ok_0) == crate::text::lowercase(text),
{
    let digits = encode_utf8(text);
    assert forall|i: int| 0 <= i < digits.len() implies #[trigger] digits[i] < 128 by {
        assert(is_hex(digits[i]));
    }
    crate::text::lemma_ascii_bytes(text);
    is_ascii_chars_encode_utf8(text);
    let written = hex_text(hex_bytes(digits));
    assert forall|i: int| 0 <= i < text.len() implies written[i] == crate::text::lowercase(
        text,
    )[i] by {
        assert(text[i] as u8 == digits[i]);
        assert(is_hex(digits[i]));
        let k = i / 2;
        assert(is_hex(digits[2 * k]) && is_hex(digits[2 * k + 1]));
        let high = hex_value(digits[2 * k]);
        let low = hex_value(digits[2 * k + 1]);
        assert(0 <= high < 16 && 0 <= low < 16);
        let byte = hex_bytes(digits)[k];
        assert(byte == high * 16 + low);
        assert(byte as int / 16 == high && byte as int % 16 == low);
        assert(i == 2 * k || i == 2 * k + 1);
    }
    assert(written =~= crate::text::lowercase(text));
}

/// `getrandom::fill` fills the slice from the operating system's random source,
/// or reports a failure; either way the slice keeps its length. What it holds
/// afterwards is left open.
pub assume_specification[ getrandom::fill ](dest: &mut [u8]) -> (r: Result<(), getrandom::Error>)
    ensures
        final(dest)@.len() == old(dest)@.len(),
;

/// The error of `getrandom`.
#[verifier::external_type_specification]
#[verifier::external_body]
pub struct ExRandomError(getrandom::Error);

/// Asks the operating system's random source for sixteen bytes: whether it gave
/// them, and what `getrandom::fill` left in their place.
fn draw_sixteen() -> (r: (bool, [u8; 16]))
    ensures
        exists|dest: &mut [u8], outcome: Result<(), getrandom::Error>|
            #[trigger] call_ensures(getrandom::fill, (dest,), outcome) && final(dest)@ == r.1@ && r.0
                == (outcome is Ok),
{
    let mut bytes = [0u8; 16];
    let outcome = getrandom::fill(&mut bytes);
    (outcome.is_ok(), bytes)
}

/// Asks the operating system's random source for eight bytes: whether it gave
/// them, and what `getrandom::fill` left in their place.
fn draw_eight() -> (r: (bool, [u8; 8]))
    ensures
        exists|dest: &mut [u8], outcome: Result<(), getrandom::Error>|
            #[trigger] call_ensures(getrandom::fill, (dest,), outcome) && final(dest)@ == r.1@ && r.0
                == (outcome is Ok),
{
    let mut bytes = [0u8; 8];
    let outcome = getrandom::fill(&mut bytes);
    (outcome.is_ok(), bytes)
}

/// Whether a draw of sixteen bytes from the random source came out like this.
pub closed spec fn drew_sixteen(filled: bool, bytes: Seq<u8>) -> bool {
    exists|b: [u8; 16]| #[trigger] call_ensures(draw_sixteen, (), (filled, b)) && b@ == bytes
}

/// Whether a draw of eight bytes from the random source came out like this.
pub closed spec fn drew_eight(filled: bool, bytes: Seq<u8>) -> bool {
    exists|b: [u8; 8]| #[trigger] call_ensures(draw_eight, (), (filled, b)) && b@ == bytes
}

/// Eight bytes from the operating system's random source, if it gave them.
pub(crate) fn random_eight() -> (r: (bool, [u8; 8]))
    ensures
        drew_eight(r.0, r.1@),
{
    draw_eight()
}

/// Whether a draw of sixteen bytes cannot be used.
pub open spec fn useless_sixteen(draw: (bool, Seq<u8>)) -> bool {
    drew_sixteen(draw.0, draw.1) && (!draw.0 || all_zero(draw.1))
}

/// Whether a draw of eight bytes cannot be used.
pub open spec fn useless_eight(draw: (bool, Seq<u8>)) -> bool {
    drew_eight(draw.0, draw.1) && (!draw.0 || all_zero(draw.1))
}

/// Whether the bytes are a generated trace identifier: those of a draw that
/// succeeded, or all ones after as many useless draws as 64 bits count.
pub open spec fn generated_trace(bytes: Seq<u8>) -> bool {
    ||| drew_sixteen(true, bytes) && !all_zero(bytes)
    ||| (forall|i: int| 0 <= i < bytes.len() ==> bytes[i] == 0xff) && bytes.len() == 16 && exists|
        draws: Seq<(bool, Seq<u8>)>,
    |
        draws.len() == u64::MAX && #[trigger] all_useless_sixteen(draws)
}

/// Whether the bytes are a generated span identifier: those of a draw that
/// succeeded, or all ones after as many useless draws as 64 bits count.
pub open spec fn generated_span(bytes: Seq<u8>) -> bool {
    ||| drew_eight(true, bytes) && !all_zero(bytes)
    ||| (forall|i: int| 0 <= i < bytes.len() ==> bytes[i] == 0xff) && bytes.len() == 8 && exists|
        draws: Seq<(bool, Seq<u8>)>,
    |
        draws.len() == u64::MAX && #[trigger] all_useless_eight(draws)
}

/// Whether none of the draws of sixteen bytes can be used.
pub open spec fn all_useless_sixteen(draws: Seq<(bool, Seq<u8>)>) -> bool {
    forall|i: int| 0 <= i < draws.len() ==> useless_sixteen(#[trigger] draws[i])
}

/// Whether none of the draws of eight bytes can be used.
pub open spec fn all_useless_eight(draws: Seq<(bool, Seq<u8>)>) -> bool {
    forall|i: int| 0 <= i < draws.len() ==> useless_eight(#[trigger] draws[i])
}

/// A generated identifier has its full length and is not all zero. It is what
/// the random source gave, unless that never gave anything of use.
pub proof fn law_generated_identifiers(trace: Seq<u8>, span: Seq<u8>)
    requires
        generated_trace(trace),
        generated_span(span),
    ensures
        trace.len() == 16,
        span.len() == 8,
        exists|i: int| 0 <= i < trace.len() && trace[i] != 0,
        exists|i: int| 0 <= i < span.len() && span[i] != 0,
        (exists|i: int| 0 <= i < trace.len() && trace[i] != 0xff) ==> drew_sixteen(true, trace),
        (exists|i: int| 0 <= i < span.len() && span[i] != 0xff) ==> drew_eight(true, span),
{
    if !(drew_sixteen(true, trace) && !all_zero(trace)) {
        assert(trace[0] == 0xff);
    }
    if !(drew_eight(true, span) && !all_zero(span)) {
        assert(span[0] == 0xff);
    }
}

/// Whether some byte of the slice is not zero.
fn any_nonzero(bytes: &[u8]) -> (r: bool)
    ensures
        r == !all_zero(bytes@),
{
    let mut i: usize = 0;
    while i < bytes.len()
        invariant
            i <= bytes@.len(),
            forall|k: int| 0 <= k < i ==> bytes@[k] == 0,
        decreases bytes.len() - i,
    {
        if bytes[i] != 0 {
            return true;
        }
        i += 1;
    }
    false
}

/// A 128-bit trace identifier.
#[derive(Clone, Copy, PartialEq, Eq, Hash, Debug)]
pub struct TraceId([u8; 16]);

impl View for TraceId {
    type V = Seq<u8>;

    closed spec fn view(&self) -> Seq<u8> {
        self.0@
    }
}

impl TraceId {
    /// A trace identifier is its sixteen bytes and nothing else: two with the same
    /// bytes are the same.
    pub proof fn law_bytes_identify(a: TraceId, b: TraceId)
        ensures
            a@.len() == 16,
            a == b <==> a@ == b@,
    {
        if a@ == b@ {
            assert forall|i: int| 0 <= i < 16 implies a.0[i] == b.0[i] by {
                assert(a@[i] == b@[i]);
            }
            assert(a.0 =~= b.0);
        }
    }

    /// The all-zero trace identifier, which no valid trace carries.
    pub fn zero() -> (r: TraceId)
        ensures
            r@.len() == 16,
            all_zero(r@),
    {
        TraceId([0u8; 16])
    }

    /// Creates a trace identifier from its bytes.
    pub fn from_bytes(bytes: [u8; 16]) -> (r: TraceId)
        ensures
            r@ == bytes@,
    {
        TraceId(bytes)
    }

    /// The bytes of the identifier.
    pub fn as_bytes(&self) -> (r: &[u8; 16])
        ensures
            r@ == self@,
    {
        &self.0
    }

    /// The bytes of the identifier, in a vector of their own.
    pub fn to_vec(&self) -> (r: Vec<u8>)
        ensures
            r@ == self@,
    {
        let mut out: Vec<u8> = Vec::new();
        out.extend_from_slice(self.0.as_slice());
        assert(out@ =~= self@);
        out
    }

    /// Whether this is the all-zero identifier.
    pub fn is_zero(&self) -> (r: bool)
        ensures
            r == all_zero(self@),
    {
        !any_nonzero(self.0.as_slice())
    }

    /// The identifier that a draw from the random source gives: none where the
    /// source failed or yielded only zeros.
    pub fn from_draw(filled: bool, bytes: [u8; 16]) -> (r: Option<TraceId>)
        ensures
            r is Some <==> filled && !all_zero(bytes@),
            r matches Some(id) ==> id@ == bytes@,
    {
        if filled && any_nonzero(bytes.as_slice()) {
            Some(TraceId(bytes))
        } else {
            None
        }
    }

    /// A fresh identifier from the operating system's random source. Draws
    /// again while the source fails or yields only zeros; after more draws than
    /// any process makes it is the identifier of all ones.
    pub fn generate() -> (r: TraceId)
        ensures
            !all_zero(r@),
            generated_trace(r@),
    {
        let mut draws: u64 = 0;
        let ghost mut seen: Seq<(bool, Seq<u8>)> = seq![];
        while draws < u64::MAX
            invariant
                seen.len() == draws,
                all_useless_sixteen(seen),
            decreases u64::MAX - draws,
        {
            let (filled, bytes) = draw_sixteen();
            if let Some(id) = TraceId::from_draw(filled, bytes) {
                return id;
            }
            proof {
                assert(useless_sixteen((filled, bytes@)));
                seen = seen.push((filled, bytes@));
            }
            draws += 1;
        }
        let last = TraceId([0xffu8; 16]);
        assert(last@[0] != 0);
        assert(seen.len() == u64::MAX && all_useless_sixteen(seen));
        last
    }

    /// Lowercase hexadecimal, 32 characters.
    pub fn to_string(&self) -> (r: String)
        ensures
            r@ == hex_text(self@),
    {
        format_id(self.0.as_slice())
    }
}

impl From<[u8; 16]> for TraceId {
    fn from(bytes: [u8; 16]) -> (r: TraceId) {
        TraceId(bytes)
    }
}

impl vstd::std_specs::convert::FromSpecImpl<[u8; 16]> for TraceId {
    open spec fn obeys_from_spec() -> bool {
        true
    }

    closed spec fn from_spec(bytes: [u8; 16]) -> TraceId {
        TraceId(bytes)
    }
}

impl TryFrom<&[u8]> for TraceId {
    type Error = &'static str;

    fn try_from(slice: &[u8]) -> (r: Result<TraceId, &'static str>)
        ensures
            match r {
                Ok(id) => slice@.len() == 16 && id@ == slice@,
                Err(e) => slice@.len() != 16 && e@ == "TraceId must be exactly 16 bytes"@,
            },
    {
        if slice.len() != 16 {
            return Err("TraceId must be exactly 16 bytes");
        }
        let mut bytes = [0u8; 16];
        let mut i: usize = 0;
        while i < 16
            invariant
                slice@.len() == 16,
                i <= 16,
                forall|k: int| 0 <= k < i ==> bytes@[k] == slice@[k],
            decreases 16 - i,
        {
            bytes[i] = slice[i];
            i += 1;
        }
        assert(bytes@ =~= slice@);
        Ok(TraceId(bytes))
    }
}

impl vstd::std_specs::convert::TryFromSpecImpl<&[u8]> for TraceId {
    open spec fn obeys_try_from_spec() -> bool {
        false
    }

    open spec fn try_from_spec(slice: &[u8]) -> Result<TraceId, &'static str> {
        Err("TraceId must be exactly 16 bytes")
    }
}

impl FromStr for TraceId {
    type Err = ParseError;

    /// Reads 32 hexadecimal digits, of either case.
    fn from_str(s: &str) -> (r: Result<TraceId, ParseError>)
        ensures
            parse_agrees(r, parsed_id(s@, 16)),
    {
        let v = match parse_id(s, 16) {
            Ok(v) => v,
            Err(e) => {
                return Err(e);
            },
        };
        match TraceId::try_from(v.as_slice()) {
            Ok(id) => Ok(id),
            Err(_) => Err(ParseError::InvalidLength),
        }
    }
}

/// A 64-bit span identifier.
#[derive(Clone, Copy, PartialEq, Eq, Hash, Debug)]
pub struct SpanId([u8; 8]);

impl View for SpanId {
    type V = Seq<u8>;

    closed spec fn view(&self) -> Seq<u8> {
        self.0@
    }
}

impl SpanId {
    /// A span identifier is its eight bytes and nothing else: two with the same
    /// bytes are the same.
    pub proof fn law_bytes_identify(a: SpanId, b: SpanId)
        ensures
            a@.len() == 8,
            a == b <==> a@ == b@,
    {
        if a@ == b@ {
            assert forall|i: int| 0 <= i < 8 implies a.0[i] == b.0[i] by {
                assert(a@[i] == b@[i]);
            }
            assert(a.0 =~= b.0);
        }
    }

    /// The all-zero span identifier, which no valid span carries.
    pub fn zero() -> (r: SpanId)
        ensures
            r@.len() == 8,
            all_zero(r@),
    {
        SpanId([0u8; 8])
    }

    /// Creates a span identifier from its bytes.
    pub fn from_bytes(bytes: [u8; 8]) -> (r: SpanId)
        ensures
            r@ == bytes@,
    {
        SpanId(bytes)
    }

    /// The bytes of the identifier.
    pub fn as_bytes(&self) -> (r: &[u8; 8])
        ensures
            r@ == self@,
    {
        &self.0
    }

    /// The bytes of the identifier, in a vector of their own.
    pub fn to_vec(&self) -> (r: Vec<u8>)
        ensures
            r@ == self@,
    {
        let mut out: Vec<u8> = Vec::new();
        out.extend_from_slice(self.0.as_slice());
        assert(out@ =~= self@);
        out
    }

    /// Whether this is the all-zero identifier.
    pub fn is_zero(self) -> (r: bool)
        ensures
            r == all_zero(self@),
    {
        !any_nonzero(self.0.as_slice())
    }

    /// The identifier that a draw from the random source gives: none where the
    /// source failed or yielded only zeros.
    pub fn from_draw(filled: bool, bytes: [u8; 8]) -> (r: Option<SpanId>)
        ensures
            r is Some <==> filled && !all_zero(bytes@),
            r matches Some(id) ==> id@ == bytes@,
    {
        if filled && any_nonzero(bytes.as_slice()) {
            Some(SpanId(bytes))
        } else {
            None
        }
    }

    /// A fresh identifier from the operating system's random source. Draws
    /// again while the source fails or yields only zeros; after more draws than
    /// any process makes it is the identifier of all ones.
    pub fn generate() -> (r: SpanId)
        ensures
            !all_zero(r@),
            generated_span(r@),
    {
        let mut draws: u64 = 0;
        let ghost mut seen: Seq<(bool, Seq<u8>)> = seq![];
        while draws < u64::MAX
            invariant
                seen.len() == draws,
                all_useless_eight(seen),
            decreases u64::MAX - draws,
        {
            let (filled, bytes) = draw_eight();
            if let Some(id) = SpanId::from_draw(filled, bytes) {
                return id;
            }
            proof {
                assert(useless_eight((filled, bytes@)));
                seen = seen.push((filled, bytes@));
            }
            draws += 1;
        }
        let last = SpanId([0xffu8; 8]);
        assert(last@[0] != 0);
        assert(seen.len() == u64::MAX && all_useless_eight(seen));
        last
    }

    /// Lowercase hexadecimal, 16 characters.
    pub fn to_string(&self) -> (r: String)
        ensures
            r@ == hex_text(self@),
    {
        format_id(self.0.as_slice())
    }
}

impl From<[u8; 8]> for SpanId {
    fn from(bytes: [u8; 8]) -> (r: SpanId) {
        SpanId(bytes)
    }
}

impl vstd::std_specs::convert::FromSpecImpl<[u8; 8]> for SpanId {
    open spec fn obeys_from_spec() -> bool {
        true
    }

    closed spec fn from_spec(bytes: [u8; 8]) -> SpanId {
        SpanId(bytes)
    }
}

impl TryFrom<&[u8]> for SpanId {
    type Error = &'static str;

    fn try_from(slice: &[u8]) -> (r: Result<SpanId, &'static str>)
        ensures
            match r {
                Ok(id) => slice@.len() == 8 && id@ == slice@,
                Err(e) => slice@.len() != 8 && e@ == "SpanId must be exactly 8 bytes"@,
            },
    {
        if slice.len() != 8 {
            return Err("SpanId must be exactly 8 bytes");
        }
        let mut bytes = [0u8; 8];
        let mut i: usize = 0;
        while i < 8
            invariant
                slice@.len() == 8,
                i <= 8,
                forall|k: int| 0 <= k < i ==> bytes@[k] == slice@[k],
            decreases 8 - i,
        {
            bytes[i] = slice[i];
            i += 1;
        }
        assert(bytes@ =~= slice@);
        Ok(SpanId(bytes))
    }
}

impl vstd::std_specs::convert::TryFromSpecImpl<&[u8]> for SpanId {
    open spec fn obeys_try_from_spec() -> bool {
        false
    }

    open spec fn try_from_spec(slice: &[u8]) -> Result<SpanId, &'static str> {
        Err("SpanId must be exactly 8 bytes")
    }
}

impl FromStr for SpanId {
    type Err = ParseError;

    /// Reads 16 hexadecimal digits, of either case.
    fn from_str(s: &str) -> (r: Result<SpanId, ParseError>)
        ensures
            parse_agrees(r, parsed_id(s@, 8)),
    {
        let v = match parse_id(s, 8) {
            Ok(v) => v,
            Err(e) => {
                return Err(e);
            },
        };
        match SpanId::try_from(v.as_slice()) {
            Ok(id) => Ok(id),
            Err(_) => Err(ParseError::InvalidLength),
        }
    }
}

/// What a span hands to its descendants and across process boundaries: the
/// trace, the span itself, the sampling decision and any `tracestate`.
#[derive(Debug, PartialEq, Eq, Hash)]
pub struct SpanContext {
    pub trace_id: TraceId,
    pub span_id: SpanId,
    pub is_sampled: bool,
    pub trace_state: Option<TraceState>,
}

impl SpanContext {
    /// A context without a `tracestate`.
    pub fn new(trace_id: TraceId, span_id: SpanId, is_sampled: bool) -> (r: SpanContext)
        ensures
            r.trace_id == trace_id,
            r.span_id == span_id,
            r.is_sampled == is_sampled,
            r.trace_state is None,
    {
        SpanContext { trace_id, span_id, is_sampled, trace_state: None }
    }

    /// The same context with the given `tracestate`.
    pub fn with_trace_state(self, trace_state: TraceState) -> (r: SpanContext)
        ensures
            r == (SpanContext { trace_state: Some(trace_state), ..self }),
    {
        SpanContext { trace_state: Some(trace_state), ..self }
    }
}

impl Clone for SpanContext {
    fn clone(&self) -> (r: SpanContext)
        ensures
            r == *self,
    {
        SpanContext {
            trace_id: self.trace_id,
            span_id: self.span_id,
            is_sampled: self.is_sampled,
            trace_state: match &self.trace_state {
                Some(state) => Some(state.clone()),
                None => None,
            },
        }
    }
}

/// A text is an identifier exactly when it has two hexadecimal digits, of either
/// case, for each byte, and not all of them are zero.
pub proof fn law_identifier_accepted(text: Seq<char>, width: nat)
    ensures
        parsed_id(text, width) is Ok <==> {
            &&& text.len() == 2 * width
            &&& forall|i: int|
                0 <= i < text.len() ==> '0' <= #[trigger] text[i] <= '9' || 'a' <= text[i] <= 'f'
                    || 'A' <= text[i] <= 'F'
            &&& exists|i: int| 0 <= i < text.len() && #[trigger] text[i] != '0'
        },
{
    let digits = encode_utf8(text);
    let bytes = hex_bytes(digits);
    if digits.len() == 2 * width && all_hex(digits) {
        assert forall|i: int| 0 <= i < digits.len() implies #[trigger] digits[i] < 128 by {
            assert(is_hex(digits[i]));
        }
        crate::text::lemma_ascii_bytes(text);
    }
    let plain = text.len() == 2 * width && forall|i: int|
        0 <= i < text.len() ==> '0' <= #[trigger] text[i] <= '9' || 'a' <= text[i] <= 'f' || 'A'
            <= text[i] <= 'F';
    if plain {
        assert(is_ascii_chars(text));
    }
    if is_ascii_chars(text) {
        is_ascii_chars_encode_utf8(text);
        if plain {
            assert forall|i: int| 0 <= i < digits.len() implies is_hex(digits[i]) by {
                assert(text[i] as u8 == digits[i]);
            }
        }
        if digits.len() == 2 * width && all_hex(digits) {
            assert forall|i: int| 0 <= i < text.len() implies '0' <= #[trigger] text[i] <= '9'
                || 'a' <= text[i] <= 'f' || 'A' <= text[i] <= 'F' by {
                assert(text[i] as u8 == digits[i]);
                assert(is_hex(digits[i]));
            }
            if !all_zero(bytes) {
                let k = choose|k: int| 0 <= k < bytes.len() && bytes[k] != 0;
                assert(text[2 * k] as u8 == digits[2 * k]);
                assert(text[2 * k + 1] as u8 == digits[2 * k + 1]);
                assert(text[2 * k] != '0' || text[2 * k + 1] != '0');
            }
            if exists|i: int| 0 <= i < text.len() && #[trigger] text[i] != '0' {
                let i = choose|i: int| 0 <= i < text.len() && #[trigger] text[i] != '0';
                let k = i / 2;
                assert(text[2 * k] as u8 == digits[2 * k]);
                assert(text[2 * k + 1] as u8 == digits[2 * k + 1]);
                assert(is_hex(digits[2 * k]) && is_hex(digits[2 * k + 1]));
                assert(i == 2 * k || i == 2 * k + 1);
                assert(hex_value(digits[2 * k]) * 16 + hex_value(digits[2 * k + 1]) > 0);
                assert(bytes[k] != 0);
            }
        }
    }
}

/// The text of an identifier writes each byte with two digits, the higher one
/// first.
pub proof fn law_identifier_digits(bytes: Seq<u8>, i: int)
    requires
        0 <= i < bytes.len(),
    ensures
        hex_text(bytes).len() == 2 * bytes.len(),
        hex_text(bytes)[2 * i] == "0123456789abcdef"@[bytes[i] as int / 16],
        hex_text(bytes)[2 * i + 1] == "0123456789abcdef"@[bytes[i] as int % 16],
{
    reveal_strlit("0123456789abcdef");
    assert((2 * i) / 2 == i && (2 * i + 1) / 2 == i);
    assert((2 * i) % 2 == 0 && (2 * i + 1) % 2 == 1);
}

/// What is wrong with a text that is no identifier: its length first, then its
/// digits, and only then that they are all zero.
pub proof fn law_identifier_errors(text: Seq<char>, width: nat)
    requires
        is_ascii_chars(text),
    ensures
        text.len() != 2 * width ==> parsed_id(text, width) == Err::<Seq<u8>, ParseError>(
            ParseError::InvalidLength,
        ),
        text.len() == 2 * width && (exists|i: int|
            0 <= i < text.len() && !('0' <= #[trigger] text[i] <= '9' || 'a' <= text[i] <= 'f'
                || 'A' <= text[i] <= 'F')) ==> parsed_id(text, width) == Err::<
            Seq<u8>,
            ParseError,
        >(ParseError::InvalidHex),
        text.len() == 2 * width && (forall|i: int| 0 <= i < text.len() ==> text[i] == '0')
            ==> parsed_id(text, width) == Err::<Seq<u8>, ParseError>(ParseError::Zero),
{
    is_ascii_chars_encode_utf8(text);
    let digits = encode_utf8(text);
    if exists|i: int|
        0 <= i < text.len() && !('0' <= #[trigger] text[i] <= '9' || 'a' <= text[i] <= 'f' || 'A'
            <= text[i] <= 'F') {
        let i = choose|i: int|
            0 <= i < text.len() && !('0' <= #[trigger] text[i] <= '9' || 'a' <= text[i] <= 'f'
                || 'A' <= text[i] <= 'F');
        assert(text[i] as u8 == digits[i]);
        assert(!is_hex(digits[i]));
    }
    if text.len() == 2 * width && (forall|i: int| 0 <= i < text.len() ==> text[i] == '0') {
        assert forall|i: int| 0 <= i < digits.len() implies digits[i] == 48 by {
            assert(text[i] as u8 == digits[i]);
        }
    }
}

/// A draw of bytes is a call of `getrandom::fill`: it counts as filled exactly
/// when the call succeeded, and its bytes are those that the call left behind.
pub proof fn law_draws_are_fills(filled: bool, bytes: Seq<u8>)
    ensures
        drew_sixteen(filled, bytes) || drew_eight(filled, bytes) ==> exists|
            dest: &mut [u8],
            outcome: Result<(), getrandom::Error>,
        |
            #[trigger] call_ensures(getrandom::fill, (dest,), outcome) && final(dest)@ == bytes
                && filled == (outcome is Ok),
        drew_sixteen(filled, bytes) ==> bytes.len() == 16,
        drew_eight(filled, bytes) ==> bytes.len() == 8,
{
}

/// What the reasons for a refused identifier say to a reader.
pub proof fn law_refusal_texts()
    ensures
        ParseError::InvalidLength.text() == "invalid length"@,
        ParseError::InvalidHex.text() == "invalid hex digit"@,
        ParseError::Zero.text() == "zero ID is not allowed"@,
{
}

/// Whatever identifiers are generated are generated ones: not all zero, and what
/// the random source gave unless they are all ones.
pub proof fn law_generate_draws(trace: TraceId, span: SpanId)
    ensures
        call_ensures(TraceId::generate, (), trace) ==> !all_zero(trace@) && generated_trace(trace@)
            && ((exists|i: int| 0 <= i < trace@.len() && trace@[i] != 0xff) ==> drew_sixteen(
            true,
            trace@,
        )),
        call_ensures(SpanId::generate, (), span) ==> !all_zero(span@) && generated_span(span@) && ((
        exists|i: int| 0 <= i < span@.len() && span@[i] != 0xff) ==> drew_eight(true, span@)),
{
    if call_ensures(TraceId::generate, (), trace) && !drew_sixteen(true, trace@) {
        assert(forall|i: int| 0 <= i < trace@.len() ==> trace@[i] == 0xff);
    }
    if call_ensures(SpanId::generate, (), span) && !drew_eight(true, span@) {
        assert(forall|i: int| 0 <= i < span@.len() ==> span@[i] == 0xff);
    }
}

/// Whatever is read of a text as an identifier is there exactly for as many
/// hexadecimal digits as it takes, not all of them zero, and is written as that
/// text again, in small letters.
pub proof fn law_identifiers_are_read(
    text: Seq<char>,
    trace: Result<TraceId, ParseError>,
    span: Result<SpanId, ParseError>,
)
    ensures
        parse_agrees(trace, parsed_id(text, 16)) ==> {
            &&& trace is Ok <==> {
                &&& text.len() == 32
                &&& forall|i: int|
                    0 <= i < text.len() ==> '0' <= #[trigger] text[i] <= '9' || 'a' <= text[i]
                        <= 'f' || 'A' <= text[i] <= 'F'
                &&& exists|i: int| 0 <= i < text.len() && #[trigger] text[i] != '0'
            }
            &&& trace matches Ok(id) ==> hex_text(id@) == crate::text::lowercase(text)
        },
        parse_agrees(span, parsed_id(text, 8)) ==> {
            &&& span is Ok <==> {
                &&& text.len() == 16
                &&& forall|i: int|
                    0 <= i < text.len() ==> '0' <= #[trigger] text[i] <= '9' || 'a' <= text[i]
                        <= 'f' || 'A' <= text[i] <= 'F'
                &&& exists|i: int| 0 <= i < text.len() && #[trigger] text[i] != '0'
            }
            &&& span matches Ok(id) ==> hex_text(id@) == crate::text::lowercase(text)
        },
{
    law_identifier_accepted(text, 16);
    law_identifier_accepted(text, 8);
    if parsed_id(text, 16) is Ok {
        law_identifier_writes_back(text, 16);
    }
    if parsed_id(text, 8) is Ok {
        law_identifier_writes_back(text, 8);
    }
}

/// Whatever is written of an identifier reads back as that identifier, and has
/// two digits for each byte.
pub proof fn law_identifiers_are_written(
    trace: TraceId,
    span: SpanId,
    text: String,
)
    ensures
        call_ensures(TraceId::to_string, (&trace,), text) ==> text@.len() == 32 && (!all_zero(
            trace@,
        ) ==> parsed_id(text@, 16) == Ok::<Seq<u8>, ParseError>(trace@)),
        call_ensures(SpanId::to_string, (&span,), text) ==> text@.len() == 16 && (!all_zero(span@)
            ==> parsed_id(text@, 8) == Ok::<Seq<u8>, ParseError>(span@)),
{
    TraceId::law_bytes_identify(trace, trace);
    SpanId::law_bytes_identify(span, span);
    law_identifier_reads_back(trace@);
    law_identifier_reads_back(span@);
}

} // verus!
