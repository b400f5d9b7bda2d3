//! The W3C `traceparent` header, version `00`: parser and formatter.

use std::str::FromStr;

use vstd::prelude::*;
use vstd::string::*;
use vstd::utf8::*;

use crate::context::{ParseError as IdParseError, SpanId, TraceId};
use crate::text::{concat, split_on, str_eq};

verus! {

/// Why a `traceparent` header was rejected.
#[derive(Debug, Clone, Copy, PartialEq, Eq, Structural)]
pub enum ParseError {
    /// Not exactly `version-traceid-parentid-flags` separated by `-`.
    InvalidFormat,
    /// First field was not the supported version "00".
    UnsupportedVersion,
    /// The trace-id segment was invalid (length, hex, or zero).
    InvalidTraceId(IdParseError),
    /// The parent-id segment was invalid (length, hex, or zero).
    InvalidParentId(IdParseError),
}

impl ParseError {
    /// The text that describes the error.
    pub open spec fn text(self) -> Seq<char> {
        match self {
            ParseError::InvalidFormat => "invalid traceparent format"@,
            ParseError::UnsupportedVersion =>
                "unsupported traceparent version (only 00 is supported in v0.1)"@,
            ParseError::InvalidTraceId(e) => "invalid trace-id: "@ + e.text(),
            ParseError::InvalidParentId(e) => "invalid parent-id: "@ + e.text(),
        }
    }

    /// A human-readable description.
    pub fn to_string(&self) -> (r: String)
        ensures
            r@ == self.text(),
    {
        match self {
            ParseError::InvalidFormat => "invalid traceparent format".to_owned(),
            ParseError::UnsupportedVersion =>
                "unsupported traceparent version (only 00 is supported in v0.1)".to_owned(),
            ParseError::InvalidTraceId(e) => concat("invalid trace-id: ", e.to_string().as_str()),
            ParseError::InvalidParentId(e) => concat("invalid parent-id: ", e.to_string().as_str()),
        }
    }
}

/// The trace-flags byte. Only the sampled bit is acted on; other bits are kept
/// as they came and never written.
#[derive(Clone, Copy, Debug, PartialEq, Eq, Hash)]
pub struct TraceFlags(u8);

impl View for TraceFlags {
    type V = u8;

    closed spec fn view(&self) -> u8 {
        self.0
    }
}

/// Whether the lowest bit of a flags byte is set.
pub open spec fn sampled_bit(bits: u8) -> bool {
    bits % 2 == 1
}

/// The flags byte that carries the sampling decision alone.
pub open spec fn clean_flags(sampled: bool) -> u8 {
    if sampled {
        1
    } else {
        0
    }
}

impl TraceFlags {
    /// The sampled bit.
    pub const SAMPLED: u8 = 0b0000_0001;

    /// Flags from a raw byte; any value is accepted.
    pub fn from_bits(bits: u8) -> (r: TraceFlags)
        ensures
            r@ == bits,
    {
        TraceFlags(bits)
    }

    /// Flags that carry the sampling decision alone.
    pub fn from_sampled(sampled: bool) -> (r: TraceFlags)
        ensures
            r@ == clean_flags(sampled),
    {
        TraceFlags(if sampled { Self::SAMPLED } else { 0 })
    }

    /// Whether the sampled bit is set.
    pub fn is_sampled(&self) -> (r: bool)
        ensures
            r == sampled_bit(self@),
    {
        let bits = self.0;
        assert((bits & 1 != 0) == (bits % 2 == 1)) by (bit_vector);
        (bits & Self::SAMPLED) != 0
    }

    /// The raw byte.
    pub fn as_u8(&self) -> (r: u8)
        ensures
            r == self@,
    {
        self.0
    }
}

/// A parsed `traceparent` header value.
#[derive(Clone, Copy, Debug, PartialEq, Eq)]
pub struct TraceParent {
    pub trace_id: TraceId,
    pub parent_id: SpanId,
    pub flags: TraceFlags,
}

/// What a `traceparent` header says.
pub ghost struct TraceParentView {
    pub trace_id: Seq<u8>,
    pub parent_id: Seq<u8>,
    pub flags: u8,
}

impl View for TraceParent {
    type V = TraceParentView;

    open spec fn view(&self) -> TraceParentView {
        TraceParentView {
            trace_id: self.trace_id@,
            parent_id: self.parent_id@,
            flags: self.flags@,
        }
    }
}

/// The flags byte that two hexadecimal digits write.
pub open spec fn parsed_flags(text: Seq<char>) -> Option<u8> {
    let digits = encode_utf8(text);
    if digits.len() == 2 && crate::context::all_hex(digits) {
        Some(crate::context::hex_bytes(digits)[0])
    } else {
        None
    }
}

/// What a header value says, or why it is rejected. The version is looked at
/// first, then the number of segments, then each segment from the left.
pub open spec fn parsed_traceparent(s: Seq<char>) -> Result<TraceParentView, ParseError> {
    let parts = crate::text::split(s, '-');
    if parts[0] != "00"@ {
        Err(ParseError::UnsupportedVersion)
    } else if parts.len() != 4 {
        Err(ParseError::InvalidFormat)
    } else {
        match crate::context::parsed_id(parts[1], 16) {
            Err(e) => Err(ParseError::InvalidTraceId(e)),
            Ok(trace_id) => match crate::context::parsed_id(parts[2], 8) {
                Err(e) => Err(ParseError::InvalidParentId(e)),
                Ok(parent_id) => match parsed_flags(parts[3]) {
                    None => Err(ParseError::InvalidFormat),
                    Some(flags) => Ok(TraceParentView { trace_id, parent_id, flags }),
                },
            },
        }
    }
}

/// The canonical header value: lowercase, with nothing but the sampling
/// decision in the flags.
pub open spec fn traceparent_text(tp: TraceParentView) -> Seq<char> {
    "00-"@ + crate::context::hex_text(tp.trace_id) + "-"@ + crate::context::hex_text(tp.parent_id)
        + (if sampled_bit(tp.flags) {
        "-01"@
    } else {
        "-00"@
    })
}

/// The flags byte that `s` writes, if it is two hexadecimal digits.
fn parse_flags(s: &str) -> (r: Option<u8>)
    ensures
        r == parsed_flags(s@),
{
    let digits = s.as_bytes();
    if digits.len() != 2 {
        return None;
    }
    match (crate::context::hex_digit(digits[0]), crate::context::hex_digit(digits[1])) {
        (Ok(high), Ok(low)) => Some(high * 16 + low),
        _ => None,
    }
}

/// Parses a `traceparent` header value.
///
/// Only version `00` is accepted and all-zero identifiers are rejected.
pub fn parse_traceparent(s: &str) -> (r: Result<TraceParent, ParseError>)
    ensures
        match r {
            Ok(tp) => parsed_traceparent(s@) == Ok::<TraceParentView, ParseError>(tp@),
            Err(e) => parsed_traceparent(s@) == Err::<TraceParentView, ParseError>(e),
        },
{
    let parts = split_on(s, '-');
    let ghost pieces = crate::text::split(s@, '-');
    assert(parts@[0]@ == pieces[0]);
    if !str_eq(parts[0], "00") {
        return Err(ParseError::UnsupportedVersion);
    }
    if parts.len() != 4 {
        return Err(ParseError::InvalidFormat);
    }
    assert(parts@[1]@ == pieces[1] && parts@[2]@ == pieces[2] && parts@[3]@ == pieces[3]);
    let trace_id = match TraceId::from_str(parts[1]) {
        Ok(id) => id,
        Err(e) => {
            return Err(ParseError::InvalidTraceId(e));
        },
    };
    let parent_id = match SpanId::from_str(parts[2]) {
        Ok(id) => id,
        Err(e) => {
            return Err(ParseError::InvalidParentId(e));
        },
    };
    match parse_flags(parts[3]) {
        Some(bits) => Ok(TraceParent { trace_id, parent_id, flags: TraceFlags::from_bits(bits) }),
        None => Err(ParseError::InvalidFormat),
    }
}

impl TraceParent {
    /// The canonical lowercase header value, with clean flags.
    pub fn to_string(&self) -> (r: String)
        ensures
            r@ == traceparent_text(self@),
    {
        let mut out = "00-".to_owned();
        out.append(self.trace_id.to_string().as_str());
        out.append("-");
        out.append(self.parent_id.to_string().as_str());
        if self.flags.is_sampled() {
            out.append("-01");
        } else {
            out.append("-00");
        }
        out
    }
}

/// What a written header says is read back: both identifiers and the sampling
/// decision. All other flag bits are cleared on the way.
pub proof fn law_written_header_reads_back(tp: TraceParentView)
    requires
        tp.trace_id.len() == 16,
        tp.parent_id.len() == 8,
        !crate::context::all_zero(tp.trace_id),
        !crate::context::all_zero(tp.parent_id),
    ensures
        parsed_traceparent(traceparent_text(tp)) == Ok::<TraceParentView, ParseError>(
            TraceParentView { flags: clean_flags(sampled_bit(tp.flags)), ..tp },
        ),
{
    reveal_strlit("00");
    reveal_strlit("00-");
    reveal_strlit("-");
    reveal_strlit("-00");
    reveal_strlit("-01");
    let trace = crate::context::hex_text(tp.trace_id);
    let parent = crate::context::hex_text(tp.parent_id);
    let flags = seq!['0', if sampled_bit(tp.flags) {
        '1'
    } else {
        '0'
    }];
    crate::context::law_identifier_reads_back(tp.trace_id);
    crate::context::law_identifier_reads_back(tp.parent_id);
    let third = parent + seq!['-'] + flags;
    let second = trace + seq!['-'] + third;
    let first = "00"@ + seq!['-'] + second;
    assert(traceparent_text(tp) =~= first);
    crate::text::lemma_split_first("00"@, '-', second);
    crate::text::lemma_split_first(trace, '-', third);
    crate::text::lemma_split_first(parent, '-', flags);
    crate::text::lemma_split_none(flags, '-');
    let parts = crate::text::split(first, '-');
    assert(parts =~= seq!["00"@, trace, parent, flags]);
    assert(is_ascii_chars(flags));
    is_ascii_chars_encode_utf8(flags);
    let digits = encode_utf8(flags);
    assert(flags[0] as u8 == digits[0] && flags[1] as u8 == digits[1]);
    assert(parsed_flags(flags) == Some(clean_flags(sampled_bit(tp.flags))));
}

/// An accepted header carries identifiers of full length that are not all zero,
/// and what it says survives being written and read again.
pub proof fn law_accepted_header_is_valid(s: Seq<char>)
    requires
        parsed_traceparent(s) is Ok,
    ensures
        parsed_traceparent(s)->Ok_0.trace_id.len() == 16,
        parsed_traceparent(s)->Ok_0.parent_id.len() == 8,
        !crate::context::all_zero(parsed_traceparent(s)->Ok_0.trace_id),
        !crate::context::all_zero(parsed_traceparent(s)->Ok_0.parent_id),
        parsed_traceparent(traceparent_text(parsed_traceparent(s)->Ok_0)) == Ok::<
            TraceParentView,
            ParseError,
        >(
            TraceParentView {
                flags: clean_flags(sampled_bit(parsed_traceparent(s)->Ok_0.flags)),
                ..parsed_traceparent(s)->Ok_0
            },
        ),
{
    law_written_header_reads_back(parsed_traceparent(s)->Ok_0);
}

/// A flags byte says sampled exactly when its lowest bit is set, and the byte
/// that is written has that bit alone.
pub proof fn law_sampled_is_lowest_bit(flags: u8)
    ensures
        sampled_bit(flags) <==> flags & 1 == 1,
        clean_flags(true) == 1,
        clean_flags(false) == 0,
        clean_flags(sampled_bit(flags)) == flags & 1,
{
    assert(flags & 1 == flags % 2) by (bit_vector);
}

/// A written header has 55 characters: the version `00`, the 32 digits of the
/// trace, the 16 digits of the parent, and `01` where it is sampled or `00` where
/// it is not, with hyphens between them.
pub proof fn law_written_header_layout(tp: TraceParentView)
    requires
        tp.trace_id.len() == 16,
        tp.parent_id.len() == 8,
    ensures
        ({
            let t = traceparent_text(tp);
            &&& t.len() == 55
            &&& t[0] == '0' && t[1] == '0' && t[2] == '-' && t[35] == '-' && t[52] == '-'
            &&& t.subrange(3, 35) == crate::context::hex_text(tp.trace_id)
            &&& t.subrange(36, 52) == crate::context::hex_text(tp.parent_id)
            &&& t[53] == '0'
            &&& tp.flags & 1 == 1 ==> t[54] == '1'
            &&& tp.flags & 1 == 0 ==> t[54] == '0'
        }),
{
    reveal_strlit("00-");
    reveal_strlit("-");
    reveal_strlit("-00");
    reveal_strlit("-01");
    law_sampled_is_lowest_bit(tp.flags);
    let t = traceparent_text(tp);
    assert(t.subrange(3, 35) =~= crate::context::hex_text(tp.trace_id));
    assert(t.subrange(36, 52) =~= crate::context::hex_text(tp.parent_id));
}

/// A header of four pieces is accepted exactly when the version is `00`, the two
/// identifiers parse and the flags are two hexadecimal digits. It then says just
/// what its pieces say: the first identifier is the trace, the second the
/// parent, and it is sampled exactly when the last digit is odd.
pub proof fn law_header_pieces(
    version: Seq<char>,
    trace: Seq<char>,
    parent: Seq<char>,
    flags: Seq<char>,
)
    requires
        forall|i: int| 0 <= i < version.len() ==> version[i] != '-',
        forall|i: int| 0 <= i < trace.len() ==> trace[i] != '-',
        forall|i: int| 0 <= i < parent.len() ==> parent[i] != '-',
        forall|i: int| 0 <= i < flags.len() ==> flags[i] != '-',
        is_ascii_chars(flags),
    ensures
        ({
            let s = version + seq!['-'] + trace + seq!['-'] + parent + seq!['-'] + flags;
            let r = parsed_traceparent(s);
            let digit = |c: char| '0' <= c <= '9' || 'a' <= c <= 'f' || 'A' <= c <= 'F';
            &&& r is Ok <==> version == seq!['0', '0'] && crate::context::parsed_id(trace, 16) is Ok
                && crate::context::parsed_id(parent, 8) is Ok && flags.len() == 2 && digit(flags[0])
                && digit(flags[1])
            &&& r matches Ok(tp) ==> {
                &&& crate::context::parsed_id(trace, 16) == Ok::<Seq<u8>, IdParseError>(tp.trace_id)
                &&& crate::context::parsed_id(parent, 8) == Ok::<Seq<u8>, IdParseError>(
                    tp.parent_id,
                )
                &&& tp.flags & 1 == 1 <==> (flags[1] == '1' || flags[1] == '3' || flags[1] == '5'
                    || flags[1] == '7' || flags[1] == '9' || flags[1] == 'b' || flags[1] == 'd'
                    || flags[1] == 'f' || flags[1] == 'B' || flags[1] == 'D' || flags[1] == 'F')
            }
            &&& version != seq!['0', '0'] ==> r == Err::<TraceParentView, ParseError>(
                ParseError::UnsupportedVersion,
            )
            &&& version == seq!['0', '0'] ==> (crate::context::parsed_id(trace, 16) matches Err(e)
                ==> r == Err::<TraceParentView, ParseError>(ParseError::InvalidTraceId(e)))
            &&& version == seq!['0', '0'] && crate::context::parsed_id(trace, 16) is Ok ==> (
            crate::context::parsed_id(parent, 8) matches Err(e) ==> r == Err::<
                TraceParentView,
                ParseError,
            >(ParseError::InvalidParentId(e)))
        }),
{
    reveal_strlit("00");
    assert("00"@ =~= seq!['0', '0']);
    let s = version + seq!['-'] + trace + seq!['-'] + parent + seq!['-'] + flags;
    let third = parent + seq!['-'] + flags;
    let second = trace + seq!['-'] + third;
    assert(s =~= version + seq!['-'] + second);
    crate::text::lemma_split_first(version, '-', second);
    crate::text::lemma_split_first(trace, '-', third);
    crate::text::lemma_split_first(parent, '-', flags);
    crate::text::lemma_split_none(flags, '-');
    assert(crate::text::split(s, '-') =~= seq![version, trace, parent, flags]);
    is_ascii_chars_encode_utf8(flags);
    let digits = encode_utf8(flags);
    if flags.len() == 2 {
        assert(flags[0] as u8 == digits[0] && flags[1] as u8 == digits[1]);
        if crate::context::is_hex(digits[0]) && crate::context::is_hex(digits[1]) {
            assert(crate::context::all_hex(digits));
            let high = crate::context::hex_value(digits[0]);
            let low = crate::context::hex_value(digits[1]);
            let byte = crate::context::hex_bytes(digits)[0];
            assert(byte == high * 16 + low);
            assert(byte % 2 == low % 2);
            assert(byte & 1 == byte % 2) by (bit_vector);
        } else {
            assert(!crate::context::all_hex(digits));
        }
    }
}

/// A header of version `00` that is not made of four pieces is of no format that
/// is known.
pub proof fn law_header_needs_four_pieces(s: Seq<char>)
    requires
        crate::text::split(s, '-').len() != 4,
        crate::text::split(s, '-')[0] == seq!['0', '0'],
    ensures
        parsed_traceparent(s) == Err::<TraceParentView, ParseError>(ParseError::InvalidFormat),
{
    reveal_strlit("00");
    assert("00"@ =~= seq!['0', '0']);
}

/// Whatever is parsed of a written header is what was written: both identifiers
/// and the sampling decision.
pub proof fn law_headers_travel(
    sent: TraceParent,
    text: String,
    header: &str,
    r: Result<TraceParent, ParseError>,
)
    requires
        call_ensures(TraceParent::to_string, (&sent,), text),
        call_ensures(parse_traceparent, (header,), r),
        header@ == text@,
        !crate::context::all_zero(sent.trace_id@),
        !crate::context::all_zero(sent.parent_id@),
    ensures
        r matches Ok(tp) && {
            &&& tp.trace_id == sent.trace_id
            &&& tp.parent_id == sent.parent_id
            &&& tp.flags@ == sent.flags@ & 1
        },
        text@.len() == 55,
{
    TraceId::law_bytes_identify(sent.trace_id, sent.trace_id);
    SpanId::law_bytes_identify(sent.parent_id, sent.parent_id);
    law_written_header_reads_back(sent@);
    law_written_header_layout(sent@);
    law_sampled_is_lowest_bit(sent.flags@);
    if let Ok(tp) = r {
        TraceId::law_bytes_identify(tp.trace_id, sent.trace_id);
        SpanId::law_bytes_identify(tp.parent_id, sent.parent_id);
    }
}

/// What the reasons for a refused header say to a reader.
pub proof fn law_header_refusal_texts(e: IdParseError)
    ensures
        ParseError::InvalidFormat.text() == "invalid traceparent format"@,
        ParseError::UnsupportedVersion.text()
            == "unsupported traceparent version (only 00 is supported in v0.1)"@,
        ParseError::InvalidTraceId(e).text() == "invalid trace-id: "@ + e.text(),
        ParseError::InvalidParentId(e).text() == "invalid parent-id: "@ + e.text(),
{
}

/// The flags of an accepted header are the byte that their two digits write, all
/// bits of it.
pub proof fn law_flags_are_kept(flags: Seq<char>)
    requires
        is_ascii_chars(flags),
        parsed_flags(flags) is Some,
    ensures
        crate::context::hex_text(seq![parsed_flags(flags)->0]) == crate::text::lowercase(flags),
{
    is_ascii_chars_encode_utf8(flags);
    let digits = encode_utf8(flags);
    assert(flags[0] as u8 == digits[0] && flags[1] as u8 == digits[1]);
    assert(crate::context::is_hex(digits[0]) && crate::context::is_hex(digits[1]));
    let high = crate::context::hex_value(digits[0]);
    let low = crate::context::hex_value(digits[1]);
    let byte = parsed_flags(flags)->0;
    assert(0 <= high < 16 && 0 <= low < 16);
    assert(byte == high * 16 + low);
    assert(byte as int / 16 == high && byte as int % 16 == low);
    let written = crate::context::hex_text(seq![byte]);
    assert(written[0] == crate::text::lowercase(flags)[0]);
    assert(written[1] == crate::text::lowercase(flags)[1]);
    assert(written =~= crate::text::lowercase(flags));
}

} // verus!
