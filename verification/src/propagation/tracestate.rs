//! The `tracestate` header, kept as one opaque value.
//!
//! Its list members are not interpreted; an empty or over-long value is dropped.

use vstd::prelude::*;
use vstd::string::*;
use vstd::utf8::*;

use crate::text::trim;

verus! {

/// The most bytes that a kept `tracestate` value has.
pub const MAX_TRACESTATE_LEN: usize = 512;

/// A `tracestate` header value that is worth carrying on.
#[derive(Debug, PartialEq, Eq, Hash)]
pub struct TraceState {
    value: String,
}

impl View for TraceState {
    type V = Seq<char>;

    closed spec fn view(&self) -> Seq<char> {
        self.value@
    }
}

/// The value that is kept of a raw header: trimmed, not empty, at most
/// `MAX_TRACESTATE_LEN` bytes.
pub open spec fn kept_state(raw: Seq<char>) -> Option<Seq<char>> {
    let value = crate::text::trimmed(raw);
    if value.len() == 0 || encode_utf8(value).len() > MAX_TRACESTATE_LEN {
        None
    } else {
        Some(value)
    }
}

impl TraceState {
    /// Creates a `TraceState` from a raw header value, or nothing when the
    /// trimmed value is empty or too long.
    pub fn from_header(raw: &str) -> (r: Option<TraceState>)
        ensures
            match r {
                Some(state) => kept_state(raw@) == Some(state@),
                None => kept_state(raw@) is None,
            },
    {
        let value = trim(raw);
        if value.is_empty() || value.as_bytes().len() > MAX_TRACESTATE_LEN {
            return None;
        }
        Some(TraceState { value: value.to_owned() })
    }

    /// The trimmed header value.
    pub fn as_str(&self) -> (r: &str)
        ensures
            r@ == self@,
    {
        self.value.as_str()
    }
}

impl Clone for TraceState {
    fn clone(&self) -> (r: TraceState)
        ensures
            r == *self,
    {
        TraceState { value: self.value.clone() }
    }
}

/// A kept value is kept as it is when it is read again, so it survives any
/// number of hops.
pub proof fn law_kept_state_stays(raw: Seq<char>)
    requires
        kept_state(raw) is Some,
    ensures
        kept_state(kept_state(raw)->0) == kept_state(raw),
{
    crate::text::lemma_trimmed_twice(raw);
}

/// A value without whitespace around it is kept as it is where it has one to 512
/// bytes, and dropped otherwise.
pub proof fn law_plain_state_is_kept(raw: Seq<char>)
    requires
        raw.len() > 0,
        !crate::text::is_white_space(raw[0]),
        !crate::text::is_white_space(raw.last()),
    ensures
        encode_utf8(raw).len() <= 512 ==> kept_state(raw) == Some(raw),
        encode_utf8(raw).len() > 512 ==> kept_state(raw) is None,
        kept_state(seq![]) is None,
{
    crate::text::law_trimmed(raw);
}

/// Whitespace around a value does not count: what is kept neither starts nor ends
/// with it.
pub proof fn law_state_is_trimmed(before: Seq<char>, raw: Seq<char>, after: Seq<char>)
    requires
        forall|i: int|
            0 <= i < before.len() ==> crate::text::is_white_space(#[trigger] before[i]),
        forall|i: int| 0 <= i < after.len() ==> crate::text::is_white_space(#[trigger] after[i]),
        raw.len() > 0,
        !crate::text::is_white_space(raw[0]),
        !crate::text::is_white_space(raw.last()),
    ensures
        kept_state(before + raw + after) == kept_state(raw),
        encode_utf8(raw).len() <= 512 ==> kept_state(before + raw + after) == Some(raw),
        kept_state(before) is None,
{
    crate::text::law_trimmed_between(before, raw, after);
    crate::text::law_trimmed_between(before, seq![], seq![]);
    assert(before + seq![] + seq![] =~= before);
    law_plain_state_is_kept(raw);
}

} // verus!
