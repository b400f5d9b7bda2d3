//! What the HTTP exporters share: the request headers, what a server's reply
//! means, and when to try again.

use http::{HeaderMap, HeaderValue};
use vstd::prelude::*;
use vstd::string::*;
use vstd::utf8::*;

use super::error::ExportError;
use super::retry::Backoff;
use crate::text::{concat, decimal_text};

verus! {

/// Whether a character may stand in a header name.
pub open spec fn is_token_char(c: char) -> bool {
    ||| 'a' <= c <= 'z'
    ||| 'A' <= c <= 'Z'
    ||| '0' <= c <= '9'
    ||| c == '!'
    ||| '#' <= c <= '\''
    ||| c == '*'
    ||| c == '+'
    ||| c == '-'
    ||| c == '.'
    ||| '^' <= c <= '`'
    ||| c == '|'
    ||| c == '~'
}

/// Whether a text is a header name: one to 65535 token characters.
pub open spec fn is_header_name(s: Seq<char>) -> bool {
    &&& 1 <= s.len() <= 65535
    &&& forall|i: int| 0 <= i < s.len() ==> is_token_char(s[i])
}

/// Whether a text is a header value: it holds no control character but tabs.
pub open spec fn is_header_value(s: Seq<char>) -> bool {
    forall|i: int|
        0 <= i < s.len() ==> (' ' <= #[trigger] s[i] && s[i] != '\u{7f}') || s[i] == '\t'
}

/// The value of a header.
#[verifier::external_type_specification]
#[verifier::external_body]
pub struct ExHeaderValue(http::HeaderValue);

/// The headers of a request.
#[verifier::external_type_specification]
#[verifier::external_body]
#[verifier::reject_recursive_types(T)]
pub struct ExHeaderMap<T>(http::HeaderMap<T>);

/// What a header map holds: under each name, in small letters, the bytes of its
/// first value.
pub uninterp spec fn header_items(map: HeaderMap<HeaderValue>) -> Map<Seq<char>, Seq<u8>>;

/// No headers at all.
pub open spec fn no_headers() -> Map<Seq<char>, Seq<u8>> {
    Map::empty()
}

/// Most headers in a map that is sure to take one more: a map of `http` has at
/// most 32768 slots, and it asks for more, where many names collide, only if at
/// least a fifth of them is taken.
pub const MAX_HEADERS: usize = 6553;

/// Most headers for which a map can be made: a map of `http` leaves a quarter of
/// its slots free.
pub const MAX_ENTRIES: usize = 24576;

/// Calls `HeaderMap::try_with_capacity`: an empty map, or a fixed text where the
/// capacity is larger than a map ever gets.
#[verifier::external_body]
fn new_headers(capacity: usize) -> (r: Result<HeaderMap<HeaderValue>, String>)
    ensures
        match r {
            Ok(map) => capacity <= MAX_ENTRIES && header_items(map) == no_headers(),
            Err(e) => capacity > MAX_ENTRIES && e@ == "max size reached"@,
        },
{
    match HeaderMap::try_with_capacity(capacity) {
        Ok(map) => Ok(map),
        Err(e) => Err(format!("{e}")),
    }
}

/// Calls `HeaderName::from_bytes` on the bytes of a text: a header name is
/// made lowercase, and anything else is an error with a fixed text.
#[verifier::external_body]
fn normal_header_name(name: &str) -> (r: Result<String, String>)
    ensures
        match r {
            Ok(n) => is_header_name(name@) && n@ == crate::text::lowercase(name@),
            Err(e) => !is_header_name(name@) && e@ == "invalid HTTP header name"@,
        },
{
    match http::HeaderName::from_bytes(name.as_bytes()) {
        Ok(n) => Ok(n.as_str().to_owned()),
        Err(e) => Err(format!("{e}")),
    }
}

/// Calls `HeaderValue::from_str`: it fails, with a fixed text, exactly where
/// the text is no header value.
#[verifier::external_body]
fn check_header_value(value: &str) -> (r: Result<(), String>)
    ensures
        match r {
            Ok(_) => is_header_value(value@),
            Err(e) => !is_header_value(value@) && e@ == "failed to parse header value"@,
        },
{
    match HeaderValue::from_str(value) {
        Ok(_) => Ok(()),
        Err(e) => Err(format!("{e}")),
    }
}

/// Calls `HeaderMap::try_insert`: the name, in small letters, gets the bytes of
/// the value in place of what it had, or the map stays as it is, with a fixed
/// text. A map of few headers never fails; whether one of many does depends on
/// how the names collide, so it is not stated.
#[verifier::external_body]
fn insert_header(map: &mut HeaderMap<HeaderValue>, name: &str, value: &str) -> (r: Result<
    (),
    String,
>)
    requires
        is_header_name(name@),
        is_header_value(value@),
    ensures
        match r {
            Ok(_) => header_items(*final(map)) == header_items(*old(map)).insert(
                crate::text::lowercase(name@),
                encode_utf8(value@),
            ),
            Err(e) => header_items(*final(map)) == header_items(*old(map)) && header_items(
                *old(map),
            ).dom().len() > MAX_HEADERS && e@ == "max size reached"@,
        },
{
    if let (Ok(n), Ok(v)) = (
        http::HeaderName::from_bytes(name.as_bytes()),
        HeaderValue::from_str(value),
    ) {
        if let Err(e) = map.try_insert(n, v) {
            return Err(format!("{e}"));
        }
    }
    Ok(())
}

/// The text between double quotes, with escapes, that the `Debug` format of
/// `str` gives.
pub uninterp spec fn debugged(s: Seq<char>) -> Seq<char>;

/// Calls the `Debug` format of `str`: what it gives depends on the text alone.
#[verifier::external_body]
fn debug_text(s: &str) -> (r: String)
    ensures
        r@ == debugged(s@),
{
    format!("{s:?}")
}

/// The message for a header that is refused, if it is.
pub open spec fn header_problem(name: Seq<char>, value: Seq<char>) -> Option<Seq<char>> {
    if !is_header_name(name) {
        Some("invalid header name "@ + debugged(name) + ": "@ + "invalid HTTP header name"@)
    } else if !is_header_value(value) {
        Some(
            "invalid header value for "@ + debugged(name) + ": "@ + "failed to parse header value"@,
        )
    } else {
        None
    }
}

/// The headers of a request: the content type and then, in order, the
/// configured ones, each in place of an earlier one of its name. The first bad
/// header is an error.
pub open spec fn header_map(
    content_type: Seq<char>,
    headers: Seq<(Seq<char>, Seq<char>)>,
) -> Result<Map<Seq<char>, Seq<u8>>, Seq<char>>
    decreases headers.len(),
{
    if headers.len() == 0 {
        Ok(no_headers().insert("content-type"@, encode_utf8(content_type)))
    } else {
        match header_map(content_type, headers.drop_last()) {
            Err(e) => Err(e),
            Ok(map) => {
                let (name, value) = headers.last();
                match header_problem(name, value) {
                    Some(e) => Err(e),
                    None => Ok(map.insert(crate::text::lowercase(name), encode_utf8(value))),
                }
            },
        }
    }
}

/// A failed prefix fails the whole list.
proof fn lemma_header_error(
    content_type: Seq<char>,
    headers: Seq<(Seq<char>, Seq<char>)>,
    n: int,
)
    requires
        0 <= n <= headers.len(),
        header_map(content_type, headers.take(n)) is Err,
    ensures
        header_map(content_type, headers) == header_map(content_type, headers.take(n)),
    decreases headers.len() - n,
{
    if n < headers.len() {
        assert(headers.take(n + 1).drop_last() =~= headers.take(n));
        lemma_header_error(content_type, headers, n + 1);
    } else {
        assert(headers.take(n) =~= headers);
    }
}

proof fn lemma_content_type()
    ensures
        is_header_name("content-type"@),
        crate::text::lowercase("content-type"@) == "content-type"@,
{
    reveal_strlit("content-type");
    assert(crate::text::lowercase("content-type"@) =~= "content-type"@);
}

/// The message for headers that a map does not take.
pub open spec fn too_many_headers() -> Seq<char> {
    "too many headers: "@ + "max size reached"@
}

/// Whether a map may not take the headers: there are more of them than a map can
/// be made for, or one of them comes to a map of many.
pub open spec fn may_overflow(
    content_type: Seq<char>,
    headers: Seq<(Seq<char>, Seq<char>)>,
) -> bool {
    ||| headers.len() + 1 > MAX_ENTRIES
    ||| exists|n: int|
        0 <= n < headers.len() && (#[trigger] header_map(content_type, headers.take(n)) matches Ok(
            map,
        ) && map.dom().len() > MAX_HEADERS)
}

/// Few headers always fit into a map.
pub proof fn law_few_headers_fit(content_type: Seq<char>, headers: Seq<(Seq<char>, Seq<char>)>)
    requires
        headers.len() <= MAX_HEADERS,
    ensures
        !may_overflow(content_type, headers),
{
    assert forall|n: int| 0 <= n < headers.len() implies (#[trigger] header_map(
        content_type,
        headers.take(n),
    ) matches Ok(map) ==> map.dom().len() <= MAX_HEADERS) by {
        lemma_header_count(content_type, headers.take(n));
    }
}

proof fn lemma_header_count(content_type: Seq<char>, headers: Seq<(Seq<char>, Seq<char>)>)
    ensures
        header_map(content_type, headers) matches Ok(map) ==> map.dom().finite() && map.dom().len()
            <= headers.len() + 1,
    decreases headers.len(),
{
    if headers.len() > 0 {
        lemma_header_count(content_type, headers.drop_last());
    }
}

/// The error for headers that a map does not take.
fn too_many(reason: &str) -> (r: ExportError)
    ensures
        r@ == "too many headers: "@ + reason@,
{
    ExportError::new(concat("too many headers: ", reason))
}

/// Builds the header map of a request from the content type and the configured
/// headers. More of them than a map takes are an error; that never happens to
/// headers that cannot overflow a map.
pub fn build_header_map(content_type: &str, headers: &Vec<(String, String)>) -> (r: Result<
    HeaderMap<HeaderValue>,
    ExportError,
>)
    requires
        is_header_value(content_type@),
    ensures
        match r {
            Ok(map) => header_map(content_type@, crate::config::pairs_view(headers@)) == Ok::<
                _,
                Seq<char>,
            >(header_items(map)),
            Err(e) => header_map(content_type@, crate::config::pairs_view(headers@)) == Err::<
                Map<Seq<char>, Seq<u8>>,
                _,
            >(e@) || (may_overflow(content_type@, crate::config::pairs_view(headers@)) && e@
                == too_many_headers()),
        },
        headers@.len() + 1 > MAX_ENTRIES ==> (r matches Err(e) && e@ == too_many_headers()),
{
    let ghost list = crate::config::pairs_view(headers@);
    let n: usize = headers.len();
    let mut map = match new_headers(n.saturating_add(1)) {
        Ok(map) => map,
        Err(e) => {
            return Err(too_many(e.as_str()));
        },
    };
    proof {
        lemma_content_type();
    }
    if let Err(e) = insert_header(&mut map, "content-type", content_type) {
        return Err(too_many(e.as_str()));
    }
    let mut i: usize = 0;
    assert(list.take(0) =~= seq![]);
    while i < n
        invariant
            n == headers@.len(),
            n < MAX_ENTRIES,
            i <= n,
            list == crate::config::pairs_view(headers@),
            header_map(content_type@, list.take(i as int)) == Ok::<_, Seq<char>>(header_items(map)),
        decreases n - i,
    {
        let name = headers[i].0.as_str();
        let value = headers[i].1.as_str();
        assert(list.take(i + 1).drop_last() =~= list.take(i as int));
        assert(list.take(i + 1).last() == (name@, value@));
        if let Err(e) = normal_header_name(name) {
            let mut message = concat("invalid header name ", debug_text(name).as_str());
            message.append(": ");
            message.append(e.as_str());
            proof {
                lemma_header_error(content_type@, list, i + 1);
            }
            return Err(ExportError::new(message));
        }
        if let Err(e) = check_header_value(value) {
            let mut message = concat("invalid header value for ", debug_text(name).as_str());
            message.append(": ");
            message.append(e.as_str());
            proof {
                lemma_header_error(content_type@, list, i + 1);
            }
            return Err(ExportError::new(message));
        }
        if let Err(e) = insert_header(&mut map, name, value) {
            return Err(too_many(e.as_str()));
        }
        i += 1;
    }
    assert(list.take(list.len() as int) =~= list);
    Ok(map)
}

/// What came back from one attempt to post.
#[derive(Debug, PartialEq, Eq)]
pub enum Reply {
    /// The server answered with a status code.
    Status(u16),
    /// The request failed on the way, with a description.
    Transport(String),
}

/// What an attempt tells to do next.
#[derive(Debug, PartialEq, Eq)]
pub enum Disposition {
    /// The batch was taken.
    Success,
    /// Worth another attempt, with the reason.
    Retryable(String),
    /// Definitive failure, with the reason.
    Permanent(String),
}

/// What an attempt tells to do next, with the reason as a sequence of
/// characters.
pub ghost enum DispositionView {
    Success,
    Retryable(Seq<char>),
    Permanent(Seq<char>),
}

impl View for Disposition {
    type V = DispositionView;

    open spec fn view(&self) -> DispositionView {
        match self {
            Disposition::Success => DispositionView::Success,
            Disposition::Retryable(s) => DispositionView::Retryable(s@),
            Disposition::Permanent(s) => DispositionView::Permanent(s@),
        }
    }
}

/// The code and the standard reason that `http::StatusCode` shows for a code.
pub uninterp spec fn status_line(code: u16) -> Seq<char>;

/// Calls `http::StatusCode::from_u16` and shows the result: what it shows
/// depends on the code alone. Codes outside 100 to 999 are no status codes and
/// are left out.
#[verifier::external_body]
fn status_text(code: u16) -> (r: String)
    requires
        100 <= code <= 999,
    ensures
        r@ == status_line(code),
{
    match http::StatusCode::from_u16(code) {
        Ok(status) => format!("{status}"),
        Err(e) => format!("{e}"),
    }
}

/// What a reply means: 2xx is success; 5xx, 429 and failures on the way are
/// worth another attempt; everything else is final.
pub open spec fn meaning(reply: Reply) -> DispositionView {
    match reply {
        Reply::Status(code) => if 200 <= code <= 299 {
            DispositionView::Success
        } else if 500 <= code <= 599 || code == 429 {
            DispositionView::Retryable("server returned "@ + status_line(code))
        } else {
            DispositionView::Permanent("server returned "@ + status_line(code))
        },
        Reply::Transport(e) => DispositionView::Retryable("transport error: "@ + e@),
    }
}

/// What a reply means for the batch.
pub fn classify(reply: Reply) -> (r: Disposition)
    requires
        reply matches Reply::Status(code) ==> 100 <= code <= 999,
    ensures
        r@ == meaning(reply),
{
    match reply {
        Reply::Status(code) => {
            if 200 <= code && code <= 299 {
                Disposition::Success
            } else {
                let reason = concat("server returned ", status_text(code).as_str());
                if (500 <= code && code <= 599) || code == 429 {
                    Disposition::Retryable(reason)
                } else {
                    Disposition::Permanent(reason)
                }
            }
        },
        Reply::Transport(e) => Disposition::Retryable(concat("transport error: ", e.as_str())),
    }
}

/// The attempts to post one batch.
#[derive(Debug, PartialEq, Eq)]
pub struct PostAttempts {
    backoff: Backoff,
    failed: u32,
}

/// What to do after an attempt.
#[derive(Debug, PartialEq, Eq)]
pub enum PostStep {
    /// The batch is delivered.
    Done,
    /// The batch is given up.
    Failed(ExportError),
    /// Wait for this many nanoseconds, and try again.
    Wait(u128),
}

/// What to do after an attempt that followed `failed` failed ones, where a delay
/// is the given fraction of its ceiling.
pub open spec fn step_after(
    backoff: Backoff,
    failed: u32,
    outcome: DispositionView,
    jitter: u64,
) -> PostStepView {
    match outcome {
        DispositionView::Success => PostStepView::Done,
        DispositionView::Permanent(reason) => PostStepView::Failed("export rejected: "@ + reason),
        DispositionView::Retryable(reason) => if failed < backoff.max_retries {
            PostStepView::Wait(super::retry::delay(backoff, (failed + 1) as u32, jitter)->0)
        } else {
            PostStepView::Failed(
                "export failed after "@ + crate::text::decimal((backoff.max_retries + 1) as nat)
                    + " attempts: "@ + reason,
            )
        },
    }
}

/// What to do after an attempt, with the message as a sequence of characters.
pub ghost enum PostStepView {
    Done,
    Failed(Seq<char>),
    Wait(nat),
}

impl View for PostStep {
    type V = PostStepView;

    open spec fn view(&self) -> PostStepView {
        match self {
            PostStep::Done => PostStepView::Done,
            PostStep::Failed(e) => PostStepView::Failed(e@),
            PostStep::Wait(nanos) => PostStepView::Wait(*nanos as nat),
        }
    }
}

impl PostAttempts {
    /// The retry schedule.
    pub closed spec fn schedule(self) -> Backoff {
        self.backoff
    }

    /// How many attempts have failed so far.
    pub closed spec fn failures(self) -> u32 {
        self.failed
    }

    /// No more attempts have failed than retries are left for.
    pub open spec fn wf(self) -> bool {
        self.failures() <= self.schedule().max_retries
    }

    /// Before the first attempt.
    pub fn new(backoff: Backoff) -> (r: PostAttempts)
        ensures
            r.wf(),
            r.schedule() == backoff,
            r.failures() == 0,
    {
        PostAttempts { backoff, failed: 0 }
    }

    /// What to do after an attempt. A delay is the given jitter fraction of its
    /// ceiling, in parts of [`JITTER_PARTS`](super::retry::JITTER_PARTS).
    pub fn after(&mut self, outcome: Disposition, jitter: u64) -> (r: PostStep)
        requires
            old(self).wf(),
        ensures
            final(self).wf(),
            final(self).schedule() == old(self).schedule(),
            r@ == step_after(old(self).schedule(), old(self).failures(), outcome@, jitter),
            final(self).failures() == (if r@ is Wait {
                old(self).failures() + 1
            } else {
                old(self).failures() as int
            }),
    {
        match outcome {
            Disposition::Success => PostStep::Done,
            Disposition::Permanent(reason) => PostStep::Failed(
                ExportError::new(concat("export rejected: ", reason.as_str())),
            ),
            Disposition::Retryable(reason) => {
                if self.failed < self.backoff.max_retries() {
                    if let Some(nanos) = self.backoff.delay_for(self.failed + 1, jitter) {
                        self.failed = self.failed + 1;
                        return PostStep::Wait(nanos);
                    }
                }
                let mut message = concat(
                    "export failed after ",
                    decimal_text(self.backoff.max_retries() as u64 + 1).as_str(),
                );
                message.append(" attempts: ");
                message.append(reason.as_str());
                PostStep::Failed(ExportError::new(message))
            },
        }
    }
}

/// How many attempts have failed when each of them failed for one of the given
/// reasons, all worth another attempt; nothing when the batch was given up on
/// the way. Each delay comes with a jitter fraction.
pub open spec fn failures_after(backoff: Backoff, replies: Seq<(Seq<char>, u64)>) -> Option<u32>
    decreases replies.len(),
{
    if replies.len() == 0 {
        Some(0)
    } else {
        match failures_after(backoff, replies.drop_last()) {
            None => None,
            Some(failed) => match step_after(
                backoff,
                failed,
                DispositionView::Retryable(replies.last().0),
                replies.last().1,
            ) {
                PostStepView::Wait(_) => Some((failed + 1) as u32),
                _ => None,
            },
        }
    }
}

/// A server that keeps failing gets the first attempt and as many more as there
/// are retries, and no further one.
pub proof fn law_attempts_are_bounded(backoff: Backoff, replies: Seq<(Seq<char>, u64)>)
    ensures
        replies.len() <= backoff.max_retries ==> failures_after(backoff, replies) == Some(
            replies.len() as u32,
        ),
        replies.len() > backoff.max_retries ==> failures_after(backoff, replies) is None,
    decreases replies.len(),
{
    if replies.len() > 0 {
        law_attempts_are_bounded(backoff, replies.drop_last());
    }
}

/// A client error other than 429 is final at once, whatever came before; a
/// success is success, whatever came before; a server error is worth another
/// attempt as long as there are retries left.
pub proof fn law_client_errors_fail_fast(backoff: Backoff, failed: u32, code: u16, jitter: u64)
    ensures
        400 <= code <= 499 && code != 429 ==> step_after(
            backoff,
            failed,
            meaning(Reply::Status(code)),
            jitter,
        ) is Failed,
        200 <= code <= 299 ==> step_after(
            backoff,
            failed,
            meaning(Reply::Status(code)),
            jitter,
        ) is Done,
        (500 <= code <= 599 || code == 429) && failed < backoff.max_retries ==> step_after(
            backoff,
            failed,
            meaning(Reply::Status(code)),
            jitter,
        ) is Wait,
{
}

/// A reply means success for the codes from 200 to 299 alone. The codes from 500
/// to 599, 429, and a failure on the way are worth another attempt, and every
/// other code is final. The reason names the code, or the failure.
pub proof fn law_reply_meaning(reply: Reply)
    ensures
        match reply {
            Reply::Status(code) => {
                &&& meaning(reply) is Success <==> code / 100 == 2
                &&& meaning(reply) is Retryable <==> code / 100 == 5 || code == 429
                &&& code / 100 != 2 && code / 100 != 5 && code != 429 ==> meaning(reply)
                    is Permanent
                &&& meaning(reply) matches DispositionView::Retryable(reason) ==> reason
                    == "server returned "@ + status_line(code)
                &&& meaning(reply) matches DispositionView::Permanent(reason) ==> reason
                    == "server returned "@ + status_line(code)
            },
            Reply::Transport(e) => meaning(reply) matches DispositionView::Retryable(reason)
                && reason == "transport error: "@ + e@,
        },
{
}

/// What follows an attempt: nothing after a success; an error with the reason
/// after a final failure, and after the last retry; and before another attempt
/// the delay of that attempt.
pub proof fn law_step_after(backoff: Backoff, failed: u32, reason: Seq<char>, jitter: u64)
    ensures
        step_after(backoff, failed, DispositionView::Success, jitter) is Done,
        step_after(backoff, failed, DispositionView::Permanent(reason), jitter)
            == PostStepView::Failed("export rejected: "@ + reason),
        failed < backoff.max_retries ==> (step_after(
            backoff,
            failed,
            DispositionView::Retryable(reason),
            jitter,
        ) matches PostStepView::Wait(nanos) && super::retry::delay(
            backoff,
            (failed + 1) as u32,
            jitter,
        ) == Some(nanos)),
        failed >= backoff.max_retries ==> (step_after(
            backoff,
            failed,
            DispositionView::Retryable(reason),
            jitter,
        ) matches PostStepView::Failed(message) && exists|attempts: Seq<char>|
            crate::text::unsigned_value(attempts) == Some((backoff.max_retries + 1) as nat)
                && message == #[trigger] ("export failed after "@ + attempts + " attempts: "@
                + reason)),
{
    crate::text::law_decimal_reads_back((backoff.max_retries + 1) as nat);
    let attempts = crate::text::decimal((backoff.max_retries + 1) as nat);
    assert(crate::text::unsigned_value(attempts) == Some((backoff.max_retries + 1) as nat));
}

/// A header name is made of letters, digits and fifteen signs, and a header value
/// of everything but control characters other than tabs.
pub proof fn law_header_characters(c: char)
    ensures
        is_token_char(c) <==> ('a' <= c <= 'z' || 'A' <= c <= 'Z' || '0' <= c <= '9' || c == '!' || c
            == '#' || c == '$' || c == '%' || c == '&' || c == '\'' || c == '*' || c == '+' || c
            == '-' || c == '.' || c == '^' || c == '_' || c == '`' || c == '|' || c == '~'),
        is_header_value(seq![c]) <==> c == '\t' || !(c < '\u{20}' || c == '\u{7f}'),
        is_header_name(seq![c]) <==> is_token_char(c),
        !is_header_name(seq![]),
{
    let one = seq![c];
    assert(one[0] == c);
    if is_header_value(one) {
        assert((' ' <= one[0] && one[0] != '\u{7f}') || one[0] == '\t');
    }
    if is_header_name(one) {
        assert(is_token_char(one[0]));
    }
}

/// Headers make a map exactly when each of them has a valid name and a valid
/// value.
pub proof fn law_valid_headers(content_type: Seq<char>, headers: Seq<(Seq<char>, Seq<char>)>)
    ensures
        header_map(content_type, headers) is Ok <==> forall|i: int|
            0 <= i < headers.len() ==> is_header_name((#[trigger] headers[i]).0) && is_header_value(
                headers[i].1,
            ),
    decreases headers.len(),
{
    if headers.len() > 0 {
        let init = headers.drop_last();
        law_valid_headers(content_type, init);
        assert forall|i: int| 0 <= i < init.len() implies #[trigger] init[i] == headers[i] by {}
        assert(headers.last() == headers[headers.len() - 1]);
        if header_map(content_type, headers) is Ok {
            assert forall|i: int| 0 <= i < headers.len() implies is_header_name(
                (#[trigger] headers[i]).0,
            ) && is_header_value(headers[i].1) by {
                if i < init.len() {
                    assert(is_header_name(init[i].0) && is_header_value(init[i].1));
                }
            }
        }
        if forall|i: int|
            0 <= i < headers.len() ==> is_header_name((#[trigger] headers[i]).0) && is_header_value(
                headers[i].1,
            ) {
            assert forall|i: int| 0 <= i < init.len() implies is_header_name(
                (#[trigger] init[i]).0,
            ) && is_header_value(init[i].1) by {
                assert(is_header_name(headers[i].0) && is_header_value(headers[i].1));
            }
        }
    }
}

/// The last header of a name, in any case of its letters, is the one that is
/// sent, with the bytes of its value; the content type is sent where no header
/// takes its name. Nothing else is sent.
pub proof fn law_headers_are_sent(
    content_type: Seq<char>,
    headers: Seq<(Seq<char>, Seq<char>)>,
    i: int,
    name: Seq<char>,
)
    requires
        header_map(content_type, headers) is Ok,
    ensures
        ({
            let map = header_map(content_type, headers)->Ok_0;
            &&& 0 <= i < headers.len() && (forall|k: int|
                i < k < headers.len() ==> crate::text::lowercase((#[trigger] headers[k]).0)
                    != crate::text::lowercase(headers[i].0)) ==> map.dom().contains(
                crate::text::lowercase(headers[i].0),
            ) && map[crate::text::lowercase(headers[i].0)] == encode_utf8(headers[i].1)
            &&& map.dom().contains("content-type"@)
            &&& (forall|k: int|
                0 <= k < headers.len() ==> crate::text::lowercase((#[trigger] headers[k]).0)
                    != "content-type"@) ==> map["content-type"@] == encode_utf8(content_type)
            &&& name != "content-type"@ && (forall|k: int|
                0 <= k < headers.len() ==> crate::text::lowercase((#[trigger] headers[k]).0)
                    != name) ==> !map.dom().contains(name)
        }),
    decreases headers.len(),
{
    if headers.len() > 0 {
        let init = headers.drop_last();
        law_headers_are_sent(content_type, init, i, name);
        assert forall|k: int| 0 <= k < init.len() implies #[trigger] init[k] == headers[k] by {}
        let n = headers.len() - 1;
        assert(headers.last() == headers[n]);
        if forall|k: int|
            0 <= k < headers.len() ==> crate::text::lowercase((#[trigger] headers[k]).0)
                != "content-type"@ {
            assert forall|k: int| 0 <= k < init.len() implies crate::text::lowercase(
                (#[trigger] init[k]).0,
            ) != "content-type"@ by {
                assert(crate::text::lowercase(headers[k].0) != "content-type"@);
            }
            assert(crate::text::lowercase(headers[n].0) != "content-type"@);
        }
        if forall|k: int|
            0 <= k < headers.len() ==> crate::text::lowercase((#[trigger] headers[k]).0) != name {
            assert forall|k: int| 0 <= k < init.len() implies crate::text::lowercase(
                (#[trigger] init[k]).0,
            ) != name by {
                assert(crate::text::lowercase(headers[k].0) != name);
            }
            assert(crate::text::lowercase(headers[n].0) != name);
        }
        if 0 <= i < init.len() && forall|k: int|
            i < k < headers.len() ==> crate::text::lowercase((#[trigger] headers[k]).0)
                != crate::text::lowercase(headers[i].0) {
            assert forall|k: int| i < k < init.len() implies crate::text::lowercase(
                (#[trigger] init[k]).0,
            ) != crate::text::lowercase(init[i].0) by {
                assert(crate::text::lowercase(headers[k].0) != crate::text::lowercase(
                    headers[i].0,
                ));
            }
            assert(crate::text::lowercase(headers[n].0) != crate::text::lowercase(headers[i].0));
        }
    }
}

/// The first header that is refused is named in the error, with what is wrong
/// with it: its name, or else its value.
pub proof fn law_header_errors(
    content_type: Seq<char>,
    headers: Seq<(Seq<char>, Seq<char>)>,
    at: int,
)
    requires
        0 <= at < headers.len(),
        forall|k: int|
            0 <= k < at ==> is_header_name((#[trigger] headers[k]).0) && is_header_value(
                headers[k].1,
            ),
    ensures
        !is_header_name(headers[at].0) ==> header_map(content_type, headers) == Err::<
            Map<Seq<char>, Seq<u8>>,
            Seq<char>,
        >("invalid header name "@ + debugged(headers[at].0) + ": "@ + "invalid HTTP header name"@),
        is_header_name(headers[at].0) && !is_header_value(headers[at].1) ==> header_map(
            content_type,
            headers,
        ) == Err::<Map<Seq<char>, Seq<u8>>, Seq<char>>(
            "invalid header value for "@ + debugged(headers[at].0) + ": "@
                + "failed to parse header value"@,
        ),
{
    let before = headers.take(at);
    let upto = headers.take(at + 1);
    assert(upto.drop_last() =~= before);
    assert(upto.last() == headers[at]);
    assert forall|k: int| 0 <= k < before.len() implies is_header_name((#[trigger] before[k]).0)
        && is_header_value(before[k].1) by {
        assert(before[k] == headers[k]);
        assert(is_header_name(headers[k].0) && is_header_value(headers[k].1));
    }
    law_valid_headers(content_type, before);
    if !is_header_name(headers[at].0) || !is_header_value(headers[at].1) {
        lemma_header_error(content_type, headers, at + 1);
    }
}

/// Whatever is done after an attempt, only a wait for another one counts as one
/// more failure, and the schedule stays.
pub proof fn law_failures_are_counted(outcome: Disposition, jitter: u64, r: PostStep)
    ensures
        forall|attempts: &mut PostAttempts|
            #[trigger] call_ensures(PostAttempts::after, (attempts, outcome, jitter), r) ==> {
                &&& final(attempts).schedule() == attempts.schedule()
                &&& r is Wait ==> final(attempts).failures() == attempts.failures() + 1
                &&& !(r is Wait) ==> final(attempts).failures() == attempts.failures()
                &&& outcome is Success <==> r is Done
                &&& outcome is Permanent ==> r is Failed
                &&& outcome is Retryable ==> (r is Wait <==> attempts.failures()
                    < attempts.schedule().max_retries)
            },
{
}

} // verus!
