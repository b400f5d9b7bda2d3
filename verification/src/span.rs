//! The representation of an OpenTelemetry span.
//!
//! Attribute keys are `Cow<'static, str>`, since most keys are static, and a
//! small, closed enum holds the values.

use std::borrow::Cow;

use vstd::prelude::*;
use vstd::string::*;

use crate::context::{SpanId, TraceId};
use crate::lists::{Attributes, Events, FewAttributes, Links};
use crate::propagation::TraceState;
use crate::text::{starts_with, str_eq};
use crate::time::Timestamp;

verus! {

/// Most attributes of a span.
pub const MAX_ATTRIBUTES: usize = 16;

/// Most events of a span.
pub const MAX_EVENTS: usize = 8;

/// Most links of a span.
pub const MAX_LINKS: usize = 4;

/// A copy of a text.
pub fn clone_cow(s: &Cow<'static, str>) -> (r: Cow<'static, str>)
    ensures
        r == *s,
{
    match s {
        Cow::Borrowed(b) => Cow::Borrowed(*b),
        Cow::Owned(o) => Cow::Owned(o.clone()),
    }
}

/// The characters of a text.
pub fn cow_str<'a>(s: &'a Cow<'static, str>) -> (r: &'a str)
    ensures
        r@ == s@,
{
    match s {
        Cow::Borrowed(b) => b,
        Cow::Owned(o) => o.as_str(),
    }
}

/// The value of a span attribute. Arrays and key-value lists are not supported.
#[derive(PartialEq, Debug)]
pub enum AttributeValue {
    /// Text. Static text is not copied.
    String(Cow<'static, str>),
    /// Signed 64-bit integer.
    Int(i64),
    /// The IEEE 754 bits of a double-precision number.
    Float(u64),
    /// Boolean.
    Bool(bool),
}

/// The value of an attribute, with its text as a sequence of characters.
pub ghost enum ValueView {
    Text(Seq<char>),
    Int(i64),
    Float(u64),
    Bool(bool),
}

impl View for AttributeValue {
    type V = ValueView;

    open spec fn view(&self) -> ValueView {
        match self {
            AttributeValue::String(s) => ValueView::Text(s@),
            AttributeValue::Int(i) => ValueView::Int(*i),
            AttributeValue::Float(f) => ValueView::Float(*f),
            AttributeValue::Bool(b) => ValueView::Bool(*b),
        }
    }
}

impl Clone for AttributeValue {
    fn clone(&self) -> (r: AttributeValue)
        ensures
            r == *self,
    {
        match self {
            AttributeValue::String(s) => AttributeValue::String(clone_cow(s)),
            AttributeValue::Int(i) => AttributeValue::Int(*i),
            AttributeValue::Float(f) => AttributeValue::Float(*f),
            AttributeValue::Bool(b) => AttributeValue::Bool(*b),
        }
    }
}

impl From<&'static str> for AttributeValue {
    fn from(s: &'static str) -> (r: AttributeValue) {
        AttributeValue::String(Cow::Borrowed(s))
    }
}

impl vstd::std_specs::convert::FromSpecImpl<&'static str> for AttributeValue {
    open spec fn obeys_from_spec() -> bool {
        true
    }

    open spec fn from_spec(s: &'static str) -> AttributeValue {
        AttributeValue::String(Cow::Borrowed(s))
    }
}

impl From<String> for AttributeValue {
    fn from(s: String) -> (r: AttributeValue) {
        AttributeValue::String(Cow::Owned(s))
    }
}

impl vstd::std_specs::convert::FromSpecImpl<String> for AttributeValue {
    open spec fn obeys_from_spec() -> bool {
        true
    }

    open spec fn from_spec(s: String) -> AttributeValue {
        AttributeValue::String(Cow::Owned(s))
    }
}

impl From<i64> for AttributeValue {
    fn from(v: i64) -> (r: AttributeValue) {
        AttributeValue::Int(v)
    }
}

impl vstd::std_specs::convert::FromSpecImpl<i64> for AttributeValue {
    open spec fn obeys_from_spec() -> bool {
        true
    }

    open spec fn from_spec(v: i64) -> AttributeValue {
        AttributeValue::Int(v)
    }
}

impl From<i32> for AttributeValue {
    fn from(v: i32) -> (r: AttributeValue) {
        AttributeValue::Int(v as i64)
    }
}

impl vstd::std_specs::convert::FromSpecImpl<i32> for AttributeValue {
    open spec fn obeys_from_spec() -> bool {
        true
    }

    open spec fn from_spec(v: i32) -> AttributeValue {
        AttributeValue::Int(v as i64)
    }
}

impl From<bool> for AttributeValue {
    fn from(v: bool) -> (r: AttributeValue) {
        AttributeValue::Bool(v)
    }
}

impl vstd::std_specs::convert::FromSpecImpl<bool> for AttributeValue {
    open spec fn obeys_from_spec() -> bool {
        true
    }

    open spec fn from_spec(v: bool) -> AttributeValue {
        AttributeValue::Bool(v)
    }
}

/// Span status.
#[derive(PartialEq, Eq, Debug)]
pub enum Status {
    /// No known status.
    Unset,
    /// The operation completed successfully.
    Okay,
    /// The operation contains an error, with a description that may be empty.
    Error { message: Cow<'static, str> },
}

/// Span status, with its message as a sequence of characters.
pub ghost enum StatusView {
    Unset,
    Okay,
    Error { message: Seq<char> },
}

impl View for Status {
    type V = StatusView;

    open spec fn view(&self) -> StatusView {
        match self {
            Status::Unset => StatusView::Unset,
            Status::Okay => StatusView::Okay,
            Status::Error { message } => StatusView::Error { message: message@ },
        }
    }
}

impl Clone for Status {
    fn clone(&self) -> (r: Status)
        ensures
            r == *self,
    {
        match self {
            Status::Unset => Status::Unset,
            Status::Okay => Status::Okay,
            Status::Error { message } => Status::Error { message: clone_cow(message) },
        }
    }
}

impl Default for Status {
    fn default() -> (r: Status)
        ensures
            r == Status::Unset,
    {
        Status::Unset
    }
}

impl Status {
    /// Whether the status is an error.
    pub fn is_error(&self) -> (r: bool)
        ensures
            r == (self@ is Error),
    {
        match self {
            Status::Error { .. } => true,
            _ => false,
        }
    }
}

/// Span kind.
#[derive(Clone, Copy, PartialEq, Eq, Debug, Structural)]
pub enum SpanKind {
    Internal,
    Server,
    Client,
    Producer,
    Consumer,
}

impl Default for SpanKind {
    fn default() -> (r: SpanKind)
        ensures
            r == SpanKind::Internal,
    {
        SpanKind::Internal
    }
}

/// The keys and values of a list of attributes.
pub open spec fn attributes_view(items: Seq<(Cow<'static, str>, AttributeValue)>) -> Seq<
    (Seq<char>, ValueView),
> {
    items.map_values(|p: (Cow<'static, str>, AttributeValue)| (p.0@, p.1@))
}

/// A link to another span.
#[derive(PartialEq, Debug)]
pub struct Link {
    pub trace_id: TraceId,
    pub span_id: SpanId,
    pub attributes: FewAttributes,
}

/// What a link says.
pub ghost struct LinkView {
    pub trace_id: TraceId,
    pub span_id: SpanId,
    pub attributes: Seq<(Seq<char>, ValueView)>,
}

impl View for Link {
    type V = LinkView;

    open spec fn view(&self) -> LinkView {
        LinkView {
            trace_id: self.trace_id,
            span_id: self.span_id,
            attributes: attributes_view(self.attributes@),
        }
    }
}

impl Clone for Link {
    fn clone(&self) -> (r: Link)
        ensures
            r@ == self@,
    {
        Link {
            trace_id: self.trace_id,
            span_id: self.span_id,
            attributes: self.attributes.clone(),
        }
    }
}

/// What the links of a list say.
pub open spec fn links_view(items: Seq<Link>) -> Seq<LinkView> {
    items.map_values(|l: Link| l@)
}

/// An event recorded on a span.
#[derive(PartialEq, Debug)]
pub struct Event {
    pub name: Cow<'static, str>,
    pub timestamp: Timestamp,
    pub attributes: FewAttributes,
}

/// What an event says.
pub ghost struct EventView {
    pub name: Seq<char>,
    pub timestamp: Timestamp,
    pub attributes: Seq<(Seq<char>, ValueView)>,
}

impl View for Event {
    type V = EventView;

    open spec fn view(&self) -> EventView {
        EventView {
            name: self.name@,
            timestamp: self.timestamp,
            attributes: attributes_view(self.attributes@),
        }
    }
}

impl Clone for Event {
    fn clone(&self) -> (r: Event)
        ensures
            r@ == self@,
    {
        Event {
            name: clone_cow(&self.name),
            timestamp: self.timestamp,
            attributes: self.attributes.clone(),
        }
    }
}

/// What the events of a list say.
pub open spec fn events_view(items: Seq<Event>) -> Seq<EventView> {
    items.map_values(|e: Event| e@)
}

/// A live span, as the tracing layer fills it. Users reach spans through the
/// `tracing` crate alone.
#[derive(Debug)]
pub struct OtelSpan {
    pub trace_id: TraceId,
    pub span_id: SpanId,
    pub parent_span_id: Option<SpanId>,
    pub trace_state: Option<TraceState>,
    pub name: Cow<'static, str>,
    pub kind: SpanKind,
    pub start_time: Timestamp,
    pub end_time: Option<Timestamp>,
    /// The W3C sampled flag, inherited from the parent or remote context, or
    /// set for a locally created root.
    pub is_sampled: bool,
    pub attributes: Attributes,
    pub dropped_attributes_count: u32,
    pub events: Events,
    pub dropped_events_count: u32,
    pub links: Links,
    pub dropped_links_count: u32,
    pub status: Status,
    /// A status message that waits for an error code. It is never exported.
    pub pending_message: Option<Cow<'static, str>>,
}

/// The immutable snapshot of a span that goes to the exporter.
#[derive(Debug)]
pub struct FinishedSpan {
    pub trace_id: TraceId,
    pub span_id: SpanId,
    pub parent_span_id: Option<SpanId>,
    pub trace_state: Option<TraceState>,
    pub name: Cow<'static, str>,
    pub kind: SpanKind,
    pub start_time: Timestamp,
    pub end_time: Timestamp,
    /// The W3C sampled flag.
    pub is_sampled: bool,
    pub attributes: Attributes,
    pub dropped_attributes_count: u32,
    pub events: Events,
    pub dropped_events_count: u32,
    pub links: Links,
    pub dropped_links_count: u32,
    pub status: Status,
}

/// What a span says. A live span has an end time once it has ended; a finished
/// one always has, and no message that waits for a status code.
#[verifier::ext_equal]
pub ghost struct SpanView {
    pub trace_id: TraceId,
    pub span_id: SpanId,
    pub parent_span_id: Option<SpanId>,
    pub trace_state: Option<Seq<char>>,
    pub name: Seq<char>,
    pub kind: SpanKind,
    pub start_time: Timestamp,
    pub end_time: Option<Timestamp>,
    pub is_sampled: bool,
    pub attributes: Seq<(Seq<char>, ValueView)>,
    pub dropped_attributes_count: u32,
    pub events: Seq<EventView>,
    pub dropped_events_count: u32,
    pub links: Seq<LinkView>,
    pub dropped_links_count: u32,
    pub status: StatusView,
    pub pending_message: Option<Seq<char>>,
}

/// The characters of an optional text.
pub open spec fn message_view(m: Option<Cow<'static, str>>) -> Option<Seq<char>> {
    match m {
        Some(t) => Some(t@),
        None => None,
    }
}

/// The text of an optional trace state.
pub open spec fn state_view(s: Option<TraceState>) -> Option<Seq<char>> {
    match s {
        Some(t) => Some(t@),
        None => None,
    }
}

impl View for OtelSpan {
    type V = SpanView;

    open spec fn view(&self) -> SpanView {
        SpanView {
            trace_id: self.trace_id,
            span_id: self.span_id,
            parent_span_id: self.parent_span_id,
            trace_state: state_view(self.trace_state),
            name: self.name@,
            kind: self.kind,
            start_time: self.start_time,
            end_time: self.end_time,
            is_sampled: self.is_sampled,
            attributes: attributes_view(self.attributes@),
            dropped_attributes_count: self.dropped_attributes_count,
            events: events_view(self.events@),
            dropped_events_count: self.dropped_events_count,
            links: links_view(self.links@),
            dropped_links_count: self.dropped_links_count,
            status: self.status@,
            pending_message: message_view(self.pending_message),
        }
    }
}

impl View for FinishedSpan {
    type V = SpanView;

    open spec fn view(&self) -> SpanView {
        SpanView {
            trace_id: self.trace_id,
            span_id: self.span_id,
            parent_span_id: self.parent_span_id,
            trace_state: state_view(self.trace_state),
            name: self.name@,
            kind: self.kind,
            start_time: self.start_time,
            end_time: Some(self.end_time),
            is_sampled: self.is_sampled,
            attributes: attributes_view(self.attributes@),
            dropped_attributes_count: self.dropped_attributes_count,
            events: events_view(self.events@),
            dropped_events_count: self.dropped_events_count,
            links: links_view(self.links@),
            dropped_links_count: self.dropped_links_count,
            status: self.status@,
            pending_message: None,
        }
    }
}

impl Clone for FinishedSpan {
    fn clone(&self) -> (r: FinishedSpan)
        ensures
            r@ == self@,
    {
        FinishedSpan {
            trace_id: self.trace_id,
            span_id: self.span_id,
            parent_span_id: self.parent_span_id,
            trace_state: match &self.trace_state {
                Some(state) => Some(state.clone()),
                None => None,
            },
            name: clone_cow(&self.name),
            kind: self.kind,
            start_time: self.start_time,
            end_time: self.end_time,
            is_sampled: self.is_sampled,
            attributes: self.attributes.clone(),
            dropped_attributes_count: self.dropped_attributes_count,
            events: self.events.clone(),
            dropped_events_count: self.dropped_events_count,
            links: self.links.clone(),
            dropped_links_count: self.dropped_links_count,
            status: self.status.clone(),
        }
    }
}

/// Whether a key is recorded late by the HTTP middleware and must not be
/// dropped.
pub open spec fn is_protected(key: Seq<char>) -> bool {
    ||| key == "http.response.status_code"@
    ||| key == "http.response.body.size"@
    ||| key == "http.route"@
    ||| key == "error.type"@
    ||| "http.response.header."@.is_prefix_of(key)
}

/// Whether a key is recorded late by the HTTP middleware and must not be
/// dropped.
pub fn is_protected_http_attribute(key: &str) -> (r: bool)
    ensures
        r == is_protected(key@),
{
    str_eq(key, "http.response.status_code") || str_eq(key, "http.response.body.size") || str_eq(
        key,
        "http.route",
    ) || str_eq(key, "error.type") || starts_with(key, "http.response.header.")
}

/// The position of the first attribute with the given key, or the length of
/// the list when there is none.
pub open spec fn attribute_index(list: Seq<(Seq<char>, ValueView)>, key: Seq<char>) -> int
    decreases list.len(),
{
    if list.len() == 0 || list[0].0 == key {
        0
    } else {
        1 + attribute_index(list.drop_first(), key)
    }
}

/// The value of the attribute with the given key.
pub open spec fn attribute(list: Seq<(Seq<char>, ValueView)>, key: Seq<char>) -> Option<ValueView> {
    let i = attribute_index(list, key);
    if i < list.len() {
        Some(list[i].1)
    } else {
        None
    }
}

/// The position of the first attribute that is not protected, or the length of
/// the list when all are.
pub open spec fn first_unprotected(list: Seq<(Seq<char>, ValueView)>) -> int
    decreases list.len(),
{
    if list.len() == 0 || !is_protected(list[0].0) {
        0
    } else {
        1 + first_unprotected(list.drop_first())
    }
}

/// One more, up to the largest 32-bit count.
pub open spec fn counted(n: u32) -> u32 {
    if n < u32::MAX {
        (n + 1) as u32
    } else {
        n
    }
}

impl SpanView {
    /// With an attribute recorded.
    ///
    /// A key that is already there gets the new value. A new key is appended
    /// while there is room. After that a protected key takes the place of the
    /// first attribute that is not protected, and any other is dropped and
    /// counted.
    pub open spec fn recorded(self, key: Seq<char>, value: ValueView) -> SpanView {
        let at = attribute_index(self.attributes, key);
        let spare = first_unprotected(self.attributes);
        if at < self.attributes.len() {
            SpanView { attributes: self.attributes.update(at, (key, value)), ..self }
        } else if self.attributes.len() < MAX_ATTRIBUTES {
            SpanView { attributes: self.attributes.push((key, value)), ..self }
        } else if is_protected(key) && spare < self.attributes.len() {
            SpanView { attributes: self.attributes.update(spare, (key, value)), ..self }
        } else {
            SpanView { dropped_attributes_count: counted(self.dropped_attributes_count), ..self }
        }
    }

    /// With an event added, or counted when there is no room.
    pub open spec fn with_event(self, event: EventView) -> SpanView {
        if self.events.len() < MAX_EVENTS {
            SpanView { events: self.events.push(event), ..self }
        } else {
            SpanView { dropped_events_count: counted(self.dropped_events_count), ..self }
        }
    }

    /// With a link added, or counted when there is no room.
    pub open spec fn with_link(self, link: LinkView) -> SpanView {
        if self.links.len() < MAX_LINKS {
            SpanView { links: self.links.push(link), ..self }
        } else {
            SpanView { dropped_links_count: counted(self.dropped_links_count), ..self }
        }
    }

    /// Ended at a time, unless it has ended before.
    pub open spec fn ended(self, at: Timestamp) -> SpanView {
        match self.end_time {
            Some(_) => self,
            None => SpanView { end_time: Some(at), ..self },
        }
    }

    /// Finished at a time, unless it has ended before: a message that still waits
    /// for a status code is lost.
    pub open spec fn finished(self, at: Timestamp) -> SpanView {
        SpanView { pending_message: None, ..self.ended(at) }
    }

    /// Within its limits, and without a key that occurs twice.
    pub open spec fn wf(self) -> bool {
        &&& self.attributes.len() <= MAX_ATTRIBUTES
        &&& self.events.len() <= MAX_EVENTS
        &&& self.links.len() <= MAX_LINKS
        &&& forall|i: int, j: int|
            0 <= i < j < self.attributes.len() ==> (#[trigger] self.attributes[i]).0 != (
            #[trigger] self.attributes[j]).0
    }
}

/// A new span: sampled, of no particular kind, and with nothing recorded.
pub open spec fn fresh_span(
    trace_id: TraceId,
    span_id: SpanId,
    parent_span_id: Option<SpanId>,
    name: Seq<char>,
    start_time: Timestamp,
) -> SpanView {
    SpanView {
        trace_id,
        span_id,
        parent_span_id,
        trace_state: None,
        name,
        kind: SpanKind::Internal,
        start_time,
        end_time: None,
        is_sampled: true,
        attributes: seq![],
        dropped_attributes_count: 0,
        events: seq![],
        dropped_events_count: 0,
        links: seq![],
        dropped_links_count: 0,
        status: StatusView::Unset,
        pending_message: None,
    }
}

pub proof fn lemma_attribute_index(list: Seq<(Seq<char>, ValueView)>, key: Seq<char>)
    ensures
        0 <= attribute_index(list, key) <= list.len(),
        forall|i: int| 0 <= i < attribute_index(list, key) ==> (#[trigger] list[i]).0 != key,
        attribute_index(list, key) < list.len() ==> list[attribute_index(list, key)].0 == key,
    decreases list.len(),
{
    if list.len() > 0 && list[0].0 != key {
        let rest = list.drop_first();
        lemma_attribute_index(rest, key);
        assert forall|i: int| 0 <= i < attribute_index(list, key) implies (#[trigger] list[i]).0
            != key by {
            if i > 0 {
                assert(list[i] == rest[i - 1]);
            }
        }
    }
}

pub proof fn lemma_attribute_index_is(list: Seq<(Seq<char>, ValueView)>, key: Seq<char>, at: int)
    requires
        0 <= at <= list.len(),
        forall|i: int| 0 <= i < at ==> (#[trigger] list[i]).0 != key,
        at < list.len() ==> list[at].0 == key,
    ensures
        attribute_index(list, key) == at,
{
    lemma_attribute_index(list, key);
    let i = attribute_index(list, key);
    if i < at {
        assert(list[i].0 != key);
    }
}

proof fn lemma_first_unprotected(list: Seq<(Seq<char>, ValueView)>)
    ensures
        0 <= first_unprotected(list) <= list.len(),
        forall|i: int| 0 <= i < first_unprotected(list) ==> is_protected((#[trigger] list[i]).0),
        first_unprotected(list) < list.len() ==> !is_protected(list[first_unprotected(list)].0),
    decreases list.len(),
{
    if list.len() > 0 && is_protected(list[0].0) {
        let rest = list.drop_first();
        lemma_first_unprotected(rest);
        assert forall|i: int| 0 <= i < first_unprotected(list) implies is_protected(
            (#[trigger] list[i]).0,
        ) by {
            if i > 0 {
                assert(list[i] == rest[i - 1]);
            }
        }
    }
}

/// The position of the first attribute with the given key, or the length of
/// the list when there is none.
pub fn find_attribute(items: &[(Cow<'static, str>, AttributeValue)], key: &str) -> (r: usize)
    ensures
        r == attribute_index(attributes_view(items@), key@),
        r <= items@.len(),
{
    let mut i: usize = 0;
    let n: usize = items.len();
    while i < n && !str_eq(cow_str(&items[i].0), key)
        invariant
            n == items@.len(),
            i <= n,
            forall|k: int| 0 <= k < i ==> (#[trigger] attributes_view(items@)[k]).0 != key@,
        decreases n - i,
    {
        assert(attributes_view(items@)[i as int].0 != key@);
        i += 1;
    }
    proof {
        if i < n {
            assert(attributes_view(items@)[i as int].0 == key@);
        }
        lemma_attribute_index_is(attributes_view(items@), key@, i as int);
    }
    i
}

/// The position of the first attribute that is not protected, or the length of
/// the list when all are.
fn find_unprotected(items: &[(Cow<'static, str>, AttributeValue)]) -> (r: usize)
    ensures
        r == first_unprotected(attributes_view(items@)),
        r <= items@.len(),
{
    let mut i: usize = 0;
    let n: usize = items.len();
    let ghost list = attributes_view(items@);
    while i < n && is_protected_http_attribute(cow_str(&items[i].0))
        invariant
            n == items@.len(),
            i <= n,
            list == attributes_view(items@),
            forall|k: int| 0 <= k < i ==> is_protected((#[trigger] list[k]).0),
        decreases n - i,
    {
        assert(is_protected(list[i as int].0));
        i += 1;
    }
    proof {
        if i < n {
            assert(!is_protected(list[i as int].0));
        }
        lemma_first_unprotected(list);
    }
    i
}

impl OtelSpan {
    /// A new span with the given identity and name, which starts now.
    pub fn new(
        trace_id: TraceId,
        span_id: SpanId,
        parent_span_id: Option<SpanId>,
        name: Cow<'static, str>,
    ) -> (r: OtelSpan)
        ensures
            r@ == fresh_span(trace_id, span_id, parent_span_id, name@, r.start_time),
            r@.wf(),
            r.start_time.wf(),
            crate::time::clock_showed(r.start_time),
    {
        OtelSpan::new_at(trace_id, span_id, parent_span_id, name, crate::time::read_clock())
    }

    /// A new span with the given identity and name, which starts at a time.
    pub fn new_at(
        trace_id: TraceId,
        span_id: SpanId,
        parent_span_id: Option<SpanId>,
        name: Cow<'static, str>,
        start_time: Timestamp,
    ) -> (r: OtelSpan)
        ensures
            r@ == fresh_span(trace_id, span_id, parent_span_id, name@, start_time),
            r@.wf(),
    {
        let span = OtelSpan {
            trace_id,
            span_id,
            parent_span_id,
            trace_state: None,
            name,
            kind: SpanKind::default(),
            start_time,
            end_time: None,
            is_sampled: true,
            attributes: Attributes::new(),
            dropped_attributes_count: 0,
            events: Events::new(),
            dropped_events_count: 0,
            links: Links::new(),
            dropped_links_count: 0,
            status: Status::default(),
            pending_message: None,
        };
        assert(span@ =~= fresh_span(trace_id, span_id, parent_span_id, name@, start_time));
        span
    }

    /// Records (or overwrites) an attribute.
    ///
    /// Response attributes of the HTTP middleware are protected from being
    /// dropped when the attribute budget is exhausted.
    pub fn record(&mut self, key: Cow<'static, str>, value: AttributeValue)
        ensures
            final(self)@ == old(self)@.recorded(key@, value@),
    {
        let ghost before = self.attributes@;
        let ghost item = (key, value);
        let at: usize = find_attribute(self.attributes.as_slice(), cow_str(&key));
        let len: usize = self.attributes.as_slice().len();
        if at < len {
            proof {
                lemma_attribute_index(attributes_view(before), key@);
                assert(attributes_view(before)[at as int].0 == before[at as int].0@);
            }
            let items = self.attributes.as_mut_slice();
            items[at].1 = value;
            assert(attributes_view(self.attributes@) =~= attributes_view(before).update(
                at as int,
                (item.0@, item.1@),
            ));
        } else if len < MAX_ATTRIBUTES {
            self.attributes.push((key, value));
            assert(attributes_view(self.attributes@) =~= attributes_view(before).push(
                (item.0@, item.1@),
            ));
        } else {
            let spare: usize = find_unprotected(self.attributes.as_slice());
            if spare < len && is_protected_http_attribute(cow_str(&key)) {
                let items = self.attributes.as_mut_slice();
                items[spare] = (key, value);
                assert(attributes_view(self.attributes@) =~= attributes_view(before).update(
                    spare as int,
                    (item.0@, item.1@),
                ));
            } else {
                self.dropped_attributes_count = self.dropped_attributes_count.saturating_add(1);
            }
        }
    }

    /// Adds an event, or counts it when there is no room.
    pub fn add_event(&mut self, event: Event)
        ensures
            final(self)@ == old(self)@.with_event(event@),
    {
        let ghost before = self.events@;
        if self.events.as_slice().len() < MAX_EVENTS {
            self.events.push(event);
            assert(events_view(self.events@) =~= events_view(before).push(event@));
        } else {
            self.dropped_events_count = self.dropped_events_count.saturating_add(1);
        }
    }

    /// Adds a link, or counts it when there is no room.
    pub fn add_link(&mut self, link: Link)
        ensures
            final(self)@ == old(self)@.with_link(link@),
    {
        let ghost before = self.links@;
        if self.links.as_slice().len() < MAX_LINKS {
            self.links.push(link);
            assert(links_view(self.links@) =~= links_view(before).push(link@));
        } else {
            self.dropped_links_count = self.dropped_links_count.saturating_add(1);
        }
    }

    /// Records the end of the span, once.
    pub fn end(&mut self)
        ensures
            final(self).end_time is Some,
            final(self)@ == old(self)@.ended(final(self).end_time->0),
            old(self).end_time is None ==> final(self).end_time->0.wf(),
            old(self).end_time is None ==> crate::time::clock_showed(final(self).end_time->0),
    {
        self.end_at(crate::time::read_clock());
    }

    /// Records the end of the span at a time, unless it has ended before.
    pub fn end_at(&mut self, at: Timestamp)
        ensures
            final(self)@ == old(self)@.ended(at),
    {
        if self.end_time.is_none() {
            self.end_time = Some(at);
        }
    }

    /// How long the span took, in nanoseconds, if it has ended, and did not end
    /// before it started.
    pub fn duration(&self) -> (r: Option<u128>)
        ensures
            r == (match self.end_time {
                Some(end) => if end@ >= self.start_time@ {
                    Some((end@ - self.start_time@) as u128)
                } else {
                    None
                },
                None => None,
            }),
    {
        match &self.end_time {
            Some(end) => end.since(&self.start_time),
            None => None,
        }
    }

    /// The immutable snapshot for the exporter. A span that has not ended ends
    /// now.
    pub fn finish(self) -> (r: FinishedSpan)
        ensures
            r@ == self@.finished(r.end_time),
            self.end_time is None ==> r.end_time.wf(),
            self.end_time is None ==> crate::time::clock_showed(r.end_time),
    {
        let at = match self.end_time {
            Some(at) => at,
            None => crate::time::read_clock(),
        };
        self.finish_at(at)
    }

    /// The immutable snapshot for the exporter. A span that has not ended ends
    /// at the given time.
    pub fn finish_at(self, at: Timestamp) -> (r: FinishedSpan)
        ensures
            r@ == self@.finished(at),
    {
        let end_time = match self.end_time {
            Some(end) => end,
            None => at,
        };
        FinishedSpan {
            trace_id: self.trace_id,
            span_id: self.span_id,
            parent_span_id: self.parent_span_id,
            trace_state: self.trace_state,
            name: self.name,
            kind: self.kind,
            start_time: self.start_time,
            end_time,
            is_sampled: self.is_sampled,
            attributes: self.attributes,
            dropped_attributes_count: self.dropped_attributes_count,
            events: self.events,
            dropped_events_count: self.dropped_events_count,
            links: self.links,
            dropped_links_count: self.dropped_links_count,
            status: self.status,
        }
    }
}

/// Recording, adding and ending keep a span within its limits and its keys
/// distinct.
pub proof fn law_span_stays_well_formed(
    span: SpanView,
    key: Seq<char>,
    value: ValueView,
    event: EventView,
    link: LinkView,
    at: Timestamp,
)
    requires
        span.wf(),
    ensures
        span.recorded(key, value).wf(),
        span.with_event(event).wf(),
        span.with_link(link).wf(),
        span.ended(at).wf(),
        span.finished(at).wf(),
{
    lemma_attribute_index(span.attributes, key);
    lemma_first_unprotected(span.attributes);
}

/// A recorded attribute has the value that was recorded. It is dropped, and
/// counted, only where its key is new and the span is full, unless it is
/// protected and there is an attribute that is not.
pub proof fn law_recorded_attribute_is_found(span: SpanView, key: Seq<char>, value: ValueView)
    requires
        span.wf(),
    ensures
        attribute(span.recorded(key, value).attributes, key) == (if attribute(span.attributes, key)
            is Some || span.attributes.len() < MAX_ATTRIBUTES || (is_protected(key) && exists|i: int|
            0 <= i < MAX_ATTRIBUTES && !is_protected((#[trigger] span.attributes[i]).0)) {
            Some(value)
        } else {
            None
        }),
        attribute(span.recorded(key, value).attributes, key) is None ==> span.recorded(key, value)
            == (SpanView {
            dropped_attributes_count: counted(span.dropped_attributes_count),
            ..span
        }),
        attribute(span.recorded(key, value).attributes, key) is Some ==> span.recorded(
            key,
            value,
        ).dropped_attributes_count == span.dropped_attributes_count,
{
    let out = span.recorded(key, value).attributes;
    let at = attribute_index(span.attributes, key);
    let spare = first_unprotected(span.attributes);
    lemma_attribute_index(span.attributes, key);
    lemma_first_unprotected(span.attributes);
    if at < span.attributes.len() || span.attributes.len() < MAX_ATTRIBUTES {
        lemma_attribute_index_is(out, key, at);
    } else if is_protected(key) && spare < span.attributes.len() {
        assert(!is_protected(span.attributes[spare].0));
        lemma_attribute_index_is(out, key, spare);
    }
}

/// A protected attribute is never lost: recording another one leaves it as it
/// is.
pub proof fn law_protected_attribute_stays(
    span: SpanView,
    kept: Seq<char>,
    key: Seq<char>,
    value: ValueView,
)
    requires
        is_protected(kept),
        attribute(span.attributes, kept) is Some,
        key != kept,
    ensures
        attribute(span.recorded(key, value).attributes, kept) == attribute(span.attributes, kept),
{
    let out = span.recorded(key, value).attributes;
    let at = attribute_index(span.attributes, kept);
    lemma_attribute_index(span.attributes, kept);
    lemma_attribute_index(span.attributes, key);
    lemma_first_unprotected(span.attributes);
    lemma_attribute_index_is(out, kept, at);
}

/// Of two values recorded under one key the later one counts, as if the earlier
/// had never been there.
pub proof fn law_later_value_overwrites(
    span: SpanView,
    key: Seq<char>,
    first: ValueView,
    second: ValueView,
)
    requires
        span.wf(),
        attribute(span.recorded(key, first).attributes, key) is Some,
    ensures
        span.recorded(key, first).recorded(key, second) == span.recorded(key, second),
{
    let out = span.recorded(key, first).attributes;
    let at = attribute_index(span.attributes, key);
    let spare = first_unprotected(span.attributes);
    lemma_attribute_index(span.attributes, key);
    lemma_first_unprotected(span.attributes);
    if at < span.attributes.len() || span.attributes.len() < MAX_ATTRIBUTES {
        lemma_attribute_index_is(out, key, at);
    } else {
        lemma_attribute_index_is(out, key, spare);
    }
    assert(span.recorded(key, first).recorded(key, second) =~= span.recorded(key, second));
}

/// A span ends once: a second end changes nothing.
pub proof fn law_span_ends_once(span: SpanView, first: Timestamp, second: Timestamp)
    ensures
        span.ended(first).ended(second) == span.ended(first),
        span.ended(first).end_time is Some,
        span.ended(first).finished(second) == span.finished(first),
{
}

/// An attribute stays as it is when another one is recorded where there is
/// room, or whose key is there already.
pub proof fn lemma_attribute_stays(
    span: SpanView,
    kept: Seq<char>,
    key: Seq<char>,
    value: ValueView,
)
    requires
        key != kept,
        span.attributes.len() < MAX_ATTRIBUTES || attribute(span.attributes, key) is Some,
    ensures
        attribute(span.recorded(key, value).attributes, kept) == attribute(span.attributes, kept),
{
    let out = span.recorded(key, value).attributes;
    let at = attribute_index(span.attributes, kept);
    lemma_attribute_index(span.attributes, kept);
    lemma_attribute_index(span.attributes, key);
    if at < span.attributes.len() {
        lemma_attribute_index_is(out, kept, at);
    } else {
        lemma_attribute_index_is(out, kept, out.len() as int);
    }
}

/// A span takes sixteen attributes, eight events and four links.
pub proof fn law_span_limits(span: SpanView)
    requires
        span.wf(),
    ensures
        span.attributes.len() <= 16,
        span.events.len() <= 8,
        span.links.len() <= 4,
{
}

/// A new span has the identity, the name and the start that were given, and
/// nothing else: it is sampled, internal, without a status and without an end.
pub proof fn law_fresh_span_is_empty(
    trace_id: TraceId,
    span_id: SpanId,
    parent: Option<SpanId>,
    name: Seq<char>,
    start_time: Timestamp,
)
    ensures
        ({
            let span = fresh_span(trace_id, span_id, parent, name, start_time);
            &&& span.trace_id == trace_id && span.span_id == span_id
            &&& span.parent_span_id == parent
            &&& span.name == name
            &&& span.start_time == start_time
            &&& span.end_time is None
            &&& span.is_sampled
            &&& span.trace_state is None
            &&& span.kind == SpanKind::Internal
            &&& span.status is Unset && span.pending_message is None
            &&& span.attributes.len() == 0 && span.events.len() == 0 && span.links.len() == 0
            &&& span.dropped_attributes_count == 0 && span.dropped_events_count == 0
            &&& span.dropped_links_count == 0
        }),
{
}

/// The keys that must not be dropped are the response's status code, body size
/// and headers, the route and the type of an error.
pub proof fn law_protected_keys(name: Seq<char>, key: Seq<char>)
    ensures
        is_protected("http.response.status_code"@),
        is_protected("http.response.body.size"@),
        is_protected("http.route"@),
        is_protected("error.type"@),
        is_protected("http.response.header."@ + name),
        key != "http.response.status_code"@ && key != "http.response.body.size"@ && key
            != "http.route"@ && key != "error.type"@ && !"http.response.header."@.is_prefix_of(key)
            ==> !is_protected(key),
{
    let header = "http.response.header."@ + name;
    assert("http.response.header."@ =~= header.subrange(0, "http.response.header."@.len() as int));
}

/// Recording an attribute changes nothing else. Its key keeps its place where it
/// was there, and comes last where there is room; where there is none a protected
/// key takes the place of the first that is not, and any other is counted.
pub proof fn law_recorded_attributes(span: SpanView, key: Seq<char>, value: ValueView, at: int)
    requires
        span.wf(),
    ensures
        span.recorded(key, value) == (SpanView {
            attributes: span.recorded(key, value).attributes,
            dropped_attributes_count: span.recorded(key, value).dropped_attributes_count,
            ..span
        }),
        0 <= at < span.attributes.len() && span.attributes[at].0 == key ==> span.recorded(
            key,
            value,
        ).attributes == span.attributes.update(at, (key, value)),
        (forall|i: int| 0 <= i < span.attributes.len() ==> (#[trigger] span.attributes[i]).0 != key)
            && span.attributes.len() < 16 ==> span.recorded(key, value).attributes
            == span.attributes.push((key, value)),
        (forall|i: int| 0 <= i < span.attributes.len() ==> (#[trigger] span.attributes[i]).0 != key)
            && span.attributes.len() == 16 && is_protected(key) && 0 <= at < 16 && !is_protected(
            span.attributes[at].0,
        ) && (forall|i: int| 0 <= i < at ==> is_protected((#[trigger] span.attributes[i]).0))
            ==> span.recorded(key, value).attributes == span.attributes.update(at, (key, value)),
        (forall|i: int| 0 <= i < span.attributes.len() ==> (#[trigger] span.attributes[i]).0 != key)
            && span.attributes.len() == 16 && (!is_protected(key) || forall|i: int|
            0 <= i < 16 ==> is_protected((#[trigger] span.attributes[i]).0)) ==> span.recorded(
            key,
            value,
        ).attributes == span.attributes && (span.dropped_attributes_count < u32::MAX
            ==> span.recorded(key, value).dropped_attributes_count == span.dropped_attributes_count
            + 1),
{
    lemma_attribute_index(span.attributes, key);
    lemma_first_unprotected(span.attributes);
    let i = attribute_index(span.attributes, key);
    let spare = first_unprotected(span.attributes);
    if 0 <= at < span.attributes.len() && span.attributes[at].0 == key {
        lemma_attribute_index_is(span.attributes, key, i);
        assert(i == at);
    }
    if i < span.attributes.len() {
        assert(span.attributes[i].0 == key);
    }
    if spare < span.attributes.len() {
        assert(!is_protected(span.attributes[spare].0));
    }
}

/// An event or a link comes behind the others where there is room, and is counted
/// where there is none. Nothing else changes.
pub proof fn law_events_and_links_are_added(span: SpanView, event: EventView, link: LinkView)
    ensures
        span.events.len() < 8 ==> span.with_event(event) == (SpanView {
            events: span.events.push(event),
            ..span
        }),
        span.events.len() >= 8 && span.dropped_events_count < u32::MAX ==> span.with_event(event)
            == (SpanView {
            dropped_events_count: (span.dropped_events_count + 1) as u32,
            ..span
        }),
        span.events.len() >= 8 && span.dropped_events_count == u32::MAX ==> span.with_event(event)
            == span,
        span.links.len() < 4 ==> span.with_link(link) == (SpanView {
            links: span.links.push(link),
            ..span
        }),
        span.links.len() >= 4 && span.dropped_links_count < u32::MAX ==> span.with_link(link) == (
        SpanView { dropped_links_count: (span.dropped_links_count + 1) as u32, ..span }),
        span.links.len() >= 4 && span.dropped_links_count == u32::MAX ==> span.with_link(link)
            == span,
{
}

/// A span that has not ended ends at the time given, and one that has ended keeps
/// its end. A finished span says all that the span said, but for a message that
/// waits for a status code.
pub proof fn law_end_and_finish(span: SpanView, at: Timestamp)
    ensures
        span.end_time is None ==> span.ended(at) == (SpanView { end_time: Some(at), ..span }),
        span.end_time is Some ==> span.ended(at) == span,
        span.end_time is None ==> span.finished(at) == (SpanView {
            end_time: Some(at),
            pending_message: None,
            ..span
        }),
        span.end_time is Some ==> span.finished(at) == (SpanView { pending_message: None, ..span }),
{
}

/// Whatever time a span took is the time from its start to its end; a span that
/// has not ended, or ended before it started, took none that is known.
pub proof fn law_duration(span: OtelSpan, r: Option<u128>)
    requires
        call_ensures(OtelSpan::duration, (&span,), r),
    ensures
        span.end_time is None ==> r is None,
        span.end_time matches Some(end) ==> (r is Some <==> span.start_time@ <= end@),
        span.end_time matches Some(end) ==> (r matches Some(n) ==> span.start_time@ + n == end@),
{
    crate::time::lemma_distance_bound(span.start_time);
    if let Some(end) = span.end_time {
        crate::time::lemma_distance_bound(end);
    }
}

} // verus!
