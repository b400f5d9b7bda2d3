//! What the tracing layer does with spans: which trace a new span belongs to,
//! and what events, links and the close of a span change.

use std::borrow::Cow;
use std::str::FromStr;

use vstd::prelude::*;
use vstd::string::*;

use crate::context::{SpanContext, SpanId, TraceId};
use crate::field::EventVisitor;
use crate::lists::FewAttributes;
use crate::propagation::TraceState;
use crate::span::{
    clone_cow, cow_str, AttributeValue, Event, FinishedSpan, Link, OtelSpan, Status,
};
use crate::text::{bool_str, concat, signed_decimal_text, str_eq, unquote};
use crate::time::Timestamp;

verus! {

/// The remote parent that a request announced, found in the fields that the
/// HTTP middleware records.
#[derive(Debug, PartialEq, Eq)]
pub struct RemoteParentInfo {
    pub trace_id: TraceId,
    pub parent_span_id: Option<SpanId>,
    pub is_sampled: bool,
    pub trace_state: Option<TraceState>,
}

/// The `remote.*` fields of a span while they are read.
#[derive(Debug)]
pub struct RemoteExtractor {
    pub trace_id: Option<TraceId>,
    pub parent_span_id: Option<SpanId>,
    pub is_sampled: Option<bool>,
    pub trace_state: Option<String>,
}

/// What was read of the `remote.*` fields.
#[verifier::ext_equal]
pub ghost struct RemoteFields {
    pub trace_id: Option<Seq<u8>>,
    pub parent_span_id: Option<Seq<u8>>,
    pub is_sampled: Option<bool>,
    pub trace_state: Option<Seq<char>>,
}

/// The bytes of an optional trace identifier.
pub open spec fn trace_bytes(id: Option<TraceId>) -> Option<Seq<u8>> {
    match id {
        Some(t) => Some(t@),
        None => None,
    }
}

/// The bytes of an optional span identifier.
pub open spec fn span_bytes(id: Option<SpanId>) -> Option<Seq<u8>> {
    match id {
        Some(s) => Some(s@),
        None => None,
    }
}

impl View for RemoteExtractor {
    type V = RemoteFields;

    open spec fn view(&self) -> RemoteFields {
        RemoteFields {
            trace_id: trace_bytes(self.trace_id),
            parent_span_id: span_bytes(self.parent_span_id),
            is_sampled: self.is_sampled,
            trace_state: crate::sink::text_view(self.trace_state),
        }
    }
}

impl RemoteFields {
    /// With the trace identifier that a text writes, if it writes one.
    pub open spec fn traced(self, value: Seq<char>) -> RemoteFields {
        match crate::context::parsed_id(value, 16) {
            Ok(id) => RemoteFields { trace_id: Some(id), ..self },
            Err(_) => self,
        }
    }

    /// With the parent's identifier that a text writes, if it writes one.
    pub open spec fn parented(self, value: Seq<char>) -> RemoteFields {
        match crate::context::parsed_id(value, 8) {
            Ok(id) => RemoteFields { parent_span_id: Some(id), ..self },
            Err(_) => self,
        }
    }

    /// With a text field read.
    pub open spec fn with_text(self, field: Seq<char>, value: Seq<char>) -> RemoteFields {
        if field == "remote.trace_id"@ {
            self.traced(value)
        } else if field == "remote.parent_span_id"@ {
            self.parented(value)
        } else if field == "remote.sampled"@ {
            RemoteFields { is_sampled: Some(value == "true"@), ..self }
        } else if field == "remote.trace_state"@ {
            RemoteFields { trace_state: Some(value), ..self }
        } else {
            self
        }
    }

    /// With a boolean field read.
    pub open spec fn with_bool(self, field: Seq<char>, value: bool) -> RemoteFields {
        if field == "remote.sampled"@ {
            RemoteFields { is_sampled: Some(value), ..self }
        } else {
            self
        }
    }

    /// With a formatted field read: only the identifiers count, and quotes
    /// around them do not.
    pub open spec fn with_formatted(self, field: Seq<char>, value: Seq<char>) -> RemoteFields {
        if field == "remote.trace_id"@ {
            self.traced(crate::text::unquoted(value))
        } else if field == "remote.parent_span_id"@ {
            self.parented(crate::text::unquoted(value))
        } else {
            self
        }
    }
}

impl Default for RemoteExtractor {
    fn default() -> (r: RemoteExtractor)
        ensures
            r@ == (RemoteFields {
                trace_id: None,
                parent_span_id: None,
                is_sampled: None,
                trace_state: None,
            }),
    {
        RemoteExtractor { trace_id: None, parent_span_id: None, is_sampled: None, trace_state: None }
    }
}

impl RemoteExtractor {
    fn read_trace_id(&mut self, value: &str)
        ensures
            final(self)@ == old(self)@.traced(value@),
    {
        if let Ok(id) = TraceId::from_str(value) {
            self.trace_id = Some(id);
        }
    }

    fn read_parent_span_id(&mut self, value: &str)
        ensures
            final(self)@ == old(self)@.parented(value@),
    {
        if let Ok(id) = SpanId::from_str(value) {
            self.parent_span_id = Some(id);
        }
    }

    /// Reads a text field.
    pub fn record_str(&mut self, field: &str, value: &str)
        ensures
            final(self)@ == old(self)@.with_text(field@, value@),
    {
        if str_eq(field, "remote.trace_id") {
            self.read_trace_id(value);
        } else if str_eq(field, "remote.parent_span_id") {
            self.read_parent_span_id(value);
        } else if str_eq(field, "remote.sampled") {
            self.is_sampled = Some(str_eq(value, "true"));
        } else if str_eq(field, "remote.trace_state") {
            self.trace_state = Some(value.to_owned());
        }
    }

    /// Reads a boolean field.
    pub fn record_bool(&mut self, field: &str, value: bool)
        ensures
            final(self)@ == old(self)@.with_bool(field@, value),
    {
        if str_eq(field, "remote.sampled") {
            self.is_sampled = Some(value);
        }
    }

    /// Reads a field that was formatted to text.
    pub fn record_text(&mut self, field: &str, value: &str)
        ensures
            final(self)@ == old(self)@.with_formatted(field@, value@),
    {
        if str_eq(field, "remote.trace_id") {
            self.read_trace_id(unquote(value));
        } else if str_eq(field, "remote.parent_span_id") {
            self.read_parent_span_id(unquote(value));
        }
    }
}

/// The remote parent that the fields announce: there is one exactly when they
/// hold a trace identifier. Without a decision it is sampled.
pub fn extract_remote_parent(fields: RemoteExtractor) -> (r: Option<RemoteParentInfo>)
    ensures
        r is Some <==> fields@.trace_id is Some,
        r matches Some(p) ==> {
            &&& Some(p.trace_id@) == fields@.trace_id
            &&& span_bytes(p.parent_span_id) == fields@.parent_span_id
            &&& p.is_sampled == (match fields@.is_sampled {
                Some(b) => b,
                None => true,
            })
            &&& crate::span::state_view(p.trace_state) == (match fields@.trace_state {
                Some(s) => crate::propagation::tracestate::kept_state(s),
                None => None,
            })
        },
{
    let trace_id = match fields.trace_id {
        Some(id) => id,
        None => {
            return None;
        },
    };
    let trace_state = match &fields.trace_state {
        Some(s) => TraceState::from_header(s.as_str()),
        None => None,
    };
    let is_sampled = match fields.is_sampled {
        Some(b) => b,
        None => true,
    };
    Some(
        RemoteParentInfo {
            trace_id,
            parent_span_id: fields.parent_span_id,
            is_sampled,
            trace_state,
        },
    )
}

/// Where a new span belongs: its trace, its parent, and what it inherits. No
/// trace means that the span starts a new one.
#[derive(Debug, PartialEq, Eq)]
pub struct Lineage {
    pub trace_id: Option<TraceId>,
    pub parent_span_id: Option<SpanId>,
    pub is_sampled: bool,
    pub trace_state: Option<TraceState>,
}

/// The lineage of a child of a span.
pub open spec fn child_of(parent: SpanContext) -> Lineage {
    Lineage {
        trace_id: Some(parent.trace_id),
        parent_span_id: Some(parent.span_id),
        is_sampled: parent.is_sampled,
        trace_state: parent.trace_state,
    }
}

/// The lineage of a new span. An explicit parent counts before the current
/// span, and that before a remote parent. Without any of them the span starts
/// a new, sampled trace.
pub open spec fn lineage_of(
    explicit: Option<SpanContext>,
    current: Option<SpanContext>,
    remote: Option<RemoteParentInfo>,
) -> Lineage {
    match (explicit, current, remote) {
        (Some(parent), _, _) => child_of(parent),
        (None, Some(parent), _) => child_of(parent),
        (None, None, Some(parent)) => Lineage {
            trace_id: Some(parent.trace_id),
            parent_span_id: parent.parent_span_id,
            is_sampled: parent.is_sampled,
            trace_state: parent.trace_state,
        },
        (None, None, None) => Lineage {
            trace_id: None,
            parent_span_id: None,
            is_sampled: true,
            trace_state: None,
        },
    }
}

/// The lineage of a new span.
pub fn resolve_lineage(
    explicit: Option<SpanContext>,
    current: Option<SpanContext>,
    remote: Option<RemoteParentInfo>,
) -> (r: Lineage)
    ensures
        r == lineage_of(explicit, current, remote),
{
    let parent = match explicit {
        Some(p) => Some(p),
        None => current,
    };
    match (parent, remote) {
        (Some(p), _) => Lineage {
            trace_id: Some(p.trace_id),
            parent_span_id: Some(p.span_id),
            is_sampled: p.is_sampled,
            trace_state: p.trace_state,
        },
        (None, Some(p)) => Lineage {
            trace_id: Some(p.trace_id),
            parent_span_id: p.parent_span_id,
            is_sampled: p.is_sampled,
            trace_state: p.trace_state,
        },
        (None, None) => Lineage {
            trace_id: None,
            parent_span_id: None,
            is_sampled: true,
            trace_state: None,
        },
    }
}

/// What a span of a lineage says before its fields are recorded.
pub open spec fn started(
    lineage: Lineage,
    trace_id: TraceId,
    span_id: SpanId,
    name: Seq<char>,
    start_time: Timestamp,
) -> crate::span::SpanView {
    crate::span::SpanView {
        trace_state: crate::span::state_view(lineage.trace_state),
        is_sampled: lineage.is_sampled,
        ..crate::span::fresh_span(trace_id, span_id, lineage.parent_span_id, name, start_time)
    }
}

/// Starts a span of a lineage, in the trace that the lineage names or else in
/// the fresh one, and gives the context for its descendants.
pub fn start_span(
    lineage: Lineage,
    fresh: TraceId,
    span_id: SpanId,
    name: Cow<'static, str>,
    start_time: Timestamp,
) -> (r: (OtelSpan, SpanContext))
    ensures
        r.1.trace_id == (match lineage.trace_id {
            Some(id) => id,
            None => fresh,
        }),
        r.0@ == started(lineage, r.1.trace_id, span_id, name@, start_time),
        r.0@.wf(),
        r.1.span_id == span_id,
        r.1.is_sampled == lineage.is_sampled,
        r.1.trace_state == lineage.trace_state,
{
    let trace_id = match lineage.trace_id {
        Some(id) => id,
        None => fresh,
    };
    let context = SpanContext {
        trace_id,
        span_id,
        is_sampled: lineage.is_sampled,
        trace_state: match &lineage.trace_state {
            Some(state) => Some(state.clone()),
            None => None,
        },
    };
    let mut span = OtelSpan::new_at(trace_id, span_id, lineage.parent_span_id, name, start_time);
    span.trace_state = lineage.trace_state;
    span.is_sampled = lineage.is_sampled;
    (span, context)
}

/// Starts a span now, with identifiers of its own, and gives the context for
/// its descendants.
pub fn begin_span(
    explicit: Option<SpanContext>,
    current: Option<SpanContext>,
    remote: Option<RemoteParentInfo>,
    name: Cow<'static, str>,
) -> (r: (OtelSpan, SpanContext))
    ensures
        ({
            let lineage = lineage_of(explicit, current, remote);
            &&& r.0@ == started(lineage, r.1.trace_id, r.1.span_id, name@, r.0.start_time)
            &&& r.0@.wf()
            &&& r.0.start_time.wf()
            &&& r.1.is_sampled == lineage.is_sampled
            &&& r.1.trace_state == lineage.trace_state
            &&& lineage.trace_id matches Some(id) ==> r.1.trace_id == id
            &&& lineage.trace_id is None ==> !crate::context::all_zero(r.1.trace_id@)
            &&& !crate::context::all_zero(r.1.span_id@)
            &&& lineage.trace_id is None ==> crate::context::generated_trace(r.1.trace_id@)
            &&& crate::context::generated_span(r.1.span_id@)
            &&& crate::time::clock_showed(r.0.start_time)
        }),
{
    let lineage = resolve_lineage(explicit, current, remote);
    let fresh = match lineage.trace_id {
        Some(id) => id,
        None => TraceId::generate(),
    };
    start_span(lineage, fresh, SpanId::generate(), name, crate::time::read_clock())
}

/// Whether an attribute marks an event as an error.
pub open spec fn marks_error(key: Seq<char>) -> bool {
    ||| key == "error"@
    ||| key == "exception.message"@
    ||| key == "exception.type"@
    ||| key == "error.type"@
}

/// Whether an attribute describes the error of an event.
pub open spec fn describes_error(key: Seq<char>) -> bool {
    ||| key == "error"@
    ||| key == "exception.message"@
    ||| key == "message"@
}

/// The position of the first attribute that describes the error, or the length
/// of the list when there is none.
pub open spec fn description_index(list: Seq<(Seq<char>, crate::span::ValueView)>) -> int
    decreases list.len(),
{
    if list.len() == 0 || describes_error(list[0].0) {
        0
    } else {
        1 + description_index(list.drop_first())
    }
}

/// A value as it is shown in a status message: text as it is, and any other
/// value with its type.
pub open spec fn shown(value: crate::span::ValueView) -> Seq<char> {
    match value {
        crate::span::ValueView::Text(s) => s,
        crate::span::ValueView::Int(i) => "Int("@ + crate::text::signed_decimal(i as int) + ")"@,
        crate::span::ValueView::Bool(b) => "Bool("@ + crate::text::bool_text(b) + ")"@,
        crate::span::ValueView::Float(_) => seq![],
    }
}

impl crate::field::EventFields {
    /// Whether the event is an error: by its level or by an attribute.
    pub open spec fn is_error(self, error_level: bool) -> bool {
        error_level || exists|i: int|
            0 <= i < self.attributes.len() && marks_error((#[trigger] self.attributes[i]).0)
    }

    /// The message of the error: the first attribute that describes it, or
    /// else the name of the event.
    pub open spec fn error_message(self) -> Seq<char> {
        let i = description_index(self.attributes);
        if i < self.attributes.len() {
            shown(self.attributes[i].1)
        } else {
            self.name
        }
    }
}

impl crate::span::SpanView {
    /// With an error status, and the status recorded for export. An empty
    /// message is not recorded.
    pub open spec fn failed(self, message: Seq<char>) -> crate::span::SpanView {
        let coded = self.recorded("otel.status_code"@, crate::span::ValueView::Text("error"@));
        let told = if message.len() > 0 {
            coded.recorded("otel.status_message"@, crate::span::ValueView::Text(message))
        } else {
            coded
        };
        crate::span::SpanView { status: crate::span::StatusView::Error { message }, ..told }
    }

    /// With an event that happened in the span. The first error sets the
    /// status.
    pub open spec fn happened(
        self,
        event: crate::field::EventFields,
        error_level: bool,
        at: Timestamp,
    ) -> crate::span::SpanView {
        let judged = if event.is_error(error_level) && !(self.status is Error) {
            self.failed(event.error_message())
        } else {
            self
        };
        judged.with_event(
            crate::span::EventView {
                name: event.name,
                timestamp: at,
                attributes: event.attributes,
            },
        )
    }
}

proof fn lemma_description_index_is(list: Seq<(Seq<char>, crate::span::ValueView)>, at: int)
    requires
        0 <= at <= list.len(),
        forall|i: int| 0 <= i < at ==> !describes_error((#[trigger] list[i]).0),
        at < list.len() ==> describes_error(list[at].0),
    ensures
        description_index(list) == at,
    decreases list.len(),
{
    if at > 0 {
        let rest = list.drop_first();
        assert(!describes_error(list[0].0));
        assert forall|i: int| 0 <= i < at - 1 implies !describes_error((#[trigger] rest[i]).0) by {
            assert(rest[i] == list[i + 1]);
        }
        lemma_description_index_is(rest, at - 1);
    }
}

impl EventVisitor {
    /// Whether an attribute marks the event as an error.
    fn has_error_mark(&self) -> (r: bool)
        ensures
            r == self@.is_error(false),
    {
        let items = self.attributes.as_slice();
        let ghost list = self@.attributes;
        let mut i: usize = 0;
        while i < items.len()
            invariant
                items@ == self.attributes@,
                list == self@.attributes,
                list == crate::span::attributes_view(items@),
                i <= items@.len(),
                forall|k: int| 0 <= k < i ==> !marks_error((#[trigger] list[k]).0),
            decreases items.len() - i,
        {
            let key = cow_str(&items[i].0);
            assert(list[i as int].0 == key@);
            if str_eq(key, "error") || str_eq(key, "exception.message") || str_eq(
                key,
                "exception.type",
            ) || str_eq(key, "error.type") {
                return true;
            }
            i += 1;
        }
        false
    }

    /// The message of the error.
    fn error_message(&self) -> (r: Cow<'static, str>)
        requires
            self@.wf(),
        ensures
            r@ == self@.error_message(),
    {
        let items = self.attributes.as_slice();
        let ghost list = self@.attributes;
        let mut i: usize = 0;
        while i < items.len()
            invariant
                self@.wf(),
                items@ == self.attributes@,
                list == self@.attributes,
                list == crate::span::attributes_view(items@),
                i <= items@.len(),
                forall|k: int| 0 <= k < i ==> !describes_error((#[trigger] list[k]).0),
            decreases items.len() - i,
        {
            let key = cow_str(&items[i].0);
            assert(list[i as int].0 == key@);
            if str_eq(key, "error") || str_eq(key, "exception.message") || str_eq(key, "message") {
                proof {
                    lemma_description_index_is(list, i as int);
                    assert(list[i as int].1 == items@[i as int].1@);
                }
                return shown_value(&items[i].1);
            }
            i += 1;
        }
        proof {
            lemma_description_index_is(list, list.len() as int);
        }
        clone_cow(&self.name)
    }
}

/// A value as it is shown in a status message.
fn shown_value(value: &AttributeValue) -> (r: Cow<'static, str>)
    requires
        !(value is Float),
    ensures
        r@ == shown(value@),
{
    match value {
        AttributeValue::String(s) => clone_cow(s),
        AttributeValue::Int(i) => {
            let mut out = concat("Int(", signed_decimal_text(*i).as_str());
            out.append(")");
            Cow::Owned(out)
        },
        AttributeValue::Bool(b) => {
            let mut out = concat("Bool(", bool_str(*b));
            out.append(")");
            Cow::Owned(out)
        },
        AttributeValue::Float(_) => Cow::Borrowed(""),
    }
}

impl OtelSpan {
    /// Adds an event that happened in the span now. The first error sets the
    /// status.
    pub fn on_event(&mut self, event: EventVisitor, error_level: bool)
        requires
            event@.wf(),
        ensures
            exists|at: Timestamp|
                at.wf() && crate::time::clock_showed(at) && final(self)@
                    == #[trigger] old(self)@.happened(event@, error_level, at),
    {
        let at = crate::time::read_clock();
        self.on_event_at(event, error_level, at);
    }

    /// Adds an event that happened in the span at a time. The first error sets
    /// the status.
    pub fn on_event_at(&mut self, event: EventVisitor, error_level: bool, at: Timestamp)
        requires
            event@.wf(),
        ensures
            final(self)@ == old(self)@.happened(event@, error_level, at),
    {
        if (error_level || event.has_error_mark()) && !self.status.is_error() {
            let message = event.error_message();
            self.record(
                Cow::Borrowed("otel.status_code"),
                AttributeValue::String(Cow::Borrowed("error")),
            );
            if !cow_str(&message).is_empty() {
                self.record(
                    Cow::Borrowed("otel.status_message"),
                    AttributeValue::String(Cow::Owned(cow_str(&message).to_owned())),
                );
            }
            self.status = Status::Error { message };
        }
        self.add_event(Event { name: event.name, timestamp: at, attributes: event.attributes });
    }

    /// Links the span to one that it follows from. Links carry no attributes.
    pub fn follow(&mut self, followed: &SpanContext)
        ensures
            final(self)@ == old(self)@.with_link(
                (crate::span::LinkView {
                    trace_id: followed.trace_id,
                    span_id: followed.span_id,
                    attributes: seq![],
                }),
            ),
    {
        let link = Link {
            trace_id: followed.trace_id,
            span_id: followed.span_id,
            attributes: FewAttributes::new(),
        };
        assert(link@.attributes =~= seq![]);
        self.add_link(link);
    }

    /// Ends the span, if it has not ended, and takes its snapshot.
    pub fn close(self) -> (r: FinishedSpan)
        ensures
            r@ == self@.finished(r.end_time),
            self.end_time is None ==> r.end_time.wf(),
            self.end_time is None ==> crate::time::clock_showed(r.end_time),
    {
        let mut span = self;
        span.end();
        span.finish()
    }
}

/// A child carries the trace, the sampling decision and the trace state of its
/// parent, and names it as its parent.
pub proof fn law_child_inherits(
    parent: SpanContext,
    current: Option<SpanContext>,
    remote: Option<RemoteParentInfo>,
    span_id: SpanId,
    name: Seq<char>,
    start_time: Timestamp,
)
    ensures
        lineage_of(Some(parent), current, remote) == child_of(parent),
        lineage_of(None, Some(parent), remote) == child_of(parent),
        ({
            let span = started(child_of(parent), parent.trace_id, span_id, name, start_time);
            &&& span.trace_id == parent.trace_id
            &&& span.parent_span_id == Some(parent.span_id)
            &&& span.is_sampled == parent.is_sampled
            &&& span.trace_state == crate::span::state_view(parent.trace_state)
        }),
{
}

/// Once a span has an error status, no event changes it; an event that is no
/// error never sets one.
pub proof fn law_error_status_stays(
    span: crate::span::SpanView,
    event: crate::field::EventFields,
    error_level: bool,
    at: Timestamp,
)
    ensures
        span.status is Error ==> span.happened(event, error_level, at).status == span.status,
        !event.is_error(error_level) ==> span.happened(event, error_level, at).status
            == span.status,
        event.is_error(error_level) ==> span.happened(event, error_level, at).status is Error,
{
}

/// An explicit `ok` after an error event wins, and takes the message of the
/// error with it.
pub proof fn law_explicit_ok_after_error(
    span: crate::span::SpanView,
    event: crate::field::EventFields,
    error_level: bool,
    at: Timestamp,
)
    requires
        span.wf(),
    ensures
        span.happened(event, error_level, at).visited(
            "otel.status_code"@,
            crate::span::ValueView::Text("ok"@),
        ).status == crate::span::StatusView::Okay,
        crate::span::attribute(
            span.happened(event, error_level, at).visited(
                "otel.status_code"@,
                crate::span::ValueView::Text("ok"@),
            ).attributes,
            "otel.status_message"@,
        ) is None,
{
    law_event_keeps_span_well_formed(span, event, error_level, at);
    crate::field::law_explicit_status_wins(span.happened(event, error_level, at), "ok"@);
}

/// An event keeps a span within its limits and its keys distinct, and takes no
/// room from any attribute but what the status needs.
pub proof fn law_event_keeps_span_well_formed(
    span: crate::span::SpanView,
    event: crate::field::EventFields,
    error_level: bool,
    at: Timestamp,
)
    requires
        span.wf(),
    ensures
        span.happened(event, error_level, at).wf(),
        !event.is_error(error_level) ==> span.happened(event, error_level, at).attributes
            == span.attributes,
{
    let view = crate::span::EventView {
        name: event.name,
        timestamp: at,
        attributes: event.attributes,
    };
    let link = crate::span::LinkView {
        trace_id: span.trace_id,
        span_id: span.span_id,
        attributes: seq![],
    };
    let code = crate::span::ValueView::Text("error"@);
    let text = crate::span::ValueView::Text(event.error_message());
    crate::span::law_span_stays_well_formed(span, "otel.status_code"@, code, view, link, at);
    crate::span::law_span_stays_well_formed(
        span.recorded("otel.status_code"@, code),
        "otel.status_message"@,
        text,
        view,
        link,
        at,
    );
}

/// A span with no explicit and no current parent but a remote one belongs to the
/// remote trace: it carries the remote trace, the remote parent, the remote
/// sampling decision and the remote trace state, whatever they are.
pub proof fn law_remote_parent_is_adopted(
    remote: RemoteParentInfo,
    span_id: SpanId,
    name: Seq<char>,
    start_time: Timestamp,
)
    ensures
        ({
            let lineage = lineage_of(None, None, Some(remote));
            let span = started(lineage, remote.trace_id, span_id, name, start_time);
            &&& lineage.trace_id == Some(remote.trace_id)
            &&& lineage.parent_span_id == remote.parent_span_id
            &&& lineage.is_sampled == remote.is_sampled
            &&& lineage.trace_state == remote.trace_state
            &&& span.trace_id == remote.trace_id
            &&& span.span_id == span_id
            &&& span.parent_span_id == remote.parent_span_id
            &&& span.is_sampled == remote.is_sampled
            &&& span.trace_state == crate::span::state_view(remote.trace_state)
        }),
{
}

/// A span with no parent at all starts a trace of its own: it names no parent, it
/// is sampled, and it carries no trace state.
pub proof fn law_no_parent_starts_a_trace(
    trace_id: TraceId,
    span_id: SpanId,
    name: Seq<char>,
    start_time: Timestamp,
)
    ensures
        ({
            let lineage = lineage_of(None, None, None);
            let span = started(lineage, trace_id, span_id, name, start_time);
            &&& lineage.trace_id is None
            &&& lineage.parent_span_id is None
            &&& lineage.is_sampled
            &&& lineage.trace_state is None
            &&& span.trace_id == trace_id
            &&& span.span_id == span_id
            &&& span.parent_span_id is None
            &&& span.is_sampled
            &&& span.trace_state is None
        }),
{
}

/// An explicit parent counts before the current span, and a local parent before
/// a remote one: the new span is the child of the one that counts.
pub proof fn law_nearest_parent_counts(
    explicit: SpanContext,
    current: SpanContext,
    remote: Option<RemoteParentInfo>,
)
    ensures
        ({
            let a = lineage_of(Some(explicit), Some(current), remote);
            let b = lineage_of(None, Some(current), remote);
            &&& a.trace_id == Some(explicit.trace_id)
            &&& a.parent_span_id == Some(explicit.span_id)
            &&& a.is_sampled == explicit.is_sampled
            &&& a.trace_state == explicit.trace_state
            &&& b.trace_id == Some(current.trace_id)
            &&& b.parent_span_id == Some(current.span_id)
            &&& b.is_sampled == current.is_sampled
            &&& b.trace_state == current.trace_state
            &&& lineage_of(Some(explicit), None, remote) == a
        }),
{
}

/// A started span has nothing recorded: no attribute, no event, no link, no
/// status, no end. Its name and its start are those that were given.
pub proof fn law_started_span_is_empty(
    lineage: Lineage,
    trace_id: TraceId,
    span_id: SpanId,
    name: Seq<char>,
    start_time: Timestamp,
)
    ensures
        ({
            let span = started(lineage, trace_id, span_id, name, start_time);
            &&& span.name == name
            &&& span.start_time == start_time
            &&& span.end_time is None
            &&& span.kind == crate::span::SpanKind::Internal
            &&& span.status is Unset
            &&& span.pending_message is None
            &&& span.attributes.len() == 0 && span.dropped_attributes_count == 0
            &&& span.events.len() == 0 && span.dropped_events_count == 0
            &&& span.links.len() == 0 && span.dropped_links_count == 0
        }),
{
}

/// The four remote fields are read each by its own name; identifiers that do not
/// parse and other fields change nothing, and quotes around a formatted
/// identifier do not count.
pub proof fn law_remote_fields_are_read(
    fields: RemoteFields,
    name: Seq<char>,
    value: Seq<char>,
    flag: bool,
)
    ensures
        crate::context::parsed_id(value, 16) matches Ok(id) ==> fields.with_text(
            "remote.trace_id"@,
            value,
        ) == (RemoteFields { trace_id: Some(id), ..fields }),
        crate::context::parsed_id(value, 8) matches Ok(id) ==> fields.with_text(
            "remote.parent_span_id"@,
            value,
        ) == (RemoteFields { parent_span_id: Some(id), ..fields }),
        crate::context::parsed_id(value, 16) is Err ==> fields.with_text("remote.trace_id"@, value)
            == fields,
        crate::context::parsed_id(value, 8) is Err ==> fields.with_text(
            "remote.parent_span_id"@,
            value,
        ) == fields,
        crate::context::parsed_id(value, 16) matches Ok(id) ==> fields.with_formatted(
            "remote.trace_id"@,
            seq!['"'] + value + seq!['"'],
        ).trace_id == Some(id),
        crate::context::parsed_id(value, 8) matches Ok(id) ==> fields.with_formatted(
            "remote.parent_span_id"@,
            seq!['"'] + value + seq!['"'],
        ).parent_span_id == Some(id),
        fields.with_bool("remote.sampled"@, flag) == (RemoteFields {
            is_sampled: Some(flag),
            ..fields
        }),
        fields.with_text("remote.sampled"@, seq!['t', 'r', 'u', 'e']).is_sampled == Some(true),
        fields.with_text("remote.sampled"@, seq!['f', 'a', 'l', 's', 'e']).is_sampled == Some(
            false,
        ),
        fields.with_text("remote.trace_state"@, value) == (RemoteFields {
            trace_state: Some(value),
            ..fields
        }),
        !crate::field::is_remote_field(name) ==> fields.with_text(name, value) == fields
            && fields.with_bool(name, flag) == fields && fields.with_formatted(name, value)
            == fields,
{
    crate::field::lemma_field_names();
    crate::text::law_bool_text(true);
    crate::text::law_bool_text(false);
    crate::context::law_identifier_accepted(value, 16);
    crate::context::law_identifier_accepted(value, 8);
    if crate::context::parsed_id(value, 16) is Ok || crate::context::parsed_id(value, 8) is Ok {
        assert('0' <= value[0] <= 'f' && '0' <= value[value.len() - 1] <= 'f');
        crate::text::law_unquoted(value);
    }
}

/// An event is an error exactly when its level says so or one of its attributes
/// has one of four names.
pub proof fn law_error_marks(event: crate::field::EventFields, i: int)
    ensures
        event.is_error(true),
        0 <= i < event.attributes.len() && (event.attributes[i].0 == "error"@
            || event.attributes[i].0 == "exception.message"@ || event.attributes[i].0
            == "exception.type"@ || event.attributes[i].0 == "error.type"@) ==> event.is_error(
            false,
        ),
        (forall|k: int|
            0 <= k < event.attributes.len() ==> (#[trigger] event.attributes[k]).0 != "error"@
                && event.attributes[k].0 != "exception.message"@ && event.attributes[k].0
                != "exception.type"@ && event.attributes[k].0 != "error.type"@) ==> !event.is_error(
            false,
        ),
{
}

/// The message of an error event is the first attribute that describes it, and
/// the event's name where none does: a text as it is, a number or a truth value
/// between the name of its type and brackets.
pub proof fn law_error_message(event: crate::field::EventFields, at: int)
    requires
        0 <= at < event.attributes.len(),
        forall|k: int|
            0 <= k < at ==> (#[trigger] event.attributes[k]).0 != "error"@ && event.attributes[k].0
                != "exception.message"@ && event.attributes[k].0 != "message"@,
    ensures
        ({
            let (key, value) = event.attributes[at];
            key == "error"@ || key == "exception.message"@ || key == "message"@ ==> match value {
                crate::span::ValueView::Text(s) => event.error_message() == s,
                crate::span::ValueView::Int(n) => event.error_message() == seq!['I', 'n', 't', '(']
                    + crate::text::signed_decimal(n as int) + seq![')'],
                crate::span::ValueView::Bool(true) => event.error_message() == seq![
                    'B',
                    'o',
                    'o',
                    'l',
                    '(',
                    't',
                    'r',
                    'u',
                    'e',
                    ')',
                ],
                crate::span::ValueView::Bool(false) => event.error_message() == seq![
                    'B',
                    'o',
                    'o',
                    'l',
                    '(',
                    'f',
                    'a',
                    'l',
                    's',
                    'e',
                    ')',
                ],
                crate::span::ValueView::Float(_) => true,
            }
        }),
        at == event.attributes.len() - 1 && !({
            let key = event.attributes[at].0;
            key == "error"@ || key == "exception.message"@ || key == "message"@
        }) ==> event.error_message() == event.name,
{
    reveal_strlit("Int(");
    reveal_strlit("Bool(");
    reveal_strlit(")");
    crate::text::law_bool_text(true);
    crate::text::law_bool_text(false);
    if describes_error(event.attributes[at].0) {
        lemma_description_index_is(event.attributes, at);
        match event.attributes[at].1 {
            crate::span::ValueView::Int(n) => {
                assert("Int("@ =~= seq!['I', 'n', 't', '(']);
                assert(")"@ =~= seq![')']);
            },
            crate::span::ValueView::Bool(b) => {
                if b {
                    assert(event.error_message() =~= seq![
                        'B',
                        'o',
                        'o',
                        'l',
                        '(',
                        't',
                        'r',
                        'u',
                        'e',
                        ')',
                    ]);
                } else {
                    assert(event.error_message() =~= seq![
                        'B',
                        'o',
                        'o',
                        'l',
                        '(',
                        'f',
                        'a',
                        'l',
                        's',
                        'e',
                        ')',
                    ]);
                }
            },
            _ => {},
        }
    } else if at == event.attributes.len() - 1 {
        lemma_description_index_is(event.attributes, event.attributes.len() as int);
    }
}

/// An event without attributes that is an error by its level has its name as the
/// message.
pub proof fn law_bare_error_message(event: crate::field::EventFields)
    requires
        event.attributes.len() == 0,
    ensures
        event.error_message() == event.name,
        !event.is_error(false),
{
}

/// An event that happens in a span with room for it becomes its last event, with
/// its name, its time and all its attributes; the earlier ones stay. Identity,
/// name, kind, times and links of the span stay in any case.
pub proof fn law_event_is_appended(
    span: crate::span::SpanView,
    event: crate::field::EventFields,
    error_level: bool,
    at: Timestamp,
)
    ensures
        ({
            let out = span.happened(event, error_level, at);
            &&& span.events.len() < 8 ==> {
                &&& out.events.len() == span.events.len() + 1
                &&& out.events.last().name == event.name
                &&& out.events.last().timestamp == at
                &&& out.events.last().attributes == event.attributes
                &&& out.events.drop_last() == span.events
                &&& out.dropped_events_count == span.dropped_events_count
            }
            &&& span.events.len() >= 8 ==> {
                &&& out.events == span.events
                &&& span.dropped_events_count < u32::MAX ==> out.dropped_events_count
                    == span.dropped_events_count + 1
                &&& span.dropped_events_count == u32::MAX ==> out.dropped_events_count == u32::MAX
            }
            &&& out.trace_id == span.trace_id && out.span_id == span.span_id
            &&& out.parent_span_id == span.parent_span_id && out.trace_state == span.trace_state
            &&& out.name == span.name && out.kind == span.kind
            &&& out.start_time == span.start_time && out.end_time == span.end_time
            &&& out.is_sampled == span.is_sampled && out.links == span.links
            &&& out.dropped_links_count == span.dropped_links_count
        }),
{
    let out = span.happened(event, error_level, at);
    if span.events.len() < 8 {
        assert(out.events.drop_last() =~= span.events);
    }
}

/// The first error of a span sets its status to an error with the event's
/// message, and records the status code and, unless it is empty, the message.
pub proof fn law_first_error_sets_status(
    span: crate::span::SpanView,
    event: crate::field::EventFields,
    error_level: bool,
    at: Timestamp,
)
    requires
        span.wf(),
        span.attributes.len() + 2 <= 16,
        event.is_error(error_level),
        !(span.status is Error),
    ensures
        ({
            let out = span.happened(event, error_level, at);
            &&& out.status == crate::span::StatusView::Error { message: event.error_message() }
            &&& crate::span::attribute(out.attributes, "otel.status_code"@) == Some(
                crate::span::ValueView::Text(seq!['e', 'r', 'r', 'o', 'r']),
            )
            &&& event.error_message().len() > 0 ==> crate::span::attribute(
                out.attributes,
                "otel.status_message"@,
            ) == Some(crate::span::ValueView::Text(event.error_message()))
            &&& event.error_message().len() == 0 ==> crate::span::attribute(
                out.attributes,
                "otel.status_message"@,
            ) == crate::span::attribute(span.attributes, "otel.status_message"@)
        }),
{
    reveal_strlit("error");
    assert("error"@ =~= seq!['e', 'r', 'r', 'o', 'r']);
    crate::field::lemma_field_names();
    let code = crate::span::ValueView::Text("error"@);
    let text = crate::span::ValueView::Text(event.error_message());
    let coded = span.recorded("otel.status_code"@, code);
    let link = crate::span::LinkView {
        trace_id: span.trace_id,
        span_id: span.span_id,
        attributes: seq![],
    };
    let view = crate::span::EventView { name: seq![], timestamp: at, attributes: seq![] };
    crate::span::law_span_stays_well_formed(span, "otel.status_code"@, code, view, link, at);
    crate::span::law_recorded_attribute_is_found(span, "otel.status_code"@, code);
    crate::span::lemma_attribute_index(span.attributes, "otel.status_code"@);
    assert(coded.attributes.len() <= span.attributes.len() + 1);
    crate::span::law_recorded_attribute_is_found(coded, "otel.status_message"@, text);
    crate::span::lemma_attribute_stays(span, "otel.status_message"@, "otel.status_code"@, code);
    crate::span::lemma_attribute_stays(
        coded,
        "otel.status_code"@,
        "otel.status_message"@,
        text,
    );
}

/// Whatever span is begun for a remote parent alone belongs to the remote trace:
/// the span, and the context for its descendants, have the remote trace, the
/// remote sampling decision and the remote trace state, and the span names the
/// remote parent. Its own identifier is a generated one.
pub proof fn law_span_begun_for_remote_parent(
    remote: RemoteParentInfo,
    name: Cow<'static, str>,
    r: (OtelSpan, SpanContext),
)
    requires
        call_ensures(begin_span, (None, None, Some(remote), name), r),
    ensures
        r.0.trace_id == remote.trace_id,
        r.0.parent_span_id == remote.parent_span_id,
        r.0.is_sampled == remote.is_sampled,
        r.0.name@ == name@,
        crate::span::state_view(r.0.trace_state) == crate::span::state_view(remote.trace_state),
        crate::context::generated_span(r.0.span_id@),
        crate::time::clock_showed(r.0.start_time),
        r.1.trace_id == r.0.trace_id,
        r.1.span_id == r.0.span_id,
        r.1.is_sampled == remote.is_sampled,
        r.1.trace_state == remote.trace_state,
{
    assert(r.0@.trace_id == r.0.trace_id && r.0@.span_id == r.0.span_id);
    assert(r.0@.parent_span_id == r.0.parent_span_id);
    assert(r.0@.is_sampled == r.0.is_sampled);
    assert(r.0@.name == r.0.name@);
    assert(r.0@.trace_state == crate::span::state_view(r.0.trace_state));
}

/// Whatever span is begun without any parent starts a trace of its own, with
/// generated identifiers for the trace and for the span: those are what the
/// random source gave, unless they are all ones. It is sampled and has no parent.
pub proof fn law_span_begun_without_parent(
    name: Cow<'static, str>,
    r: (OtelSpan, SpanContext),
)
    requires
        call_ensures(begin_span, (None, None, None, name), r),
    ensures
        crate::context::generated_trace(r.0.trace_id@),
        crate::context::generated_span(r.0.span_id@),
        (exists|i: int| 0 <= i < 16 && r.0.trace_id@[i] != 0xff) ==> crate::context::drew_sixteen(
            true,
            r.0.trace_id@,
        ),
        (exists|i: int| 0 <= i < 8 && r.0.span_id@[i] != 0xff) ==> crate::context::drew_eight(
            true,
            r.0.span_id@,
        ),
        r.0.parent_span_id is None,
        r.0.is_sampled,
        r.0.trace_state is None,
        r.0.name@ == name@,
        r.1.trace_id == r.0.trace_id,
        r.1.span_id == r.0.span_id,
        r.1.is_sampled,
        r.1.trace_state is None,
{
    assert(r.0@.trace_id == r.0.trace_id && r.0@.span_id == r.0.span_id);
    assert(r.0@.parent_span_id == r.0.parent_span_id);
    assert(r.0@.is_sampled == r.0.is_sampled);
    assert(r.0@.name == r.0.name@);
    assert(r.0@.trace_state == crate::span::state_view(r.0.trace_state));
    crate::context::law_generated_identifiers(r.0.trace_id@, r.0.span_id@);
}

/// Whatever span is begun with an explicit parent, or with none but a current
/// span, is the child of that one, whatever remote parent there is.
pub proof fn law_span_begun_for_local_parent(
    parent: SpanContext,
    current: Option<SpanContext>,
    remote: Option<RemoteParentInfo>,
    name: Cow<'static, str>,
    r: (OtelSpan, SpanContext),
)
    requires
        call_ensures(begin_span, (Some(parent), current, remote, name), r) || call_ensures(
            begin_span,
            (None, Some(parent), remote, name),
            r,
        ),
    ensures
        r.0.trace_id == parent.trace_id,
        r.0.parent_span_id == Some(parent.span_id),
        r.0.is_sampled == parent.is_sampled,
        crate::span::state_view(r.0.trace_state) == crate::span::state_view(parent.trace_state),
        crate::context::generated_span(r.0.span_id@),
        r.1.trace_id == parent.trace_id,
        r.1.span_id == r.0.span_id,
        r.1.is_sampled == parent.is_sampled,
        r.1.trace_state == parent.trace_state,
{
    assert(r.0@.trace_id == r.0.trace_id && r.0@.span_id == r.0.span_id);
    assert(r.0@.parent_span_id == r.0.parent_span_id);
    assert(r.0@.is_sampled == r.0.is_sampled);
    assert(r.0@.trace_state == crate::span::state_view(r.0.trace_state));
}

/// Whatever is extracted from the remote fields is what they hold: the trace, the
/// parent, the decision, which is to sample where the fields hold none, and the
/// trace state that is worth keeping. Without a trace there is no remote parent.
pub proof fn law_extracted_remote_parent(fields: RemoteExtractor, r: Option<RemoteParentInfo>)
    requires
        call_ensures(extract_remote_parent, (fields,), r),
    ensures
        fields.trace_id is None ==> r is None,
        fields.trace_id matches Some(id) ==> (r matches Some(p) && {
            &&& p.trace_id@ == id@
            &&& p.parent_span_id is Some <==> fields.parent_span_id is Some
            &&& p.parent_span_id matches Some(a) ==> a@ == fields.parent_span_id->0@
            &&& fields.is_sampled matches Some(b) ==> p.is_sampled == b
            &&& fields.is_sampled is None ==> p.is_sampled
            &&& fields.trace_state is None ==> p.trace_state is None
            &&& fields.trace_state matches Some(s) ==> crate::span::state_view(p.trace_state)
                == crate::propagation::tracestate::kept_state(s@)
        }),
{
}

/// Whatever span follows from another gets one link to it, behind the others,
/// with the identifiers of that one and no attributes, as long as there is room.
pub proof fn law_followed_span_is_linked(followed: SpanContext)
    ensures
        forall|span: &mut OtelSpan|
            #[trigger] call_ensures(OtelSpan::follow, (span, &followed), ()) && span@.links.len() < 4
                ==> {
                &&& final(span)@.links.len() == span@.links.len() + 1
                &&& final(span)@.links.drop_last() == span@.links
                &&& final(span)@.links.last().trace_id == followed.trace_id
                &&& final(span)@.links.last().span_id == followed.span_id
                &&& final(span)@.links.last().attributes.len() == 0
                &&& final(span)@ == (crate::span::SpanView {
                    links: final(span)@.links,
                    ..span@
                })
            },
{
    assert forall|span: &mut OtelSpan|
        #[trigger] call_ensures(OtelSpan::follow, (span, &followed), ()) && span@.links.len()
            < 4 implies {
        &&& final(span)@.links.len() == span@.links.len() + 1
        &&& final(span)@.links.drop_last() == span@.links
        &&& final(span)@.links.last().trace_id == followed.trace_id
        &&& final(span)@.links.last().span_id == followed.span_id
        &&& final(span)@.links.last().attributes.len() == 0
        &&& final(span)@ == (crate::span::SpanView { links: final(span)@.links, ..span@ })
    } by {
        assert(final(span)@.links.drop_last() =~= span@.links);
    }
}

} // verus!
