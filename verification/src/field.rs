//! Records the fields of `tracing` spans and events.

use std::borrow::Cow;

use vstd::prelude::*;
use vstd::string::*;

use crate::lists::FewAttributes;
use crate::span::{cow_str, find_attribute, AttributeValue, OtelSpan, SpanKind, Status};
use crate::text::{
    bool_str, concat, decimal_text, signed_decimal_text, split_at_first, starts_with, str_eq,
};

verus! {

/// The attribute value of an unsigned number: an integer where it fits, and its
/// decimal text otherwise.
pub open spec fn unsigned_view(v: u64) -> crate::span::ValueView {
    if v <= i64::MAX {
        crate::span::ValueView::Int(v as i64)
    } else {
        crate::span::ValueView::Text(crate::text::decimal(v as nat))
    }
}

/// The attribute value of an unsigned number: an integer where it fits, and its
/// decimal text otherwise.
pub fn u64_to_attribute_value(v: u64) -> (r: AttributeValue)
    ensures
        r@ == unsigned_view(v),
{
    if v <= i64::MAX as u64 {
        AttributeValue::Int(v as i64)
    } else {
        AttributeValue::String(Cow::Owned(decimal_text(v)))
    }
}

/// Whether a text belongs to the fixed vocabulary of HTTP: the empty text, the
/// methods, and the schemes.
pub open spec fn is_wellknown(s: Seq<char>) -> bool {
    ||| s == ""@
    ||| s == "GET"@
    ||| s == "HEAD"@
    ||| s == "POST"@
    ||| s == "PUT"@
    ||| s == "DELETE"@
    ||| s == "CONNECT"@
    ||| s == "OPTIONS"@
    ||| s == "TRACE"@
    ||| s == "PATCH"@
    ||| s == "http"@
    ||| s == "https"@
}

/// Borrows texts of the fixed vocabulary (HTTP methods, URL schemes, the empty
/// text) instead of owning them, which saves an allocation for each request.
/// Everything else is owned. The content is the same either way.
pub fn intern_wellknown(value: &str) -> (r: Cow<'static, str>)
    ensures
        r@ == value@,
        r is Borrowed <==> is_wellknown(value@),
{
    if str_eq(value, "") {
        Cow::Borrowed("")
    } else if str_eq(value, "GET") {
        Cow::Borrowed("GET")
    } else if str_eq(value, "HEAD") {
        Cow::Borrowed("HEAD")
    } else if str_eq(value, "POST") {
        Cow::Borrowed("POST")
    } else if str_eq(value, "PUT") {
        Cow::Borrowed("PUT")
    } else if str_eq(value, "DELETE") {
        Cow::Borrowed("DELETE")
    } else if str_eq(value, "CONNECT") {
        Cow::Borrowed("CONNECT")
    } else if str_eq(value, "OPTIONS") {
        Cow::Borrowed("OPTIONS")
    } else if str_eq(value, "TRACE") {
        Cow::Borrowed("TRACE")
    } else if str_eq(value, "PATCH") {
        Cow::Borrowed("PATCH")
    } else if str_eq(value, "http") {
        Cow::Borrowed("http")
    } else if str_eq(value, "https") {
        Cow::Borrowed("https")
    } else {
        Cow::Owned(value.to_owned())
    }
}

/// The span kind that a text names; anything unknown is internal.
pub open spec fn kind_named(s: Seq<char>) -> SpanKind {
    if s == "server"@ {
        SpanKind::Server
    } else if s == "client"@ {
        SpanKind::Client
    } else if s == "producer"@ {
        SpanKind::Producer
    } else if s == "consumer"@ {
        SpanKind::Consumer
    } else {
        SpanKind::Internal
    }
}

fn parse_kind(s: &str) -> (r: SpanKind)
    ensures
        r == kind_named(s@),
{
    if str_eq(s, "server") {
        SpanKind::Server
    } else if str_eq(s, "client") {
        SpanKind::Client
    } else if str_eq(s, "producer") {
        SpanKind::Producer
    } else if str_eq(s, "consumer") {
        SpanKind::Consumer
    } else {
        SpanKind::Internal
    }
}

/// The status that a status code names, with a message for an error.
pub open spec fn status_named(code: Seq<char>, message: Seq<char>) -> crate::span::StatusView {
    if code == "ok"@ || code == "OK"@ {
        crate::span::StatusView::Okay
    } else if code == "error"@ || code == "ERROR"@ {
        crate::span::StatusView::Error { message }
    } else {
        crate::span::StatusView::Unset
    }
}

/// Whether a field is for the tracing layer alone: the remote parent that a
/// request announced.
pub open spec fn is_remote_field(field: Seq<char>) -> bool {
    ||| field == "remote.trace_id"@
    ||| field == "remote.parent_span_id"@
    ||| field == "remote.sampled"@
    ||| field == "remote.trace_state"@
}

impl crate::span::SpanView {
    /// The message for an error status: the one that waits for a code, or else
    /// the one that an error event recorded; empty when there is neither.
    pub open spec fn status_message(self) -> Seq<char> {
        match self.pending_message {
            Some(m) => m,
            None => match crate::span::attribute(self.attributes, "otel.status_message"@) {
                Some(crate::span::ValueView::Text(m)) => m,
                _ => ""@,
            },
        }
    }

    /// Without a message for an error status.
    pub open spec fn without_message(self) -> crate::span::SpanView {
        let at = crate::span::attribute_index(self.attributes, "otel.status_message"@);
        crate::span::SpanView {
            attributes: if at < self.attributes.len() {
                self.attributes.remove(at)
            } else {
                self.attributes
            },
            pending_message: None,
            ..self
        }
    }

    /// With a field of a `tracing` span recorded.
    ///
    /// `otel.name`, `otel.kind`, `otel.status_code` and `otel.status_message`
    /// set the name, the kind and the status, if they hold text, and are never
    /// recorded as attributes. A status message may come before its code: it
    /// then waits for the code. The `remote.*` fields are not recorded either. A
    /// captured response header comes as `name=value`. Every other field is an
    /// attribute.
    pub open spec fn visited(
        self,
        field: Seq<char>,
        value: crate::span::ValueView,
    ) -> crate::span::SpanView {
        if field == "otel.name"@ {
            match value {
                crate::span::ValueView::Text(s) => crate::span::SpanView { name: s, ..self },
                _ => self,
            }
        } else if field == "otel.kind"@ {
            match value {
                crate::span::ValueView::Text(s) => crate::span::SpanView {
                    kind: kind_named(s),
                    ..self
                },
                _ => self,
            }
        } else if field == "otel.status_code"@ {
            match value {
                crate::span::ValueView::Text(s) => crate::span::SpanView {
                    status: status_named(s, self.status_message()),
                    ..self.without_message()
                },
                _ => self,
            }
        } else if field == "otel.status_message"@ {
            match value {
                crate::span::ValueView::Text(s) => if self.status is Error {
                    crate::span::SpanView {
                        status: crate::span::StatusView::Error { message: s },
                        ..self
                    }
                } else {
                    crate::span::SpanView { pending_message: Some(s), ..self }
                },
                _ => self,
            }
        } else if field == "http.response.header"@ {
            match value {
                crate::span::ValueView::Text(s) => match crate::text::split_once(s, '=') {
                    Some((name, val)) => self.recorded(
                        "http.response.header."@ + name,
                        crate::span::ValueView::Text(val),
                    ),
                    None => self,
                },
                _ => self,
            }
        } else if is_remote_field(field) {
            self
        } else {
            self.recorded(field, value)
        }
    }
}

/// Whether a field has no meaning of its own and is an attribute.
pub open spec fn is_plain_field(field: Seq<char>) -> bool {
    &&& field != "otel.name"@
    &&& field != "otel.kind"@
    &&& field != "otel.status_code"@
    &&& field != "otel.status_message"@
    &&& field != "http.response.header"@
    &&& !is_remote_field(field)
}

/// A span with some fields recorded, one after the other.
pub open spec fn visited_all(
    span: crate::span::SpanView,
    fields: Seq<(Seq<char>, crate::span::ValueView)>,
) -> crate::span::SpanView
    decreases fields.len(),
{
    if fields.len() == 0 {
        span
    } else {
        visited_all(span, fields.drop_last()).visited(fields.last().0, fields.last().1)
    }
}

/// Fields recorded in two goes are recorded as in one.
pub proof fn lemma_visited_all_append(
    span: crate::span::SpanView,
    a: Seq<(Seq<char>, crate::span::ValueView)>,
    b: Seq<(Seq<char>, crate::span::ValueView)>,
)
    ensures
        visited_all(span, a + b) == visited_all(visited_all(span, a), b),
    decreases b.len(),
{
    if b.len() == 0 {
        assert(a + b =~= a);
    } else {
        assert((a + b).drop_last() =~= a + b.drop_last());
        assert((a + b).last() == b.last());
        lemma_visited_all_append(span, a, b.drop_last());
    }
}

/// Records the fields of a `tracing` span into a span.
pub struct FieldVisitor<'a> {
    pub span: &'a mut OtelSpan,
}

impl<'a> FieldVisitor<'a> {
    /// Records a text field.
    pub fn record_str(&mut self, field: &'static str, value: &str)
        ensures
            final(self).span@ == old(self).span@.visited(
                field@,
                crate::span::ValueView::Text(value@),
            ),
            *final(final(self).span) == *final(old(self).span),
    {
        self.handle_special_field(field, AttributeValue::String(intern_wellknown(value)));
    }

    /// Records a boolean field.
    pub fn record_bool(&mut self, field: &'static str, value: bool)
        ensures
            final(self).span@ == old(self).span@.visited(field@, crate::span::ValueView::Bool(value)),
            *final(final(self).span) == *final(old(self).span),
    {
        self.handle_special_field(field, AttributeValue::Bool(value));
    }

    /// Records a signed field.
    pub fn record_i64(&mut self, field: &'static str, value: i64)
        ensures
            final(self).span@ == old(self).span@.visited(field@, crate::span::ValueView::Int(value)),
            *final(final(self).span) == *final(old(self).span),
    {
        self.handle_special_field(field, AttributeValue::Int(value));
    }

    /// Records an unsigned field.
    pub fn record_u64(&mut self, field: &'static str, value: u64)
        ensures
            final(self).span@ == old(self).span@.visited(field@, unsigned_view(value)),
            *final(final(self).span) == *final(old(self).span),
    {
        self.handle_special_field(field, u64_to_attribute_value(value));
    }

    /// Records a double-precision field, given by its bits.
    pub fn record_float_bits(&mut self, field: &'static str, bits: u64)
        ensures
            final(self).span@ == old(self).span@.visited(field@, crate::span::ValueView::Float(bits)),
            *final(final(self).span) == *final(old(self).span),
    {
        self.handle_special_field(field, AttributeValue::Float(bits));
    }

    /// Records the text that an error or a debug value was formatted to.
    pub fn record_text(&mut self, field: &'static str, value: String)
        ensures
            final(self).span@ == old(self).span@.visited(
                field@,
                crate::span::ValueView::Text(value@),
            ),
            *final(final(self).span) == *final(old(self).span),
    {
        self.handle_special_field(field, AttributeValue::String(Cow::Owned(value)));
    }

    fn handle_special_field(&mut self, field: &'static str, value: AttributeValue)
        ensures
            final(self).span@ == old(self).span@.visited(field@, value@),
            *final(final(self).span) == *final(old(self).span),
    {
        self.span.visit(field, value);
    }
}

impl OtelSpan {
    /// Records one field of a `tracing` span.
    pub fn visit(&mut self, field: &'static str, value: AttributeValue)
        ensures
            final(self)@ == old(self)@.visited(field@, value@),
    {
        if str_eq(field, "otel.name") {
            if let AttributeValue::String(s) = value {
                self.name = s;
            }
        } else if str_eq(field, "otel.kind") {
            if let AttributeValue::String(s) = value {
                self.kind = parse_kind(cow_str(&s));
            }
        } else if str_eq(field, "otel.status_code") {
            if let AttributeValue::String(s) = value {
                let code = cow_str(&s);
                let message = self.take_status_message();
                self.status = if str_eq(code, "ok") || str_eq(code, "OK") {
                    Status::Okay
                } else if str_eq(code, "error") || str_eq(code, "ERROR") {
                    Status::Error { message }
                } else {
                    Status::Unset
                };
            }
        } else if str_eq(field, "otel.status_message") {
            if let AttributeValue::String(s) = value {
                if self.status.is_error() {
                    self.status = Status::Error { message: s };
                } else {
                    self.pending_message = Some(s);
                }
            }
        } else if str_eq(field, "http.response.header") {
            if let AttributeValue::String(s) = value {
                if let Some((name, val)) = split_at_first(cow_str(&s), '=') {
                    self.record(
                        Cow::Owned(concat("http.response.header.", name)),
                        AttributeValue::String(Cow::Owned(val.to_owned())),
                    );
                }
            }
        } else if str_eq(field, "remote.trace_id") || str_eq(field, "remote.parent_span_id")
            || str_eq(field, "remote.sampled") || str_eq(field, "remote.trace_state") {
        } else {
            self.record(Cow::Borrowed(field), value);
        }
    }

    /// Takes the message for an error status out of the span.
    fn take_status_message(&mut self) -> (r: Cow<'static, str>)
        ensures
            r@ == old(self)@.status_message(),
            final(self)@ == old(self)@.without_message(),
    {
        let ghost before = self.attributes@;
        let pending = self.pending_message.take();
        let at: usize = find_attribute(self.attributes.as_slice(), "otel.status_message");
        let mut message = Cow::Borrowed("");
        if at < self.attributes.as_slice().len() {
            let (_, value) = self.attributes.remove(at);
            assert(crate::span::attributes_view(self.attributes@)
                =~= crate::span::attributes_view(before).remove(at as int));
            assert(crate::span::attributes_view(before)[at as int].1 == value@);
            if let AttributeValue::String(m) = value {
                message = m;
            }
        }
        match pending {
            Some(m) => m,
            None => message,
        }
    }
}

/// The name and the attributes of an event while its fields are recorded.
#[derive(Debug)]
pub struct EventVisitor {
    pub name: Cow<'static, str>,
    pub attributes: FewAttributes,
}

/// What was recorded of an event.
#[verifier::ext_equal]
pub ghost struct EventFields {
    pub name: Seq<char>,
    pub attributes: Seq<(Seq<char>, crate::span::ValueView)>,
}

impl View for EventVisitor {
    type V = EventFields;

    open spec fn view(&self) -> EventFields {
        EventFields {
            name: self.name@,
            attributes: crate::span::attributes_view(self.attributes@),
        }
    }
}

/// The text of a value that is not a double-precision number.
pub open spec fn value_text(value: crate::span::ValueView) -> Seq<char> {
    match value {
        crate::span::ValueView::Text(s) => s,
        crate::span::ValueView::Int(i) => crate::text::signed_decimal(i as int),
        crate::span::ValueView::Bool(b) => crate::text::bool_text(b),
        crate::span::ValueView::Float(_) => seq![],
    }
}

impl EventFields {
    /// With a field of the event recorded. The message is the event's name.
    /// Fields that start with `otel.` are for the span and are ignored.
    /// Everything else is an attribute.
    pub open spec fn visited(
        self,
        field: Seq<char>,
        value: crate::span::ValueView,
    ) -> EventFields {
        if field == "message"@ {
            EventFields { name: value_text(value), ..self }
        } else if "otel."@.is_prefix_of(field) {
            self
        } else {
            EventFields { attributes: self.attributes.push((field, value)), ..self }
        }
    }

    /// No attribute is a double-precision number: those come as text.
    pub open spec fn wf(self) -> bool {
        forall|i: int|
            0 <= i < self.attributes.len() ==> !((#[trigger] self.attributes[i]).1 is Float)
    }
}

impl Default for EventVisitor {
    fn default() -> (r: EventVisitor)
        ensures
            r@ == (EventFields { name: "event"@, attributes: seq![] }),
            r@.wf(),
    {
        EventVisitor::named(Cow::Borrowed("event"))
    }
}

impl EventVisitor {
    /// An event with a name and nothing recorded.
    pub fn named(name: Cow<'static, str>) -> (r: EventVisitor)
        ensures
            r@ == (EventFields { name: name@, attributes: seq![] }),
            r@.wf(),
    {
        let r = EventVisitor { name, attributes: FewAttributes::new() };
        assert(r@ =~= EventFields { name: name@, attributes: seq![] });
        r
    }

    /// Records a text field.
    pub fn record_str(&mut self, field: &str, value: &str)
        requires
            old(self)@.wf(),
        ensures
            final(self)@ == old(self)@.visited(field@, crate::span::ValueView::Text(value@)),
            final(self)@.wf(),
    {
        self.visit(field, AttributeValue::String(Cow::Owned(value.to_owned())));
    }

    /// Records the text that a debug value was formatted to.
    pub fn record_text(&mut self, field: &str, value: String)
        requires
            old(self)@.wf(),
        ensures
            final(self)@ == old(self)@.visited(field@, crate::span::ValueView::Text(value@)),
            final(self)@.wf(),
    {
        self.visit(field, AttributeValue::String(Cow::Owned(value)));
    }

    /// Records a signed field.
    pub fn record_i64(&mut self, field: &str, value: i64)
        requires
            old(self)@.wf(),
        ensures
            final(self)@ == old(self)@.visited(field@, crate::span::ValueView::Int(value)),
            final(self)@.wf(),
    {
        self.visit(field, AttributeValue::Int(value));
    }

    /// Records an unsigned field.
    pub fn record_u64(&mut self, field: &str, value: u64)
        requires
            old(self)@.wf(),
        ensures
            final(self)@ == old(self)@.visited(field@, unsigned_view(value)),
            final(self)@.wf(),
    {
        self.visit(field, u64_to_attribute_value(value));
    }

    /// Records a boolean field.
    pub fn record_bool(&mut self, field: &str, value: bool)
        requires
            old(self)@.wf(),
        ensures
            final(self)@ == old(self)@.visited(field@, crate::span::ValueView::Bool(value)),
            final(self)@.wf(),
    {
        self.visit(field, AttributeValue::Bool(value));
    }

    fn visit(&mut self, field: &str, value: AttributeValue)
        requires
            old(self)@.wf(),
            !(value is Float),
        ensures
            final(self)@ == old(self)@.visited(field@, value@),
            final(self)@.wf(),
    {
        let ghost before = self.attributes@;
        if str_eq(field, "message") {
            self.name = match value {
                AttributeValue::String(s) => s,
                AttributeValue::Int(i) => Cow::Owned(signed_decimal_text(i)),
                AttributeValue::Bool(b) => Cow::Borrowed(bool_str(b)),
                AttributeValue::Float(_) => Cow::Borrowed(""),
            };
        } else if !starts_with(field, "otel.") {
            self.attributes.push((Cow::Owned(field.to_owned()), value));
            assert(crate::span::attributes_view(self.attributes@)
                =~= crate::span::attributes_view(before).push((field@, value@)));
        }
    }
}

/// The lengths and the first letters of the fields with a meaning of their own,
/// which tell them apart.
pub proof fn lemma_field_names()
    ensures
        "otel.name"@ != "otel.kind"@,
        "otel.name"@.len() == 9,
        "otel.name"@[0] == 'o',
        "otel.kind"@.len() == 9,
        "otel.kind"@[0] == 'o',
        "otel.status_code"@.len() == 16,
        "otel.status_code"@[0] == 'o',
        "otel.status_message"@.len() == 19,
        "otel.status_message"@[0] == 'o',
        "http.response.header"@.len() == 20,
        "http.response.header"@[0] == 'h',
        "remote.trace_id"@.len() == 15,
        "remote.trace_id"@[0] == 'r',
        "remote.parent_span_id"@.len() == 21,
        "remote.parent_span_id"@[0] == 'r',
        "remote.sampled"@.len() == 14,
        "remote.sampled"@[0] == 'r',
        "remote.trace_state"@.len() == 18,
        "remote.trace_state"@[0] == 'r',
{
    reveal_strlit("otel.name");
    reveal_strlit("otel.kind");
    reveal_strlit("otel.status_code");
    reveal_strlit("otel.status_message");
    reveal_strlit("http.response.header");
    reveal_strlit("remote.trace_id");
    reveal_strlit("remote.parent_span_id");
    reveal_strlit("remote.sampled");
    reveal_strlit("remote.trace_state");
    assert("otel.name"@[5] != "otel.kind"@[5]);
}

/// Control fields are never exported: recording one adds no attribute and
/// changes none.
pub proof fn law_control_fields_are_no_attributes(
    span: crate::span::SpanView,
    field: Seq<char>,
    value: crate::span::ValueView,
    key: Seq<char>,
)
    requires
        is_remote_field(field) || field == "otel.name"@ || field == "otel.kind"@ || field
            == "otel.status_code"@ || field == "otel.status_message"@,
        key != "otel.status_message"@,
    ensures
        crate::span::attribute(span.visited(field, value).attributes, key)
            == crate::span::attribute(span.attributes, key),
        span.visited(field, value).attributes.len() <= span.attributes.len(),
        span.visited(field, value).dropped_attributes_count == span.dropped_attributes_count,
{
    lemma_field_names();
    let list = span.attributes;
    let at = crate::span::attribute_index(list, "otel.status_message"@);
    crate::span::lemma_attribute_index(list, "otel.status_message"@);
    crate::span::lemma_attribute_index(list, key);
    let i = crate::span::attribute_index(list, key);
    if at < list.len() {
        let out = list.remove(at);
        if i < at {
            crate::span::lemma_attribute_index_is(out, key, i);
        } else if i < list.len() {
            assert forall|k: int| 0 <= k < i - 1 implies (#[trigger] out[k]).0 != key by {
                if k < at {
                    assert(out[k] == list[k]);
                } else {
                    assert(out[k] == list[k + 1]);
                }
            }
            crate::span::lemma_attribute_index_is(out, key, i - 1);
        } else {
            assert forall|k: int| 0 <= k < out.len() implies (#[trigger] out[k]).0 != key by {
                if k < at {
                    assert(out[k] == list[k]);
                } else {
                    assert(out[k] == list[k + 1]);
                }
            }
            crate::span::lemma_attribute_index_is(out, key, out.len() as int);
        }
    }
}

/// An explicit status code decides about the status, whatever it was before,
/// and leaves no message behind that waits for one.
pub proof fn law_explicit_status_wins(span: crate::span::SpanView, code: Seq<char>)
    requires
        span.wf(),
    ensures
        span.visited("otel.status_code"@, crate::span::ValueView::Text(code)).status
            == status_named(code, span.status_message()),
        crate::span::attribute(
            span.visited("otel.status_code"@, crate::span::ValueView::Text(code)).attributes,
            "otel.status_message"@,
        ) is None,
        span.visited("otel.status_code"@, crate::span::ValueView::Text(code)).pending_message
            is None,
{
    lemma_field_names();
    let key = "otel.status_message"@;
    let list = span.attributes;
    let out = span.without_message().attributes;
    let at = crate::span::attribute_index(list, key);
    crate::span::lemma_attribute_index(list, key);
    assert forall|k: int| 0 <= k < out.len() implies (#[trigger] out[k]).0 != key by {
        if at < list.len() {
            if k < at {
                assert(out[k] == list[k]);
            } else {
                assert(out[k] == list[k + 1]);
                assert(list[at].0 != list[k + 1].0);
            }
        }
    }
    crate::span::lemma_attribute_index_is(out, key, out.len() as int);
}

/// A status message may come before its error code or after it: the span is the
/// same, and its status has the message.
pub proof fn law_status_message_in_any_order(span: crate::span::SpanView, message: Seq<char>)
    requires
        !(span.status is Error),
    ensures
        ({
            let code = crate::span::ValueView::Text("error"@);
            let text = crate::span::ValueView::Text(message);
            let early = span.visited("otel.status_message"@, text).visited(
                "otel.status_code"@,
                code,
            );
            let late = span.visited("otel.status_code"@, code).visited(
                "otel.status_message"@,
                text,
            );
            &&& early == late
            &&& early.status == crate::span::StatusView::Error { message }
            &&& early.pending_message is None
        }),
{
    lemma_field_names();
    reveal_strlit("ok");
    reveal_strlit("OK");
    reveal_strlit("error");
    let code = crate::span::ValueView::Text("error"@);
    let text = crate::span::ValueView::Text(message);
    assert("error"@.len() == 5 && "ok"@.len() == 2 && "OK"@.len() == 2);
    let waiting = span.visited("otel.status_message"@, text);
    assert(waiting == crate::span::SpanView { pending_message: Some(message), ..span });
    let failed = span.visited("otel.status_code"@, code);
    assert(failed.status is Error);
    assert(waiting.visited("otel.status_code"@, code) =~= failed.visited(
        "otel.status_message"@,
        text,
    ));
}

/// A captured response header is exported under its own key, in full.
pub proof fn law_response_header_key(
    span: crate::span::SpanView,
    name: Seq<char>,
    value: Seq<char>,
)
    requires
        forall|i: int| 0 <= i < name.len() ==> name[i] != '=',
    ensures
        span.visited(
            "http.response.header"@,
            crate::span::ValueView::Text(name + seq!['='] + value),
        ) == span.recorded("http.response.header."@ + name, crate::span::ValueView::Text(value)),
{
    lemma_field_names();
    let s = name + seq!['='] + value;
    crate::text::lemma_first_index_is(s, '=', name.len() as int);
    assert(s.take(name.len() as int) =~= name);
    assert(s.skip(name.len() as int + 1) =~= value);
}

/// Recording a field keeps a span within its limits and its keys distinct.
pub proof fn law_visited_span_stays_well_formed(
    span: crate::span::SpanView,
    field: Seq<char>,
    value: crate::span::ValueView,
)
    requires
        span.wf(),
    ensures
        span.visited(field, value).wf(),
{
    let event = crate::span::EventView {
        name: seq![],
        timestamp: span.start_time,
        attributes: seq![],
    };
    let link = crate::span::LinkView {
        trace_id: span.trace_id,
        span_id: span.span_id,
        attributes: seq![],
    };
    crate::span::law_span_stays_well_formed(span, field, value, event, link, span.start_time);
    if let crate::span::ValueView::Text(s) = value {
        if let Some((name, val)) = crate::text::split_once(s, '=') {
            crate::span::law_span_stays_well_formed(
                span,
                "http.response.header."@ + name,
                crate::span::ValueView::Text(val),
                event,
                link,
                span.start_time,
            );
        }
    }
    let list = span.attributes;
    let at = crate::span::attribute_index(list, "otel.status_message"@);
    crate::span::lemma_attribute_index(list, "otel.status_message"@);
    if at < list.len() {
        let out = list.remove(at);
        assert forall|i: int, j: int| 0 <= i < j < out.len() implies (#[trigger] out[i]).0 != (
        #[trigger] out[j]).0 by {
            let a = if i < at {
                i
            } else {
                i + 1
            };
            let b = if j < at {
                j
            } else {
                j + 1
            };
            assert(out[i] == list[a] && out[j] == list[b]);
        }
    }
}

/// The control fields set one thing each and nothing else, where they hold text:
/// the name, and the kind by its word. A word that is none makes the span
/// internal.
pub proof fn law_name_and_kind_fields(
    span: crate::span::SpanView,
    text: Seq<char>,
    value: crate::span::ValueView,
)
    ensures
        span.visited("otel.name"@, crate::span::ValueView::Text(text)) == (crate::span::SpanView {
            name: text,
            ..span
        }),
        span.visited("otel.kind"@, crate::span::ValueView::Text("server"@)) == (
        crate::span::SpanView { kind: SpanKind::Server, ..span }),
        span.visited("otel.kind"@, crate::span::ValueView::Text("client"@)) == (
        crate::span::SpanView { kind: SpanKind::Client, ..span }),
        span.visited("otel.kind"@, crate::span::ValueView::Text("producer"@)) == (
        crate::span::SpanView { kind: SpanKind::Producer, ..span }),
        span.visited("otel.kind"@, crate::span::ValueView::Text("consumer"@)) == (
        crate::span::SpanView { kind: SpanKind::Consumer, ..span }),
        text != "server"@ && text != "client"@ && text != "producer"@ && text != "consumer"@
            ==> span.visited("otel.kind"@, crate::span::ValueView::Text(text)) == (
        crate::span::SpanView { kind: SpanKind::Internal, ..span }),
        !(value is Text) ==> span.visited("otel.name"@, value) == span && span.visited(
            "otel.kind"@,
            value,
        ) == span && span.visited("otel.status_code"@, value) == span && span.visited(
            "otel.status_message"@,
            value,
        ) == span && span.visited("http.response.header"@, value) == span,
{
    lemma_field_names();
    reveal_strlit("server");
    reveal_strlit("client");
    reveal_strlit("producer");
    reveal_strlit("consumer");
    assert("server"@[0] == 's' && "client"@[0] == 'c' && "producer"@[0] == 'p'
        && "consumer"@[0] == 'c');
    assert("client"@.len() == 6 && "consumer"@.len() == 8);
}

/// The status code says which status the span has, by its word in small or in
/// capital letters; any other word unsets it. An error gets the message that
/// waits for it, or else the one that an event recorded.
pub proof fn law_status_fields(span: crate::span::SpanView, text: Seq<char>)
    ensures
        span.visited("otel.status_code"@, crate::span::ValueView::Text("ok"@)).status is Okay,
        span.visited("otel.status_code"@, crate::span::ValueView::Text("OK"@)).status is Okay,
        text == "error"@ || text == "ERROR"@ ==> {
            let out = span.visited("otel.status_code"@, crate::span::ValueView::Text(text));
            &&& out.status is Error
            &&& span.pending_message matches Some(m) ==> out.status == crate::span::StatusView::Error {
                message: m,
            }
            &&& span.pending_message is None ==> match crate::span::attribute(
                span.attributes,
                "otel.status_message"@,
            ) {
                Some(crate::span::ValueView::Text(m)) => out.status
                    == crate::span::StatusView::Error { message: m },
                _ => out.status is Error && out.status->message.len() == 0,
            }
        },
        text != "ok"@ && text != "OK"@ && text != "error"@ && text != "ERROR"@ ==> span.visited(
            "otel.status_code"@,
            crate::span::ValueView::Text(text),
        ).status is Unset,
        span.status is Error ==> span.visited(
            "otel.status_message"@,
            crate::span::ValueView::Text(text),
        ) == (crate::span::SpanView {
            status: crate::span::StatusView::Error { message: text },
            ..span
        }),
        !(span.status is Error) ==> span.visited(
            "otel.status_message"@,
            crate::span::ValueView::Text(text),
        ) == (crate::span::SpanView { pending_message: Some(text), ..span }),
{
    lemma_field_names();
    reveal_strlit("ok");
    reveal_strlit("OK");
    reveal_strlit("error");
    reveal_strlit("ERROR");
    reveal_strlit("");
    assert("ok"@.len() == 2 && "OK"@.len() == 2 && "error"@.len() == 5 && "ERROR"@.len() == 5);
}

/// The fields of the remote parent leave a span as it is, and every field without
/// a meaning of its own is recorded as an attribute, under its own name and with
/// its own value.
pub proof fn law_other_fields(
    span: crate::span::SpanView,
    field: Seq<char>,
    value: crate::span::ValueView,
)
    ensures
        span.visited("remote.trace_id"@, value) == span,
        span.visited("remote.parent_span_id"@, value) == span,
        span.visited("remote.sampled"@, value) == span,
        span.visited("remote.trace_state"@, value) == span,
        field != "otel.name"@ && field != "otel.kind"@ && field != "otel.status_code"@ && field
            != "otel.status_message"@ && field != "http.response.header"@ && field
            != "remote.trace_id"@ && field != "remote.parent_span_id"@ && field
            != "remote.sampled"@ && field != "remote.trace_state"@ ==> span.visited(field, value)
            == span.recorded(field, value),
{
    lemma_field_names();
}

/// An unsigned number keeps its value: as an integer where it fits, and in
/// decimal where it does not.
pub proof fn law_unsigned_values(v: u64)
    ensures
        v <= i64::MAX ==> unsigned_view(v) == crate::span::ValueView::Int(v as i64),
        v > i64::MAX ==> (unsigned_view(v) matches crate::span::ValueView::Text(t)
            && crate::text::unsigned_value(t) == Some(v as nat)),
{
    crate::text::law_decimal_reads_back(v as nat);
}

/// The message of an event is its name, as text. Fields for the span are not the
/// event's; every other one is its last attribute.
pub proof fn law_event_fields(
    event: EventFields,
    field: Seq<char>,
    text: Seq<char>,
    value: crate::span::ValueView,
)
    ensures
        event.visited("message"@, crate::span::ValueView::Text(text)) == (EventFields {
            name: text,
            ..event
        }),
        event.visited("message"@, crate::span::ValueView::Bool(true)).name == seq![
            't',
            'r',
            'u',
            'e',
        ],
        event.visited("message"@, crate::span::ValueView::Bool(false)).name == seq![
            'f',
            'a',
            'l',
            's',
            'e',
        ],
        value matches crate::span::ValueView::Int(n) ==> event.visited("message"@, value).name
            == crate::text::signed_decimal(n as int),
        event.visited("message"@, value).attributes == event.attributes,
        event.visited("otel."@ + text, value) == event,
        field != "message"@ && !"otel."@.is_prefix_of(field) ==> event.visited(field, value) == (
        EventFields { attributes: event.attributes.push((field, value)), ..event }),
{
    crate::text::law_bool_text(true);
    crate::text::law_bool_text(false);
    reveal_strlit("message");
    reveal_strlit("otel.");
    let own = "otel."@ + text;
    assert(own[0] == 'o' && "message"@[0] == 'm');
    assert("otel."@ =~= own.subrange(0, "otel."@.len() as int));
}

/// The fixed vocabulary is the empty text, the nine methods and the two schemes.
pub proof fn law_wellknown_texts(s: Seq<char>)
    ensures
        is_wellknown("GET"@) && is_wellknown("HEAD"@) && is_wellknown("POST"@),
        is_wellknown("PUT"@) && is_wellknown("DELETE"@) && is_wellknown("CONNECT"@),
        is_wellknown("OPTIONS"@) && is_wellknown("TRACE"@) && is_wellknown("PATCH"@),
        is_wellknown("http"@) && is_wellknown("https"@) && is_wellknown(""@),
        is_wellknown(s) ==> s.len() <= 7,
{
    reveal_strlit("");
    reveal_strlit("GET");
    reveal_strlit("HEAD");
    reveal_strlit("POST");
    reveal_strlit("PUT");
    reveal_strlit("DELETE");
    reveal_strlit("CONNECT");
    reveal_strlit("OPTIONS");
    reveal_strlit("TRACE");
    reveal_strlit("PATCH");
    reveal_strlit("http");
    reveal_strlit("https");
}

/// Whatever is recorded of an event is its last attribute, with the value that
/// was given, unless it is its message or meant for the span.
pub proof fn law_event_visitor_records(
    field: &str,
    flag: bool,
    number: i64,
    count: u64,
    text: &str,
)
    requires
        field@ != "message"@,
        !"otel."@.is_prefix_of(field@),
    ensures
        forall|event: &mut EventVisitor|
            #[trigger] call_ensures(EventVisitor::record_bool, (event, field, flag), ())
                ==> final(event)@.attributes == event@.attributes.push(
                (field@, crate::span::ValueView::Bool(flag)),
            ),
        forall|event: &mut EventVisitor|
            #[trigger] call_ensures(EventVisitor::record_i64, (event, field, number), ())
                ==> final(event)@.attributes == event@.attributes.push(
                (field@, crate::span::ValueView::Int(number)),
            ),
        forall|event: &mut EventVisitor|
            #[trigger] call_ensures(EventVisitor::record_u64, (event, field, count), ()) && count
                <= i64::MAX ==> final(event)@.attributes == event@.attributes.push(
                (field@, crate::span::ValueView::Int(count as i64)),
            ),
        forall|event: &mut EventVisitor|
            #[trigger] call_ensures(EventVisitor::record_str, (event, field, text), ())
                ==> final(event)@.attributes == event@.attributes.push(
                (field@, crate::span::ValueView::Text(text@)),
            ),
{
}

} // verus!
