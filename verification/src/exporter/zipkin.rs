//! The Zipkin v2 payload of a span.
//!
//! Tag values are text, so other attribute values are shown as text. Zipkin has
//! no links, so they become annotations. The sampled flag has no field of its
//! own and becomes the `otel.sampled` tag.

use vstd::prelude::*;
use vstd::string::*;

use super::tags::{TagValue, Tags};
use crate::span::{cow_str, AttributeValue, Event, FinishedSpan, Link, SpanKind, Status};
use crate::text::{bool_str, concat, signed_decimal_text};
use crate::time::Timestamp;

verus! {

/// The content type of a Zipkin request.
pub const JSON_CONTENT_TYPE: &'static str = "application/json";

/// The service name where none is configured.
pub const DEFAULT_SERVICE_NAME: &'static str = "unknown_service";

/// The service that a span belongs to.
#[derive(Debug, PartialEq, Eq)]
pub struct LocalEndpoint {
    pub service_name: String,
}

/// A text at a time.
#[derive(Debug, PartialEq, Eq)]
pub struct Annotation {
    /// Microseconds since the Unix epoch.
    pub timestamp: u64,
    pub value: String,
}

/// A span in a payload.
#[derive(Debug, PartialEq, Eq)]
pub struct ZipkinSpan {
    pub trace_id: String,
    pub id: String,
    pub parent_id: Option<String>,
    pub name: String,
    /// `SERVER`, `CLIENT`, `PRODUCER` or `CONSUMER`; nothing for internal spans.
    pub kind: Option<&'static str>,
    /// Microseconds since the Unix epoch.
    pub timestamp: u64,
    /// Microseconds from start to end.
    pub duration: u64,
    pub local_endpoint: LocalEndpoint,
    pub tags: Tags,
    pub annotations: Vec<Annotation>,
}

/// Whole microseconds in some nanoseconds, as far as 64 bits hold them; zero
/// for less than nothing.
pub open spec fn micros(nanos: int) -> u64 {
    if nanos < 0 {
        0
    } else if nanos / 1000 <= u64::MAX {
        (nanos / 1000) as u64
    } else {
        u64::MAX
    }
}

fn to_micros(nanos: Option<u128>) -> (r: u64)
    ensures
        r == (match nanos {
            Some(n) => micros(n as int),
            None => 0,
        }),
{
    match nanos {
        None => 0,
        Some(n) => {
            let m: u128 = n / 1000;
            if m <= u64::MAX as u128 {
                m as u64
            } else {
                u64::MAX
            }
        },
    }
}

/// Microseconds since the epoch; zero before it.
pub fn micros_since_epoch(t: &Timestamp) -> (r: u64)
    ensures
        r == micros(t@),
{
    proof {
        crate::time::lemma_distance_bound(*t);
    }
    to_micros(t.since_epoch())
}

/// Microseconds from start to end; zero where the end comes first.
pub fn duration_micros(start: &Timestamp, end: &Timestamp) -> (r: u64)
    ensures
        r == micros(end@ - start@),
{
    proof {
        crate::time::lemma_distance_bound(*start);
        crate::time::lemma_distance_bound(*end);
    }
    to_micros(end.since(start))
}

/// The name of a span kind; internal spans have none.
pub open spec fn kind_name(kind: SpanKind) -> Option<Seq<char>> {
    match kind {
        SpanKind::Server => Some("SERVER"@),
        SpanKind::Client => Some("CLIENT"@),
        SpanKind::Producer => Some("PRODUCER"@),
        SpanKind::Consumer => Some("CONSUMER"@),
        SpanKind::Internal => None,
    }
}

/// The characters of an optional static text.
pub open spec fn static_view(s: Option<&'static str>) -> Option<Seq<char>> {
    match s {
        Some(t) => Some(t@),
        None => None,
    }
}

/// The name of a span kind; internal spans have none.
pub fn zipkin_kind(kind: SpanKind) -> (r: Option<&'static str>)
    ensures
        static_view(r) == kind_name(kind),
{
    match kind {
        SpanKind::Server => Some("SERVER"),
        SpanKind::Client => Some("CLIENT"),
        SpanKind::Producer => Some("PRODUCER"),
        SpanKind::Consumer => Some("CONSUMER"),
        SpanKind::Internal => None,
    }
}

/// The tag value of an attribute value: text, except that a double-precision
/// number is yet to be shown as text.
pub open spec fn tag_of(value: crate::span::ValueView) -> super::tags::TagView {
    match value {
        crate::span::ValueView::Text(s) => super::tags::TagView::Text(s),
        crate::span::ValueView::Int(i) => super::tags::TagView::Text(
            crate::text::signed_decimal(i as int),
        ),
        crate::span::ValueView::Bool(b) => super::tags::TagView::Text(crate::text::bool_text(b)),
        crate::span::ValueView::Float(bits) => super::tags::TagView::Float(bits),
    }
}

fn attribute_value_to_tag(v: &AttributeValue) -> (r: TagValue)
    ensures
        r@ == tag_of(v@),
{
    match v {
        AttributeValue::String(s) => TagValue::Text(cow_str(s).to_owned()),
        AttributeValue::Int(i) => TagValue::Text(signed_decimal_text(*i)),
        AttributeValue::Bool(b) => TagValue::Text(bool_str(*b).to_owned()),
        AttributeValue::Float(bits) => TagValue::Float(*bits),
    }
}

/// Tags with those of the resource attributes set, in order.
pub open spec fn with_resource(
    map: Map<Seq<char>, super::tags::TagView>,
    list: Seq<(Seq<char>, Seq<char>)>,
) -> Map<Seq<char>, super::tags::TagView>
    decreases list.len(),
{
    if list.len() == 0 {
        map
    } else {
        with_resource(map, list.drop_last()).insert(
            list.last().0,
            super::tags::TagView::Text(list.last().1),
        )
    }
}

/// Tags with those of the attributes set, in order.
pub open spec fn with_attributes(
    map: Map<Seq<char>, super::tags::TagView>,
    list: Seq<(Seq<char>, crate::span::ValueView)>,
) -> Map<Seq<char>, super::tags::TagView>
    decreases list.len(),
{
    if list.len() == 0 {
        map
    } else {
        with_attributes(map, list.drop_last()).insert(list.last().0, tag_of(list.last().1))
    }
}

/// The tags of a span. The resource attributes come first, so an attribute of
/// the span wins over one of the same key. An error status is the `error` tag,
/// with its message or `true`, and the sampled flag is a tag too.
pub open spec fn tags_of(
    s: crate::span::SpanView,
    resource: Seq<(Seq<char>, Seq<char>)>,
) -> Map<Seq<char>, super::tags::TagView> {
    let base = with_attributes(
        with_resource(Map::<Seq<char>, super::tags::TagView>::empty(), resource),
        s.attributes,
    );
    let judged = match s.status {
        crate::span::StatusView::Error { message } => base.insert(
            "error"@,
            super::tags::TagView::Text(
                if message.len() == 0 {
                    "true"@
                } else {
                    message
                },
            ),
        ),
        _ => base,
    };
    judged.insert("otel.sampled"@, super::tags::TagView::Text(crate::text::bool_text(s.is_sampled)))
}

/// Whether an annotation says what an event says.
pub open spec fn annotates_event(a: Annotation, e: crate::span::EventView) -> bool {
    a.timestamp == micros(e.timestamp@) && a.value@ == e.name
}

/// Whether an annotation says what a link says.
pub open spec fn annotates_link(a: Annotation, l: crate::span::LinkView) -> bool {
    a.timestamp == 0 && a.value@ == "link:"@ + crate::context::hex_text(l.trace_id@) + "/"@
        + crate::context::hex_text(l.span_id@)
}

/// Whether a span in a payload says what a span says.
pub open spec fn zipkin_says(
    z: ZipkinSpan,
    s: crate::span::SpanView,
    service_name: Seq<char>,
    resource: Seq<(Seq<char>, Seq<char>)>,
) -> bool {
    &&& z.trace_id@ == crate::context::hex_text(s.trace_id@)
    &&& z.id@ == crate::context::hex_text(s.span_id@)
    &&& match s.parent_span_id {
        Some(id) => z.parent_id is Some && z.parent_id->0@ == crate::context::hex_text(id@),
        None => z.parent_id is None,
    }
    &&& z.name@ == s.name
    &&& static_view(z.kind) == kind_name(s.kind)
    &&& z.timestamp == micros(s.start_time@)
    &&& s.end_time matches Some(end) && z.duration == micros(end@ - s.start_time@)
    &&& z.local_endpoint.service_name@ == service_name
    &&& z.tags.wf()
    &&& z.tags@ == tags_of(s, resource)
    &&& z.annotations@.len() == s.events.len() + s.links.len()
    &&& forall|i: int|
        0 <= i < s.events.len() ==> annotates_event(#[trigger] z.annotations@[i], s.events[i])
    &&& forall|i: int|
        0 <= i < s.links.len() ==> annotates_link(
            #[trigger] z.annotations@[s.events.len() + i],
            s.links[i],
        )
}

impl Annotation {
    fn from_event(e: &Event) -> (r: Annotation)
        ensures
            annotates_event(r, e@),
    {
        Annotation {
            timestamp: micros_since_epoch(&e.timestamp),
            value: cow_str(&e.name).to_owned(),
        }
    }

    fn from_link(l: &Link) -> (r: Annotation)
        ensures
            annotates_link(r, l@),
    {
        let mut value = concat("link:", l.trace_id.to_string().as_str());
        value.append("/");
        value.append(l.span_id.to_string().as_str());
        Annotation { timestamp: 0, value }
    }
}

/// The tags of a span.
fn build_tags(s: &FinishedSpan, resource_attributes: &Vec<(String, String)>) -> (r: Tags)
    ensures
        r.wf(),
        r@ == tags_of(s@, crate::config::pairs_view(resource_attributes@)),
{
    let mut tags = Tags::new();
    let ghost empty = tags@;
    let ghost resource = crate::config::pairs_view(resource_attributes@);
    let mut i: usize = 0;
    assert(resource.take(0) =~= seq![]);
    while i < resource_attributes.len()
        invariant
            i <= resource_attributes@.len(),
            resource == crate::config::pairs_view(resource_attributes@),
            tags.wf(),
            tags@ == with_resource(empty, resource.take(i as int)),
        decreases resource_attributes.len() - i,
    {
        assert(resource.take(i + 1).drop_last() =~= resource.take(i as int));
        assert(resource.take(i + 1).last() == (
            resource_attributes@[i as int].0@,
            resource_attributes@[i as int].1@,
        ));
        tags.insert(
            resource_attributes[i].0.clone(),
            TagValue::Text(resource_attributes[i].1.clone()),
        );
        i += 1;
    }
    assert(resource.take(resource.len() as int) =~= resource);
    let ghost seeded = tags@;
    let items = s.attributes.as_slice();
    let ghost list = crate::span::attributes_view(items@);
    let mut j: usize = 0;
    assert(list.take(0) =~= seq![]);
    while j < items.len()
        invariant
            j <= items@.len(),
            list == crate::span::attributes_view(items@),
            tags.wf(),
            tags@ == with_attributes(seeded, list.take(j as int)),
        decreases items.len() - j,
    {
        assert(list.take(j + 1).drop_last() =~= list.take(j as int));
        assert(list.take(j + 1).last() == (items@[j as int].0@, items@[j as int].1@));
        tags.insert(cow_str(&items[j].0).to_owned(), attribute_value_to_tag(&items[j].1));
        j += 1;
    }
    assert(list.take(list.len() as int) =~= list);
    if let Status::Error { message } = &s.status {
        let text = cow_str(message);
        let value = if text.is_empty() {
            "true".to_owned()
        } else {
            text.to_owned()
        };
        tags.insert("error".to_owned(), TagValue::Text(value));
    }
    tags.insert("otel.sampled".to_owned(), TagValue::Text(bool_str(s.is_sampled).to_owned()));
    tags
}

impl ZipkinSpan {
    /// The payload of one span.
    pub fn from_finished(
        s: &FinishedSpan,
        service_name: &str,
        resource_attributes: &Vec<(String, String)>,
    ) -> (r: ZipkinSpan)
        ensures
            zipkin_says(
                r,
                s@,
                service_name@,
                crate::config::pairs_view(resource_attributes@),
            ),
    {
        let mut annotations: Vec<Annotation> = Vec::new();
        let events = s.events.as_slice();
        let mut i: usize = 0;
        while i < events.len()
            invariant
                i <= events@.len(),
                annotations@.len() == i,
                forall|k: int|
                    0 <= k < i ==> annotates_event(#[trigger] annotations@[k], events@[k]@),
            decreases events.len() - i,
        {
            annotations.push(Annotation::from_event(&events[i]));
            i += 1;
        }
        let links = s.links.as_slice();
        let mut j: usize = 0;
        while j < links.len()
            invariant
                j <= links@.len(),
                annotations@.len() == events@.len() + j,
                forall|k: int|
                    0 <= k < events@.len() ==> annotates_event(
                        #[trigger] annotations@[k],
                        events@[k]@,
                    ),
                forall|k: int|
                    0 <= k < j ==> annotates_link(
                        #[trigger] annotations@[events@.len() + k],
                        links@[k]@,
                    ),
            decreases links.len() - j,
        {
            annotations.push(Annotation::from_link(&links[j]));
            j += 1;
        }
        ZipkinSpan {
            trace_id: s.trace_id.to_string(),
            id: s.span_id.to_string(),
            parent_id: match &s.parent_span_id {
                Some(id) => Some(id.to_string()),
                None => None,
            },
            name: cow_str(&s.name).to_owned(),
            kind: zipkin_kind(s.kind),
            timestamp: micros_since_epoch(&s.start_time),
            duration: duration_micros(&s.start_time, &s.end_time),
            local_endpoint: LocalEndpoint { service_name: service_name.to_owned() },
            tags: build_tags(s, resource_attributes),
            annotations,
        }
    }
}

/// The payload of a batch: each span, in order.
pub fn build_payload(
    batch: &Vec<FinishedSpan>,
    service_name: &str,
    resource_attributes: &Vec<(String, String)>,
) -> (r: Vec<ZipkinSpan>)
    ensures
        r@.len() == batch@.len(),
        forall|i: int|
            0 <= i < r@.len() ==> zipkin_says(
                #[trigger] r@[i],
                batch@[i]@,
                service_name@,
                crate::config::pairs_view(resource_attributes@),
            ),
{
    let mut out: Vec<ZipkinSpan> = Vec::new();
    let mut i: usize = 0;
    while i < batch.len()
        invariant
            i <= batch@.len(),
            out@.len() == i,
            forall|k: int|
                0 <= k < i ==> zipkin_says(
                    #[trigger] out@[k],
                    batch@[k]@,
                    service_name@,
                    crate::config::pairs_view(resource_attributes@),
                ),
        decreases batch.len() - i,
    {
        out.push(ZipkinSpan::from_finished(&batch[i], service_name, resource_attributes));
        i += 1;
    }
    out
}

/// Every attribute of a span is a tag, whatever the resource attributes are,
/// except where the status or the sampled flag takes its key.
pub proof fn law_span_attribute_is_tag(
    s: crate::span::SpanView,
    resource: Seq<(Seq<char>, Seq<char>)>,
    i: int,
)
    requires
        s.wf(),
        0 <= i < s.attributes.len(),
        s.attributes[i].0 != "error"@,
        s.attributes[i].0 != "otel.sampled"@,
    ensures
        tags_of(s, resource).dom().contains(s.attributes[i].0),
        tags_of(s, resource)[s.attributes[i].0] == tag_of(s.attributes[i].1),
{
    let base = with_resource(Map::<Seq<char>, super::tags::TagView>::empty(), resource);
    lemma_attribute_tag(base, s.attributes, i);
}

proof fn lemma_attribute_tag(
    map: Map<Seq<char>, super::tags::TagView>,
    list: Seq<(Seq<char>, crate::span::ValueView)>,
    i: int,
)
    requires
        0 <= i < list.len(),
        forall|a: int, b: int|
            0 <= a < b < list.len() ==> (#[trigger] list[a]).0 != (#[trigger] list[b]).0,
    ensures
        with_attributes(map, list).dom().contains(list[i].0),
        with_attributes(map, list)[list[i].0] == tag_of(list[i].1),
    decreases list.len(),
{
    let init = list.drop_last();
    if i < init.len() {
        assert forall|a: int, b: int| 0 <= a < b < init.len() implies (#[trigger] init[a]).0 != (
        #[trigger] init[b]).0 by {
            assert(init[a] == list[a] && init[b] == list[b]);
        }
        lemma_attribute_tag(map, init, i);
        assert(init[i] == list[i]);
        assert(list[i].0 != list[list.len() - 1].0);
    }
}

/// A key is a tag exactly when an attribute of the span or of the resource has
/// it, or the status or the sampled flag does. So the service name, which is no
/// resource attribute, becomes no tag.
pub proof fn law_tag_keys(
    s: crate::span::SpanView,
    resource: Seq<(Seq<char>, Seq<char>)>,
    key: Seq<char>,
)
    ensures
        tags_of(s, resource).dom().contains(key) <==> {
            ||| key == "otel.sampled"@
            ||| key == "error"@ && s.status is Error
            ||| exists|i: int| 0 <= i < s.attributes.len() && (#[trigger] s.attributes[i]).0 == key
            ||| exists|i: int| 0 <= i < resource.len() && (#[trigger] resource[i]).0 == key
        },
{
    let empty = Map::<Seq<char>, super::tags::TagView>::empty();
    lemma_resource_keys(empty, resource, key);
    lemma_attribute_keys(with_resource(empty, resource), s.attributes, key);
}

proof fn lemma_resource_keys(
    map: Map<Seq<char>, super::tags::TagView>,
    list: Seq<(Seq<char>, Seq<char>)>,
    key: Seq<char>,
)
    ensures
        with_resource(map, list).dom().contains(key) <==> map.dom().contains(key) || exists|i: int|
            0 <= i < list.len() && (#[trigger] list[i]).0 == key,
    decreases list.len(),
{
    if list.len() > 0 {
        let init = list.drop_last();
        lemma_resource_keys(map, init, key);
        if list.last().0 == key {
            assert(list[list.len() - 1].0 == key);
        }
        if exists|i: int| 0 <= i < init.len() && (#[trigger] init[i]).0 == key {
            let i = choose|i: int| 0 <= i < init.len() && (#[trigger] init[i]).0 == key;
            assert(list[i].0 == key);
        }
        if exists|i: int| 0 <= i < list.len() && (#[trigger] list[i]).0 == key {
            let i = choose|i: int| 0 <= i < list.len() && (#[trigger] list[i]).0 == key;
            if i < init.len() {
                assert(init[i].0 == key);
            }
        }
    }
}

proof fn lemma_attribute_keys(
    map: Map<Seq<char>, super::tags::TagView>,
    list: Seq<(Seq<char>, crate::span::ValueView)>,
    key: Seq<char>,
)
    ensures
        with_attributes(map, list).dom().contains(key) <==> map.dom().contains(key) || exists|
            i: int,
        |
            0 <= i < list.len() && (#[trigger] list[i]).0 == key,
    decreases list.len(),
{
    if list.len() > 0 {
        let init = list.drop_last();
        lemma_attribute_keys(map, init, key);
        if list.last().0 == key {
            assert(list[list.len() - 1].0 == key);
        }
        if exists|i: int| 0 <= i < init.len() && (#[trigger] init[i]).0 == key {
            let i = choose|i: int| 0 <= i < init.len() && (#[trigger] init[i]).0 == key;
            assert(list[i].0 == key);
        }
        if exists|i: int| 0 <= i < list.len() && (#[trigger] list[i]).0 == key {
            let i = choose|i: int| 0 <= i < list.len() && (#[trigger] list[i]).0 == key;
            if i < init.len() {
                assert(init[i].0 == key);
            }
        }
    }
}

/// The tag of an attribute shows its value: a truth value as the word for it, a
/// number in decimal, a text as it is. A double-precision number keeps its bits.
pub proof fn law_tag_shows_value(
    s: crate::span::SpanView,
    resource: Seq<(Seq<char>, Seq<char>)>,
    i: int,
)
    requires
        s.wf(),
        0 <= i < s.attributes.len(),
        s.attributes[i].0 != "error"@,
        s.attributes[i].0 != "otel.sampled"@,
    ensures
        ({
            let tag = tags_of(s, resource)[s.attributes[i].0];
            match s.attributes[i].1 {
                crate::span::ValueView::Bool(true) => tag == super::tags::TagView::Text(
                    seq!['t', 'r', 'u', 'e'],
                ),
                crate::span::ValueView::Bool(false) => tag == super::tags::TagView::Text(
                    seq!['f', 'a', 'l', 's', 'e'],
                ),
                crate::span::ValueView::Int(n) => {
                    &&& tag matches super::tags::TagView::Text(t)
                    &&& n >= 0 ==> crate::text::unsigned_value(t) == Some(n as nat)
                    &&& n < 0 ==> t[0] == '-' && crate::text::unsigned_value(t.skip(1)) == Some(
                        (-n) as nat,
                    )
                },
                crate::span::ValueView::Text(t) => tag == super::tags::TagView::Text(t),
                crate::span::ValueView::Float(bits) => tag == super::tags::TagView::Float(bits),
            }
        }),
{
    law_span_attribute_is_tag(s, resource, i);
    crate::text::law_bool_text(true);
    crate::text::law_bool_text(false);
    if let crate::span::ValueView::Int(n) = s.attributes[i].1 {
        crate::text::law_signed_decimal_distinguishes(n as int, n as int);
        if n < 0 {
            crate::text::law_decimal_reads_back((-n) as nat);
            assert(crate::text::signed_decimal(n as int).skip(1) =~= crate::text::decimal(
                (-n) as nat,
            ));
        }
    }
}

/// Different values of one type have different tags: no two integers, no two
/// truth values, no two texts and no two double-precision numbers share one.
pub proof fn law_tags_tell_values_apart(
    a: crate::span::ValueView,
    b: crate::span::ValueView,
)
    ensures
        tag_of(a) == tag_of(b) && a is Int && b is Int ==> a == b,
        tag_of(a) == tag_of(b) && a is Bool && b is Bool ==> a == b,
        tag_of(a) == tag_of(b) && a is Text && b is Text ==> a == b,
        tag_of(a) == tag_of(b) && a is Float && b is Float ==> a == b,
        tag_of(a) is Float <==> a is Float,
{
    crate::text::law_bool_text(true);
    if let (crate::span::ValueView::Int(x), crate::span::ValueView::Int(y)) = (a, b) {
        crate::text::law_signed_decimal_distinguishes(x as int, y as int);
    }
}

/// The sampled flag is a tag of every span: the word for whether it is sampled,
/// whatever attributes there are.
pub proof fn law_sampled_tag(s: crate::span::SpanView, resource: Seq<(Seq<char>, Seq<char>)>)
    ensures
        tags_of(s, resource).dom().contains("otel.sampled"@),
        s.is_sampled ==> tags_of(s, resource)["otel.sampled"@] == super::tags::TagView::Text(
            seq!['t', 'r', 'u', 'e'],
        ),
        !s.is_sampled ==> tags_of(s, resource)["otel.sampled"@] == super::tags::TagView::Text(
            seq!['f', 'a', 'l', 's', 'e'],
        ),
{
    crate::text::law_bool_text(s.is_sampled);
}

/// An error status is a tag with its message, or with the word for true where
/// the message is empty. Any other status is none.
pub proof fn law_error_tag(s: crate::span::SpanView, resource: Seq<(Seq<char>, Seq<char>)>)
    ensures
        s.status matches crate::span::StatusView::Error { message } ==> tags_of(
            s,
            resource,
        ).dom().contains("error"@) && tags_of(s, resource)["error"@] == super::tags::TagView::Text(
            if message.len() > 0 {
                message
            } else {
                seq!['t', 'r', 'u', 'e']
            },
        ),
        !(s.status is Error) && s.attributes.len() == 0 && resource.len() == 0 ==> !tags_of(
            s,
            resource,
        ).dom().contains("error"@),
{
    crate::text::law_bool_text(true);
    reveal_strlit("error");
    reveal_strlit("otel.sampled");
    assert("error"@.len() == 5 && "otel.sampled"@.len() == 12);
}

/// The last value that the resource gives to a key is its tag, where the span
/// says nothing under that key.
pub proof fn law_resource_attribute_is_tag(
    s: crate::span::SpanView,
    resource: Seq<(Seq<char>, Seq<char>)>,
    i: int,
)
    requires
        0 <= i < resource.len(),
        forall|k: int| i < k < resource.len() ==> (#[trigger] resource[k]).0 != resource[i].0,
        forall|k: int|
            0 <= k < s.attributes.len() ==> (#[trigger] s.attributes[k]).0 != resource[i].0,
        resource[i].0 != "error"@,
        resource[i].0 != "otel.sampled"@,
    ensures
        tags_of(s, resource).dom().contains(resource[i].0),
        tags_of(s, resource)[resource[i].0] == super::tags::TagView::Text(resource[i].1),
{
    let empty = Map::<Seq<char>, super::tags::TagView>::empty();
    let key = resource[i].0;
    lemma_resource_tag(empty, resource, i);
    lemma_other_tags_stay(with_resource(empty, resource), s.attributes, key);
}

proof fn lemma_resource_tag(
    map: Map<Seq<char>, super::tags::TagView>,
    list: Seq<(Seq<char>, Seq<char>)>,
    i: int,
)
    requires
        0 <= i < list.len(),
        forall|k: int| i < k < list.len() ==> (#[trigger] list[k]).0 != list[i].0,
    ensures
        with_resource(map, list).dom().contains(list[i].0),
        with_resource(map, list)[list[i].0] == super::tags::TagView::Text(list[i].1),
    decreases list.len(),
{
    let init = list.drop_last();
    if i < init.len() {
        assert forall|k: int| i < k < init.len() implies (#[trigger] init[k]).0 != init[i].0 by {
            assert(init[k] == list[k]);
        }
        lemma_resource_tag(map, init, i);
        assert(list[list.len() - 1].0 != list[i].0);
    }
}

proof fn lemma_other_tags_stay(
    map: Map<Seq<char>, super::tags::TagView>,
    list: Seq<(Seq<char>, crate::span::ValueView)>,
    key: Seq<char>,
)
    requires
        map.dom().contains(key),
        forall|k: int| 0 <= k < list.len() ==> (#[trigger] list[k]).0 != key,
    ensures
        with_attributes(map, list).dom().contains(key),
        with_attributes(map, list)[key] == map[key],
    decreases list.len(),
{
    if list.len() > 0 {
        let init = list.drop_last();
        assert forall|k: int| 0 <= k < init.len() implies (#[trigger] init[k]).0 != key by {
            assert(init[k] == list[k]);
        }
        lemma_other_tags_stay(map, init, key);
        assert(list[list.len() - 1].0 != key);
    }
}

/// Microseconds are whole thousands of nanoseconds, rounded down, and nothing
/// where the nanoseconds are less than nothing.
pub proof fn law_micros(nanos: int)
    ensures
        nanos < 0 ==> micros(nanos) == 0,
        0 <= nanos < 1000 * 0x1_0000_0000_0000_0000 ==> micros(nanos) * 1000 <= nanos < (micros(
            nanos,
        ) + 1) * 1000,
        nanos >= 1000 * 0x1_0000_0000_0000_0000 ==> micros(nanos) == u64::MAX,
{
}

/// The payload of a span names it by the text of its identifiers, its parent and
/// its name, and says when it started and how long it took. The kind of a span
/// that is not internal is its name in capital letters.
pub proof fn law_payload_identifies_span(
    z: ZipkinSpan,
    s: crate::span::SpanView,
    service_name: Seq<char>,
    resource: Seq<(Seq<char>, Seq<char>)>,
)
    requires
        zipkin_says(z, s, service_name, resource),
    ensures
        z.trace_id@.len() == 32 && z.id@.len() == 16,
        !crate::context::all_zero(s.trace_id@) ==> crate::context::parsed_id(z.trace_id@, 16) == Ok::<
            Seq<u8>,
            crate::context::ParseError,
        >(s.trace_id@),
        !crate::context::all_zero(s.span_id@) ==> crate::context::parsed_id(z.id@, 8) == Ok::<
            Seq<u8>,
            crate::context::ParseError,
        >(s.span_id@),
        z.parent_id is Some <==> s.parent_span_id is Some,
        s.parent_span_id matches Some(id) ==> (!crate::context::all_zero(id@)
            ==> crate::context::parsed_id(z.parent_id->0@, 8) == Ok::<
            Seq<u8>,
            crate::context::ParseError,
        >(id@)),
        z.name@ == s.name,
        z.local_endpoint.service_name@ == service_name,
        s.start_time@ < 0 ==> z.timestamp == 0,
        0 <= s.start_time@ <= u64::MAX ==> 1000 * z.timestamp <= s.start_time@ < 1000 * z.timestamp
            + 1000,
        s.end_time matches Some(end) && {
            let took = end@ - s.start_time@;
            &&& took < 0 ==> z.duration == 0
            &&& 0 <= took <= u64::MAX ==> 1000 * z.duration <= took < 1000 * z.duration + 1000
        },
        match s.kind {
            SpanKind::Server => z.kind matches Some(k) && k@ == seq!['S', 'E', 'R', 'V', 'E', 'R'],
            SpanKind::Client => z.kind matches Some(k) && k@ == seq!['C', 'L', 'I', 'E', 'N', 'T'],
            SpanKind::Producer => z.kind matches Some(k) && k@ == seq![
                'P',
                'R',
                'O',
                'D',
                'U',
                'C',
                'E',
                'R',
            ],
            SpanKind::Consumer => z.kind matches Some(k) && k@ == seq![
                'C',
                'O',
                'N',
                'S',
                'U',
                'M',
                'E',
                'R',
            ],
            SpanKind::Internal => z.kind is None,
        },
{
    crate::context::TraceId::law_bytes_identify(s.trace_id, s.trace_id);
    crate::context::SpanId::law_bytes_identify(s.span_id, s.span_id);
    crate::context::law_identifier_reads_back(s.trace_id@);
    crate::context::law_identifier_reads_back(s.span_id@);
    if let Some(id) = s.parent_span_id {
        crate::context::SpanId::law_bytes_identify(id, id);
        crate::context::law_identifier_reads_back(id@);
    }
    reveal_strlit("SERVER");
    reveal_strlit("CLIENT");
    reveal_strlit("PRODUCER");
    reveal_strlit("CONSUMER");
    assert("SERVER"@ =~= seq!['S', 'E', 'R', 'V', 'E', 'R']);
    assert("CLIENT"@ =~= seq!['C', 'L', 'I', 'E', 'N', 'T']);
    assert("PRODUCER"@ =~= seq!['P', 'R', 'O', 'D', 'U', 'C', 'E', 'R']);
    assert("CONSUMER"@ =~= seq!['C', 'O', 'N', 'S', 'U', 'M', 'E', 'R']);
}

/// The annotations of a payload are the events, by name and time, and behind
/// them the links, each as the word for it and the two identifiers.
pub proof fn law_annotations(
    z: ZipkinSpan,
    s: crate::span::SpanView,
    service_name: Seq<char>,
    resource: Seq<(Seq<char>, Seq<char>)>,
    i: int,
)
    requires
        zipkin_says(z, s, service_name, resource),
    ensures
        z.annotations@.len() == s.events.len() + s.links.len(),
        0 <= i < s.events.len() ==> {
            let at = z.annotations@[i].timestamp;
            let time = s.events[i].timestamp@;
            &&& z.annotations@[i].value@ == s.events[i].name
            &&& time < 0 ==> at == 0
            &&& 0 <= time <= u64::MAX ==> 1000 * at <= time < 1000 * at + 1000
        },
        0 <= i < s.links.len() ==> ({
            let a = z.annotations@[s.events.len() + i];
            &&& a.timestamp == 0
            &&& a.value@.len() == 54
            &&& a.value@.take(5) == seq!['l', 'i', 'n', 'k', ':']
            &&& a.value@.subrange(5, 37) == crate::context::hex_text(s.links[i].trace_id@)
            &&& a.value@[37] == '/'
            &&& a.value@.skip(38) == crate::context::hex_text(s.links[i].span_id@)
        }),
{
    if 0 <= i < s.events.len() {
        assert(annotates_event(z.annotations@[i], s.events[i]));
    }
    if 0 <= i < s.links.len() {
        let a = z.annotations@[s.events.len() + i];
        assert(annotates_link(a, s.links[i]));
        let l = s.links[i];
        crate::context::TraceId::law_bytes_identify(l.trace_id, l.trace_id);
        crate::context::SpanId::law_bytes_identify(l.span_id, l.span_id);
        reveal_strlit("link:");
        reveal_strlit("/");
        assert(a.value@.take(5) =~= seq!['l', 'i', 'n', 'k', ':']);
        assert(a.value@.subrange(5, 37) =~= crate::context::hex_text(l.trace_id@));
        assert(a.value@.skip(38) =~= crate::context::hex_text(l.span_id@));
    }
}

/// Whatever payload is built of a finished span shows each of its attributes as a
/// tag: truth values as the words for them, integers in decimal, texts as they
/// are.
pub proof fn law_built_tags_show_values(
    s: FinishedSpan,
    service_name: &str,
    resource: Vec<(String, String)>,
    r: ZipkinSpan,
    i: int,
)
    requires
        call_ensures(ZipkinSpan::from_finished, (&s, service_name, &resource), r),
        s@.wf(),
        0 <= i < s.attributes@.len(),
        s.attributes@[i].0@ != "error"@,
        s.attributes@[i].0@ != "otel.sampled"@,
    ensures
        r.tags@.dom().contains(s.attributes@[i].0@),
        ({
            let tag = r.tags@[s.attributes@[i].0@];
            match s.attributes@[i].1 {
                AttributeValue::Bool(b) => tag == super::tags::TagView::Text(
                    if b {
                        seq!['t', 'r', 'u', 'e']
                    } else {
                        seq!['f', 'a', 'l', 's', 'e']
                    },
                ),
                AttributeValue::Int(n) => {
                    &&& tag matches super::tags::TagView::Text(t)
                    &&& n >= 0 ==> crate::text::unsigned_value(t) == Some(n as nat)
                    &&& n < 0 ==> t[0] == '-' && crate::text::unsigned_value(t.skip(1)) == Some(
                        (-n) as nat,
                    )
                },
                AttributeValue::String(t) => tag == super::tags::TagView::Text(t@),
                AttributeValue::Float(bits) => tag == super::tags::TagView::Float(bits),
            }
        }),
{
    assert(s@.attributes[i] == (s.attributes@[i].0@, s.attributes@[i].1@));
    law_span_attribute_is_tag(s@, crate::config::pairs_view(resource@), i);
    law_tag_shows_value(s@, crate::config::pairs_view(resource@), i);
}

} // verus!
