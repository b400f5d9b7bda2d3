//! What the HTTP middleware does: whether it traces at all, what it records of
//! a request before it is handled, and what of the response.

use std::borrow::Cow;
use std::time::Duration;

use vstd::prelude::*;
use vstd::string::*;

use crate::config::{clone_pairs, clone_texts, Config, Environment};
use crate::error::ConfigError;
use crate::field::intern_wellknown;
use crate::propagation::{parse_traceparent, TraceState};
use crate::span::AttributeValue;
use crate::text::{concat, decimal_text, starts_with, str_eq, to_lowercase};

verus! {

/// A configured tracer. Without a usable sink and a service name it is
/// disabled.
#[derive(Debug, PartialEq, Eq)]
pub struct Tracer {
    config: Config,
}

impl View for Tracer {
    type V = crate::config::ConfigView;

    /// The configuration that the tracer goes by.
    closed spec fn view(&self) -> crate::config::ConfigView {
        self.config@
    }
}

impl Clone for Tracer {
    fn clone(&self) -> (r: Tracer)
        ensures
            r@ == self@,
    {
        Tracer { config: self.config.clone() }
    }
}

/// The configuration that a tracer goes by: switched off where it has no sink
/// that resolves to an endpoint, or no service name.
pub open spec fn settled(config: crate::config::ConfigView) -> crate::config::ConfigView {
    if config.exportable() && config.endpoint is Some {
        config
    } else {
        config.off()
    }
}

/// Whether export is meant to be enabled and a sink was asked for, but no service
/// name is known.
pub open spec fn misconfigured(config: crate::config::ConfigView) -> bool {
    !config.disabled && config.sink_uri is Some && config.service_name is None
}

impl Tracer {
    /// A tracer as the environment configures it.
    pub fn new(env: &Environment) -> (r: Tracer)
        ensures
            r@ == settled(crate::config::environment_config(env@)),
    {
        Tracer::from_config(Config::from_env(env))
    }

    /// A tracer as the environment configures it. The one error is a sink
    /// without a service name; an environment without a sink, or with an
    /// exporter of `none`, gives a disabled tracer.
    pub fn try_new(env: &Environment) -> (r: Result<Tracer, ConfigError>)
        ensures
            match r {
                Ok(t) => !misconfigured(crate::config::environment_config(env@)) && t@ == settled(
                    crate::config::environment_config(env@),
                ),
                Err(e) => misconfigured(crate::config::environment_config(env@)) && e
                    == ConfigError::MissingServiceName,
            },
    {
        Tracer::try_from_config(Config::from_env(env))
    }

    /// A tracer with a configuration; disabled where that cannot export, be it
    /// for want of a service name or of a sink that can be used.
    pub fn from_config(config: Config) -> (r: Tracer)
        ensures
            r@ == settled(config@),
    {
        if config.can_export() && config.endpoint.is_some() {
            Tracer { config }
        } else {
            Tracer { config: config.disabled() }
        }
    }

    /// A tracer with a configuration. The one error is a sink without a service
    /// name; a configuration without a sink, or one that is disabled, gives a
    /// disabled tracer.
    pub fn try_from_config(config: Config) -> (r: Result<Tracer, ConfigError>)
        ensures
            match r {
                Ok(t) => !misconfigured(config@) && t@ == settled(config@),
                Err(e) => misconfigured(config@) && e == ConfigError::MissingServiceName,
            },
    {
        if !config.disabled && config.sink_uri.is_some() && config.service_name.is_none() {
            return Err(ConfigError::MissingServiceName);
        }
        Ok(Tracer::from_config(config))
    }

    /// A builder for explicit configuration.
    pub fn builder() -> (r: TracerBuilder)
        ensures
            r@ == empty_builder(),
    {
        TracerBuilder::new()
    }

    /// Whether this tracer exports spans.
    pub fn is_enabled(&self) -> (r: bool)
        ensures
            r == self@.enabled(),
    {
        self.config.is_enabled()
    }

    /// The configuration that the tracer goes by.
    pub fn config(&self) -> (r: &Config)
        ensures
            r@ == self@,
    {
        &self.config
    }
}

/// Builds a [`Tracer`]. Setters override the environment; what is not set is
/// left to it.
#[derive(Debug, PartialEq, Eq)]
pub struct TracerBuilder {
    config: Config,
    max_batch_size: Option<usize>,
    schedule_delay: Option<Duration>,
    resource_attributes: Vec<(String, String)>,
}

/// What was set on a builder.
#[verifier::ext_equal]
pub ghost struct BuilderView {
    pub config: crate::config::ConfigView,
    pub max_batch_size: Option<usize>,
    pub schedule_delay: Option<Duration>,
    pub resource_attributes: Seq<(Seq<char>, Seq<char>)>,
}

impl View for TracerBuilder {
    type V = BuilderView;

    closed spec fn view(&self) -> BuilderView {
        BuilderView {
            config: self.config@,
            max_batch_size: self.max_batch_size,
            schedule_delay: self.schedule_delay,
            resource_attributes: crate::config::pairs_view(self.resource_attributes@),
        }
    }
}

/// A builder on which nothing was set.
pub open spec fn empty_builder() -> BuilderView {
    BuilderView {
        config: crate::config::default_config(),
        max_batch_size: None,
        schedule_delay: None,
        resource_attributes: seq![],
    }
}

/// The configuration that a builder makes of the environment's: what was set on
/// the builder takes the place of what the environment says.
pub open spec fn overlaid(
    env: crate::config::ConfigView,
    b: BuilderView,
) -> crate::config::ConfigView {
    let named = match b.config.service_name {
        Some(n) => env.named(n),
        None => env,
    };
    let sunk = match b.config.sink_uri {
        Some(u) => named.sunk(u),
        None => named,
    };
    let set = crate::config::ConfigView {
        capture_header_prefixes: if b.config.capture_header_prefixes.len() > 0 {
            b.config.capture_header_prefixes
        } else {
            env.capture_header_prefixes
        },
        headers: if b.config.headers.len() > 0 {
            b.config.headers
        } else {
            env.headers
        },
        max_export_batch_size: match b.max_batch_size {
            Some(n) => n as nat,
            None => env.max_export_batch_size,
        },
        schedule_delay: match b.schedule_delay {
            Some(d) => d,
            None => env.schedule_delay,
        },
        ..sunk
    };
    set.attributed_all(b.resource_attributes)
}

impl TracerBuilder {
    /// A builder on which nothing was set.
    pub fn new() -> (r: TracerBuilder)
        ensures
            r@ == empty_builder(),
    {
        let config = Config::default();
        let r = TracerBuilder {
            config,
            max_batch_size: None,
            schedule_delay: None,
            resource_attributes: Vec::new(),
        };
        assert(r@ =~= empty_builder());
        r
    }

    /// Sets the service name.
    pub fn with_service_name(self, name: &str) -> (r: TracerBuilder)
        ensures
            r@ == (BuilderView { config: self@.config.named(name@), ..self@ }),
    {
        let config = self.config.with_service_name(name);
        TracerBuilder {
            config,
            max_batch_size: self.max_batch_size,
            schedule_delay: self.schedule_delay,
            resource_attributes: self.resource_attributes,
        }
    }

    /// Sets the sink.
    pub fn with_sink_uri(self, uri: &str) -> (r: TracerBuilder)
        ensures
            r@ == (BuilderView { config: self@.config.sunk(uri@), ..self@ }),
    {
        let config = self.config.with_sink_uri(uri);
        TracerBuilder {
            config,
            max_batch_size: self.max_batch_size,
            schedule_delay: self.schedule_delay,
            resource_attributes: self.resource_attributes,
        }
    }

    /// Sets the most spans in one export batch.
    pub fn with_max_batch_size(self, size: usize) -> (r: TracerBuilder)
        ensures
            r@ == (BuilderView { max_batch_size: Some(size), ..self@ }),
    {
        TracerBuilder {
            config: self.config,
            max_batch_size: Some(size),
            schedule_delay: self.schedule_delay,
            resource_attributes: self.resource_attributes,
        }
    }

    /// Sets the delay between batch exports.
    pub fn with_schedule_delay(self, delay: Duration) -> (r: TracerBuilder)
        ensures
            r@ == (BuilderView { schedule_delay: Some(delay), ..self@ }),
    {
        TracerBuilder {
            config: self.config,
            max_batch_size: self.max_batch_size,
            schedule_delay: Some(delay),
            resource_attributes: self.resource_attributes,
        }
    }

    /// Sets the prefixes of the response headers to capture.
    pub fn with_capture_header_prefixes(self, prefixes: Vec<String>) -> (r: TracerBuilder)
        ensures
            r@ == (BuilderView {
                config: crate::config::ConfigView {
                    capture_header_prefixes: crate::config::texts_view(prefixes@),
                    ..self@.config
                },
                ..self@
            }),
    {
        let config = self.config.with_capture_header_prefixes(prefixes);
        TracerBuilder {
            config,
            max_batch_size: self.max_batch_size,
            schedule_delay: self.schedule_delay,
            resource_attributes: self.resource_attributes,
        }
    }

    /// Sets the headers sent on every export request.
    pub fn with_headers(self, headers: Vec<(String, String)>) -> (r: TracerBuilder)
        ensures
            r@ == (BuilderView {
                config: crate::config::ConfigView {
                    headers: crate::config::pairs_view(headers@),
                    ..self@.config
                },
                ..self@
            }),
    {
        let config = self.config.with_headers(headers);
        TracerBuilder {
            config,
            max_batch_size: self.max_batch_size,
            schedule_delay: self.schedule_delay,
            resource_attributes: self.resource_attributes,
        }
    }

    /// Adds resource attributes. They override those of the environment with
    /// the same key, and leave the others in place.
    pub fn with_resource_attributes(self, attributes: Vec<(String, String)>) -> (r: TracerBuilder)
        ensures
            r@ == (BuilderView {
                resource_attributes: self@.resource_attributes + crate::config::pairs_view(
                    attributes@,
                ),
                ..self@
            }),
    {
        let mut all = self.resource_attributes;
        let mut more = attributes;
        let ghost before = all@;
        all.append(&mut more);
        assert(crate::config::pairs_view(all@) =~= crate::config::pairs_view(before)
            + crate::config::pairs_view(attributes@));
        TracerBuilder {
            config: self.config,
            max_batch_size: self.max_batch_size,
            schedule_delay: self.schedule_delay,
            resource_attributes: all,
        }
    }

    /// A tracer with what was set, and the environment for everything else.
    pub fn build(self, env: &Environment) -> (r: Tracer)
        ensures
            r@ == settled(overlaid(crate::config::environment_config(env@), self@)),
    {
        let mut base = Config::from_env(env);
        if let Some(name) = &self.config.service_name {
            base = base.with_service_name(name.as_str());
        }
        if let Some(uri) = &self.config.sink_uri {
            base = base.with_sink_uri(uri.as_str());
        }
        if self.config.capture_header_prefixes.len() > 0 {
            base = base.with_capture_header_prefixes(
                clone_texts(&self.config.capture_header_prefixes),
            );
        }
        if self.config.headers.len() > 0 {
            base = base.with_headers(clone_pairs(&self.config.headers));
        }
        if let Some(size) = self.max_batch_size {
            base.max_export_batch_size = size;
        }
        if let Some(delay) = self.schedule_delay {
            base.schedule_delay = delay;
        }
        base = base.with_resource_attributes(self.resource_attributes);
        Tracer::from_config(base)
    }
}

impl Default for TracerBuilder {
    fn default() -> (r: TracerBuilder)
        ensures
            r@ == empty_builder(),
    {
        TracerBuilder::new()
    }
}

impl Clone for TracerBuilder {
    fn clone(&self) -> (r: TracerBuilder)
        ensures
            r@ == self@,
    {
        let config = self.config.clone();
        TracerBuilder {
            config,
            max_batch_size: self.max_batch_size,
            schedule_delay: self.schedule_delay,
            resource_attributes: clone_pairs(&self.resource_attributes),
        }
    }
}

/// What the middleware reads of a request. Header values that are no visible
/// text are absent.
#[derive(Debug, Default, PartialEq, Eq)]
pub struct RequestHead {
    pub method: String,
    pub path: String,
    pub query: Option<String>,
    pub scheme: Option<String>,
    /// The route that the request matched, with its parameters by name.
    pub route: Option<String>,
    pub traceparent: Option<String>,
    pub tracestate: Option<String>,
    pub user_agent: Option<String>,
    pub host: Option<String>,
}

/// The parent in another process, as the fields of a span carry it.
#[derive(Debug, PartialEq, Eq)]
pub struct RemoteContext {
    pub trace_id: String,
    pub parent_span_id: String,
    pub sampled: bool,
    /// The trace state; empty when there is none.
    pub trace_state: String,
}

/// What is recorded of a request.
#[derive(Debug)]
pub struct RootSpan {
    /// The remote parent, which has to be known when the span is created.
    pub remote: Option<RemoteContext>,
    /// Everything else, in the order in which it is recorded.
    pub fields: Vec<(&'static str, AttributeValue)>,
}

/// The fields and values of a list.
pub open spec fn fields_view(v: Seq<(&'static str, AttributeValue)>) -> Seq<
    (Seq<char>, crate::span::ValueView),
> {
    v.map_values(|p: (&'static str, AttributeValue)| (p.0@, p.1@))
}

/// One field with a text, or none.
pub open spec fn text_field(name: Seq<char>, value: Option<Seq<char>>) -> Seq<
    (Seq<char>, crate::span::ValueView),
> {
    match value {
        Some(s) => seq![(name, crate::span::ValueView::Text(s))],
        None => seq![],
    }
}

/// The name of the span of a request: the method, and the route if one matched.
pub open spec fn span_name(head: RequestHead) -> Seq<char> {
    match head.route {
        Some(route) => head.method@ + " "@ + route@,
        None => head.method@,
    }
}

/// The fields that are recorded of a request.
pub open spec fn request_fields(head: RequestHead) -> Seq<(Seq<char>, crate::span::ValueView)> {
    text_field("http.request.method"@, Some(head.method@)) + text_field(
        "url.path"@,
        Some(head.path@),
    ) + text_field("url.query"@, crate::sink::text_view(head.query)) + text_field(
        "url.scheme"@,
        match head.scheme {
            Some(s) => Some(s@),
            None => Some("http"@),
        },
    ) + text_field("network.protocol.name"@, Some("http"@)) + text_field(
        "otel.name"@,
        Some(span_name(head)),
    ) + text_field("user_agent.original"@, crate::sink::text_view(head.user_agent)) + text_field(
        "server.address"@,
        crate::sink::text_view(head.host),
    ) + text_field("http.route"@, crate::sink::text_view(head.route))
}

/// What the `traceparent` header of a request says, if it is accepted.
pub open spec fn announced_parent(
    head: RequestHead,
) -> Option<crate::propagation::traceparent::TraceParentView> {
    match head.traceparent {
        Some(s) => match crate::propagation::traceparent::parsed_traceparent(s@) {
            Ok(tp) => Some(tp),
            Err(_) => None,
        },
        None => None,
    }
}

/// The text of the trace state that a request carries; empty when there is
/// none.
pub open spec fn announced_state(head: RequestHead) -> Seq<char> {
    match head.tracestate {
        Some(s) => match crate::propagation::tracestate::kept_state(s@) {
            Some(kept) => kept,
            None => ""@,
        },
        None => ""@,
    }
}

/// Whether the remote parent is the one that a request announces. A request
/// without an accepted `traceparent` announces none.
pub open spec fn remote_says(remote: Option<RemoteContext>, head: RequestHead) -> bool {
    match announced_parent(head) {
        None => remote is None,
        Some(tp) => {
            &&& remote is Some
            &&& remote->0.trace_id@ == crate::context::hex_text(tp.trace_id)
            &&& remote->0.parent_span_id@ == crate::context::hex_text(tp.parent_id)
            &&& remote->0.sampled == crate::propagation::traceparent::sampled_bit(tp.flags)
            &&& remote->0.trace_state@ == announced_state(head)
        },
    }
}

/// Appends a field with a text.
fn push_text(fields: &mut Vec<(&'static str, AttributeValue)>, name: &'static str, value: &str)
    ensures
        fields_view(final(fields)@) == fields_view(old(fields)@) + text_field(name@, Some(value@)),
{
    let ghost before = fields@;
    fields.push((name, AttributeValue::String(intern_wellknown(value))));
    assert(fields_view(fields@) =~= fields_view(before) + text_field(name@, Some(value@)));
}

/// Appends a field with a text, if there is one.
fn push_optional(
    fields: &mut Vec<(&'static str, AttributeValue)>,
    name: &'static str,
    value: &Option<String>,
)
    ensures
        fields_view(final(fields)@) == fields_view(old(fields)@) + text_field(
            name@,
            crate::sink::text_view(*value),
        ),
{
    match value {
        Some(s) => {
            push_text(fields, name, s.as_str());
        },
        None => {
            assert(fields_view(fields@) =~= fields_view(fields@) + text_field(name@, None));
        },
    }
}

/// The remote parent that a request announces.
fn remote_context(head: &RequestHead) -> (r: Option<RemoteContext>)
    ensures
        remote_says(r, *head),
{
    let tp = match &head.traceparent {
        Some(s) => match parse_traceparent(s.as_str()) {
            Ok(tp) => tp,
            Err(_) => {
                return None;
            },
        },
        None => {
            return None;
        },
    };
    let state = match &head.tracestate {
        Some(s) => TraceState::from_header(s.as_str()),
        None => None,
    };
    Some(
        RemoteContext {
            trace_id: tp.trace_id.to_string(),
            parent_span_id: tp.parent_id.to_string(),
            sampled: tp.flags.is_sampled(),
            trace_state: match &state {
                Some(s) => s.as_str().to_owned(),
                None => "".to_owned(),
            },
        },
    )
}

/// What is recorded of a request before it is handled.
///
/// Only a matched route goes into the name of the span, never a raw path. The
/// query, the user agent, the server address and the route are recorded only
/// where the request has them.
pub fn build_root_span(head: &RequestHead) -> (r: RootSpan)
    ensures
        fields_view(r.fields@) == request_fields(*head),
        remote_says(r.remote, *head),
{
    let mut fields: Vec<(&'static str, AttributeValue)> = Vec::new();
    assert(fields_view(fields@) + text_field("http.request.method"@, Some(head.method@))
        =~= text_field("http.request.method"@, Some(head.method@)));
    push_text(&mut fields, "http.request.method", head.method.as_str());
    push_text(&mut fields, "url.path", head.path.as_str());
    push_optional(&mut fields, "url.query", &head.query);
    let scheme = match &head.scheme {
        Some(s) => s.as_str(),
        None => "http",
    };
    push_text(&mut fields, "url.scheme", scheme);
    push_text(&mut fields, "network.protocol.name", "http");
    match &head.route {
        Some(route) => {
            let mut name = concat(head.method.as_str(), " ");
            name.append(route.as_str());
            push_text(&mut fields, "otel.name", name.as_str());
        },
        None => {
            push_text(&mut fields, "otel.name", head.method.as_str());
        },
    }
    push_optional(&mut fields, "user_agent.original", &head.user_agent);
    push_optional(&mut fields, "server.address", &head.host);
    push_optional(&mut fields, "http.route", &head.route);
    RootSpan { remote: remote_context(head), fields }
}

/// What is recorded of a request before it is handled, where export is enabled.
/// Otherwise the request passes through without a span.
pub fn plan_request(enabled: bool, head: &RequestHead) -> (r: Option<RootSpan>)
    ensures
        r is None <==> !enabled,
        r matches Some(root) ==> fields_view(root.fields@) == request_fields(*head) && remote_says(
            root.remote,
            *head,
        ),
{
    if enabled {
        Some(build_root_span(head))
    } else {
        None
    }
}

/// A header of a response: its name and all its values, where a value that is
/// no visible text is absent.
#[derive(Debug, PartialEq, Eq)]
pub struct ResponseHeader {
    pub name: String,
    pub values: Vec<Option<String>>,
}

/// `name` in small letters, with underscores in place of hyphens.
pub open spec fn normalized(name: Seq<char>) -> Seq<char> {
    crate::text::lowercase(name).map_values(
        |c: char|
            if c == '-' {
                '_'
            } else {
                c
            },
    )
}

/// Whether a header carries secrets, in any case of its letters.
pub open spec fn is_sensitive(name: Seq<char>) -> bool {
    let lower = crate::text::lowercase(name);
    ||| lower == "authorization"@
    ||| lower == "cookie"@
    ||| lower == "set-cookie"@
    ||| lower == "proxy-authorization"@
    ||| lower == "proxy-authenticate"@
}

/// The name of a response header as it stands in an attribute key: in small
/// letters, with underscores in place of hyphens.
pub fn normalize_response_header_name(name: &str) -> (r: String)
    ensures
        r@ == normalized(name@),
{
    let lower = to_lowercase(name);
    let ghost all = lower@;
    let mut out = String::new();
    assert(normalized(name@) == all.map_values(
        |c: char|
            if c == '-' {
                '_'
            } else {
                c
            },
    ));
    for c in it: lower.as_str().chars()
        invariant
            it.seq() == all,
            all == crate::text::lowercase(name@),
            out@ == normalized(name@).take(it.index()),
    {
        out.push(
            if c == '-' {
                '_'
            } else {
                c
            },
        );
        assert(normalized(name@).take(it.index() + 1) =~= normalized(name@).take(it.index()).push(
            normalized(name@)[it.index()],
        ));
    }
    assert(normalized(name@).take(all.len() as int) =~= normalized(name@));
    out
}

/// Whether a header is on the list of those that are never captured, in any
/// case of its letters.
pub fn is_sensitive_response_header(name: &str) -> (r: bool)
    ensures
        r == is_sensitive(name@),
{
    let lower = to_lowercase(name);
    let l = lower.as_str();
    str_eq(l, "authorization") || str_eq(l, "cookie") || str_eq(l, "set-cookie") || str_eq(
        l,
        "proxy-authorization",
    ) || str_eq(l, "proxy-authenticate")
}

/// Prefixes in small letters, which is how header names are matched.
pub fn lower_prefixes(prefixes: &Vec<String>) -> (r: Vec<String>)
    ensures
        r@.len() == prefixes@.len(),
        forall|i: int|
            0 <= i < r@.len() ==> (#[trigger] r@[i])@ == crate::text::lowercase(prefixes@[i]@),
{
    let mut out: Vec<String> = Vec::new();
    let mut i: usize = 0;
    while i < prefixes.len()
        invariant
            i <= prefixes@.len(),
            out@.len() == i,
            forall|k: int|
                0 <= k < i ==> (#[trigger] out@[k])@ == crate::text::lowercase(prefixes@[k]@),
        decreases prefixes.len() - i,
    {
        out.push(to_lowercase(prefixes[i].as_str()));
        i += 1;
    }
    out
}

/// Whether a header name, in small letters, starts with one of the prefixes.
pub open spec fn has_prefix(name: Seq<char>, prefixes: Seq<String>) -> bool {
    exists|i: int|
        0 <= i < prefixes.len() && (#[trigger] prefixes[i])@.is_prefix_of(
            crate::text::lowercase(name),
        )
}

/// The values that are text, joined by commas; nothing when none is.
pub open spec fn joined(values: Seq<Option<String>>) -> Option<Seq<char>>
    decreases values.len(),
{
    if values.len() == 0 {
        None
    } else {
        let before = joined(values.drop_last());
        match (before, values.last()) {
            (None, Some(v)) => Some(v@),
            (Some(b), Some(v)) => Some(b + ","@ + v@),
            (_, None) => before,
        }
    }
}

/// What is captured of a header: `name=value`, or nothing.
pub open spec fn captured(header: ResponseHeader, prefixes: Seq<String>) -> Option<Seq<char>> {
    if is_sensitive(header.name@) || !has_prefix(header.name@, prefixes) {
        None
    } else {
        match joined(header.values@) {
            Some(value) => Some(normalized(header.name@) + "="@ + value),
            None => None,
        }
    }
}

/// The fields that are recorded of the headers of a response, in order.
pub open spec fn header_fields(headers: Seq<ResponseHeader>, prefixes: Seq<String>) -> Seq<
    (Seq<char>, crate::span::ValueView),
>
    decreases headers.len(),
{
    if headers.len() == 0 {
        seq![]
    } else {
        header_fields(headers.drop_last(), prefixes) + text_field(
            "http.response.header"@,
            captured(headers.last(), prefixes),
        )
    }
}

/// The fields that are recorded of the status of a response: a server error is
/// an error, of the type that its code names.
pub open spec fn status_fields(status: u16) -> Seq<(Seq<char>, crate::span::ValueView)> {
    let code = seq![
        ("http.response.status_code"@, crate::span::ValueView::Int(status as i64)),
    ];
    if status >= 500 {
        code + seq![("otel.status_code"@, crate::span::ValueView::Text("error"@))] + seq![
            ("error.type"@, crate::span::ValueView::Text(crate::text::decimal(status as nat))),
        ]
    } else {
        code
    }
}

/// The fields that are recorded where the service failed without a response.
pub open spec fn failure_fields(error_type: Seq<char>) -> Seq<(Seq<char>, crate::span::ValueView)> {
    seq![
        ("otel.status_code"@, crate::span::ValueView::Text("error"@)),
        ("error.type"@, crate::span::ValueView::Text(error_type)),
    ]
}

fn name_has_prefix(name: &str, prefixes: &Vec<String>) -> (r: bool)
    ensures
        r == has_prefix(name@, prefixes@),
{
    let lower = to_lowercase(name);
    let mut i: usize = 0;
    while i < prefixes.len()
        invariant
            i <= prefixes@.len(),
            lower@ == crate::text::lowercase(name@),
            forall|k: int| 0 <= k < i ==> !(#[trigger] prefixes@[k])@.is_prefix_of(lower@),
        decreases prefixes.len() - i,
    {
        if starts_with(lower.as_str(), prefixes[i].as_str()) {
            return true;
        }
        i += 1;
    }
    false
}

fn join_values(values: &Vec<Option<String>>) -> (r: Option<String>)
    ensures
        crate::sink::text_view(r) == joined(values@),
{
    let mut out: Option<String> = None;
    let mut i: usize = 0;
    assert(values@.take(0) =~= seq![]);
    while i < values.len()
        invariant
            i <= values@.len(),
            crate::sink::text_view(out) == joined(values@.take(i as int)),
        decreases values.len() - i,
    {
        assert(values@.take(i + 1).drop_last() =~= values@.take(i as int));
        if let Some(v) = &values[i] {
            out = match out {
                None => Some(v.clone()),
                Some(b) => {
                    let mut text = concat(b.as_str(), ",");
                    text.append(v.as_str());
                    Some(text)
                },
            };
        }
        i += 1;
    }
    assert(values@.take(values@.len() as int) =~= values@);
    out
}

fn capture_header(header: &ResponseHeader, prefixes: &Vec<String>) -> (r: Option<String>)
    ensures
        crate::sink::text_view(r) == captured(*header, prefixes@),
{
    let name = header.name.as_str();
    if is_sensitive_response_header(name) || !name_has_prefix(name, prefixes) {
        return None;
    }
    match join_values(&header.values) {
        Some(value) => {
            let mut text = normalize_response_header_name(name);
            text.append("=");
            text.append(value.as_str());
            Some(text)
        },
        None => None,
    }
}

/// What is recorded of a response: its status, and the headers that start with
/// one of the prefixes. The prefixes are in small letters. Headers that carry
/// secrets are never captured.
pub fn response_fields(status: u16, headers: &Vec<ResponseHeader>, prefixes: &Vec<String>) -> (r:
    Vec<(&'static str, AttributeValue)>)
    ensures
        fields_view(r@) == status_fields(status) + header_fields(headers@, prefixes@),
{
    let mut fields: Vec<(&'static str, AttributeValue)> = Vec::new();
    fields.push(("http.response.status_code", AttributeValue::Int(status as i64)));
    if status >= 500 {
        fields.push(("otel.status_code", AttributeValue::String(Cow::Borrowed("error"))));
        fields.push(
            ("error.type", AttributeValue::String(Cow::Owned(decimal_text(status as u64)))),
        );
    }
    assert(fields_view(fields@) =~= status_fields(status));
    let mut i: usize = 0;
    assert(headers@.take(0) =~= seq![]);
    assert(status_fields(status) + header_fields(headers@.take(0), prefixes@) =~= status_fields(
        status,
    ));
    while i < headers.len()
        invariant
            i <= headers@.len(),
            fields_view(fields@) == status_fields(status) + header_fields(
                headers@.take(i as int),
                prefixes@,
            ),
        decreases headers.len() - i,
    {
        assert(headers@.take(i + 1).drop_last() =~= headers@.take(i as int));
        let text = capture_header(&headers[i], prefixes);
        push_optional(&mut fields, "http.response.header", &text);
        assert(fields_view(fields@) =~= status_fields(status) + header_fields(
            headers@.take(i + 1),
            prefixes@,
        ));
        i += 1;
    }
    assert(headers@.take(headers@.len() as int) =~= headers@);
    fields
}

/// What is recorded where the service failed without a response.
pub fn error_fields(error_type: &str) -> (r: Vec<(&'static str, AttributeValue)>)
    ensures
        fields_view(r@) == failure_fields(error_type@),
{
    let mut fields: Vec<(&'static str, AttributeValue)> = Vec::new();
    fields.push(("otel.status_code", AttributeValue::String(Cow::Borrowed("error"))));
    fields.push(("error.type", AttributeValue::String(Cow::Owned(error_type.to_owned()))));
    assert(fields_view(fields@) =~= failure_fields(error_type@));
    fields
}

/// What the `remote.*` fields say when they are read back.
pub open spec fn remote_fields(remote: RemoteContext) -> crate::layer::RemoteFields {
    (crate::layer::RemoteFields {
        trace_id: None,
        parent_span_id: None,
        is_sampled: None,
        trace_state: None,
    }).with_formatted("remote.trace_id"@, remote.trace_id@).with_formatted(
        "remote.parent_span_id"@,
        remote.parent_span_id@,
    ).with_bool("remote.sampled"@, remote.sampled).with_text(
        "remote.trace_state"@,
        remote.trace_state@,
    )
}

/// A trace joins across services: what the request's headers announce (the
/// trace, the parent, the sampling decision and the trace state) is what the
/// layer reads from the fields of the request's span.
pub proof fn law_trace_joins(remote: RemoteContext, head: RequestHead)
    requires
        remote_says(Some(remote), head),
    ensures
        announced_parent(head) is Some,
        remote_fields(remote).trace_id == Some(announced_parent(head)->0.trace_id),
        remote_fields(remote).parent_span_id == Some(announced_parent(head)->0.parent_id),
        remote_fields(remote).is_sampled == Some(
            crate::propagation::traceparent::sampled_bit(announced_parent(head)->0.flags),
        ),
        remote_fields(remote).trace_state is Some,
        crate::propagation::tracestate::kept_state(remote_fields(remote).trace_state->0) == (
        match head.tracestate {
            Some(s) => crate::propagation::tracestate::kept_state(s@),
            None => None,
        }),
{
    crate::field::lemma_field_names();
    reveal_strlit("");
    let tp = announced_parent(head)->0;
    crate::propagation::traceparent::law_accepted_header_is_valid(head.traceparent->0@);
    crate::context::law_identifier_reads_back(tp.trace_id);
    crate::context::law_identifier_reads_back(tp.parent_id);
    crate::text::lemma_unquoted_same(crate::context::hex_text(tp.trace_id));
    crate::text::lemma_unquoted_same(crate::context::hex_text(tp.parent_id));
    if let Some(s) = head.tracestate {
        crate::text::lemma_trimmed_twice(s@);
    }
}

/// What is set on the builder wins over the environment, and what is not set is
/// left to it.
pub proof fn law_builder_wins(env: crate::config::ConfigView, b: BuilderView)
    ensures
        b.config.service_name matches Some(n) ==> (nonblank_name(n) ==> overlaid(
            env,
            b,
        ).service_name == Some(crate::text::trimmed(n))),
        b.config.service_name is None && env.service_name is Some ==> overlaid(env, b).service_name
            == env.service_name,
        b.config.sink_uri is None ==> overlaid(env, b).sink_uri == env.sink_uri && overlaid(
            env,
            b,
        ).endpoint == env.endpoint && overlaid(env, b).disabled == env.disabled,
        b.config.sink_uri matches Some(u) ==> (nonblank_name(u) ==> overlaid(env, b).sink_uri
            == Some(crate::text::trimmed(u)) && !overlaid(env, b).disabled && overlaid(
            env,
            b,
        ).endpoint == (match crate::sink::resolved_endpoint(u) {
            Ok(ep) => Some(ep),
            Err(_) => None,
        }) && overlaid(env, b).exporter == (match crate::sink::resolved_endpoint(u) {
            Ok(ep) => crate::sink::kind_of(ep),
            Err(_) => crate::sink::ExporterKind::Disabled,
        })),
        overlaid(env, b).headers == (if b.config.headers.len() > 0 {
            b.config.headers
        } else {
            env.headers
        }),
        overlaid(env, b).capture_header_prefixes == (if b.config.capture_header_prefixes.len() > 0 {
            b.config.capture_header_prefixes
        } else {
            env.capture_header_prefixes
        }),
        overlaid(env, b).max_export_batch_size == (match b.max_batch_size {
            Some(n) => n as nat,
            None => env.max_export_batch_size,
        }),
        overlaid(env, b).schedule_delay == (match b.schedule_delay {
            Some(d) => d,
            None => env.schedule_delay,
        }),
        forall|key: Seq<char>|
            key != "service.name"@ ==> #[trigger] crate::config::lookup(
                overlaid(env, b).resource_attributes,
                key,
            ) == (match crate::config::last_value(b.resource_attributes, key) {
                Some(v) => Some(v),
                None => crate::config::lookup(env.resource_attributes, key),
            }),
{
    let bare = BuilderView { resource_attributes: seq![], ..b };
    let set = overlaid(env, bare);
    assert(overlaid(env, b) == set.attributed_all(b.resource_attributes));
    crate::config::law_explicit_service_name_wins(set, b.resource_attributes);
    assert forall|key: Seq<char>| key != "service.name"@ implies #[trigger] crate::config::lookup(
        overlaid(env, b).resource_attributes,
        key,
    ) == (match crate::config::last_value(b.resource_attributes, key) {
        Some(v) => Some(v),
        None => crate::config::lookup(env.resource_attributes, key),
    }) by {
        crate::config::law_attributes_merge_by_key(set, b.resource_attributes, key);
    }
}

/// Whether a text holds more than whitespace.
pub open spec fn nonblank_name(s: Seq<char>) -> bool {
    crate::text::trimmed(s).len() > 0
}

/// A tracer is enabled exactly when its configuration has an endpoint and a
/// service name and is not disabled; any other configuration leaves it disabled,
/// and one that could never export leaves it without a sink.
pub proof fn law_tracer_enabled(config: crate::config::ConfigView)
    ensures
        settled(config).enabled() <==> config.endpoint is Some && config.service_name is Some
            && !config.disabled,
        config.endpoint is None || config.service_name is None ==> settled(config)
            == config.off(),
        settled(settled(config)) == settled(config),
{
}

/// Headers that carry secrets are never captured, whatever the prefixes.
pub proof fn law_sensitive_headers_never_captured(
    headers: Seq<ResponseHeader>,
    prefixes: Seq<String>,
    i: int,
)
    requires
        0 <= i < headers.len(),
        is_sensitive(headers[i].name@),
    ensures
        captured(headers[i], prefixes) is None,
        header_fields(headers, prefixes) == header_fields(headers.remove(i), prefixes),
    decreases headers.len(),
{
    let rest = headers.remove(i);
    if i == headers.len() - 1 {
        assert(rest =~= headers.drop_last());
        assert(header_fields(headers, prefixes) =~= header_fields(rest, prefixes));
    } else {
        let init = headers.drop_last();
        law_sensitive_headers_never_captured(init, prefixes, i);
        assert(rest.drop_last() =~= init.remove(i));
        assert(rest.last() == headers.last());
    }
}

/// A captured header is recorded under its own attribute key, with all its text
/// values.
pub proof fn law_captured_header_attribute(
    span: crate::span::SpanView,
    header: ResponseHeader,
    prefixes: Seq<String>,
)
    requires
        captured(header, prefixes) is Some,
        forall|i: int| 0 <= i < header.name@.len() ==> header.name@[i] != '=',
    ensures
        span.visited(
            "http.response.header"@,
            crate::span::ValueView::Text(captured(header, prefixes)->0),
        ) == span.recorded(
            "http.response.header."@ + normalized(header.name@),
            crate::span::ValueView::Text(joined(header.values@)->0),
        ),
{
    reveal_strlit("=");
    let name = normalized(header.name@);
    let value = joined(header.values@)->0;
    assert forall|i: int| 0 <= i < name.len() implies name[i] != '=' by {
        assert(header.name@[i] != '=');
    }
    assert(captured(header, prefixes)->0 =~= name + seq!['='] + value);
    crate::field::law_response_header_key(span, name, value);
}

/// The lengths and the first letters of the fields of a request and of a
/// response that are attributes, which tell them apart.
proof fn lemma_http_fields()
    ensures
        "http.request.method"@.len() == 19,
        "http.request.method"@[0] == 'h',
        "url.path"@.len() == 8,
        "url.path"@[0] == 'u',
        "url.query"@.len() == 9,
        "url.query"@[0] == 'u',
        "url.scheme"@.len() == 10,
        "url.scheme"@[0] == 'u',
        "network.protocol.name"@.len() == 21,
        "network.protocol.name"@[0] == 'n',
        "user_agent.original"@.len() == 19,
        "user_agent.original"@[0] == 'u',
        "server.address"@.len() == 14,
        "server.address"@[0] == 's',
        "http.route"@.len() == 10,
        "http.route"@[0] == 'h',
        "http.response.status_code"@.len() == 25,
        "http.response.status_code"@[0] == 'h',
        "error.type"@.len() == 10,
        "error.type"@[0] == 'e',
        crate::field::is_plain_field("http.request.method"@),
        crate::field::is_plain_field("url.path"@),
        crate::field::is_plain_field("url.query"@),
        crate::field::is_plain_field("url.scheme"@),
        crate::field::is_plain_field("network.protocol.name"@),
        crate::field::is_plain_field("user_agent.original"@),
        crate::field::is_plain_field("server.address"@),
        crate::field::is_plain_field("http.route"@),
        crate::field::is_plain_field("http.response.status_code"@),
        crate::field::is_plain_field("error.type"@),
{
    crate::field::lemma_field_names();
    reveal_strlit("http.request.method");
    reveal_strlit("url.path");
    reveal_strlit("url.query");
    reveal_strlit("url.scheme");
    reveal_strlit("network.protocol.name");
    reveal_strlit("user_agent.original");
    reveal_strlit("server.address");
    reveal_strlit("http.route");
    reveal_strlit("http.response.status_code");
    reveal_strlit("error.type");
    assert("http.request.method"@.len() == 19 && "http.request.method"@[0] == 'h');
    assert("url.path"@.len() == 8 && "url.path"@[0] == 'u');
    assert("url.query"@.len() == 9 && "url.query"@[0] == 'u');
    assert("url.scheme"@.len() == 10 && "url.scheme"@[0] == 'u');
    assert("network.protocol.name"@.len() == 21 && "network.protocol.name"@[0] == 'n');
    assert("user_agent.original"@.len() == 19 && "user_agent.original"@[0] == 'u');
    assert("server.address"@.len() == 14 && "server.address"@[0] == 's');
    assert("http.route"@.len() == 10 && "http.route"@[0] == 'h');
    assert("http.response.status_code"@.len() == 25 && "http.response.status_code"@[0] == 'h');
    assert("error.type"@.len() == 10 && "error.type"@[0] == 'e');
}

/// A plain field that may be absent, recorded where there is room.
proof fn lemma_optional_field(
    span: crate::span::SpanView,
    name: Seq<char>,
    value: Option<Seq<char>>,
)
    requires
        span.wf(),
        crate::field::is_plain_field(name),
        span.attributes.len() < crate::span::MAX_ATTRIBUTES,
        crate::span::attribute(span.attributes, name) is None,
    ensures
        ({
            let out = crate::field::visited_all(span, text_field(name, value));
            &&& out.wf()
            &&& out.attributes.len() <= span.attributes.len() + 1
            &&& out.name == span.name
            &&& out.status == span.status
            &&& out.dropped_attributes_count == span.dropped_attributes_count
            &&& crate::span::attribute(out.attributes, name) == (match value {
                Some(s) => Some(crate::span::ValueView::Text(s)),
                None => None,
            })
            &&& forall|key: Seq<char>|
                key != name ==> #[trigger] crate::span::attribute(out.attributes, key)
                    == crate::span::attribute(span.attributes, key)
        }),
{
    match value {
        Some(s) => {
            let v = crate::span::ValueView::Text(s);
            let fields = text_field(name, value);
            assert(fields.drop_last() =~= seq![]);
            assert(crate::field::visited_all(span, fields.drop_last()) == span);
            let out = crate::field::visited_all(span, fields);
            assert(out == span.visited(name, v));
            crate::field::law_visited_span_stays_well_formed(span, name, v);
            crate::span::law_recorded_attribute_is_found(span, name, v);
            assert forall|key: Seq<char>| key != name implies #[trigger] crate::span::attribute(
                out.attributes,
                key,
            ) == crate::span::attribute(span.attributes, key) by {
                crate::span::lemma_attribute_stays(span, key, name, v);
            }
        },
        None => {},
    }
}

/// The value of an optional text attribute.
pub open spec fn text_value(s: Option<String>) -> Option<crate::span::ValueView> {
    match s {
        Some(t) => Some(crate::span::ValueView::Text(t@)),
        None => None,
    }
}

/// The span of a request says what the request says: its name is the method and
/// the matched route, and each attribute is there exactly where the request has
/// it. Nothing is dropped, and there is room for the response.
pub proof fn law_request_is_recorded(
    head: RequestHead,
    trace_id: crate::context::TraceId,
    span_id: crate::context::SpanId,
    parent: Option<crate::context::SpanId>,
    name: Seq<char>,
    start_time: crate::time::Timestamp,
)
    ensures
        ({
            let fresh = crate::span::fresh_span(trace_id, span_id, parent, name, start_time);
            let span = crate::field::visited_all(fresh, request_fields(head));
            &&& span.wf()
            &&& span.name == span_name(head)
            &&& head.route matches Some(route) ==> {
                &&& span.name.len() == head.method@.len() + 1 + route@.len()
                &&& span.name.take(head.method@.len() as int) == head.method@
                &&& span.name[head.method@.len() as int] == ' '
                &&& span.name.skip(head.method@.len() as int + 1) == route@
            }
            &&& head.route is None ==> span.name == head.method@
            &&& span.status is Unset
            &&& span.dropped_attributes_count == 0
            &&& span.attributes.len() <= 8
            &&& crate::span::attribute(span.attributes, "http.request.method"@) == Some(
                crate::span::ValueView::Text(head.method@),
            )
            &&& crate::span::attribute(span.attributes, "url.path"@) == Some(
                crate::span::ValueView::Text(head.path@),
            )
            &&& crate::span::attribute(span.attributes, "url.query"@) == text_value(head.query)
            &&& crate::span::attribute(span.attributes, "url.scheme"@) == Some(
                crate::span::ValueView::Text(
                    match head.scheme {
                        Some(s) => s@,
                        None => "http"@,
                    },
                ),
            )
            &&& crate::span::attribute(span.attributes, "network.protocol.name"@) == Some(
                crate::span::ValueView::Text("http"@),
            )
            &&& crate::span::attribute(span.attributes, "user_agent.original"@) == text_value(
                head.user_agent,
            )
            &&& crate::span::attribute(span.attributes, "server.address"@) == text_value(head.host)
            &&& crate::span::attribute(span.attributes, "http.route"@) == text_value(head.route)
        }),
{
    lemma_http_fields();
    crate::field::lemma_field_names();
    let scheme = match head.scheme {
        Some(s) => Some(s@),
        None => Some("http"@),
    };
    let f1 = text_field("http.request.method"@, Some(head.method@));
    let f2 = text_field("url.path"@, Some(head.path@));
    let f3 = text_field("url.query"@, crate::sink::text_view(head.query));
    let f4 = text_field("url.scheme"@, scheme);
    let f5 = text_field("network.protocol.name"@, Some("http"@));
    let f6 = text_field("otel.name"@, Some(span_name(head)));
    let f7 = text_field("user_agent.original"@, crate::sink::text_view(head.user_agent));
    let f8 = text_field("server.address"@, crate::sink::text_view(head.host));
    let f9 = text_field("http.route"@, crate::sink::text_view(head.route));
    let s0 = crate::span::fresh_span(trace_id, span_id, parent, name, start_time);
    let s1 = crate::field::visited_all(s0, f1);
    let s2 = crate::field::visited_all(s1, f2);
    let s3 = crate::field::visited_all(s2, f3);
    let s4 = crate::field::visited_all(s3, f4);
    let s5 = crate::field::visited_all(s4, f5);
    let s6 = crate::field::visited_all(s5, f6);
    let s7 = crate::field::visited_all(s6, f7);
    let s8 = crate::field::visited_all(s7, f8);
    let s9 = crate::field::visited_all(s8, f9);
    lemma_optional_field(s0, "http.request.method"@, Some(head.method@));
    lemma_optional_field(s1, "url.path"@, Some(head.path@));
    lemma_optional_field(s2, "url.query"@, crate::sink::text_view(head.query));
    lemma_optional_field(s3, "url.scheme"@, scheme);
    lemma_optional_field(s4, "network.protocol.name"@, Some("http"@));
    assert(f6.drop_last() =~= seq![]);
    assert(crate::field::visited_all(s5, f6.drop_last()) == s5);
    assert(s6 == crate::span::SpanView { name: span_name(head), ..s5 });
    lemma_optional_field(s6, "user_agent.original"@, crate::sink::text_view(head.user_agent));
    lemma_optional_field(s7, "server.address"@, crate::sink::text_view(head.host));
    lemma_optional_field(s8, "http.route"@, crate::sink::text_view(head.route));
    crate::field::lemma_visited_all_append(s0, f1, f2);
    crate::field::lemma_visited_all_append(s0, f1 + f2, f3);
    crate::field::lemma_visited_all_append(s0, f1 + f2 + f3, f4);
    crate::field::lemma_visited_all_append(s0, f1 + f2 + f3 + f4, f5);
    crate::field::lemma_visited_all_append(s0, f1 + f2 + f3 + f4 + f5, f6);
    crate::field::lemma_visited_all_append(s0, f1 + f2 + f3 + f4 + f5 + f6, f7);
    crate::field::lemma_visited_all_append(s0, f1 + f2 + f3 + f4 + f5 + f6 + f7, f8);
    crate::field::lemma_visited_all_append(s0, f1 + f2 + f3 + f4 + f5 + f6 + f7 + f8, f9);
    assert(s9.name == span_name(head));
    law_span_name(head);
}

/// The status of a response is recorded on any span with room for it: the code
/// always, and for a server error also the error status and the type of the
/// error. Any other code leaves the status alone.
pub proof fn law_response_status_is_recorded(span: crate::span::SpanView, status: u16)
    requires
        span.wf(),
        span.attributes.len() + 2 <= crate::span::MAX_ATTRIBUTES,
    ensures
        ({
            let out = crate::field::visited_all(span, status_fields(status));
            &&& crate::span::attribute(out.attributes, "http.response.status_code"@) == Some(
                crate::span::ValueView::Int(status as i64),
            )
            &&& status < 500 ==> out.status == span.status
            &&& status >= 500 ==> out.status is Error
            &&& status >= 500 ==> crate::span::attribute(out.attributes, "error.type"@) == Some(
                crate::span::ValueView::Text(crate::text::decimal(status as nat)),
            )
        }),
{
    lemma_http_fields();
    crate::field::lemma_field_names();
    let code = crate::span::ValueView::Int(status as i64);
    let f1 = seq![("http.response.status_code"@, code)];
    let s1 = span.visited("http.response.status_code"@, code);
    assert(f1.drop_last() =~= seq![]);
    assert(crate::field::visited_all(span, f1.drop_last()) == span);
    assert(crate::field::visited_all(span, f1) == s1);
    crate::span::law_recorded_attribute_is_found(span, "http.response.status_code"@, code);
    crate::field::law_visited_span_stays_well_formed(span, "http.response.status_code"@, code);
    if status >= 500 {
        let error = crate::span::ValueView::Text("error"@);
        let kind = crate::span::ValueView::Text(crate::text::decimal(status as nat));
        let f2 = seq![("otel.status_code"@, error)];
        let f3 = seq![("error.type"@, kind)];
        let s2 = s1.visited("otel.status_code"@, error);
        let s3 = s2.visited("error.type"@, kind);
        assert((f1 + f2).drop_last() =~= f1);
        assert((f1 + f2).last() == f2[0]);
        assert(crate::field::visited_all(span, f1 + f2) == s2);
        assert((f1 + f2 + f3).drop_last() =~= f1 + f2);
        assert((f1 + f2 + f3).last() == f3[0]);
        assert(crate::field::visited_all(span, f1 + f2 + f3) == s3);
        crate::span::lemma_attribute_index(span.attributes, "http.response.status_code"@);
        assert(s1.attributes.len() <= span.attributes.len() + 1);
        reveal_strlit("error");
        reveal_strlit("ok");
        reveal_strlit("OK");
        crate::field::law_control_fields_are_no_attributes(
            s1,
            "otel.status_code"@,
            error,
            "http.response.status_code"@,
        );
        crate::field::law_visited_span_stays_well_formed(s1, "otel.status_code"@, error);
        crate::span::law_recorded_attribute_is_found(s2, "error.type"@, kind);
        crate::span::lemma_attribute_stays(s2, "http.response.status_code"@, "error.type"@, kind);
    }
}

/// The name of a request's span is the method, a space and the matched route; it
/// is the method alone where no route matched.
pub proof fn law_span_name(head: RequestHead)
    ensures
        head.route matches Some(route) ==> {
            &&& span_name(head).len() == head.method@.len() + 1 + route@.len()
            &&& span_name(head).take(head.method@.len() as int) == head.method@
            &&& span_name(head)[head.method@.len() as int] == ' '
            &&& span_name(head).skip(head.method@.len() as int + 1) == route@
        },
        head.route is None ==> span_name(head) == head.method@,
{
    reveal_strlit(" ");
    if let Some(route) = head.route {
        assert(span_name(head).take(head.method@.len() as int) =~= head.method@);
        assert(span_name(head).skip(head.method@.len() as int + 1) =~= route@);
    }
}

/// The span of a request with an accepted `traceparent` and no local parent is
/// the child that the header announces: it is in the header's trace, its parent
/// is the header's, it is sampled exactly when the lowest bit of the header's
/// flags is set, and it carries the trace state of the request.
pub proof fn law_request_joins_announced_trace(
    remote: RemoteContext,
    head: RequestHead,
    parent: crate::layer::RemoteParentInfo,
    span_id: crate::context::SpanId,
    name: Seq<char>,
    start_time: crate::time::Timestamp,
)
    requires
        remote_says(Some(remote), head),
        Some(parent.trace_id@) == remote_fields(remote).trace_id,
        crate::layer::span_bytes(parent.parent_span_id) == remote_fields(remote).parent_span_id,
        Some(parent.is_sampled) == remote_fields(remote).is_sampled,
        remote_fields(remote).trace_state matches Some(s) && crate::span::state_view(
            parent.trace_state,
        ) == crate::propagation::tracestate::kept_state(s),
    ensures
        head.traceparent matches Some(header)
            && crate::propagation::traceparent::parsed_traceparent(header@) matches Ok(tp) && {
            let lineage = crate::layer::lineage_of(None, None, Some(parent));
            let span = crate::layer::started(
                lineage,
                parent.trace_id,
                span_id,
                name,
                start_time,
            );
            &&& lineage.trace_id == Some(parent.trace_id)
            &&& span.trace_id@ == tp.trace_id
            &&& span.parent_span_id matches Some(id) && id@ == tp.parent_id
            &&& span.is_sampled <==> tp.flags & 1 == 1
            &&& span.trace_state == (match head.tracestate {
                Some(s) => crate::propagation::tracestate::kept_state(s@),
                None => None,
            })
        },
{
    law_trace_joins(remote, head);
    let tp = announced_parent(head)->0;
    crate::propagation::traceparent::law_sampled_is_lowest_bit(tp.flags);
    crate::layer::law_remote_parent_is_adopted(parent, span_id, name, start_time);
}

/// A remote parent is there exactly when the request has a `traceparent` header
/// that is accepted.
pub proof fn law_remote_parent_needs_header(remote: Option<RemoteContext>, head: RequestHead)
    requires
        remote_says(remote, head),
    ensures
        remote is Some <==> (head.traceparent matches Some(s)
            && crate::propagation::traceparent::parsed_traceparent(s@) is Ok),
{
}

/// The fields of a request carry the method, the path, the scheme and the
/// protocol always, and the rest where the request has it, each under its own
/// name; a request without a scheme is an `http` one.
pub proof fn law_request_fields(head: RequestHead, name: Seq<char>, value: Seq<char>)
    ensures
        text_field(name, Some(value)) == seq![(name, crate::span::ValueView::Text(value))],
        text_field(name, None).len() == 0,
        request_fields(head)[0] == ("http.request.method"@, crate::span::ValueView::Text(head.method@)),
        request_fields(head)[1] == ("url.path"@, crate::span::ValueView::Text(head.path@)),
        head.query matches Some(q) ==> request_fields(head)[2] == (
            "url.query"@,
            crate::span::ValueView::Text(q@),
        ),
        request_fields(head).len() == 5 + (if head.query is Some {
            1int
        } else {
            0
        }) + (if head.user_agent is Some {
            1int
        } else {
            0
        }) + (if head.host is Some {
            1int
        } else {
            0
        }) + (if head.route is Some {
            1int
        } else {
            0
        }),
{
}

/// A header name is normalized character by character: capital letters become
/// small ones, hyphens become underscores, and nothing else changes.
pub proof fn law_normalized_names(name: Seq<char>, i: int)
    requires
        0 <= i < name.len(),
    ensures
        normalized(name).len() == name.len(),
        name[i] == '-' ==> normalized(name)[i] == '_',
        name[i] != '-' && !('A' <= name[i] <= 'Z') ==> normalized(name)[i] == name[i],
        forall|k: int|
            0 <= k < 26 && name[i] == #[trigger] "ABCDEFGHIJKLMNOPQRSTUVWXYZ"@[k] ==> normalized(
                name,
            )[i] == "abcdefghijklmnopqrstuvwxyz"@[k],
        normalized(name)[i] != '-',
{
    crate::text::law_lowercase(name, i);
    reveal_strlit("ABCDEFGHIJKLMNOPQRSTUVWXYZ");
    reveal_strlit("abcdefghijklmnopqrstuvwxyz");
}

/// The five headers that carry secrets are known in any case of their letters,
/// and no other is taken for one of them.
pub proof fn law_sensitive_names(name: Seq<char>)
    ensures
        crate::text::lowercase(name) == "authorization"@ ==> is_sensitive(name),
        crate::text::lowercase(name) == "cookie"@ ==> is_sensitive(name),
        crate::text::lowercase(name) == "set-cookie"@ ==> is_sensitive(name),
        crate::text::lowercase(name) == "proxy-authorization"@ ==> is_sensitive(name),
        crate::text::lowercase(name) == "proxy-authenticate"@ ==> is_sensitive(name),
        is_sensitive(name) ==> crate::text::lowercase(name) == "authorization"@
            || crate::text::lowercase(name) == "cookie"@ || crate::text::lowercase(name)
            == "set-cookie"@ || crate::text::lowercase(name) == "proxy-authorization"@
            || crate::text::lowercase(name) == "proxy-authenticate"@,
{
}

/// The values of a header that are text are joined by commas, in order; those
/// that are not text are left out, and where none is left there is no value.
pub proof fn law_joined_values(values: Seq<Option<String>>, last: String)
    ensures
        joined(seq![]) is None,
        joined(values.push(None)) == joined(values),
        joined(values) is None ==> joined(values.push(Some(last))) == Some(last@),
        joined(values) matches Some(before) ==> joined(values.push(Some(last))) == Some(
            before + seq![','] + last@,
        ),
        joined(values) is None <==> forall|i: int|
            0 <= i < values.len() ==> (#[trigger] values[i]) is None,
    decreases values.len(),
{
    reveal_strlit(",");
    assert(","@ =~= seq![',']);
    assert(values.push(None).drop_last() =~= values);
    assert(values.push(Some(last)).drop_last() =~= values);
    if values.len() > 0 {
        let init = values.drop_last();
        law_joined_values(init, last);
        assert forall|i: int| 0 <= i < init.len() implies #[trigger] init[i] == values[i] by {}
        assert(values.last() == values[values.len() - 1]);
        if forall|i: int| 0 <= i < values.len() ==> (#[trigger] values[i]) is None {
            assert forall|i: int| 0 <= i < init.len() implies (#[trigger] init[i]) is None by {
                assert(values[i] is None);
            }
        }
        if joined(values) is None {
            assert forall|i: int| 0 <= i < values.len() implies (#[trigger] values[i]) is None by {
                if i < init.len() {
                    assert(init[i] is None);
                }
            }
        }
    }
}

/// A header is captured exactly when it carries no secrets, its name starts with
/// one of the prefixes, and one of its values is text. What is captured is the
/// normalized name, an equals sign and the joined values.
pub proof fn law_captured_headers(header: ResponseHeader, prefixes: Seq<String>)
    ensures
        captured(header, prefixes) is Some <==> {
            &&& !is_sensitive(header.name@)
            &&& exists|i: int|
                0 <= i < prefixes.len() && (#[trigger] prefixes[i])@.is_prefix_of(
                    crate::text::lowercase(header.name@),
                )
            &&& exists|i: int| 0 <= i < header.values@.len() && (#[trigger] header.values@[i]) is Some
        },
        captured(header, prefixes) matches Some(text) ==> {
            &&& text.take(header.name@.len() as int) == normalized(header.name@)
            &&& text[header.name@.len() as int] == '='
            &&& Some(text.skip(header.name@.len() as int + 1)) == joined(header.values@)
        },
{
    reveal_strlit("=");
    law_joined_values(header.values@, header.name);
    if joined(header.values@) is Some {
        let i = choose|i: int|
            0 <= i < header.values@.len() && !((#[trigger] header.values@[i]) is None);
        assert(header.values@[i] is Some);
    }
    if let Some(text) = captured(header, prefixes) {
        let name = normalized(header.name@);
        let value = joined(header.values@)->0;
        assert(text =~= name + "="@ + value);
        assert(text.take(name.len() as int) =~= name);
        assert(text.skip(name.len() as int + 1) =~= value);
    }
}

/// The fields of some headers and then of more of them are those of all: each
/// captured header is one field, in order.
pub proof fn law_header_fields(
    a: Seq<ResponseHeader>,
    b: Seq<ResponseHeader>,
    prefixes: Seq<String>,
)
    ensures
        header_fields(a + b, prefixes) == header_fields(a, prefixes) + header_fields(b, prefixes),
        a.len() == 1 && captured(a[0], prefixes) is None ==> header_fields(a, prefixes).len() == 0,
        a.len() == 1 ==> (captured(a[0], prefixes) matches Some(text) ==> header_fields(a, prefixes)
            == seq![("http.response.header"@, crate::span::ValueView::Text(text))]),
    decreases b.len(),
{
    if b.len() == 0 {
        assert(a + b =~= a);
        assert(header_fields(a, prefixes) + header_fields(b, prefixes) =~= header_fields(
            a,
            prefixes,
        ));
    } else {
        assert((a + b).drop_last() =~= a + b.drop_last());
        assert((a + b).last() == b.last());
        law_header_fields(a, b.drop_last(), prefixes);
        assert(header_fields(a + b, prefixes) =~= header_fields(a, prefixes) + header_fields(
            b,
            prefixes,
        ));
    }
    if a.len() == 1 {
        assert(a.drop_last() =~= seq![]);
        assert(header_fields(a.drop_last(), prefixes) =~= seq![]);
        assert(a.last() == a[0]);
        if let Some(text) = captured(a[0], prefixes) {
            assert(header_fields(a, prefixes) =~= seq![
                ("http.response.header"@, crate::span::ValueView::Text(text)),
            ]);
        }
    }
}

/// A service that failed without a response leaves an error status and the type
/// of the error on any span with room for it.
pub proof fn law_failure_is_recorded(span: crate::span::SpanView, error_type: Seq<char>)
    requires
        span.wf(),
        span.attributes.len() + 1 <= 16,
    ensures
        ({
            let out = crate::field::visited_all(span, failure_fields(error_type));
            &&& out.status is Error
            &&& crate::span::attribute(out.attributes, "error.type"@) == Some(
                crate::span::ValueView::Text(error_type),
            )
        }),
{
    lemma_http_fields();
    crate::field::lemma_field_names();
    let error = crate::span::ValueView::Text("error"@);
    let kind = crate::span::ValueView::Text(error_type);
    let f1 = seq![("otel.status_code"@, error)];
    let f2 = seq![("error.type"@, kind)];
    let s1 = span.visited("otel.status_code"@, error);
    assert(f1.drop_last() =~= seq![]);
    assert(crate::field::visited_all(span, f1.drop_last()) == span);
    assert(crate::field::visited_all(span, f1) == s1);
    assert(failure_fields(error_type) =~= f1 + f2);
    assert((f1 + f2).drop_last() =~= f1);
    assert(crate::field::visited_all(span, f1 + f2) == s1.visited("error.type"@, kind));
    crate::field::law_status_fields(span, "error"@);
    crate::field::law_control_fields_are_no_attributes(
        span,
        "otel.status_code"@,
        error,
        "error.type"@,
    );
    crate::field::law_visited_span_stays_well_formed(span, "otel.status_code"@, error);
    crate::span::law_recorded_attribute_is_found(s1, "error.type"@, kind);
    crate::field::law_other_fields(s1, "error.type"@, kind);
}

/// A configuration is refused exactly when it has a sink and is not disabled but
/// has no service name. A tracer keeps a configuration that can export as it is.
pub proof fn law_tracer_configuration(config: crate::config::ConfigView)
    ensures
        misconfigured(config) <==> !config.disabled && config.sink_uri is Some
            && config.service_name is None,
        config.endpoint is Some && config.service_name is Some ==> settled(config) == config,
        config.endpoint is None || config.service_name is None ==> {
            &&& settled(config).disabled
            &&& settled(config).endpoint is None && settled(config).sink_uri is None
            &&& settled(config).exporter == crate::sink::ExporterKind::Disabled
            &&& settled(config).service_name == config.service_name
            &&& settled(config).headers == config.headers
            &&& settled(config).resource_attributes == config.resource_attributes
        },
        !settled(crate::config::default_config()).enabled(),
{
}

/// Whatever is recorded of a request names its span by the request: among the
/// fields there is a name, which is the method, a space and the matched route,
/// or the method alone where no route matched.
pub proof fn law_root_span_is_named(head: RequestHead, r: RootSpan)
    requires
        call_ensures(build_root_span, (&head,), r),
    ensures
        exists|i: int|
            0 <= i < r.fields@.len() && (#[trigger] r.fields@[i]).0@ == "otel.name"@ && (
            r.fields@[i].1@ matches crate::span::ValueView::Text(name) && match head.route {
                Some(route) => {
                    &&& name.len() == head.method@.len() + 1 + route@.len()
                    &&& name.take(head.method@.len() as int) == head.method@
                    &&& name[head.method@.len() as int] == ' '
                    &&& name.skip(head.method@.len() as int + 1) == route@
                },
                None => name == head.method@,
            }),
        r.remote is Some <==> (head.traceparent matches Some(s)
            && crate::propagation::traceparent::parsed_traceparent(s@) is Ok),
{
    law_span_name(head);
    law_remote_parent_needs_header(r.remote, head);
    let at: int = if head.query is Some {
        5
    } else {
        4
    };
    let list = request_fields(head);
    assert(fields_view(r.fields@) == list);
    assert(r.fields@.len() == list.len());
    assert(list[at] == ("otel.name"@, crate::span::ValueView::Text(span_name(head))));
    assert(fields_view(r.fields@)[at] == (r.fields@[at].0@, r.fields@[at].1@));
}

/// Whatever is recorded of a response holds its status code first, and, for a
/// server error, an error status and the code in decimal as the type of the
/// error.
pub proof fn law_response_is_recorded(
    status: u16,
    headers: Vec<ResponseHeader>,
    prefixes: Vec<String>,
    r: Vec<(&'static str, AttributeValue)>,
)
    requires
        call_ensures(response_fields, (status, &headers, &prefixes), r),
    ensures
        r@.len() > 0,
        r@[0].0@ == "http.response.status_code"@,
        r@[0].1@ == crate::span::ValueView::Int(status as i64),
        status >= 500 ==> {
            &&& r@.len() >= 3
            &&& r@[1].0@ == "otel.status_code"@
            &&& r@[1].1@ == crate::span::ValueView::Text("error"@)
            &&& r@[2].0@ == "error.type"@
            &&& r@[2].1@ matches crate::span::ValueView::Text(t) && crate::text::unsigned_value(t)
                == Some(status as nat)
        },
        status < 500 && headers@.len() == 0 ==> r@.len() == 1,
{
    crate::text::law_decimal_reads_back(status as nat);
    let list = status_fields(status) + header_fields(headers@, prefixes@);
    assert(fields_view(r@) == list);
    assert(list.len() == r@.len());
    assert(fields_view(r@)[0] == (r@[0].0@, r@[0].1@));
    if status >= 500 {
        assert(fields_view(r@)[1] == (r@[1].0@, r@[1].1@));
        assert(fields_view(r@)[2] == (r@[2].0@, r@[2].1@));
    }
}

/// Whatever a setter of the builder gives is the builder with that one thing set.
/// Resource attributes come behind those that were given before.
pub proof fn law_builder_setters(
    b: TracerBuilder,
    size: usize,
    delay: Duration,
    headers: Vec<(String, String)>,
    prefixes: Vec<String>,
    r: TracerBuilder,
)
    ensures
        call_ensures(TracerBuilder::with_max_batch_size, (b, size), r) ==> r@ == (BuilderView {
            max_batch_size: Some(size),
            ..b@
        }),
        call_ensures(TracerBuilder::with_schedule_delay, (b, delay), r) ==> r@ == (BuilderView {
            schedule_delay: Some(delay),
            ..b@
        }),
        call_ensures(TracerBuilder::with_headers, (b, headers), r) ==> r@.config.headers.len()
            == headers@.len() && (forall|i: int|
            0 <= i < headers@.len() ==> (#[trigger] r@.config.headers[i]) == (
                headers@[i].0@,
                headers@[i].1@,
            )),
        call_ensures(TracerBuilder::with_capture_header_prefixes, (b, prefixes), r)
            ==> r@.config.capture_header_prefixes.len() == prefixes@.len() && (forall|i: int|
            0 <= i < prefixes@.len() ==> (#[trigger] r@.config.capture_header_prefixes[i])
                == prefixes@[i]@),
        call_ensures(TracerBuilder::with_resource_attributes, (b, headers), r)
            ==> r@.resource_attributes.len() == b@.resource_attributes.len() + headers@.len() && (
        forall|i: int|
            0 <= i < b@.resource_attributes.len() ==> (#[trigger] r@.resource_attributes[i])
                == b@.resource_attributes[i]) && (forall|i: int|
            0 <= i < headers@.len() ==> (#[trigger] r@.resource_attributes[b@.resource_attributes.len()
                + i]) == (headers@[i].0@, headers@[i].1@)),
{
}

/// Whatever tracer is made is one of a configuration that can export, kept as it
/// is, or a disabled one. The one error is a sink without a service name.
pub proof fn law_tracers_are_settled(config: Config, t: Tracer, r: Result<Tracer, ConfigError>)
    ensures
        call_ensures(Tracer::from_config, (config,), t) && config@.endpoint is Some
            && config@.service_name is Some ==> t@ == config@,
        call_ensures(Tracer::from_config, (config,), t) && (config@.endpoint is None
            || config@.service_name is None) ==> t@.disabled && t@.endpoint is None
            && t@.sink_uri is None,
        call_ensures(Tracer::try_from_config, (config,), r) ==> (r is Err <==> !config@.disabled
            && config@.sink_uri is Some && config@.service_name is None),
        call_ensures(Tracer::try_from_config, (config,), r) ==> (r matches Err(e) ==> e
            == ConfigError::MissingServiceName),
        call_ensures(Tracer::try_from_config, (config,), r) ==> (r matches Ok(tracer) ==> (
        config@.endpoint is Some && config@.service_name is Some ==> tracer@ == config@)),
{
}

/// Where export is enabled every request gets a span, and where it is not, none
/// does.
pub proof fn law_requests_are_traced(enabled: bool, head: RequestHead, r: Option<RootSpan>)
    requires
        call_ensures(plan_request, (enabled, &head), r),
    ensures
        r is Some <==> enabled,
        r matches Some(root) ==> fields_view(root.fields@) == request_fields(head),
{
}

/// A builder on which nothing was set leaves everything to the environment.
pub proof fn law_empty_builder_changes_nothing(env: crate::config::ConfigView, r: TracerBuilder)
    ensures
        overlaid(env, empty_builder()) == env,
        call_ensures(TracerBuilder::new, (), r) || call_ensures(Tracer::builder, (), r)
            ==> overlaid(env, r@) == env,
{
}

/// Whatever is made of prefixes is the same prefixes in small letters, in order.
pub proof fn law_prefixes_are_lowered(prefixes: Vec<String>, r: Vec<String>, i: int)
    requires
        call_ensures(lower_prefixes, (&prefixes,), r),
    ensures
        r@.len() == prefixes@.len(),
        0 <= i < r@.len() ==> r@[i]@ == crate::text::lowercase(prefixes@[i]@),
{
}

} // verus!
