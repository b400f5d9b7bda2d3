//! Configuration for the tracer and exporter pipeline.
//!
//! Resolved once at construction time with the following precedence:
//!
//! 1. Explicit builder values
//! 2. `OTEL_SINK_URI`
//! 3. Standard `OTEL_*` variables
//! 4. Defaults (export is disabled until a valid sink is configured)

use std::time::Duration;

use vstd::prelude::*;
use vstd::string::*;

use crate::sink::{clone_text, resolve_by, resolve_endpoint, Endpoint, ExporterKind, PathRule};
use crate::text::{parse_unsigned, split_at_first, split_on, str_eq, to_lowercase, trim};

verus! {

/// The duration that `Duration::from_millis` makes of a number of milliseconds.
pub uninterp spec fn millis(ms: u64) -> Duration;

/// `Duration::from_millis` makes a duration of a number of milliseconds, the
/// same one for the same number.
pub assume_specification[ Duration::from_millis ](ms: u64) -> (r: Duration)
    ensures
        r == millis(ms),
;

/// The characters of a list of names and values.
pub open spec fn pairs_view(v: Seq<(String, String)>) -> Seq<(Seq<char>, Seq<char>)> {
    v.map_values(|p: (String, String)| (p.0@, p.1@))
}

/// The characters of a list of texts.
pub open spec fn texts_view(v: Seq<String>) -> Seq<Seq<char>> {
    v.map_values(|s: String| s@)
}

/// The position of the first entry with the given key, or the length of the
/// list when there is none.
pub open spec fn key_index(list: Seq<(Seq<char>, Seq<char>)>, key: Seq<char>) -> int
    decreases list.len(),
{
    if list.len() == 0 || list[0].0 == key {
        0
    } else {
        1 + key_index(list.drop_first(), key)
    }
}

/// The value of the first entry with the given key.
pub open spec fn lookup(list: Seq<(Seq<char>, Seq<char>)>, key: Seq<char>) -> Option<Seq<char>> {
    let i = key_index(list, key);
    if i < list.len() {
        Some(list[i].1)
    } else {
        None
    }
}

proof fn lemma_key_index(list: Seq<(Seq<char>, Seq<char>)>, key: Seq<char>)
    ensures
        0 <= key_index(list, key) <= list.len(),
        forall|i: int| 0 <= i < key_index(list, key) ==> (#[trigger] list[i]).0 != key,
        key_index(list, key) < list.len() ==> list[key_index(list, key)].0 == key,
    decreases list.len(),
{
    if list.len() > 0 && list[0].0 != key {
        let rest = list.drop_first();
        lemma_key_index(rest, key);
        assert forall|i: int| 0 <= i < key_index(list, key) implies (#[trigger] list[i]).0
            != key by {
            if i > 0 {
                assert(list[i] == rest[i - 1]);
            }
        }
    }
}

proof fn lemma_key_index_is(list: Seq<(Seq<char>, Seq<char>)>, key: Seq<char>, at: int)
    requires
        0 <= at <= list.len(),
        forall|i: int| 0 <= i < at ==> (#[trigger] list[i]).0 != key,
        at < list.len() ==> list[at].0 == key,
    ensures
        key_index(list, key) == at,
{
    lemma_key_index(list, key);
    let i = key_index(list, key);
    if i < at {
        assert(list[i].0 != key);
    }
}

/// The position of the first entry with the given key, or the length of the
/// list when there is none.
fn find_key(list: &Vec<(String, String)>, key: &str) -> (r: usize)
    ensures
        r == key_index(pairs_view(list@), key@),
        r <= list@.len(),
{
    let mut i: usize = 0;
    let n: usize = list.len();
    while i < n && !str_eq(list[i].0.as_str(), key)
        invariant
            n == list@.len(),
            i <= n,
            forall|k: int| 0 <= k < i ==> (#[trigger] pairs_view(list@)[k]).0 != key@,
        decreases n - i,
    {
        assert(pairs_view(list@)[i as int].0 != key@);
        i += 1;
    }
    proof {
        if i < n {
            assert(pairs_view(list@)[i as int].0 == key@);
        }
        lemma_key_index_is(pairs_view(list@), key@, i as int);
    }
    i
}

/// A copy of a list of names and values.
pub fn clone_pairs(list: &Vec<(String, String)>) -> (r: Vec<(String, String)>)
    ensures
        r@ == list@,
{
    let mut out: Vec<(String, String)> = Vec::new();
    let mut i: usize = 0;
    while i < list.len()
        invariant
            i <= list@.len(),
            out@ == list@.take(i as int),
        decreases list.len() - i,
    {
        out.push((list[i].0.clone(), list[i].1.clone()));
        assert(list@.take(i + 1) =~= list@.take(i as int).push(list@[i as int]));
        i += 1;
    }
    assert(list@.take(list@.len() as int) =~= list@);
    out
}

/// A copy of a list of texts.
pub fn clone_texts(list: &Vec<String>) -> (r: Vec<String>)
    ensures
        r@ == list@,
{
    let mut out: Vec<String> = Vec::new();
    let mut i: usize = 0;
    while i < list.len()
        invariant
            i <= list@.len(),
            out@ == list@.take(i as int),
        decreases list.len() - i,
    {
        out.push(list[i].clone());
        assert(list@.take(i + 1) =~= list@.take(i as int).push(list@[i as int]));
        i += 1;
    }
    assert(list@.take(list@.len() as int) =~= list@);
    out
}

/// The environment variables of a process, by name.
#[derive(Debug, PartialEq, Eq)]
pub struct Environment {
    vars: Vec<(String, String)>,
}

impl View for Environment {
    type V = Seq<(Seq<char>, Seq<char>)>;

    closed spec fn view(&self) -> Seq<(Seq<char>, Seq<char>)> {
        pairs_view(self.vars@)
    }
}

impl Environment {
    /// An environment with the given variables.
    pub fn new(vars: Vec<(String, String)>) -> (r: Environment)
        ensures
            r@ == pairs_view(vars@),
    {
        Environment { vars }
    }

    /// The value of a variable, if it is set.
    pub fn get(&self, name: &str) -> (r: Option<&str>)
        ensures
            match r {
                Some(v) => lookup(self@, name@) == Some(v@),
                None => lookup(self@, name@) is None,
            },
    {
        let i: usize = find_key(&self.vars, name);
        if i < self.vars.len() {
            assert(pairs_view(self.vars@)[i as int].1 == self.vars@[i as int].1@);
            Some(self.vars[i].1.as_str())
        } else {
            None
        }
    }
}

/// The pair that one entry of a `key=value` list gives: both sides trimmed, and
/// neither of them empty.
pub open spec fn pair_of(entry: Seq<char>) -> Option<(Seq<char>, Seq<char>)> {
    match crate::text::split_once(crate::text::trimmed(entry), '=') {
        None => None,
        Some((k, v)) => {
            let key = crate::text::trimmed(k);
            let value = crate::text::trimmed(v);
            if key.len() > 0 && value.len() > 0 {
                Some((key, value))
            } else {
                None
            }
        },
    }
}

/// The pairs that the entries give, in order; the others are skipped.
pub open spec fn pairs_of(entries: Seq<Seq<char>>) -> Seq<(Seq<char>, Seq<char>)>
    decreases entries.len(),
{
    if entries.len() == 0 {
        seq![]
    } else {
        let before = pairs_of(entries.drop_last());
        match pair_of(entries.last()) {
            Some(p) => before.push(p),
            None => before,
        }
    }
}

/// The pairs of a comma-separated `key=value` list.
pub open spec fn parsed_pairs(raw: Seq<char>) -> Seq<(Seq<char>, Seq<char>)> {
    pairs_of(crate::text::split(raw, ','))
}

/// Parses `k1=v1,k2=v2` header lists. Malformed entries are skipped.
pub fn parse_headers(raw: &str) -> (r: Vec<(String, String)>)
    ensures
        pairs_view(r@) == parsed_pairs(raw@),
{
    parse_kv_pairs(raw)
}

/// Parses a `key=value,key=value` list, trimming whitespace and skipping any
/// malformed or empty entries.
pub fn parse_kv_pairs(raw: &str) -> (r: Vec<(String, String)>)
    ensures
        pairs_view(r@) == parsed_pairs(raw@),
{
    let entries = split_on(raw, ',');
    let ghost pieces = crate::text::split(raw@, ',');
    let mut out: Vec<(String, String)> = Vec::new();
    let mut i: usize = 0;
    assert(pairs_view(out@) =~= pairs_of(pieces.take(0)));
    while i < entries.len()
        invariant
            i <= entries@.len(),
            entries@.len() == pieces.len(),
            forall|k: int| 0 <= k < entries@.len() ==> #[trigger] entries@[k]@ == pieces[k],
            pairs_view(out@) == pairs_of(pieces.take(i as int)),
        decreases entries.len() - i,
    {
        let ghost before = out@;
        assert(pieces.take(i + 1).drop_last() =~= pieces.take(i as int));
        assert(entries@[i as int]@ == pieces.take(i + 1).last());
        if let Some((k, v)) = split_at_first(trim(entries[i]), '=') {
            let key = trim(k);
            let value = trim(v);
            if !key.is_empty() && !value.is_empty() {
                out.push((key.to_owned(), value.to_owned()));
                assert(pairs_view(out@) =~= pairs_view(before).push((key@, value@)));
            }
        }
        i += 1;
    }
    assert(pieces.take(pieces.len() as int) =~= pieces);
    out
}

/// The non-empty entries of a list, trimmed, in order.
pub open spec fn texts_of(entries: Seq<Seq<char>>) -> Seq<Seq<char>>
    decreases entries.len(),
{
    if entries.len() == 0 {
        seq![]
    } else {
        let before = texts_of(entries.drop_last());
        let last = crate::text::trimmed(entries.last());
        if last.len() > 0 {
            before.push(last)
        } else {
            before
        }
    }
}

/// The non-empty entries of a comma-separated list, trimmed.
fn parse_list(raw: &str) -> (r: Vec<String>)
    ensures
        texts_view(r@) == texts_of(crate::text::split(raw@, ',')),
{
    let entries = split_on(raw, ',');
    let ghost pieces = crate::text::split(raw@, ',');
    let mut out: Vec<String> = Vec::new();
    let mut i: usize = 0;
    assert(texts_view(out@) =~= texts_of(pieces.take(0)));
    while i < entries.len()
        invariant
            i <= entries@.len(),
            entries@.len() == pieces.len(),
            forall|k: int| 0 <= k < entries@.len() ==> #[trigger] entries@[k]@ == pieces[k],
            texts_view(out@) == texts_of(pieces.take(i as int)),
        decreases entries.len() - i,
    {
        let ghost before = out@;
        assert(pieces.take(i + 1).drop_last() =~= pieces.take(i as int));
        assert(entries@[i as int]@ == pieces.take(i + 1).last());
        let entry = trim(entries[i]);
        if !entry.is_empty() {
            out.push(entry.to_owned());
            assert(texts_view(out@) =~= texts_view(before).push(entry@));
        }
        i += 1;
    }
    assert(pieces.take(pieces.len() as int) =~= pieces);
    out
}

/// Configuration for tracing and export. The typed `endpoint` and `exporter`
/// are the resolved form of the sink.
#[derive(Debug, PartialEq, Eq)]
pub struct Config {
    /// Service name attached to the exported resource (required for export).
    pub service_name: Option<String>,
    /// The sink as it was given, for example `http://localhost:4318` (OTLP/HTTP)
    /// or `zipkin+http://localhost:9411` (Zipkin).
    pub sink_uri: Option<String>,
    /// The resolved endpoint.
    pub endpoint: Option<Endpoint>,
    /// The exporter that the endpoint selects.
    pub exporter: ExporterKind,
    /// Headers sent on every export request.
    pub headers: Vec<(String, String)>,
    /// Whether exporting is disabled.
    pub disabled: bool,
    /// Most spans in one export batch (default 512).
    pub max_export_batch_size: usize,
    /// Delay between batch exports (default 5 s).
    pub schedule_delay: Duration,
    /// Prefixes of the response headers to capture as attributes.
    pub capture_header_prefixes: Vec<String>,
    /// Extra resource attributes attached to every exported span. The service
    /// name is never among them: it has its own field.
    pub resource_attributes: Vec<(String, String)>,
}

/// What a configuration says.
#[verifier::ext_equal]
pub ghost struct ConfigView {
    pub service_name: Option<Seq<char>>,
    pub sink_uri: Option<Seq<char>>,
    pub endpoint: Option<crate::sink::EndpointView>,
    pub exporter: ExporterKind,
    pub headers: Seq<(Seq<char>, Seq<char>)>,
    pub disabled: bool,
    pub max_export_batch_size: nat,
    pub schedule_delay: Duration,
    pub capture_header_prefixes: Seq<Seq<char>>,
    pub resource_attributes: Seq<(Seq<char>, Seq<char>)>,
}

/// An optional endpoint, with the parts of its URL.
pub open spec fn endpoint_view(ep: Option<Endpoint>) -> Option<crate::sink::EndpointView> {
    match ep {
        Some(e) => Some(e@),
        None => None,
    }
}

impl View for Config {
    type V = ConfigView;

    open spec fn view(&self) -> ConfigView {
        ConfigView {
            service_name: crate::sink::text_view(self.service_name),
            sink_uri: crate::sink::text_view(self.sink_uri),
            endpoint: endpoint_view(self.endpoint),
            exporter: self.exporter,
            headers: pairs_view(self.headers@),
            disabled: self.disabled,
            max_export_batch_size: self.max_export_batch_size as nat,
            schedule_delay: self.schedule_delay,
            capture_header_prefixes: texts_view(self.capture_header_prefixes@),
            resource_attributes: pairs_view(self.resource_attributes@),
        }
    }
}

/// The configuration before anything is set: export is disabled.
pub open spec fn default_config() -> ConfigView {
    ConfigView {
        service_name: None,
        sink_uri: None,
        endpoint: None,
        exporter: ExporterKind::Disabled,
        headers: seq![],
        disabled: true,
        max_export_batch_size: 512,
        schedule_delay: millis(5000),
        capture_header_prefixes: seq![],
        resource_attributes: seq![],
    }
}

/// A text with more than whitespace in it, trimmed.
pub open spec fn nonblank(s: Seq<char>) -> Option<Seq<char>> {
    let t = crate::text::trimmed(s);
    if t.len() > 0 {
        Some(t)
    } else {
        None
    }
}

/// The list with a value under a key: in place of the first entry of that key,
/// or at the end.
pub open spec fn merged(
    list: Seq<(Seq<char>, Seq<char>)>,
    key: Seq<char>,
    value: Seq<char>,
) -> Seq<(Seq<char>, Seq<char>)> {
    let i = key_index(list, key);
    if i < list.len() {
        list.update(i, (key, value))
    } else {
        list.push((key, value))
    }
}

impl ConfigView {
    /// With export switched off and no sink.
    pub open spec fn off(self) -> ConfigView {
        ConfigView {
            disabled: true,
            sink_uri: None,
            endpoint: None,
            exporter: ExporterKind::Disabled,
            ..self
        }
    }

    /// With a service name, unless it is blank.
    pub open spec fn named(self, name: Seq<char>) -> ConfigView {
        match nonblank(name) {
            Some(n) => ConfigView { service_name: Some(n), ..self },
            None => self,
        }
    }

    /// With a sink, unless it is blank. One that does not resolve is kept as
    /// text only, and no earlier endpoint stays.
    pub open spec fn sunk(self, uri: Seq<char>) -> ConfigView {
        match nonblank(uri) {
            None => self,
            Some(u) => {
                let c = ConfigView { sink_uri: Some(u), disabled: false, ..self };
                match crate::sink::resolved_endpoint(uri) {
                    Ok(ep) => ConfigView {
                        endpoint: Some(ep),
                        exporter: crate::sink::kind_of(ep),
                        ..c
                    },
                    Err(_) => ConfigView {
                        endpoint: None,
                        exporter: ExporterKind::Disabled,
                        ..c
                    },
                }
            },
        }
    }

    /// With one more resource attribute. A service name is no attribute: it
    /// fills the service name if that is still unset.
    pub open spec fn attributed(self, key: Seq<char>, value: Seq<char>) -> ConfigView {
        if key == "service.name"@ {
            if self.service_name is None {
                self.named(value)
            } else {
                self
            }
        } else {
            ConfigView {
                resource_attributes: merged(self.resource_attributes, key, value),
                ..self
            }
        }
    }

    /// With each of the resource attributes, in order.
    pub open spec fn attributed_all(self, list: Seq<(Seq<char>, Seq<char>)>) -> ConfigView
        decreases list.len(),
    {
        if list.len() == 0 {
            self
        } else {
            let before = self.attributed_all(list.drop_last());
            before.attributed(list.last().0, list.last().1)
        }
    }

    /// Whether there is a sink and export is not disabled.
    pub open spec fn enabled(self) -> bool {
        !self.disabled && (self.endpoint is Some || self.sink_uri is Some)
    }

    /// Whether there is both a sink and a service name.
    pub open spec fn exportable(self) -> bool {
        (self.endpoint is Some || self.sink_uri is Some) && self.service_name is Some
    }
}

impl Default for Config {
    fn default() -> (r: Config)
        ensures
            r@ == default_config(),
    {
        let c = Config {
            service_name: None,
            sink_uri: None,
            endpoint: None,
            exporter: ExporterKind::Disabled,
            headers: Vec::new(),
            disabled: true,
            max_export_batch_size: 512,
            schedule_delay: Duration::from_millis(5000),
            capture_header_prefixes: Vec::new(),
            resource_attributes: Vec::new(),
        };
        assert(c@ =~= default_config());
        c
    }
}

impl Clone for Config {
    fn clone(&self) -> (r: Config)
        ensures
            r@ == self@,
    {
        Config {
            service_name: clone_text(&self.service_name),
            sink_uri: clone_text(&self.sink_uri),
            endpoint: match &self.endpoint {
                Some(ep) => Some(ep.clone()),
                None => None,
            },
            exporter: self.exporter,
            headers: clone_pairs(&self.headers),
            disabled: self.disabled,
            max_export_batch_size: self.max_export_batch_size,
            schedule_delay: self.schedule_delay,
            capture_header_prefixes: clone_texts(&self.capture_header_prefixes),
            resource_attributes: clone_pairs(&self.resource_attributes),
        }
    }
}

impl Config {
    /// Whether this configuration results in an enabled exporter pipeline. To
    /// export anything a service name is needed too.
    pub fn is_enabled(&self) -> (r: bool)
        ensures
            r == self@.enabled(),
    {
        !self.disabled && (self.endpoint.is_some() || self.sink_uri.is_some())
    }

    /// Whether the configuration has both a sink and a service name.
    pub fn can_export(&self) -> (r: bool)
        ensures
            r == self@.exportable(),
    {
        (self.endpoint.is_some() || self.sink_uri.is_some()) && self.service_name.is_some()
    }

    /// Sets the service name, unless it is blank.
    pub fn with_service_name(self, name: &str) -> (r: Config)
        ensures
            r@ == self@.named(name@),
    {
        let n = trim(name);
        if n.is_empty() {
            self
        } else {
            Config { service_name: Some(n.to_owned()), ..self }
        }
    }

    /// Sets the sink, unless it is blank, and resolves it when possible. One that
    /// does not resolve leaves no endpoint, not even an earlier one.
    pub fn with_sink_uri(self, uri: &str) -> (r: Config)
        ensures
            r@ == self@.sunk(uri@),
    {
        let u = trim(uri);
        if u.is_empty() {
            return self;
        }
        let mut c = Config {
            sink_uri: Some(u.to_owned()),
            disabled: false,
            endpoint: None,
            exporter: ExporterKind::Disabled,
            ..self
        };
        if let Ok(ep) = resolve_endpoint(uri) {
            c.exporter = ep.kind();
            c.endpoint = Some(ep);
        }
        c
    }

    /// Forces disabled mode.
    pub fn disabled(self) -> (r: Config)
        ensures
            r@ == self@.off(),
    {
        Config {
            disabled: true,
            sink_uri: None,
            endpoint: None,
            exporter: ExporterKind::Disabled,
            ..self
        }
    }

    /// Sets the prefixes of the response headers to capture.
    pub fn with_capture_header_prefixes(self, prefixes: Vec<String>) -> (r: Config)
        ensures
            r@ == (ConfigView { capture_header_prefixes: texts_view(prefixes@), ..self@ }),
    {
        Config { capture_header_prefixes: prefixes, ..self }
    }

    /// Sets the headers sent on every export request.
    pub fn with_headers(self, headers: Vec<(String, String)>) -> (r: Config)
        ensures
            r@ == (ConfigView { headers: pairs_view(headers@), ..self@ }),
    {
        Config { headers, ..self }
    }

    /// Merges resource attributes into the existing ones: an entry whose key
    /// already exists is overwritten, others are appended.
    ///
    /// A `service.name` entry is never stored as an attribute. It becomes the
    /// service name only when that is unset, so an explicit one always wins.
    pub fn with_resource_attributes(self, attributes: Vec<(String, String)>) -> (r: Config)
        ensures
            r@ == self@.attributed_all(pairs_view(attributes@)),
    {
        let ghost list = pairs_view(attributes@);
        let mut c = self;
        let mut i: usize = 0;
        while i < attributes.len()
            invariant
                i <= attributes@.len(),
                list == pairs_view(attributes@),
                c@ == self@.attributed_all(list.take(i as int)),
            decreases attributes.len() - i,
        {
            assert(list.take(i + 1).drop_last() =~= list.take(i as int));
            assert(list.take(i + 1).last() == (attributes@[i as int].0@, attributes@[i as int].1@));
            let key = attributes[i].0.as_str();
            let value = attributes[i].1.as_str();
            c = c.with_resource_attribute(key, value);
            i += 1;
        }
        assert(list.take(list.len() as int) =~= list);
        c
    }

    fn with_resource_attribute(self, key: &str, value: &str) -> (r: Config)
        ensures
            r@ == self@.attributed(key@, value@),
    {
        if str_eq(key, "service.name") {
            if self.service_name.is_none() {
                return self.with_service_name(value);
            }
            return self;
        }
        let mut c = self;
        let at: usize = find_key(&c.resource_attributes, key);
        let ghost before = c.resource_attributes@;
        if at < c.resource_attributes.len() {
            c.resource_attributes.set(at, (key.to_owned(), value.to_owned()));
        } else {
            c.resource_attributes.push((key.to_owned(), value.to_owned()));
        }
        assert(pairs_view(c.resource_attributes@) =~= merged(pairs_view(before), key@, value@));
        c
    }
}

/// The endpoint variable that counts: `OTEL_SINK_URI` if it is set, then the
/// endpoint for traces, then the general one. A blank value means no sink.
pub open spec fn chosen_sink(env: Seq<(Seq<char>, Seq<char>)>) -> Option<Seq<char>> {
    let sink = lookup(env, "OTEL_SINK_URI"@);
    let traces = lookup(env, "OTEL_EXPORTER_OTLP_TRACES_ENDPOINT"@);
    let general = lookup(env, "OTEL_EXPORTER_OTLP_ENDPOINT"@);
    if sink is Some {
        nonblank(sink->0)
    } else if traces is Some {
        nonblank(traces->0)
    } else if general is Some {
        nonblank(general->0)
    } else {
        None
    }
}

/// What the path of the endpoint that counts is good for: the endpoint for
/// traces is used as it is, and the general one is a base.
pub open spec fn chosen_rule(env: Seq<(Seq<char>, Seq<char>)>) -> PathRule {
    if lookup(env, "OTEL_SINK_URI"@) is Some {
        PathRule::Fallback
    } else if lookup(env, "OTEL_EXPORTER_OTLP_TRACES_ENDPOINT"@) is Some {
        PathRule::AsIs
    } else {
        PathRule::Base
    }
}

/// Whether the exporter variable says `none`, in any case.
pub open spec fn exporter_off(env: Seq<(Seq<char>, Seq<char>)>) -> bool {
    match lookup(env, "OTEL_TRACES_EXPORTER"@) {
        Some(v) => crate::text::lowercase(crate::text::trimmed(v)) == "none"@,
        None => false,
    }
}

/// The headers of one variable; none when it is unset or blank.
pub open spec fn headers_in(env: Seq<(Seq<char>, Seq<char>)>, name: Seq<char>) -> Seq<
    (Seq<char>, Seq<char>),
> {
    match lookup(env, name) {
        Some(v) => if nonblank(v) is Some {
            parsed_pairs(v)
        } else {
            seq![]
        },
        None => seq![],
    }
}

/// The positive number that a variable holds, when it is at most `max`.
pub open spec fn number_in(
    env: Seq<(Seq<char>, Seq<char>)>,
    name: Seq<char>,
    max: nat,
) -> Option<nat> {
    match lookup(env, name) {
        Some(v) => match crate::text::unsigned_value(crate::text::trimmed(v)) {
            Some(n) => if 0 < n <= max {
                Some(n)
            } else {
                None
            },
            None => None,
        },
        None => None,
    }
}

/// The header prefixes to capture.
pub open spec fn prefixes_in(env: Seq<(Seq<char>, Seq<char>)>) -> Seq<Seq<char>> {
    match lookup(env, "AUSPEX_CAPTURE_HEADERS_PREFIX"@) {
        Some(v) => if nonblank(v) is Some {
            texts_of(crate::text::split(v, ','))
        } else {
            seq![]
        },
        None => seq![],
    }
}

impl ConfigView {
    /// With a sink that resolves to an endpoint.
    pub open spec fn at(self, uri: Seq<char>, ep: crate::sink::EndpointView) -> ConfigView {
        ConfigView {
            sink_uri: Some(uri),
            disabled: false,
            endpoint: Some(ep),
            exporter: crate::sink::kind_of(ep),
            ..self
        }
    }
}

/// What the environment variables other than the resource attributes ask for.
///
/// A sink that does not resolve disables export, as does an exporter of `none`.
/// Numbers out of range keep the defaults.
pub open spec fn environment_base(env: Seq<(Seq<char>, Seq<char>)>) -> ConfigView {
    let named = match lookup(env, "OTEL_SERVICE_NAME"@) {
        Some(n) => default_config().named(n),
        None => default_config(),
    };
    let sunk = match chosen_sink(env) {
        Some(u) => match crate::sink::ruled_endpoint(u, chosen_rule(env)) {
            Ok(ep) => named.at(u, ep),
            Err(_) => named.off(),
        },
        None => named,
    };
    let gated = if exporter_off(env) {
        sunk.off()
    } else {
        sunk
    };
    let headers = headers_in(env, "OTEL_EXPORTER_OTLP_HEADERS"@);
    ConfigView {
        headers: if headers.len() > 0 {
            headers
        } else {
            headers_in(env, "OTEL_EXPORTER_OTLP_TRACES_HEADERS"@)
        },
        max_export_batch_size: match number_in(env, "OTEL_BSP_MAX_EXPORT_BATCH_SIZE"@, 10_000) {
            Some(n) => n,
            None => 512,
        },
        schedule_delay: match number_in(env, "OTEL_BSP_SCHEDULE_DELAY"@, 3_599_999) {
            Some(n) => millis(n as u64),
            None => millis(5000),
        },
        capture_header_prefixes: prefixes_in(env),
        ..gated
    }
}

/// The configuration that the environment variables ask for. A `service.name`
/// among the resource attributes counts only where `OTEL_SERVICE_NAME` gives
/// none.
pub open spec fn environment_config(env: Seq<(Seq<char>, Seq<char>)>) -> ConfigView {
    match lookup(env, "OTEL_RESOURCE_ATTRIBUTES"@) {
        Some(v) => environment_base(env).attributed_all(parsed_pairs(v)),
        None => environment_base(env),
    }
}

impl Environment {
    /// The endpoint that counts, trimmed, and what its path is good for.
    fn sink(&self) -> (r: Option<(String, PathRule)>)
        ensures
            match r {
                Some((uri, rule)) => chosen_sink(self@) == Some(uri@) && rule == chosen_rule(self@),
                None => chosen_sink(self@) is None,
            },
    {
        let (value, rule) = match self.get("OTEL_SINK_URI") {
            Some(v) => (v, PathRule::Fallback),
            None => match self.get("OTEL_EXPORTER_OTLP_TRACES_ENDPOINT") {
                Some(v) => (v, PathRule::AsIs),
                None => match self.get("OTEL_EXPORTER_OTLP_ENDPOINT") {
                    Some(v) => (v, PathRule::Base),
                    None => {
                        return None;
                    },
                },
            },
        };
        let t = trim(value);
        if t.is_empty() {
            None
        } else {
            Some((t.to_owned(), rule))
        }
    }

    /// Whether the exporter variable says `none`.
    fn exporter_off(&self) -> (r: bool)
        ensures
            r == exporter_off(self@),
    {
        match self.get("OTEL_TRACES_EXPORTER") {
            Some(v) => str_eq(to_lowercase(trim(v)).as_str(), "none"),
            None => false,
        }
    }

    /// The headers of one variable.
    fn headers(&self, name: &str) -> (r: Vec<(String, String)>)
        ensures
            pairs_view(r@) == headers_in(self@, name@),
    {
        if let Some(v) = self.get(name) {
            if !trim(v).is_empty() {
                return parse_headers(v);
            }
        }
        let none: Vec<(String, String)> = Vec::new();
        assert(pairs_view(none@) =~= seq![]);
        none
    }

    /// The positive number that a variable holds, when it is at most `max`.
    fn number(&self, name: &str, max: u64) -> (r: Option<u64>)
        requires
            max <= 0xffff_ffff,
        ensures
            match number_in(self@, name@, max as nat) {
                Some(n) => r == Some(n as u64) && n <= max,
                None => r is None,
            },
    {
        match self.get(name) {
            Some(v) => match parse_unsigned(trim(v), max) {
                Some(n) => if n > 0 {
                    Some(n)
                } else {
                    None
                },
                None => None,
            },
            None => None,
        }
    }

    /// The header prefixes to capture.
    fn prefixes(&self) -> (r: Vec<String>)
        ensures
            texts_view(r@) == prefixes_in(self@),
    {
        if let Some(v) = self.get("AUSPEX_CAPTURE_HEADERS_PREFIX") {
            if !trim(v).is_empty() {
                return parse_list(v);
            }
        }
        let none: Vec<String> = Vec::new();
        assert(texts_view(none@) =~= seq![]);
        none
    }
}

impl Config {
    /// Loads the configuration from the environment, with the documented
    /// precedence. Bad values never fail: they leave the default, or a disabled
    /// configuration.
    pub fn from_env(env: &Environment) -> (r: Config)
        ensures
            r@ == environment_config(env@),
            r.endpoint matches Some(ep) ==> chosen_sink(env@) matches Some(uri)
                && crate::sink::endpoint_follows(ep@, uri, chosen_rule(env@)),
    {
        let mut c = Config::default();
        if let Some(name) = env.get("OTEL_SERVICE_NAME") {
            c = c.with_service_name(name);
        }
        if let Some((uri, rule)) = env.sink() {
            if let Ok(ep) = resolve_by(uri.as_str(), rule) {
                c.sink_uri = Some(uri);
                c.disabled = false;
                c.exporter = ep.kind();
                c.endpoint = Some(ep);
            } else {
                c = c.disabled();
            }
        }
        if env.exporter_off() {
            c = c.disabled();
        }
        c.headers = env.headers("OTEL_EXPORTER_OTLP_HEADERS");
        if c.headers.len() == 0 {
            c.headers = env.headers("OTEL_EXPORTER_OTLP_TRACES_HEADERS");
        }
        if let Some(n) = env.number("OTEL_BSP_MAX_EXPORT_BATCH_SIZE", 10_000) {
            c.max_export_batch_size = n as usize;
        }
        if let Some(ms) = env.number("OTEL_BSP_SCHEDULE_DELAY", 3_599_999) {
            c.schedule_delay = Duration::from_millis(ms);
        }
        c.capture_header_prefixes = env.prefixes();
        if let Some(v) = env.get("OTEL_RESOURCE_ATTRIBUTES") {
            proof {
                law_explicit_service_name_wins(c@, parsed_pairs(v@));
            }
            c = c.with_resource_attributes(parse_kv_pairs(v));
            assert(c@.endpoint == environment_base(env@).endpoint);
        }
        assert(endpoint_view(c.endpoint) == c@.endpoint);
        c
    }
}

/// Whether a configuration's sink is all there or not at all: it is disabled
/// exactly when it has no endpoint, and the exporter is the endpoint's.
pub open spec fn sink_settled(c: ConfigView) -> bool {
    &&& c.disabled <==> c.endpoint is None
    &&& c.sink_uri is Some <==> c.endpoint is Some
    &&& c.exporter == (match c.endpoint {
        Some(ep) => crate::sink::kind_of(ep),
        None => ExporterKind::Disabled,
    })
}

/// Whether the service name is not among the resource attributes, and no key
/// is there twice.
pub open spec fn attributes_settled(list: Seq<(Seq<char>, Seq<char>)>) -> bool {
    &&& forall|i: int| 0 <= i < list.len() ==> (#[trigger] list[i]).0 != "service.name"@
    &&& forall|i: int, j: int|
        0 <= i < j < list.len() ==> (#[trigger] list[i]).0 != (#[trigger] list[j]).0
}

/// The last value that a list gives to a key.
pub open spec fn last_value(list: Seq<(Seq<char>, Seq<char>)>, key: Seq<char>) -> Option<Seq<char>>
    decreases list.len(),
{
    if list.len() == 0 {
        None
    } else if list.last().0 == key {
        Some(list.last().1)
    } else {
        last_value(list.drop_last(), key)
    }
}

proof fn lemma_merged(list: Seq<(Seq<char>, Seq<char>)>, key: Seq<char>, value: Seq<char>)
    ensures
        merged(list, key, value).len() >= list.len(),
        forall|i: int|
            0 <= i < list.len() ==> (#[trigger] merged(list, key, value)[i]).0 == list[i].0,
        attributes_settled(list) && key != "service.name"@ ==> attributes_settled(
            merged(list, key, value),
        ),
        lookup(merged(list, key, value), key) == Some(value),
        forall|k: Seq<char>| k != key ==> #[trigger] lookup(merged(list, key, value), k) == lookup(list, k),
{
    let out = merged(list, key, value);
    lemma_key_index(list, key);
    let at = key_index(list, key);
    lemma_key_index_is(out, key, at);
    assert forall|k: Seq<char>| k != key implies #[trigger] lookup(out, k) == lookup(list, k) by {
        lemma_key_index(list, k);
        let i = key_index(list, k);
        if i < list.len() {
            lemma_key_index_is(out, k, i);
        } else {
            lemma_key_index_is(out, k, out.len() as int);
        }
    }
}

/// Giving resource attributes overwrites matching keys, in place, with the last
/// value given, and leaves every other attribute as it was.
pub proof fn law_attributes_merge_by_key(
    c: ConfigView,
    list: Seq<(Seq<char>, Seq<char>)>,
    key: Seq<char>,
)
    requires
        key != "service.name"@,
    ensures
        lookup(c.attributed_all(list).resource_attributes, key) == (match last_value(list, key) {
            Some(v) => Some(v),
            None => lookup(c.resource_attributes, key),
        }),
        c.attributed_all(list).resource_attributes.len() >= c.resource_attributes.len(),
        forall|i: int|
            0 <= i < c.resource_attributes.len() ==> (#[trigger] c.attributed_all(
                list,
            ).resource_attributes[i]).0 == c.resource_attributes[i].0,
    decreases list.len(),
{
    if list.len() > 0 {
        law_attributes_merge_by_key(c, list.drop_last(), key);
        let before = c.attributed_all(list.drop_last());
        lemma_merged(before.resource_attributes, list.last().0, list.last().1);
    }
}

/// The keys of a list, in order.
pub open spec fn keys_of(list: Seq<(Seq<char>, Seq<char>)>) -> Seq<Seq<char>> {
    list.map_values(|p: (Seq<char>, Seq<char>)| p.0)
}

/// The keys with those of a list behind them, each where it is first seen. The
/// service name is none of them.
pub open spec fn keys_seen(
    keys: Seq<Seq<char>>,
    list: Seq<(Seq<char>, Seq<char>)>,
) -> Seq<Seq<char>>
    decreases list.len(),
{
    if list.len() == 0 {
        keys
    } else {
        let before = keys_seen(keys, list.drop_last());
        let key = list.last().0;
        if key == "service.name"@ || before.contains(key) {
            before
        } else {
            before.push(key)
        }
    }
}

/// Attributes stand in the order in which their keys were first given.
pub proof fn law_attributes_in_order_of_keys(c: ConfigView, list: Seq<(Seq<char>, Seq<char>)>)
    ensures
        keys_of(c.attributed_all(list).resource_attributes) == keys_seen(
            keys_of(c.resource_attributes),
            list,
        ),
    decreases list.len(),
{
    if list.len() > 0 {
        law_attributes_in_order_of_keys(c, list.drop_last());
        let before = c.attributed_all(list.drop_last()).resource_attributes;
        let (key, value) = list.last();
        lemma_key_index(before, key);
        let at = key_index(before, key);
        if at < before.len() {
            assert(keys_of(before)[at] == key);
            assert(keys_of(merged(before, key, value)) =~= keys_of(before));
        } else {
            assert forall|i: int| 0 <= i < before.len() implies keys_of(before)[i] != key by {
                assert(before[i].0 != key);
            }
            assert(keys_of(merged(before, key, value)) =~= keys_of(before).push(key));
        }
    }
}

proof fn lemma_keys_seen(keys: Seq<Seq<char>>, list: Seq<(Seq<char>, Seq<char>)>)
    ensures
        keys.is_prefix_of(keys_seen(keys, list)),
        forall|i: int|
            0 <= i < list.len() && (#[trigger] list[i]).0 != "service.name"@ ==> keys_seen(
                keys,
                list,
            ).contains(list[i].0),
    decreases list.len(),
{
    if list.len() > 0 {
        let init = list.drop_last();
        lemma_keys_seen(keys, init);
        let before = keys_seen(keys, init);
        let after = keys_seen(keys, list);
        assert forall|i: int| 0 <= i < list.len() && (#[trigger] list[i]).0
            != "service.name"@ implies after.contains(list[i].0) by {
            if i < init.len() {
                assert(init[i] == list[i]);
                let k = choose|k: int| 0 <= k < before.len() && before[k] == list[i].0;
                assert(after[k] == list[i].0);
            } else if !before.contains(list[i].0) {
                assert(after[before.len() as int] == list[i].0);
            }
        }
    }
}

proof fn lemma_keys_seen_again(keys: Seq<Seq<char>>, list: Seq<(Seq<char>, Seq<char>)>)
    requires
        forall|i: int|
            0 <= i < list.len() && (#[trigger] list[i]).0 != "service.name"@ ==> keys.contains(
                list[i].0,
            ),
    ensures
        keys_seen(keys, list) == keys,
    decreases list.len(),
{
    if list.len() > 0 {
        let init = list.drop_last();
        assert forall|i: int| 0 <= i < init.len() && (#[trigger] init[i]).0
            != "service.name"@ implies keys.contains(init[i].0) by {
            assert(init[i] == list[i]);
        }
        lemma_keys_seen_again(keys, init);
        assert(list.last() == list[list.len() - 1]);
    }
}

proof fn lemma_no_name_again(
    c: ConfigView,
    d: ConfigView,
    list: Seq<(Seq<char>, Seq<char>)>,
)
    requires
        c.attributed_all(list).service_name is None,
        d.service_name is None,
    ensures
        c.service_name is None,
        d.attributed_all(list).service_name is None,
    decreases list.len(),
{
    if list.len() > 0 {
        lemma_no_name_again(c, d, list.drop_last());
    }
}

/// Giving the same resource attributes once more changes nothing.
pub proof fn law_attributes_merge_once(c: ConfigView, list: Seq<(Seq<char>, Seq<char>)>)
    requires
        attributes_settled(c.resource_attributes),
    ensures
        c.attributed_all(list).attributed_all(list) == c.attributed_all(list),
{
    let once = c.attributed_all(list);
    let twice = once.attributed_all(list);
    let a = once.resource_attributes;
    let b = twice.resource_attributes;
    law_attributes_stay_settled(c, list);
    law_attributes_stay_settled(once, list);
    law_attributes_in_order_of_keys(c, list);
    law_attributes_in_order_of_keys(once, list);
    lemma_keys_seen(keys_of(c.resource_attributes), list);
    lemma_keys_seen_again(keys_of(a), list);
    assert(keys_of(a) == keys_of(b));
    assert(a.len() == keys_of(a).len() && b.len() == keys_of(b).len());
    assert forall|i: int| 0 <= i < a.len() implies a[i] == b[i] by {
        let key = a[i].0;
        assert(keys_of(a)[i] == key && keys_of(b)[i] == b[i].0);
        law_attributes_merge_by_key(c, list, key);
        law_attributes_merge_by_key(once, list, key);
        lemma_key_index_is(a, key, i);
        lemma_key_index_is(b, key, i);
    }
    assert(a =~= b);
    law_explicit_service_name_wins(c, list);
    law_explicit_service_name_wins(once, list);
    if once.service_name is None {
        lemma_no_name_again(c, once, list);
    }
    assert(twice =~= once);
}

proof fn lemma_pairs_of_concat(a: Seq<Seq<char>>, b: Seq<Seq<char>>)
    ensures
        pairs_of(a + b) == pairs_of(a) + pairs_of(b),
    decreases b.len(),
{
    if b.len() == 0 {
        assert(a + b =~= a);
        assert(pairs_of(a) + pairs_of(b) =~= pairs_of(a));
    } else {
        assert((a + b).drop_last() =~= a + b.drop_last());
        lemma_pairs_of_concat(a, b.drop_last());
        assert(pairs_of(a + b) =~= pairs_of(a) + pairs_of(b));
    }
}

/// A list of pairs can be split at any comma: it gives the pairs of what stands
/// before the comma and then those of what stands behind it.
pub proof fn law_pairs_split_at_commas(a: Seq<char>, b: Seq<char>)
    ensures
        parsed_pairs(a + seq![','] + b) == parsed_pairs(a) + parsed_pairs(b),
{
    crate::text::lemma_split_concat(a, ',', b);
    lemma_pairs_of_concat(crate::text::split(a, ','), crate::text::split(b, ','));
}

/// The service name is never stored among the resource attributes, and no key
/// is stored twice, however often attributes are given.
pub proof fn law_attributes_stay_settled(c: ConfigView, list: Seq<(Seq<char>, Seq<char>)>)
    requires
        attributes_settled(c.resource_attributes),
    ensures
        attributes_settled(c.attributed_all(list).resource_attributes),
    decreases list.len(),
{
    if list.len() > 0 {
        law_attributes_stay_settled(c, list.drop_last());
        let before = c.attributed_all(list.drop_last());
        lemma_merged(before.resource_attributes, list.last().0, list.last().1);
    }
}

/// A service name that is set is not changed by resource attributes; one that
/// is not set is the first that is not blank among them. Nothing else changes.
pub proof fn law_explicit_service_name_wins(c: ConfigView, list: Seq<(Seq<char>, Seq<char>)>)
    ensures
        c.service_name is Some ==> c.attributed_all(list).service_name == c.service_name,
        c.service_name is None && (forall|i: int|
            0 <= i < list.len() && (#[trigger] list[i]).0 == "service.name"@ ==> nonblank(list[i].1)
                is None) ==> c.attributed_all(list).service_name is None,
        forall|i: int|
            #![trigger list[i]]
            c.service_name is None && 0 <= i < list.len() && list[i].0 == "service.name"@
                && nonblank(list[i].1) is Some && (forall|j: int|
                0 <= j < i && (#[trigger] list[j]).0 == "service.name"@ ==> nonblank(list[j].1)
                    is None) ==> c.attributed_all(list).service_name == nonblank(list[i].1),
        c.attributed_all(list) == (ConfigView {
            service_name: c.attributed_all(list).service_name,
            resource_attributes: c.attributed_all(list).resource_attributes,
            ..c
        }),
    decreases list.len(),
{
    if list.len() > 0 {
        let init = list.drop_last();
        law_explicit_service_name_wins(c, init);
        assert forall|i: int| 0 <= i < init.len() implies #[trigger] init[i] == list[i] by {}
        assert forall|i: int|
            #![trigger list[i]]
            c.service_name is None && 0 <= i < list.len() && list[i].0 == "service.name"@
                && nonblank(list[i].1) is Some && (forall|j: int|
                0 <= j < i && (#[trigger] list[j]).0 == "service.name"@ ==> nonblank(list[j].1)
                    is None) implies c.attributed_all(list).service_name == nonblank(
            list[i].1,
        ) by {
            if i < init.len() {
                assert(init[i] == list[i]);
            }
        }
    }
}

/// Resource attributes change nothing but themselves and an unset service name.
proof fn lemma_environment_base(env: Seq<(Seq<char>, Seq<char>)>)
    ensures
        environment_config(env) == (ConfigView {
            service_name: environment_config(env).service_name,
            resource_attributes: environment_config(env).resource_attributes,
            ..environment_base(env)
        }),
        environment_base(env).service_name is Some ==> environment_config(env).service_name
            == environment_base(env).service_name,
{
    if let Some(v) = lookup(env, "OTEL_RESOURCE_ATTRIBUTES"@) {
        law_explicit_service_name_wins(environment_base(env), parsed_pairs(v));
    }
}

/// A configuration from the environment has a settled sink and settled
/// attributes, and a batch size from one to ten thousand.
pub proof fn law_environment_settles(env: Seq<(Seq<char>, Seq<char>)>)
    ensures
        sink_settled(environment_config(env)),
        attributes_settled(environment_config(env).resource_attributes),
        1 <= environment_config(env).max_export_batch_size <= 10_000,
        environment_config(env).enabled() <==> environment_config(env).endpoint is Some,
{
    lemma_environment_base(env);
    if let Some(v) = lookup(env, "OTEL_RESOURCE_ATTRIBUTES"@) {
        law_attributes_stay_settled(environment_base(env), parsed_pairs(v));
    }
}

/// An exporter of `none` disables export and drops the sink, whatever else is
/// set.
pub proof fn law_none_disables(env: Seq<(Seq<char>, Seq<char>)>)
    requires
        exporter_off(env),
    ensures
        environment_config(env).disabled,
        environment_config(env).sink_uri is None,
        environment_config(env).endpoint is None,
        environment_config(env).exporter == ExporterKind::Disabled,
        !environment_config(env).enabled(),
{
    lemma_environment_base(env);
}

/// `OTEL_SINK_URI` decides about the sink where it is set, and the endpoint for
/// traces where that is not: the sink is then the same whatever value the
/// endpoint variables of less weight have.
pub proof fn law_sink_precedence(
    env: Seq<(Seq<char>, Seq<char>)>,
    other: Seq<(Seq<char>, Seq<char>)>,
)
    requires
        exporter_off(env) == exporter_off(other),
        lookup(env, "OTEL_SINK_URI"@) == lookup(other, "OTEL_SINK_URI"@),
        lookup(env, "OTEL_SINK_URI"@) is Some || (lookup(
            env,
            "OTEL_EXPORTER_OTLP_TRACES_ENDPOINT"@,
        ) is Some && lookup(env, "OTEL_EXPORTER_OTLP_TRACES_ENDPOINT"@) == lookup(
            other,
            "OTEL_EXPORTER_OTLP_TRACES_ENDPOINT"@,
        )),
    ensures
        environment_config(env).sink_uri == environment_config(other).sink_uri,
        environment_config(env).endpoint == environment_config(other).endpoint,
        environment_config(env).exporter == environment_config(other).exporter,
        environment_config(env).disabled == environment_config(other).disabled,
{
    lemma_environment_base(env);
    lemma_environment_base(other);
}

/// The endpoint for traces is used as it is: where it decides about the sink, an
/// `http` or `https` URL is the URL that spans are posted to, whatever its path.
pub proof fn law_traces_endpoint_as_is(env: Seq<(Seq<char>, Seq<char>)>)
    requires
        !exporter_off(env),
        lookup(env, "OTEL_SINK_URI"@) is None,
        lookup(env, "OTEL_EXPORTER_OTLP_TRACES_ENDPOINT"@) matches Some(v) && nonblank(v) is Some
            && crate::sink::is_http(nonblank(v)->0),
    ensures
        ({
            let uri = nonblank(lookup(env, "OTEL_EXPORTER_OTLP_TRACES_ENDPOINT"@)->0)->0;
            match crate::sink::parsed_url(uri) {
                Some(u) => environment_config(env).sink_uri == Some(uri) && environment_config(
                    env,
                ).endpoint == Some(crate::sink::EndpointView::OtlpHttp(u)),
                None => environment_config(env).endpoint is None,
            }
        }),
{
    lemma_environment_base(env);
    let value = lookup(env, "OTEL_EXPORTER_OTLP_TRACES_ENDPOINT"@)->0;
    crate::text::lemma_trimmed_twice(value);
    crate::sink::lemma_http_target(nonblank(value)->0);
}

/// The general endpoint is a base: where it decides about the sink, spans are
/// posted to an `http` or `https` URL with `/v1/traces` appended to its path,
/// unless it gets too long for 32-bit offsets.
pub proof fn law_general_endpoint_is_base(env: Seq<(Seq<char>, Seq<char>)>)
    requires
        !exporter_off(env),
        lookup(env, "OTEL_SINK_URI"@) is None,
        lookup(env, "OTEL_EXPORTER_OTLP_TRACES_ENDPOINT"@) is None,
        lookup(env, "OTEL_EXPORTER_OTLP_ENDPOINT"@) matches Some(v) && nonblank(v) is Some
            && crate::sink::is_http(nonblank(v)->0),
    ensures
        ({
            let uri = nonblank(lookup(env, "OTEL_EXPORTER_OTLP_ENDPOINT"@)->0)->0;
            match crate::sink::parsed_url(uri) {
                Some(u) => {
                    let path = crate::sink::base_path(u.path) + "/v1/traces"@;
                    environment_config(env).endpoint == (if crate::sink::takes_path(u, path) {
                        Some(crate::sink::EndpointView::OtlpHttp(crate::sink::url_at(u, path)))
                    } else {
                        None
                    })
                },
                None => environment_config(env).endpoint is None,
            }
        }),
{
    lemma_environment_base(env);
    let value = lookup(env, "OTEL_EXPORTER_OTLP_ENDPOINT"@)->0;
    crate::text::lemma_trimmed_twice(value);
    crate::sink::lemma_http_target(nonblank(value)->0);
}

/// `OTEL_SERVICE_NAME` gives the service name wherever it is not blank, even if
/// the resource attributes carry another.
pub proof fn law_service_name_variable_wins(env: Seq<(Seq<char>, Seq<char>)>)
    requires
        lookup(env, "OTEL_SERVICE_NAME"@) matches Some(n) && nonblank(n) is Some,
    ensures
        environment_config(env).service_name == nonblank(lookup(env, "OTEL_SERVICE_NAME"@)->0),
{
    lemma_environment_base(env);
}

/// Switching off wins over any sink, and a sink switches on again. The endpoint
/// is the one of the last sink, and none where that does not resolve.
pub proof fn law_off_and_on(c: ConfigView, uri: Seq<char>)
    requires
        nonblank(uri) is Some,
    ensures
        c.sunk(uri).endpoint is Some <==> crate::sink::resolved_endpoint(uri) is Ok,
        c.sunk(uri).endpoint matches Some(ep) ==> crate::sink::resolved_endpoint(uri) == Ok::<
            _,
            crate::error::ConfigErrorView,
        >(ep),
        !c.sunk(uri).off().enabled(),
        c.off().off() == c.off(),
        c.off().sunk(uri).enabled(),
{
}

proof fn lemma_number_is_plain(n: nat)
    ensures
        crate::text::trimmed(crate::text::decimal(n)) == crate::text::decimal(n),
        crate::text::trimmed(seq![' '] + crate::text::decimal(n) + seq![' '])
            == crate::text::decimal(n),
        crate::text::unsigned_value(crate::text::decimal(n)) == Some(n),
{
    let d = crate::text::decimal(n);
    crate::text::law_decimal_reads_back(n);
    assert('0' <= d[0] <= '9' && '0' <= d[d.len() - 1] <= '9');
    crate::text::lemma_trimmed_same(d);
    crate::text::law_trimmed_between(seq![' '], d, seq![' ']);
}

/// With none of the variables set the configuration is the default one: export
/// is disabled, nothing is sent along, batches have 512 spans at most, and five
/// seconds lie between them.
pub proof fn law_empty_environment(env: Seq<(Seq<char>, Seq<char>)>)
    requires
        env.len() == 0,
    ensures
        ({
            let c = environment_config(env);
            &&& c.disabled && !c.enabled() && !c.exportable()
            &&& c.service_name is None && c.sink_uri is None && c.endpoint is None
            &&& c.exporter == ExporterKind::Disabled
            &&& c.headers.len() == 0 && c.resource_attributes.len() == 0
            &&& c.capture_header_prefixes.len() == 0
            &&& c.max_export_batch_size == 512
            &&& c.schedule_delay == millis(5000)
        }),
{
}

/// The value of a variable is the first that the environment gives to its name.
pub proof fn law_variable_lookup(env: Seq<(Seq<char>, Seq<char>)>, name: Seq<char>, at: int)
    requires
        forall|i: int| 0 <= i < at ==> (#[trigger] env[i]).0 != name,
        0 <= at <= env.len(),
    ensures
        at < env.len() && env[at].0 == name ==> lookup(env, name) == Some(env[at].1),
        at == env.len() ==> lookup(env, name) is None,
{
    lemma_key_index(env, name);
    if at == env.len() || env[at].0 == name {
        lemma_key_index_is(env, name, at);
    }
}

/// The batch size and the delay are the numbers that their variables hold where
/// these are in range: from one to ten thousand spans, and from one millisecond
/// to less than an hour. Otherwise the defaults stay.
pub proof fn law_environment_numbers(env: Seq<(Seq<char>, Seq<char>)>, n: nat)
    ensures
        lookup(env, "OTEL_BSP_MAX_EXPORT_BATCH_SIZE"@) == Some(crate::text::decimal(n))
            ==> environment_config(env).max_export_batch_size == (if 1 <= n <= 10_000 {
            n
        } else {
            512
        }),
        lookup(env, "OTEL_BSP_MAX_EXPORT_BATCH_SIZE"@) == Some(
            seq![' '] + crate::text::decimal(n) + seq![' '],
        ) && 1 <= n <= 10_000 ==> environment_config(env).max_export_batch_size == n,
        lookup(env, "OTEL_BSP_SCHEDULE_DELAY"@) == Some(
            seq![' '] + crate::text::decimal(n) + seq![' '],
        ) && 1 <= n < 60 * 60 * 1000 ==> environment_config(env).schedule_delay == millis(n as u64),
        lookup(env, "OTEL_BSP_MAX_EXPORT_BATCH_SIZE"@) is None ==> environment_config(
            env,
        ).max_export_batch_size == 512,
        lookup(env, "OTEL_BSP_SCHEDULE_DELAY"@) == Some(crate::text::decimal(n))
            ==> environment_config(env).schedule_delay == (if 1 <= n < 60 * 60 * 1000 {
            millis(n as u64)
        } else {
            millis(5000)
        }),
        lookup(env, "OTEL_BSP_SCHEDULE_DELAY"@) is None ==> environment_config(env).schedule_delay
            == millis(5000),
        lookup(env, "OTEL_BSP_MAX_EXPORT_BATCH_SIZE"@) matches Some(v) && crate::text::unsigned_value(
            crate::text::trimmed(v),
        ) is None ==> environment_config(env).max_export_batch_size == 512,
        lookup(env, "OTEL_BSP_SCHEDULE_DELAY"@) matches Some(v) && crate::text::unsigned_value(
            crate::text::trimmed(v),
        ) is None ==> environment_config(env).schedule_delay == millis(5000),
{
    lemma_number_is_plain(n);
    lemma_environment_base(env);
}

/// A `key=value` entry gives its two sides without the whitespace around them;
/// one without an equals sign, or with a blank side, gives nothing. The value may
/// hold further equals signs.
pub proof fn law_pair_of_entry(key: Seq<char>, value: Seq<char>)
    requires
        forall|i: int| 0 <= i < key.len() ==> key[i] != '=' && key[i] != ',',
        forall|i: int| 0 <= i < value.len() ==> value[i] != ',',
    ensures
        key.len() > 0 && !crate::text::is_white_space(key[0]) && !crate::text::is_white_space(
            key.last(),
        ) && value.len() > 0 && !crate::text::is_white_space(value[0])
            && !crate::text::is_white_space(value.last()) ==> parsed_pairs(
            key + seq!['='] + value,
        ) == seq![(key, value)] && parsed_pairs(
            seq![' '] + key + seq!['='] + value + seq![' '],
        ) == seq![(key, value)] && parsed_pairs(
            key + seq![' ', '=', ' '] + value,
        ) == seq![(key, value)],
        parsed_pairs(key).len() == 0,
        parsed_pairs(key + seq!['=']).len() == 0,
        parsed_pairs(seq!['='] + value).len() == 0,
        parsed_pairs(seq![]).len() == 0,
{
    lemma_single_entry(key);
    lemma_single_entry(key + seq!['=']);
    lemma_single_entry(seq!['='] + value);
    lemma_single_entry(seq![]);
    lemma_no_separator(key);
    lemma_no_separator(seq![]);
    lemma_trailing_equals(key);
    lemma_leading_equals(value);
    if key.len() > 0 && !crate::text::is_white_space(key[0]) && !crate::text::is_white_space(
        key.last(),
    ) && value.len() > 0 && !crate::text::is_white_space(value[0]) && !crate::text::is_white_space(
        value.last(),
    ) {
        let padded = seq![' '] + key + seq!['='] + value + seq![' '];
        let spaced = key + seq![' ', '=', ' '] + value;
        lemma_single_entry(key + seq!['='] + value);
        lemma_single_entry(padded);
        lemma_single_entry(spaced);
        lemma_pair(key, value);
    }
}

proof fn lemma_pair(key: Seq<char>, value: Seq<char>)
    requires
        forall|i: int| 0 <= i < key.len() ==> key[i] != '=',
        key.len() > 0,
        !crate::text::is_white_space(key[0]),
        !crate::text::is_white_space(key.last()),
        value.len() > 0,
        !crate::text::is_white_space(value[0]),
        !crate::text::is_white_space(value.last()),
    ensures
        pair_of(key + seq!['='] + value) == Some((key, value)),
        pair_of(seq![' '] + key + seq!['='] + value + seq![' ']) == Some((key, value)),
        pair_of(key + seq![' ', '=', ' '] + value) == Some((key, value)),
{
    let plain = key + seq!['='] + value;
    let padded = seq![' '] + key + seq!['='] + value + seq![' '];
    let spaced = key + seq![' ', '=', ' '] + value;
    let left = key + seq![' '];
    let right = seq![' '] + value;
    assert(plain[0] == key[0] && plain.last() == value.last());
    assert(spaced[0] == key[0] && spaced.last() == value.last());
    crate::text::lemma_trimmed_same(key);
    crate::text::lemma_trimmed_same(value);
    crate::text::lemma_trimmed_same(plain);
    crate::text::lemma_trimmed_same(spaced);
    crate::text::law_split_once(key, '=', value);
    crate::text::law_trimmed_between(seq![' '], plain, seq![' ']);
    assert(padded =~= seq![' '] + plain + seq![' ']);
    assert(spaced =~= left + seq!['='] + right);
    crate::text::law_split_once(left, '=', right);
    crate::text::law_trimmed_between(seq![], key, seq![' ']);
    crate::text::law_trimmed_between(seq![' '], value, seq![]);
    assert(seq![] + key + seq![' '] =~= left);
    assert(seq![' '] + value + seq![] =~= right);
}

proof fn lemma_single_entry(entry: Seq<char>)
    requires
        forall|i: int| 0 <= i < entry.len() ==> entry[i] != ',',
    ensures
        parsed_pairs(entry) == (match pair_of(entry) {
            Some(p) => seq![p],
            None => seq![],
        }),
{
    crate::text::lemma_split_none(entry, ',');
    let entries = seq![entry];
    assert(entries.drop_last() =~= seq![]);
    assert(pairs_of(entries.drop_last()) =~= seq![]);
    if let Some(p) = pair_of(entry) {
        assert(pairs_of(entries) =~= seq![p]);
    }
}

proof fn lemma_no_separator(key: Seq<char>)
    requires
        forall|i: int| 0 <= i < key.len() ==> key[i] != '=',
    ensures
        pair_of(key) is None,
{
    crate::text::law_trimmed(key);
    let t = crate::text::trimmed(key);
    let (i, j) = choose|i: int, j: int|
        0 <= i <= j <= key.len() && t == #[trigger] key.subrange(i, j) && (forall|k: int|
            0 <= k < key.len() && !(i <= k < j) ==> crate::text::is_white_space(#[trigger] key[k]));
    assert forall|k: int| 0 <= k < t.len() implies t[k] != '=' by {
        assert(t[k] == key[i + k]);
    }
    crate::text::law_split_once(t, '=', seq![]);
}

proof fn lemma_trailing_equals(key: Seq<char>)
    requires
        forall|i: int| 0 <= i < key.len() ==> key[i] != '=',
    ensures
        pair_of(key + seq!['=']) is None,
{
    let s = key + seq!['='];
    crate::text::law_trimmed(s);
    let t = crate::text::trimmed(s);
    let (i, j) = choose|i: int, j: int|
        0 <= i <= j <= s.len() && t == #[trigger] s.subrange(i, j) && (forall|k: int|
            0 <= k < s.len() && !(i <= k < j) ==> crate::text::is_white_space(#[trigger] s[k]));
    assert(s[key.len() as int] == '=');
    assert(j == s.len());
    let before = s.subrange(i, j - 1);
    assert forall|k: int| 0 <= k < before.len() implies before[k] != '=' by {
        assert(before[k] == key[i + k]);
    }
    assert(t =~= before + seq!['='] + Seq::<char>::empty());
    crate::text::law_split_once(before, '=', seq![]);
    assert(crate::text::trimmed(Seq::<char>::empty()).len() == 0);
}

proof fn lemma_leading_equals(value: Seq<char>)
    ensures
        pair_of(seq!['='] + value) is None,
{
    let s = seq!['='] + value;
    crate::text::law_trimmed(s);
    let t = crate::text::trimmed(s);
    let (i, j) = choose|i: int, j: int|
        0 <= i <= j <= s.len() && t == #[trigger] s.subrange(i, j) && (forall|k: int|
            0 <= k < s.len() && !(i <= k < j) ==> crate::text::is_white_space(#[trigger] s[k]));
    assert(s[0] == '=');
    assert(i == 0 && j > 0);
    let after = s.subrange(1, j);
    assert(t =~= Seq::<char>::empty() + seq!['='] + after);
    crate::text::law_split_once(seq![], '=', after);
    assert(crate::text::trimmed(Seq::<char>::empty()).len() == 0);
}

/// The general header variable counts where it gives any header, and the one for
/// traces where it gives none.
pub proof fn law_header_variables(env: Seq<(Seq<char>, Seq<char>)>)
    ensures
        lookup(env, "OTEL_EXPORTER_OTLP_HEADERS"@) matches Some(v) ==> (crate::text::trimmed(v).len()
            > 0 && parsed_pairs(v).len() > 0 ==> environment_config(env).headers == parsed_pairs(v)),
        lookup(env, "OTEL_EXPORTER_OTLP_HEADERS"@) is None ==> (lookup(
            env,
            "OTEL_EXPORTER_OTLP_TRACES_HEADERS"@,
        ) matches Some(v) ==> (crate::text::trimmed(v).len() > 0 ==> environment_config(env).headers
            == parsed_pairs(v))),
        lookup(env, "OTEL_EXPORTER_OTLP_HEADERS"@) is None && lookup(
            env,
            "OTEL_EXPORTER_OTLP_TRACES_HEADERS"@,
        ) is None ==> environment_config(env).headers.len() == 0,
{
    lemma_environment_base(env);
}

/// The header prefixes are the entries of their variable between commas, trimmed,
/// in order; blank ones do not count.
pub proof fn law_prefix_variable(
    env: Seq<(Seq<char>, Seq<char>)>,
    a: Seq<char>,
    b: Seq<char>,
)
    requires
        forall|i: int| 0 <= i < a.len() ==> a[i] != ',',
        forall|i: int| 0 <= i < b.len() ==> b[i] != ',',
        a.len() > 0 && !crate::text::is_white_space(a[0]) && !crate::text::is_white_space(a.last()),
        b.len() > 0 && !crate::text::is_white_space(b[0]) && !crate::text::is_white_space(b.last()),
    ensures
        lookup(env, "AUSPEX_CAPTURE_HEADERS_PREFIX"@) == Some(a) ==> environment_config(
            env,
        ).capture_header_prefixes == seq![a],
        lookup(env, "AUSPEX_CAPTURE_HEADERS_PREFIX"@) == Some(a + seq![','] + b)
            ==> environment_config(env).capture_header_prefixes == seq![a, b],
        lookup(env, "AUSPEX_CAPTURE_HEADERS_PREFIX"@) == Some(a + seq![',', ' ', ','] + b)
            ==> environment_config(env).capture_header_prefixes == seq![a, b],
        lookup(env, "AUSPEX_CAPTURE_HEADERS_PREFIX"@) == Some(a + seq![' ', ',', ' '] + b)
            ==> environment_config(env).capture_header_prefixes == seq![a, b],
        lookup(env, "AUSPEX_CAPTURE_HEADERS_PREFIX"@) is None ==> environment_config(
            env,
        ).capture_header_prefixes.len() == 0,
{
    lemma_environment_base(env);
    let two = a + seq![','] + b;
    let three = a + seq![',', ' ', ','] + b;
    assert(two[0] == a[0] && two.last() == b.last());
    assert(three[0] == a[0] && three.last() == b.last());
    crate::text::lemma_trimmed_same(a);
    crate::text::lemma_trimmed_same(two);
    crate::text::lemma_trimmed_same(three);
    lemma_listed(a, b);
    let spaced = a + seq![' ', ',', ' '] + b;
    assert(spaced[0] == a[0] && spaced.last() == b.last());
    crate::text::lemma_trimmed_same(spaced);
    lemma_listed_with_spaces(a, b);
}

proof fn lemma_listed_with_spaces(a: Seq<char>, b: Seq<char>)
    requires
        forall|i: int| 0 <= i < a.len() ==> a[i] != ',',
        forall|i: int| 0 <= i < b.len() ==> b[i] != ',',
        a.len() > 0 && !crate::text::is_white_space(a[0]) && !crate::text::is_white_space(a.last()),
        b.len() > 0 && !crate::text::is_white_space(b[0]) && !crate::text::is_white_space(b.last()),
    ensures
        texts_of(crate::text::split(a + seq![' ', ',', ' '] + b, ',')) == seq![a, b],
{
    let left = a + seq![' '];
    let right = seq![' '] + b;
    crate::text::law_trimmed_between(seq![], a, seq![' ']);
    crate::text::law_trimmed_between(seq![' '], b, seq![]);
    assert(seq![] + a + seq![' '] =~= left);
    assert(seq![' '] + b + seq![] =~= right);
    assert(a + seq![' ', ',', ' '] + b =~= left + seq![','] + right);
    crate::text::lemma_split_first(left, ',', right);
    crate::text::lemma_split_none(right, ',');
    let none = Seq::<Seq<char>>::empty();
    let one = none.push(left);
    let both = one.push(right);
    assert(crate::text::split(left + seq![','] + right, ',') =~= both);
    assert(both.drop_last() =~= one);
    assert(one.drop_last() =~= none);
    assert(texts_of(none) =~= none);
    assert(texts_of(one) =~= none.push(a));
    assert(texts_of(both) =~= seq![a, b]);
}

proof fn lemma_listed(a: Seq<char>, b: Seq<char>)
    requires
        forall|i: int| 0 <= i < a.len() ==> a[i] != ',',
        forall|i: int| 0 <= i < b.len() ==> b[i] != ',',
        a.len() > 0 && !crate::text::is_white_space(a[0]) && !crate::text::is_white_space(a.last()),
        b.len() > 0 && !crate::text::is_white_space(b[0]) && !crate::text::is_white_space(b.last()),
    ensures
        texts_of(crate::text::split(a, ',')) == seq![a],
        texts_of(crate::text::split(a + seq![','] + b, ',')) == seq![a, b],
        texts_of(crate::text::split(a + seq![',', ' ', ','] + b, ',')) == seq![a, b],
{
    let two = a + seq![','] + b;
    let three = a + seq![',', ' ', ','] + b;
    let blank = seq![' '];
    crate::text::lemma_trimmed_same(a);
    crate::text::lemma_trimmed_same(b);
    crate::text::lemma_split_none(a, ',');
    crate::text::lemma_split_none(b, ',');
    crate::text::lemma_split_first(a, ',', b);
    assert(three =~= a + seq![','] + (blank + seq![','] + b));
    crate::text::lemma_split_first(a, ',', blank + seq![','] + b);
    crate::text::lemma_split_first(blank, ',', b);
    crate::text::law_trimmed_between(blank, seq![], seq![]);
    assert(blank + seq![] + seq![] =~= blank);
    let none = Seq::<Seq<char>>::empty();
    let one = none.push(a);
    let pair = one.push(b);
    let gap = one.push(blank);
    let all = gap.push(b);
    assert(crate::text::split(a, ',') =~= one);
    assert(crate::text::split(two, ',') =~= pair);
    assert(crate::text::split(three, ',') =~= all);
    assert(one.drop_last() =~= none);
    assert(pair.drop_last() =~= one);
    assert(gap.drop_last() =~= one);
    assert(all.drop_last() =~= gap);
    assert(texts_of(none) =~= none);
    assert(texts_of(one) =~= one);
    assert(texts_of(pair) =~= pair);
    assert(texts_of(gap) =~= one);
    assert(texts_of(all) =~= pair);
    assert(one =~= seq![a]);
    assert(pair =~= seq![a, b]);
}

/// An exporter variable of `none`, in small or capital letters, is what switches
/// export off; any other word, or none, does not.
pub proof fn law_exporter_variable(env: Seq<(Seq<char>, Seq<char>)>)
    ensures
        lookup(env, "OTEL_TRACES_EXPORTER"@) == Some("none"@) ==> exporter_off(env),
        lookup(env, "OTEL_TRACES_EXPORTER"@) == Some("NONE"@) ==> exporter_off(env),
        lookup(env, "OTEL_TRACES_EXPORTER"@) is None ==> !exporter_off(env),
        lookup(env, "OTEL_TRACES_EXPORTER"@) matches Some(v) && v.len() != 4 && v.len() > 0
            && !crate::text::is_white_space(v[0]) && !crate::text::is_white_space(v.last())
            ==> !exporter_off(env),
        exporter_off(env) ==> (lookup(env, "OTEL_TRACES_EXPORTER"@) matches Some(v)
            && crate::text::lowercase(crate::text::trimmed(v)) == "none"@),
{
    reveal_strlit("none");
    reveal_strlit("NONE");
    crate::text::lemma_trimmed_same("none"@);
    crate::text::lemma_trimmed_same("NONE"@);
    assert(crate::text::lowercase("none"@) =~= "none"@);
    assert(crate::text::lowercase("NONE"@) =~= "none"@);
    if let Some(v) = lookup(env, "OTEL_TRACES_EXPORTER"@) {
        if v.len() > 0 && !crate::text::is_white_space(v[0]) && !crate::text::is_white_space(
            v.last(),
        ) {
            crate::text::lemma_trimmed_same(v);
            assert(crate::text::lowercase(v).len() == v.len());
        }
    }
}

/// Setting a name or a sink changes that alone. A blank one changes nothing; any
/// other is kept without the whitespace around it. Switching off takes the sink
/// away and nothing else.
pub proof fn law_setters(c: ConfigView, name: Seq<char>)
    ensures
        crate::text::trimmed(name).len() > 0 ==> c.named(name) == (ConfigView {
            service_name: Some(crate::text::trimmed(name)),
            ..c
        }),
        crate::text::trimmed(name).len() == 0 ==> c.named(name) == c && c.sunk(name) == c,
        crate::text::trimmed(name).len() > 0 ==> c.sunk(name) == (ConfigView {
            sink_uri: Some(crate::text::trimmed(name)),
            disabled: false,
            endpoint: c.sunk(name).endpoint,
            exporter: c.sunk(name).exporter,
            ..c
        }),
        c.sunk(name).endpoint matches Some(ep) ==> (crate::text::trimmed(name).len() > 0
            ==> c.sunk(name).exporter == crate::sink::kind_of(ep)),
        c.sunk(name).endpoint is None && crate::text::trimmed(name).len() > 0
            ==> c.sunk(name).exporter == ExporterKind::Disabled,
        c.off() == (ConfigView {
            disabled: true,
            sink_uri: None,
            endpoint: None,
            exporter: ExporterKind::Disabled,
            ..c
        }),
        c.enabled() <==> !c.disabled && (c.endpoint is Some || c.sink_uri is Some),
        c.exportable() <==> (c.endpoint is Some || c.sink_uri is Some) && c.service_name is Some,
{
}

/// The service name comes from its variable, and where that is unset or blank
/// from the first `service.name` among the resource attributes that is not blank.
pub proof fn law_service_name_sources(env: Seq<(Seq<char>, Seq<char>)>)
    ensures
        lookup(env, "OTEL_SERVICE_NAME"@) matches Some(n) ==> (crate::text::trimmed(n).len() > 0
            ==> environment_config(env).service_name == Some(crate::text::trimmed(n))),
        lookup(env, "OTEL_SERVICE_NAME"@) is None && lookup(env, "OTEL_RESOURCE_ATTRIBUTES"@) is None
            ==> environment_config(env).service_name is None,
        lookup(env, "OTEL_SERVICE_NAME"@) is None ==> (lookup(env, "OTEL_RESOURCE_ATTRIBUTES"@)
            matches Some(v) ==> forall|i: int|
            #![trigger parsed_pairs(v)[i]]
            0 <= i < parsed_pairs(v).len() && parsed_pairs(v)[i].0 == "service.name"@
                && crate::text::trimmed(parsed_pairs(v)[i].1).len() > 0 && (forall|j: int|
                0 <= j < i ==> (#[trigger] parsed_pairs(v)[j]).0 != "service.name"@)
                ==> environment_config(env).service_name == Some(
                crate::text::trimmed(parsed_pairs(v)[i].1),
            )),
{
    lemma_environment_base(env);
    if let Some(v) = lookup(env, "OTEL_RESOURCE_ATTRIBUTES"@) {
        law_explicit_service_name_wins(environment_base(env), parsed_pairs(v));
    }
}

/// The sink is the value of the first endpoint variable that is set, without the
/// whitespace around it, and it is enabled exactly where that resolves; the
/// exporter is then the one of the endpoint.
pub proof fn law_environment_sink(env: Seq<(Seq<char>, Seq<char>)>)
    requires
        !exporter_off(env),
    ensures
        lookup(env, "OTEL_SINK_URI"@) matches Some(v) ==> (crate::text::trimmed(v).len() > 0
            ==> match crate::sink::resolved_endpoint(crate::text::trimmed(v)) {
            Ok(ep) => {
                &&& environment_config(env).sink_uri == Some(crate::text::trimmed(v))
                &&& environment_config(env).endpoint == Some(ep)
                &&& environment_config(env).exporter == crate::sink::kind_of(ep)
                &&& !environment_config(env).disabled
            },
            Err(_) => environment_config(env).endpoint is None && environment_config(env).disabled
                && environment_config(env).sink_uri is None,
        }),
        lookup(env, "OTEL_SINK_URI"@) matches Some(v) ==> (crate::text::trimmed(v).len() == 0
            ==> environment_config(env).sink_uri is None && environment_config(env).disabled),
        lookup(env, "OTEL_SINK_URI"@) is None && lookup(env, "OTEL_EXPORTER_OTLP_TRACES_ENDPOINT"@)
            is None && lookup(env, "OTEL_EXPORTER_OTLP_ENDPOINT"@) is None ==> environment_config(
            env,
        ).sink_uri is None && environment_config(env).endpoint is None && environment_config(
            env,
        ).disabled,
{
    lemma_environment_base(env);
}

} // verus!
