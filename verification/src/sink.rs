//! Export sinks: which URL an endpoint text stands for, and which exporter its
//! scheme selects.

use vstd::prelude::*;
use vstd::string::*;
use vstd::utf8::*;

use crate::error::ConfigError;
use crate::text::{concat, split_at_first, starts_with, str_eq, strip_prefix, trim};

verus! {

/// The parts of a URL that an exporter reads.
#[derive(Debug, PartialEq, Eq)]
pub struct SinkUrl {
    /// The whole URL, normalized.
    pub href: String,
    /// The scheme, without the colon.
    pub scheme: String,
    /// The host, if there is one.
    pub host: Option<String>,
    /// The port, unless it is the scheme's default.
    pub port: Option<u16>,
    /// The path.
    pub path: String,
}

/// The parts of a URL, as sequences of characters.
pub ghost struct UrlParts {
    pub href: Seq<char>,
    pub scheme: Seq<char>,
    pub host: Option<Seq<char>>,
    pub port: Option<u16>,
    pub path: Seq<char>,
}

/// The characters of an optional text.
pub open spec fn text_view(s: Option<String>) -> Option<Seq<char>> {
    match s {
        Some(t) => Some(t@),
        None => None,
    }
}

impl View for SinkUrl {
    type V = UrlParts;

    open spec fn view(&self) -> UrlParts {
        UrlParts {
            href: self.href@,
            scheme: self.scheme@,
            host: text_view(self.host),
            port: self.port,
            path: self.path@,
        }
    }
}

/// A copy of an optional text.
pub fn clone_text(s: &Option<String>) -> (r: Option<String>)
    ensures
        r == *s,
{
    match s {
        Some(t) => Some(t.clone()),
        None => None,
    }
}

impl Clone for SinkUrl {
    fn clone(&self) -> (r: SinkUrl)
        ensures
            r == *self,
    {
        SinkUrl {
            href: self.href.clone(),
            scheme: self.scheme.clone(),
            host: clone_text(&self.host),
            port: self.port,
            path: self.path.clone(),
        }
    }
}

impl SinkUrl {
    /// The whole URL.
    pub fn as_str(&self) -> (r: &str)
        ensures
            r@ == self@.href,
    {
        self.href.as_str()
    }

    /// The scheme, without the colon.
    pub fn scheme(&self) -> (r: &str)
        ensures
            r@ == self@.scheme,
    {
        self.scheme.as_str()
    }

    /// The host, if there is one.
    pub fn host_str(&self) -> (r: Option<&str>)
        ensures
            match r {
                Some(h) => self@.host == Some(h@),
                None => self@.host is None,
            },
    {
        match &self.host {
            Some(h) => Some(h.as_str()),
            None => None,
        }
    }

    /// The port, unless it is the scheme's default.
    pub fn port(&self) -> (r: Option<u16>)
        ensures
            r == self@.port,
    {
        self.port
    }

    /// The path.
    pub fn path(&self) -> (r: &str)
        ensures
            r@ == self@.path,
    {
        self.path.as_str()
    }
}

/// Whether the text starts like an `http` or `https` URL.
pub open spec fn is_http(text: Seq<char>) -> bool {
    "http://"@.is_prefix_of(text) || "https://"@.is_prefix_of(text)
}

/// Whether the path is made of segments that no URL changes: after each slash
/// at least one small ASCII letter or digit.
pub open spec fn is_plain_path(path: Seq<char>) -> bool {
    &&& path.len() > 1
    &&& path[0] == '/'
    &&& path.last() != '/'
    &&& forall|i: int|
        0 <= i < path.len() ==> path[i] == '/' || 'a' <= #[trigger] path[i] <= 'z' || '0' <= path[i]
            <= '9'
    &&& forall|i: int, j: int|
        0 <= i < path.len() && j == i + 1 && j < path.len() && #[trigger] path[i] == '/'
            ==> #[trigger] path[j] != '/'
}

/// The path without the slash that it ends with, if it does.
pub open spec fn base_path(path: Seq<char>) -> Seq<char> {
    if path.len() > 0 && path.last() == '/' {
        path.drop_last()
    } else {
        path
    }
}

/// Whether a path is made of another one and of plain segments behind it.
pub open spec fn extends(base: Seq<char>, path: Seq<char>) -> bool {
    &&& base_path(base).is_prefix_of(path)
    &&& is_plain_path(path.skip(base_path(base).len() as int))
}

/// Whether two URLs name the same server in the same way.
pub open spec fn same_server(a: UrlParts, b: UrlParts) -> bool {
    &&& a.scheme == b.scheme
    &&& a.host == b.host
    &&& a.port == b.port
}

/// What stands before the last part of a URL that is found by its offset: the
/// fragment, or else the query, or else the end.
pub open spec fn before_last_offset(href: Seq<char>) -> Seq<char> {
    match crate::text::split_once(href, '#') {
        Some((before, _)) => before,
        None => match crate::text::split_once(href, '?') {
            Some((before, _)) => before,
            None => href,
        },
    }
}

/// Whether a URL can be given a longer path. The offsets of its parts have 32
/// bits; behind the path they grow by what the path gets longer.
pub open spec fn takes_path(u: UrlParts, path: Seq<char>) -> bool {
    encode_utf8(before_last_offset(u.href)).len() + encode_utf8(path).len() <= 0xffff_ffff
        + encode_utf8(u.path).len()
}

/// A URL of the `url` crate.
#[verifier::external_type_specification]
#[verifier::external_body]
pub struct ExUrl(url::Url);

/// The parts that a `url::Url` holds.
pub uninterp spec fn url_parts(u: url::Url) -> UrlParts;

/// The parts of the URL that `url::Url::parse` reads in a text, or nothing
/// when it reports an error.
pub uninterp spec fn parsed_url(text: Seq<char>) -> Option<UrlParts>;

/// The parts of a URL after `url::Url::set_path` has given it a path.
pub uninterp spec fn url_at(u: UrlParts, path: Seq<char>) -> UrlParts;

/// Calls `url::Url::parse`.
///
/// Trusted of it: what it finds depends on the text alone; a text that starts
/// with `http://` or `https://` gives a URL of that scheme, whose path is never
/// empty.
#[verifier::external_body]
fn parse_url(text: &str) -> (r: Option<url::Url>)
    ensures
        match r {
            Some(u) => parsed_url(text@) == Some(url_parts(u)),
            None => parsed_url(text@) is None,
        },
        r matches Some(u) ==> "http://"@.is_prefix_of(text@) ==> url_parts(u).scheme == "http"@,
        r matches Some(u) ==> "https://"@.is_prefix_of(text@) ==> url_parts(u).scheme == "https"@,
        r matches Some(u) ==> is_http(text@) ==> url_parts(u).path.len() > 0,
{
    url::Url::parse(text).ok()
}

/// `url::Url::set_path` on an `http` or `https` URL, with a path that adds plain
/// segments to the URL's own: what comes of it depends on the URL and the path
/// alone; the scheme, the host and the port stay, and the path needs no
/// encoding. It panics where an offset gets too large, which is left out.
pub assume_specification[ url::Url::set_path ](u: &mut url::Url, path: &str)
    requires
        url_parts(*old(u)).scheme == "http"@ || url_parts(*old(u)).scheme == "https"@,
        extends(url_parts(*old(u)).path, path@),
        takes_path(url_parts(*old(u)), path@),
    ensures
        url_parts(*final(u)) == url_at(url_parts(*old(u)), path@),
        same_server(url_parts(*final(u)), url_parts(*old(u))),
        url_parts(*final(u)).path == path@,
;

/// `url::Url::as_str`: the whole URL.
pub assume_specification[ url::Url::as_str ](u: &url::Url) -> (r: &str)
    ensures
        r@ == url_parts(*u).href,
;

/// `url::Url::scheme`: the scheme, without the colon.
pub assume_specification[ url::Url::scheme ](u: &url::Url) -> (r: &str)
    ensures
        r@ == url_parts(*u).scheme,
;

/// `url::Url::host_str`: the host, if there is one.
pub assume_specification[ url::Url::host_str ](u: &url::Url) -> (r: Option<&str>)
    ensures
        match r {
            Some(h) => url_parts(*u).host == Some(h@),
            None => url_parts(*u).host is None,
        },
;

/// `url::Url::port`: the port, unless it is the scheme's default.
pub assume_specification[ url::Url::port ](u: &url::Url) -> (r: Option<u16>)
    ensures
        r == url_parts(*u).port,
;

/// `url::Url::path`: the path.
pub assume_specification[ url::Url::path ](u: &url::Url) -> (r: &str)
    ensures
        r@ == url_parts(*u).path,
;

/// The parts of a URL.
fn read_url(u: &url::Url) -> (r: SinkUrl)
    ensures
        r@ == url_parts(*u),
{
    SinkUrl {
        href: u.as_str().to_owned(),
        scheme: u.scheme().to_owned(),
        host: match u.host_str() {
            Some(h) => Some(h.to_owned()),
            None => None,
        },
        port: u.port(),
        path: u.path().to_owned(),
    }
}

/// A resolved exporter endpoint.
#[derive(Debug, PartialEq, Eq)]
pub enum Endpoint {
    /// OTLP/HTTP endpoint (protobuf traces).
    OtlpHttp(SinkUrl),
    /// Zipkin v2 JSON endpoint.
    Zipkin(SinkUrl),
}

/// A resolved endpoint, with the parts of its URL.
pub ghost enum EndpointView {
    OtlpHttp(UrlParts),
    Zipkin(UrlParts),
}

impl EndpointView {
    /// The URL that the exporter posts to.
    pub open spec fn address(self) -> UrlParts {
        match self {
            EndpointView::OtlpHttp(u) => u,
            EndpointView::Zipkin(u) => u,
        }
    }
}

impl View for Endpoint {
    type V = EndpointView;

    open spec fn view(&self) -> EndpointView {
        match self {
            Endpoint::OtlpHttp(u) => EndpointView::OtlpHttp(u@),
            Endpoint::Zipkin(u) => EndpointView::Zipkin(u@),
        }
    }
}

impl Clone for Endpoint {
    fn clone(&self) -> (r: Endpoint)
        ensures
            r == *self,
    {
        match self {
            Endpoint::OtlpHttp(u) => Endpoint::OtlpHttp(u.clone()),
            Endpoint::Zipkin(u) => Endpoint::Zipkin(u.clone()),
        }
    }
}

/// The kind of exporter selected after resolution.
#[derive(Clone, Copy, Debug, PartialEq, Eq, Structural)]
pub enum ExporterKind {
    /// OTLP/HTTP protobuf exporter.
    Otlp,
    /// Zipkin v2 JSON exporter.
    Zipkin,
    /// No exporter configured (disabled mode).
    Disabled,
}

impl Default for ExporterKind {
    fn default() -> (r: ExporterKind)
        ensures
            r == ExporterKind::Disabled,
    {
        ExporterKind::Disabled
    }
}

/// The exporter that an endpoint selects.
pub open spec fn kind_of(ep: EndpointView) -> ExporterKind {
    match ep {
        EndpointView::OtlpHttp(_) => ExporterKind::Otlp,
        EndpointView::Zipkin(_) => ExporterKind::Zipkin,
    }
}

impl Endpoint {
    /// The exporter that the endpoint selects.
    pub fn kind(&self) -> (r: ExporterKind)
        ensures
            r == kind_of(self@),
    {
        match self {
            Endpoint::OtlpHttp(_) => ExporterKind::Otlp,
            Endpoint::Zipkin(_) => ExporterKind::Zipkin,
        }
    }

    /// The URL that the exporter posts to.
    pub fn address(&self) -> (r: &SinkUrl)
        ensures
            r@ == self@.address(),
    {
        match self {
            Endpoint::OtlpHttp(u) => u,
            Endpoint::Zipkin(u) => u,
        }
    }
}

/// What an endpoint text asks for: an `http` or `https` URL and its exporter.
#[derive(Debug, PartialEq, Eq)]
pub struct SinkTarget {
    /// Whether the Zipkin exporter is meant, rather than OTLP.
    pub zipkin: bool,
    /// The text of the URL.
    pub text: String,
}

/// The path that an exporter posts to when the URL gives none.
pub open spec fn default_path(zipkin: bool) -> Seq<char> {
    if zipkin {
        "/api/v2/spans"@
    } else {
        "/v1/traces"@
    }
}

/// The error for an endpoint that selects no exporter or is no URL.
pub open spec fn unusable_endpoint(trimmed: Seq<char>) -> crate::error::ConfigErrorView {
    crate::error::ConfigErrorView::InvalidExporterEndpoint(
        "unsupported or unparseable endpoint: "@ + trimmed,
    )
}

/// The exporter and the URL text that an endpoint text stands for.
///
/// `zipkin+` before an `http` or `https` URL, or `zipkin://` in place of
/// `http://`, selects Zipkin; a plain `http` or `https` URL selects OTLP; gRPC
/// is named in the error.
pub open spec fn sink_target_of(raw: Seq<char>) -> Result<
    (bool, Seq<char>),
    crate::error::ConfigErrorView,
> {
    let t = crate::text::trimmed(raw);
    if t.len() == 0 {
        Err(crate::error::ConfigErrorView::InvalidExporterEndpoint("empty endpoint"@))
    } else if "grpc://"@.is_prefix_of(t) || "otlp+grpc://"@.is_prefix_of(t) {
        Err(
            crate::error::ConfigErrorView::InvalidExporterEndpoint(
                "gRPC endpoints are not supported in v0.1 (no grpc feature)"@,
            ),
        )
    } else if "zipkin+"@.is_prefix_of(t) && is_http(t.skip("zipkin+"@.len() as int)) {
        Ok((true, t.skip("zipkin+"@.len() as int)))
    } else if "zipkin://"@.is_prefix_of(t) {
        Ok((true, "http://"@ + t.skip("zipkin://"@.len() as int)))
    } else if is_http(t) {
        Ok((false, t))
    } else {
        Err(unusable_endpoint(t))
    }
}

/// Whether a URL gives no path of its own.
pub open spec fn lacks_path(u: UrlParts) -> bool {
    u.path == "/"@ || u.path.len() == 0
}

/// What the path of an OTLP endpoint text is good for. A Zipkin endpoint gets
/// the exporter's path where it has none, whatever the rule.
#[derive(Clone, Copy, Debug, PartialEq, Eq, Structural)]
pub enum PathRule {
    /// A URL without a path gets the exporter's.
    Fallback,
    /// The URL is used as it is.
    AsIs,
    /// The URL is a base, and the exporter's path is appended to its own.
    Base,
}

/// Whether the exporter posts to a URL as it stands.
pub open spec fn keeps_path(u: UrlParts, zipkin: bool, rule: PathRule) -> bool {
    if zipkin || rule == PathRule::Fallback {
        !lacks_path(u)
    } else {
        rule == PathRule::AsIs
    }
}

/// The path that the exporter posts to.
pub open spec fn posted_path(u: UrlParts, zipkin: bool, rule: PathRule) -> Seq<char> {
    if keeps_path(u, zipkin, rule) {
        u.path
    } else {
        base_path(u.path) + default_path(zipkin)
    }
}

/// The URL that the exporter posts to; none where the offsets of its parts would
/// get too large.
pub open spec fn posted_url(u: UrlParts, zipkin: bool, rule: PathRule) -> Option<UrlParts> {
    let path = posted_path(u, zipkin, rule);
    if keeps_path(u, zipkin, rule) {
        Some(u)
    } else if takes_path(u, path) {
        Some(url_at(u, path))
    } else {
        None
    }
}

/// The endpoint that a text resolves to by a rule, or why it resolves to none.
pub open spec fn ruled_endpoint(raw: Seq<char>, rule: PathRule) -> Result<
    EndpointView,
    crate::error::ConfigErrorView,
> {
    match sink_target_of(raw) {
        Err(e) => Err(e),
        Ok((zipkin, text)) => {
            let posted = match parsed_url(text) {
                Some(u) => posted_url(u, zipkin, rule),
                None => None,
            };
            match posted {
                None => Err(unusable_endpoint(crate::text::trimmed(raw))),
                Some(u) => Ok(
                    if zipkin {
                        EndpointView::Zipkin(u)
                    } else {
                        EndpointView::OtlpHttp(u)
                    },
                ),
            }
        },
    }
}

/// The endpoint that a text resolves to, or why it resolves to none.
pub open spec fn resolved_endpoint(raw: Seq<char>) -> Result<
    EndpointView,
    crate::error::ConfigErrorView,
> {
    ruled_endpoint(raw, PathRule::Fallback)
}

/// What an endpoint has of the text that it was resolved from by a rule: the
/// scheme, the host and the port of the URL in the text, and the path by the
/// rule.
pub open spec fn endpoint_follows(ep: EndpointView, raw: Seq<char>, rule: PathRule) -> bool {
    &&& sink_target_of(raw) matches Ok(target) && parsed_url(target.1) matches Some(u) && {
        &&& same_server(ep.address(), u)
        &&& ep.address().path == posted_path(u, target.0, rule)
    }
    &&& ep.address().scheme == "http"@ || ep.address().scheme == "https"@
}

/// The exporter and the URL text that an endpoint text stands for.
pub fn sink_target(raw: &str) -> (r: Result<SinkTarget, ConfigError>)
    ensures
        match r {
            Ok(t) => sink_target_of(raw@) == Ok::<_, crate::error::ConfigErrorView>(
                (t.zipkin, t.text@),
            ),
            Err(e) => sink_target_of(raw@) == Err::<(bool, Seq<char>), _>(e@),
        },
        r matches Ok(t) ==> is_http(t.text@),
{
    let trimmed = trim(raw);
    if trimmed.is_empty() {
        return Err(ConfigError::InvalidExporterEndpoint("empty endpoint".to_owned()));
    }
    if starts_with(trimmed, "grpc://") || starts_with(trimmed, "otlp+grpc://") {
        return Err(
            ConfigError::InvalidExporterEndpoint(
                "gRPC endpoints are not supported in v0.1 (no grpc feature)".to_owned(),
            ),
        );
    }
    if let Some(rest) = strip_prefix(trimmed, "zipkin+") {
        if starts_with(rest, "http://") || starts_with(rest, "https://") {
            return Ok(SinkTarget { zipkin: true, text: rest.to_owned() });
        }
    }
    if let Some(rest) = strip_prefix(trimmed, "zipkin://") {
        let text = concat("http://", rest);
        assert("http://"@ =~= text@.subrange(0, "http://"@.len() as int));
        return Ok(SinkTarget { zipkin: true, text });
    }
    if starts_with(trimmed, "http://") || starts_with(trimmed, "https://") {
        return Ok(SinkTarget { zipkin: false, text: trimmed.to_owned() });
    }
    Err(
        ConfigError::InvalidExporterEndpoint(
            concat("unsupported or unparseable endpoint: ", trimmed),
        ),
    )
}

proof fn lemma_default_paths()
    ensures
        is_plain_path("/v1/traces"@),
        is_plain_path("/api/v2/spans"@),
        "/v1/traces"@.len() == 10,
        "/api/v2/spans"@.len() == 13,
        "/"@.len() == 1,
{
    reveal_strlit("/v1/traces");
    reveal_strlit("/api/v2/spans");
    reveal_strlit("/");
}

/// An `http` or `https` URL without whitespace around it stands for itself and
/// selects OTLP.
pub proof fn lemma_http_target(text: Seq<char>)
    requires
        is_http(text),
        crate::text::trimmed(text) == text,
    ensures
        sink_target_of(text) == Ok::<(bool, Seq<char>), crate::error::ConfigErrorView>(
            (false, text),
        ),
{
    reveal_strlit("http://");
    reveal_strlit("https://");
    reveal_strlit("grpc://");
    reveal_strlit("otlp+grpc://");
    reveal_strlit("zipkin+");
    reveal_strlit("zipkin://");
    assert(text[0] == 'h') by {
        if "http://"@.is_prefix_of(text) {
            assert(text[0] == "http://"@[0]);
        } else {
            assert(text[0] == "https://"@[0]);
        }
    }
    if "grpc://"@.is_prefix_of(text) {
        assert(text[0] == "grpc://"@[0]);
    }
    if "otlp+grpc://"@.is_prefix_of(text) {
        assert(text[0] == "otlp+grpc://"@[0]);
    }
    if "zipkin+"@.is_prefix_of(text) {
        assert(text[0] == "zipkin+"@[0]);
    }
    if "zipkin://"@.is_prefix_of(text) {
        assert(text[0] == "zipkin://"@[0]);
    }
}

impl SinkUrl {
    /// Whether the URL gives no path of its own.
    pub fn lacks_path(&self) -> (r: bool)
        ensures
            r == lacks_path(self@),
    {
        str_eq(self.path.as_str(), "/") || self.path.as_str().is_empty()
    }

    /// Whether the URL can be given a longer path.
    fn takes_path(&self, path: &str) -> (r: bool)
        ensures
            r == takes_path(self@, path@),
    {
        let before = match split_at_first(self.href.as_str(), '#') {
            Some((before, _)) => before,
            None => match split_at_first(self.href.as_str(), '?') {
                Some((before, _)) => before,
                None => self.href.as_str(),
            },
        };
        let offset: u128 = before.as_bytes().len() as u128;
        let added: u128 = path.as_bytes().len() as u128;
        let removed: u128 = self.path.as_str().as_bytes().len() as u128;
        offset + added <= 0xffff_ffff + removed
    }
}

impl SinkTarget {
    /// The endpoint for the URL that the target's text holds.
    pub fn endpoint(&self, url: SinkUrl) -> (r: Endpoint)
        ensures
            r@ == (if self.zipkin {
                EndpointView::Zipkin(url@)
            } else {
                EndpointView::OtlpHttp(url@)
            }),
    {
        if self.zipkin {
            Endpoint::Zipkin(url)
        } else {
            Endpoint::OtlpHttp(url)
        }
    }

    /// The path that the exporter posts to when the URL gives none.
    pub fn default_path(&self) -> (r: &'static str)
        ensures
            r@ == default_path(self.zipkin),
    {
        if self.zipkin {
            "/api/v2/spans"
        } else {
            "/v1/traces"
        }
    }
}

/// A path without the slash that it ends with, and another path behind it.
fn joined_path(base: &str, path: &str) -> (r: String)
    ensures
        r@ == base_path(base@) + path@,
{
    let n: usize = base.unicode_len();
    if n > 0 && base.get_char(n - 1) == '/' {
        concat(base.substring_char(0, n - 1), path)
    } else {
        concat(base, path)
    }
}

proof fn lemma_joined_path(base: Seq<char>, zipkin: bool)
    ensures
        extends(base, base_path(base) + default_path(zipkin)),
        !(base_path(base) + default_path(zipkin) =~= "/"@),
{
    lemma_default_paths();
    let path = base_path(base) + default_path(zipkin);
    assert(path.skip(base_path(base).len() as int) =~= default_path(zipkin));
    assert(base_path(base) =~= path.subrange(0, base_path(base).len() as int));
}

/// Resolves an endpoint text by a rule: the scheme selects the exporter, and the
/// rule says what comes of the path. A URL that gets too long for 32-bit offsets
/// with the exporter's path is unusable.
pub fn resolve_by(raw: &str, rule: PathRule) -> (r: Result<Endpoint, ConfigError>)
    ensures
        match r {
            Ok(ep) => ruled_endpoint(raw@, rule) == Ok::<_, crate::error::ConfigErrorView>(ep@),
            Err(e) => ruled_endpoint(raw@, rule) == Err::<EndpointView, _>(e@),
        },
        r matches Ok(ep) ==> endpoint_follows(ep@, raw@, rule),
{
    let target = match sink_target(raw) {
        Ok(t) => t,
        Err(e) => {
            return Err(e);
        },
    };
    if let Some(mut u) = parse_url(target.text.as_str()) {
        let url = read_url(&u);
        let kept = if target.zipkin || rule == PathRule::Fallback {
            !url.lacks_path()
        } else {
            rule == PathRule::AsIs
        };
        if kept {
            return Ok(target.endpoint(url));
        }
        let path = joined_path(url.path.as_str(), target.default_path());
        proof {
            lemma_joined_path(url.path@, target.zipkin);
        }
        if url.takes_path(path.as_str()) {
            u.set_path(path.as_str());
            return Ok(target.endpoint(read_url(&u)));
        }
    }
    Err(
        ConfigError::InvalidExporterEndpoint(
            concat("unsupported or unparseable endpoint: ", trim(raw)),
        ),
    )
}

/// Resolves an endpoint text: the scheme selects the exporter, and a URL
/// without a path gets the exporter's own.
///
/// The URL of a resolved endpoint always has the scheme `http` or `https` and a
/// path of its own. Its scheme, host and port are those of the URL in the text.
pub fn resolve_endpoint(raw: &str) -> (r: Result<Endpoint, ConfigError>)
    ensures
        match r {
            Ok(ep) => resolved_endpoint(raw@) == Ok::<_, crate::error::ConfigErrorView>(ep@),
            Err(e) => resolved_endpoint(raw@) == Err::<EndpointView, _>(e@),
        },
        r matches Ok(ep) ==> {
            &&& endpoint_follows(ep@, raw@, PathRule::Fallback)
            &&& !lacks_path(ep@.address())
            &&& lacks_path(parsed_url(sink_target_of(raw@)->Ok_0.1)->0) ==> ep@.address().path
                == default_path(sink_target_of(raw@)->Ok_0.0)
        },
{
    let r = resolve_by(raw, PathRule::Fallback);
    proof {
        if let Ok((zipkin, text)) = sink_target_of(raw@) {
            if let Some(u) = parsed_url(text) {
                lemma_default_paths();
                lemma_joined_path(u.path, zipkin);
                if lacks_path(u) {
                    assert("/"@[0] == '/') by {
                        reveal_strlit("/");
                    }
                    assert(base_path(u.path) =~= seq![]);
                    assert(base_path(u.path) + default_path(zipkin) =~= default_path(zipkin));
                }
            }
        }
    }
    r
}

/// A text resolves exactly when its scheme selects an exporter and its URL
/// parses; the rule for the path never decides about that. A URL that is about
/// as long as 32-bit offsets reach, in bytes, is left out.
pub proof fn law_parsing_decides(raw: Seq<char>, rule: PathRule)
    requires
        sink_target_of(raw) matches Ok(target) ==> (parsed_url(target.1) matches Some(u)
            ==> encode_utf8(u.href).len() <= 0xffff_fff2),
    ensures
        ruled_endpoint(raw, rule) is Ok <==> (sink_target_of(raw) matches Ok(target)
            && parsed_url(target.1) is Some),
        ruled_endpoint(raw, rule) matches Ok(ep) ==> (kind_of(ep) == ExporterKind::Zipkin
            <==> sink_target_of(raw)->Ok_0.0),
{
    if let Ok((zipkin, text)) = sink_target_of(raw) {
        if let Some(u) = parsed_url(text) {
            let base = base_path(u.path);
            let added = default_path(zipkin);
            lemma_default_paths();
            is_ascii_chars_encode_utf8(added);
            crate::text::lemma_bytes_concat(base, added);
            assert(base =~= u.path.take(base.len() as int));
            crate::text::lemma_bytes_take(u.path, base.len() as int);
            crate::text::lemma_first_index(u.href, '#');
            crate::text::lemma_first_index(u.href, '?');
            let before = before_last_offset(u.href);
            assert(before =~= u.href.take(before.len() as int));
            crate::text::lemma_bytes_take(u.href, before.len() as int);
        }
    }
}

/// The scheme selects the exporter: `http://` and `https://` stand for themselves
/// and OTLP, `zipkin+` before one of them and `zipkin://` in place of `http://`
/// for Zipkin, and the rest of the text is kept as it is.
pub proof fn law_scheme_selects_exporter(rest: Seq<char>)
    requires
        rest.len() > 0,
        !crate::text::is_white_space(rest.last()),
    ensures
        sink_target_of("http://"@ + rest) == Ok::<(bool, Seq<char>), crate::error::ConfigErrorView>(
            (false, "http://"@ + rest),
        ),
        sink_target_of("https://"@ + rest) == Ok::<
            (bool, Seq<char>),
            crate::error::ConfigErrorView,
        >((false, "https://"@ + rest)),
        sink_target_of("zipkin+http://"@ + rest) == Ok::<
            (bool, Seq<char>),
            crate::error::ConfigErrorView,
        >((true, "http://"@ + rest)),
        sink_target_of("zipkin+https://"@ + rest) == Ok::<
            (bool, Seq<char>),
            crate::error::ConfigErrorView,
        >((true, "https://"@ + rest)),
        sink_target_of("zipkin://"@ + rest) == Ok::<
            (bool, Seq<char>),
            crate::error::ConfigErrorView,
        >((true, "http://"@ + rest)),
{
    lemma_plain_target("http://"@, rest);
    lemma_plain_target("https://"@, rest);
    lemma_marked_target("http://"@, rest);
    lemma_marked_target("https://"@, rest);
    lemma_zipkin_target(rest);
}

/// A text that starts with `http://` or `https://` stands for itself.
proof fn lemma_plain_target(scheme: Seq<char>, rest: Seq<char>)
    requires
        scheme == "http://"@ || scheme == "https://"@,
        rest.len() > 0,
        !crate::text::is_white_space(rest.last()),
    ensures
        sink_target_of(scheme + rest) == Ok::<(bool, Seq<char>), crate::error::ConfigErrorView>(
            (false, scheme + rest),
        ),
{
    reveal_strlit("http://");
    reveal_strlit("https://");
    let text = scheme + rest;
    assert(text[0] == 'h');
    assert(text.last() == rest.last());
    crate::text::lemma_trimmed_same(text);
    assert(scheme =~= text.subrange(0, scheme.len() as int));
    lemma_http_target(text);
}

/// `zipkin+` before `http://` or `https://` stands for the text behind it.
proof fn lemma_marked_target(scheme: Seq<char>, rest: Seq<char>)
    requires
        scheme == "http://"@ || scheme == "https://"@,
        rest.len() > 0,
        !crate::text::is_white_space(rest.last()),
    ensures
        scheme == "http://"@ ==> sink_target_of("zipkin+http://"@ + rest) == Ok::<
            (bool, Seq<char>),
            crate::error::ConfigErrorView,
        >((true, scheme + rest)),
        scheme == "https://"@ ==> sink_target_of("zipkin+https://"@ + rest) == Ok::<
            (bool, Seq<char>),
            crate::error::ConfigErrorView,
        >((true, scheme + rest)),
{
    reveal_strlit("http://");
    reveal_strlit("https://");
    reveal_strlit("zipkin+");
    reveal_strlit("zipkin+http://");
    reveal_strlit("zipkin+https://");
    let text = "zipkin+"@ + (scheme + rest);
    assert(text[0] == 'z');
    assert(text.last() == rest.last());
    crate::text::lemma_trimmed_same(text);
    lemma_no_grpc(text);
    assert("zipkin+"@ =~= text.subrange(0, 7));
    assert(text.skip(7) =~= scheme + rest);
    assert(scheme =~= (scheme + rest).subrange(0, scheme.len() as int));
    if scheme == "http://"@ {
        assert("zipkin+http://"@ + rest =~= text);
    } else {
        assert("zipkin+https://"@ + rest =~= text);
    }
}

/// `zipkin://` stands for `http://`.
proof fn lemma_zipkin_target(rest: Seq<char>)
    requires
        rest.len() > 0,
        !crate::text::is_white_space(rest.last()),
    ensures
        sink_target_of("zipkin://"@ + rest) == Ok::<
            (bool, Seq<char>),
            crate::error::ConfigErrorView,
        >((true, "http://"@ + rest)),
{
    reveal_strlit("zipkin+");
    reveal_strlit("zipkin://");
    let text = "zipkin://"@ + rest;
    assert(text[0] == 'z' && text[6] == ':');
    assert(text.last() == rest.last());
    crate::text::lemma_trimmed_same(text);
    lemma_no_grpc(text);
    assert("zipkin://"@ =~= text.subrange(0, 9));
    assert(text.skip(9) =~= rest);
    if "zipkin+"@.is_prefix_of(text) {
        assert(text[6] == "zipkin+"@[6]);
    }
}

proof fn lemma_no_grpc(text: Seq<char>)
    requires
        text.len() > 0,
        text[0] != 'g',
        text[0] != 'o',
    ensures
        !"grpc://"@.is_prefix_of(text),
        !"otlp+grpc://"@.is_prefix_of(text),
{
    reveal_strlit("grpc://");
    reveal_strlit("otlp+grpc://");
    if "grpc://"@.is_prefix_of(text) {
        assert(text[0] == "grpc://"@[0]);
    }
    if "otlp+grpc://"@.is_prefix_of(text) {
        assert(text[0] == "otlp+grpc://"@[0]);
    }
}

/// What selects no exporter is refused, and the error names it: nothing at all,
/// gRPC, or a text that starts with none of the schemes.
pub proof fn law_unusable_sinks(rest: Seq<char>, text: Seq<char>)
    requires
        rest.len() > 0,
        !crate::text::is_white_space(rest.last()),
        text.len() > 0,
        !crate::text::is_white_space(text[0]),
        !crate::text::is_white_space(text.last()),
    ensures
        sink_target_of(seq![]) == Err::<(bool, Seq<char>), crate::error::ConfigErrorView>(
            crate::error::ConfigErrorView::InvalidExporterEndpoint("empty endpoint"@),
        ),
        sink_target_of("grpc://"@ + rest) == Err::<(bool, Seq<char>), crate::error::ConfigErrorView>(
            crate::error::ConfigErrorView::InvalidExporterEndpoint(
                "gRPC endpoints are not supported in v0.1 (no grpc feature)"@,
            ),
        ),
        sink_target_of("otlp+grpc://"@ + rest) == Err::<
            (bool, Seq<char>),
            crate::error::ConfigErrorView,
        >(
            crate::error::ConfigErrorView::InvalidExporterEndpoint(
                "gRPC endpoints are not supported in v0.1 (no grpc feature)"@,
            ),
        ),
        text[0] != 'h' && text[0] != 'z' && text[0] != 'g' && text[0] != 'o' ==> sink_target_of(text)
            == Err::<(bool, Seq<char>), crate::error::ConfigErrorView>(
            crate::error::ConfigErrorView::InvalidExporterEndpoint(
                "unsupported or unparseable endpoint: "@ + text,
            ),
        ),
{
    lemma_grpc_target("grpc://"@, rest);
    lemma_grpc_target("otlp+grpc://"@, rest);
    crate::text::lemma_trimmed_same(text);
    if text[0] != 'h' && text[0] != 'z' && text[0] != 'g' && text[0] != 'o' {
        lemma_no_grpc(text);
        lemma_no_scheme(text);
    }
}

proof fn lemma_grpc_target(scheme: Seq<char>, rest: Seq<char>)
    requires
        scheme == "grpc://"@ || scheme == "otlp+grpc://"@,
        rest.len() > 0,
        !crate::text::is_white_space(rest.last()),
    ensures
        sink_target_of(scheme + rest) == Err::<(bool, Seq<char>), crate::error::ConfigErrorView>(
            crate::error::ConfigErrorView::InvalidExporterEndpoint(
                "gRPC endpoints are not supported in v0.1 (no grpc feature)"@,
            ),
        ),
{
    reveal_strlit("grpc://");
    reveal_strlit("otlp+grpc://");
    let text = scheme + rest;
    assert(text[0] == scheme[0]);
    assert(text.last() == rest.last());
    crate::text::lemma_trimmed_same(text);
    assert(scheme =~= text.subrange(0, scheme.len() as int));
}

proof fn lemma_no_scheme(text: Seq<char>)
    requires
        text.len() > 0,
        text[0] != 'h',
        text[0] != 'z',
    ensures
        !is_http(text),
        !"zipkin+"@.is_prefix_of(text),
        !"zipkin://"@.is_prefix_of(text),
{
    reveal_strlit("http://");
    reveal_strlit("https://");
    reveal_strlit("zipkin+");
    reveal_strlit("zipkin://");
    if "http://"@.is_prefix_of(text) {
        assert(text[0] == "http://"@[0]);
    }
    if "https://"@.is_prefix_of(text) {
        assert(text[0] == "https://"@[0]);
    }
    if "zipkin+"@.is_prefix_of(text) {
        assert(text[0] == "zipkin+"@[0]);
    }
    if "zipkin://"@.is_prefix_of(text) {
        assert(text[0] == "zipkin://"@[0]);
    }
}

/// Where spans are posted to. A sink without a path gets `/v1/traces`, or
/// `/api/v2/spans` for Zipkin, and one with a path keeps it. By the rule for the
/// traces endpoint every path stays; by the rule for the general one the
/// exporter's path comes behind it, without a second slash.
pub proof fn law_posted_paths(u: UrlParts, rule: PathRule, base: Seq<char>)
    ensures
        u.path.len() == 0 || u.path == seq!['/'] ==> posted_path(u, false, PathRule::Fallback)
            == "/v1/traces"@ && posted_path(u, true, rule) == "/api/v2/spans"@,
        u.path.len() > 0 && u.path != seq!['/'] ==> posted_path(u, false, PathRule::Fallback)
            == u.path && posted_path(u, true, rule) == u.path && posted_url(u, true, rule) == Some(u)
            && posted_url(u, false, PathRule::Fallback) == Some(u),
        posted_path(u, false, PathRule::AsIs) == u.path,
        posted_url(u, false, PathRule::AsIs) == Some(u),
        u.path == base + seq!['/'] ==> posted_path(u, false, PathRule::Base) == base
            + "/v1/traces"@,
        u.path == base && base.len() > 0 && base.last() != '/' ==> posted_path(
            u,
            false,
            PathRule::Base,
        ) == base + "/v1/traces"@,
{
    reveal_strlit("/");
    assert("/"@ =~= seq!['/']);
    let slashed = base + seq!['/'];
    assert(slashed.last() == '/');
    assert(slashed.drop_last() =~= base);
    if u.path.len() == 0 || u.path == seq!['/'] {
        assert(base_path(u.path) =~= seq![]);
        assert(seq![] + "/v1/traces"@ =~= "/v1/traces"@);
        assert(seq![] + "/api/v2/spans"@ =~= "/api/v2/spans"@);
    }
}

/// The endpoint that a text resolves to: what is posted to is the URL in the
/// text, at the path by the rule, and the exporter is the one that the scheme
/// selects. A text whose URL does not parse resolves to none.
pub proof fn law_resolved_endpoint(raw: Seq<char>, rule: PathRule)
    ensures
        ruled_endpoint(raw, rule) matches Ok(ep) ==> {
            &&& sink_target_of(raw) matches Ok(target)
            &&& target.0 ==> ep is Zipkin && kind_of(ep) == ExporterKind::Zipkin
            &&& !target.0 ==> ep is OtlpHttp && kind_of(ep) == ExporterKind::Otlp
            &&& parsed_url(target.1) matches Some(u)
            &&& posted_path(u, target.0, rule) == u.path ==> ep.address() == u || ep.address()
                == url_at(u, u.path)
            &&& posted_path(u, target.0, rule) != u.path ==> ep.address() == url_at(
                u,
                posted_path(u, target.0, rule),
            )
        },
        sink_target_of(raw) matches Err(e) ==> ruled_endpoint(raw, rule) == Err::<
            EndpointView,
            crate::error::ConfigErrorView,
        >(e),
        sink_target_of(raw) matches Ok(target) ==> (parsed_url(target.1) is None
            ==> ruled_endpoint(raw, rule) == Err::<EndpointView, crate::error::ConfigErrorView>(
            crate::error::ConfigErrorView::InvalidExporterEndpoint(
                "unsupported or unparseable endpoint: "@ + crate::text::trimmed(raw),
            ),
        )),
        resolved_endpoint(raw) == ruled_endpoint(raw, PathRule::Fallback),
{
}

/// Whitespace around an endpoint text does not count.
pub proof fn law_sinks_are_trimmed(before: Seq<char>, text: Seq<char>, after: Seq<char>)
    requires
        forall|i: int|
            0 <= i < before.len() ==> crate::text::is_white_space(#[trigger] before[i]),
        forall|i: int| 0 <= i < after.len() ==> crate::text::is_white_space(#[trigger] after[i]),
        text.len() > 0 ==> !crate::text::is_white_space(text[0]) && !crate::text::is_white_space(
            text.last(),
        ),
    ensures
        sink_target_of(before + text + after) == sink_target_of(text),
        resolved_endpoint(before + text + after) == resolved_endpoint(text),
{
    crate::text::law_trimmed_between(before, text, after);
    crate::text::law_trimmed_between(seq![], text, seq![]);
    assert(seq![] + text + seq![] =~= text);
}

} // verus!
