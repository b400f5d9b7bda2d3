//! Error types for configuration and initialization.
//!
//! Two tiers:
//! - [`ConfigError`]: for fallible configuration (`try_new`, `try_from_config`).
//! - [`InitError`]: for the one-call setup path, which may wrap a configuration
//!   error or report that a subscriber is already installed.
//!
//! The convenience constructors turn configuration problems into a disabled
//! tracer rather than returning errors.

use vstd::prelude::*;
use vstd::string::*;

use crate::text::concat;

verus! {

/// Errors that occur while building or validating a configuration.
#[derive(Debug, PartialEq, Eq)]
pub enum ConfigError {
    /// The service name was missing while an exporter sink was explicitly
    /// configured. This is the only case in which the fallible constructors
    /// return an error; absence of any sink configuration produces a disabled
    /// tracer successfully.
    MissingServiceName,
    /// The exporter endpoint or sink URI was present but could not be
    /// interpreted (bad scheme, unsupported protocol, and so on).
    InvalidExporterEndpoint(String),
    /// Other configuration problem (for example a malformed header map).
    InvalidConfig(String),
}

/// A configuration error, with its text as a sequence of characters.
pub ghost enum ConfigErrorView {
    MissingServiceName,
    InvalidExporterEndpoint(Seq<char>),
    InvalidConfig(Seq<char>),
}

impl View for ConfigError {
    type V = ConfigErrorView;

    open spec fn view(&self) -> ConfigErrorView {
        match self {
            ConfigError::MissingServiceName => ConfigErrorView::MissingServiceName,
            ConfigError::InvalidExporterEndpoint(s) => ConfigErrorView::InvalidExporterEndpoint(s@),
            ConfigError::InvalidConfig(s) => ConfigErrorView::InvalidConfig(s@),
        }
    }
}

impl ConfigErrorView {
    /// The text that describes the error.
    pub open spec fn text(self) -> Seq<char> {
        match self {
            ConfigErrorView::MissingServiceName =>
                "OTEL_SERVICE_NAME is required for enabled export"@,
            ConfigErrorView::InvalidExporterEndpoint(s) => "invalid exporter endpoint: "@ + s,
            ConfigErrorView::InvalidConfig(s) => "invalid configuration: "@ + s,
        }
    }
}

impl Clone for ConfigError {
    fn clone(&self) -> (r: ConfigError)
        ensures
            r == *self,
    {
        match self {
            ConfigError::MissingServiceName => ConfigError::MissingServiceName,
            ConfigError::InvalidExporterEndpoint(s) => ConfigError::InvalidExporterEndpoint(s.clone()),
            ConfigError::InvalidConfig(s) => ConfigError::InvalidConfig(s.clone()),
        }
    }
}

impl ConfigError {
    /// A human-readable description.
    pub fn to_string(&self) -> (r: String)
        ensures
            r@ == self@.text(),
    {
        match self {
            ConfigError::MissingServiceName =>
                "OTEL_SERVICE_NAME is required for enabled export".to_owned(),
            ConfigError::InvalidExporterEndpoint(s) => concat("invalid exporter endpoint: ", s.as_str()),
            ConfigError::InvalidConfig(s) => concat("invalid configuration: ", s.as_str()),
        }
    }
}

/// Errors returned by the one-call setup path.
#[derive(Debug, PartialEq, Eq)]
pub enum InitError {
    /// The underlying configuration was invalid.
    Config(ConfigError),
    /// A global `tracing` subscriber had already been installed. Compose the
    /// tracer's own subscriber layer instead.
    GlobalSubscriberAlreadySet,
    /// Any other initialization failure.
    Other(String),
}

impl Clone for InitError {
    fn clone(&self) -> (r: InitError)
        ensures
            r == *self,
    {
        match self {
            InitError::Config(e) => InitError::Config(e.clone()),
            InitError::GlobalSubscriberAlreadySet => InitError::GlobalSubscriberAlreadySet,
            InitError::Other(s) => InitError::Other(s.clone()),
        }
    }
}

impl InitError {
    /// The text that describes the error.
    pub open spec fn text(self) -> Seq<char> {
        match self {
            InitError::Config(e) => "configuration error: "@ + e@.text(),
            InitError::GlobalSubscriberAlreadySet =>
                "a global tracing subscriber is already set; use Tracer + subscriber_layer() instead of init()"@,
            InitError::Other(s) => "initialization error: "@ + s@,
        }
    }

    /// A human-readable description.
    pub fn to_string(&self) -> (r: String)
        ensures
            r@ == self.text(),
    {
        match self {
            InitError::Config(e) => concat("configuration error: ", e.to_string().as_str()),
            InitError::GlobalSubscriberAlreadySet =>
                "a global tracing subscriber is already set; use Tracer + subscriber_layer() instead of init()".to_owned(),
            InitError::Other(s) => concat("initialization error: ", s.as_str()),
        }
    }
}

impl From<ConfigError> for InitError {
    fn from(e: ConfigError) -> (r: InitError) {
        InitError::Config(e)
    }
}

impl vstd::std_specs::convert::FromSpecImpl<ConfigError> for InitError {
    open spec fn obeys_from_spec() -> bool {
        true
    }

    open spec fn from_spec(e: ConfigError) -> InitError {
        InitError::Config(e)
    }
}

/// What the errors say to a reader.
pub proof fn law_error_texts(e: ConfigError, s: String)
    ensures
        ConfigError::MissingServiceName@.text()
            == "OTEL_SERVICE_NAME is required for enabled export"@,
        ConfigError::InvalidExporterEndpoint(s)@.text() == "invalid exporter endpoint: "@ + s@,
        ConfigError::InvalidConfig(s)@.text() == "invalid configuration: "@ + s@,
        InitError::Config(e).text() == "configuration error: "@ + e@.text(),
        InitError::Other(s).text() == "initialization error: "@ + s@,
        InitError::GlobalSubscriberAlreadySet.text()
            == "a global tracing subscriber is already set; use Tracer + subscriber_layer() instead of init()"@,
{
}

} // verus!
