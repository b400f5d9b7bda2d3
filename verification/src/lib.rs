//! # auspex
//!
//! Opinionated, lean OpenTelemetry tracing for HTTP services: what a request
//! becomes as a span, how spans of one trace find each other, and how finished
//! spans become export requests.
//!
//! Everything in this crate decides and computes; nothing in it performs I/O.
//! The contract of each function says what it returns or changes, over the
//! views of the types: texts as sequences of characters, spans as
//! [`span::SpanView`], configurations as [`config::ConfigView`].
//!
//! - [`config`] and [`sink`]: settings from the environment and from a builder,
//!   and the endpoint that they resolve to.
//! - [`propagation`] and [`context`]: the W3C trace context headers, and the
//!   identifiers that they carry.
//! - [`span`], [`field`] and [`layer`]: what is recorded on a span, and when.
//! - [`middleware`]: what is recorded of a request and of its response.
//! - [`pipeline`] and [`exporter`]: the way of a finished span to a server.

pub mod config;
pub mod context;
pub mod error;
pub mod exporter;
pub mod field;
pub mod layer;
pub mod lists;
pub mod middleware;
pub mod pipeline;
pub mod propagation;
pub mod sink;
pub mod span;
pub mod text;
pub mod time;

pub use config::{Config, Environment};
pub use error::{ConfigError, InitError};
pub use middleware::{Tracer, TracerBuilder};
