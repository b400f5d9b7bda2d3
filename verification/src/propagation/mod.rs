//! W3C trace context propagation: the `traceparent` and `tracestate` headers.

pub mod traceparent;
pub mod tracestate;

pub use traceparent::{
    parse_traceparent, ParseError as TraceParentParseError, TraceFlags, TraceParent,
};
pub use tracestate::TraceState;
