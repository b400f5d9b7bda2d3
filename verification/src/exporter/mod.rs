//! The export side: batching, payloads, and what to do with a server's reply.

pub mod batch;
pub mod error;
pub mod otlp_http;
pub mod post;
pub mod retry;
pub mod tags;
pub mod zipkin;

pub use batch::BatchWorker;
pub use error::ExportError;
