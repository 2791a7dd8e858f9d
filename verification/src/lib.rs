//! Instrumentation around a shared HTTP client: every tracked send leaves a
//! correlation-keyed capture entry holding a snapshot of the outgoing request
//! (headers, body, cookies, timestamp) and, once the transport answers, a
//! snapshot of the response or the error, together with a dump of the cookie
//! jar taken just after that answer. The store of entries can be read,
//! drained or cleared, rendered as JSON, and rendered in a redacted form
//! whose long values are truncated for display.

pub mod errors;
pub mod jar;
pub mod json;
pub mod laws;
pub mod model;
pub mod pipeline;
pub mod redact;
pub mod store;
pub mod text;
