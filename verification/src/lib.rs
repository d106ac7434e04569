//! Allora: enterprise integration patterns (messages, channels, filters,
//! aggregation) and the declarative specifications that wire them.
pub mod channel;
pub mod endpoint;
pub mod error;
pub mod http;
pub mod json;
pub mod logging;
pub mod message;
pub mod patterns;
pub mod runtime;
pub mod spec;
pub mod text;
pub mod yaml;
