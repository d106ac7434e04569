//! Declarative, format-independent specifications of runtime components,
//! and their parsers from the YAML document model.
pub mod aggregator;
pub mod allora;
pub mod channel;
pub mod common;
pub mod filter;
pub mod http_inbound;
pub mod http_outbound;
pub mod service;
pub mod version;
