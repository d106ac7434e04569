//! HTTP adapters: the decisions and message shaping around HTTP requests
//! received and sent by the embedding program.
pub mod outbound;
pub mod inbound;
