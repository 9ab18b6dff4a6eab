//! Client library for the ROFL application daemon: URL and transport
//! handling, HTTP/1.1 request framing and response checking, and the
//! request and response logic of each daemon endpoint.

pub mod api;
pub mod client;
pub mod error;
pub mod http;
pub mod scheduler;
pub mod text;
pub mod url;
