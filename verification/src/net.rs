//! Requests to the network: URLs, which of them may be fetched, and the HTTP client.

pub mod call_laws;
pub mod client;
pub mod error;
pub mod headers;
pub mod laws;
pub mod policy;
pub mod url;
