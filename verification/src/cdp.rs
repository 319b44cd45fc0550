//! The DevTools protocol: what clients ask for and what they are told.

pub mod call_laws;
pub mod dispatch;
pub mod dispatch_laws;
pub mod http;
pub mod input;
pub mod input_laws;
pub mod navigation;
pub mod navigation_laws;
pub mod server;
pub mod server_laws;
pub mod types;
