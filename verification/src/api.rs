//! The browser as a library: settings, pages and cookies.

pub mod browser;
pub mod call_laws;
pub mod cookie;
pub mod error;
pub mod laws;
pub mod page;
