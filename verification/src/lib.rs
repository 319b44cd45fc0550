//! The verified core of a headless browser.

pub mod api;
pub mod assoc;
pub mod base64;
pub mod call_laws;
pub mod cdp;
pub mod js;
pub mod json;
pub mod net;
pub mod text;
pub mod text_laws;
