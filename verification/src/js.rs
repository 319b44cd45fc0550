//! What the scripts of a page can do.

pub mod call_laws;
pub mod dom;
pub mod dom_laws;
pub mod dom_ops;
pub mod fetch;
pub mod fetch_laws;
pub mod ops;
pub mod ops_laws;
pub mod state;
