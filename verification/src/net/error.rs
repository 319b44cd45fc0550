//! What can go wrong with a request.

use vstd::prelude::*;
use vstd::string::*;

verus! {

/// Why a request failed.
#[derive(Debug)]
pub enum ObscuraNetError {
    Network(String),
    TooManyRedirects(String),
    Blocked(String),
}

/// Why a request failed, with the text of the reason.
pub enum NetErrorView {
    Network(Seq<char>),
    TooManyRedirects(Seq<char>),
    Blocked(Seq<char>),
}

impl View for ObscuraNetError {
    type V = NetErrorView;

    open spec fn view(&self) -> NetErrorView {
        match self {
            ObscuraNetError::Network(s) => NetErrorView::Network(s@),
            ObscuraNetError::TooManyRedirects(s) => NetErrorView::TooManyRedirects(s@),
            ObscuraNetError::Blocked(s) => NetErrorView::Blocked(s@),
        }
    }
}

impl NetErrorView {
    /// The message that the error is shown with.
    pub open spec fn message(self) -> Seq<char> {
        match self {
            NetErrorView::Network(s) => "Network error: "@ + s,
            NetErrorView::TooManyRedirects(s) => "Too many redirects: "@ + s,
            NetErrorView::Blocked(s) => "Request blocked: "@ + s,
        }
    }
}

impl ObscuraNetError {
    /// The message that the error is shown with.
    pub fn message(&self) -> (r: String)
        ensures
            r@ == self@.message(),
    {
        match self {
            ObscuraNetError::Network(s) => "Network error: ".to_owned().concat(s.as_str()),
            ObscuraNetError::TooManyRedirects(s) => "Too many redirects: ".to_owned().concat(
                s.as_str(),
            ),
            ObscuraNetError::Blocked(s) => "Request blocked: ".to_owned().concat(s.as_str()),
        }
    }
}

} // verus!
