//! What can go wrong.

use vstd::prelude::*;
use vstd::string::*;

verus! {

/// What can go wrong.
pub enum Error {
    Navigation(String),
    JsEval(String),
    Timeout(String),
    ElementNotFound(String),
    NoPage,
    Internal(String),
}

/// What can go wrong, as plain data.
pub enum ErrorView {
    Navigation(Seq<char>),
    JsEval(Seq<char>),
    Timeout(Seq<char>),
    ElementNotFound(Seq<char>),
    NoPage,
    Internal(Seq<char>),
}

impl View for Error {
    type V = ErrorView;

    open spec fn view(&self) -> ErrorView {
        match self {
            Error::Navigation(s) => ErrorView::Navigation(s@),
            Error::JsEval(s) => ErrorView::JsEval(s@),
            Error::Timeout(s) => ErrorView::Timeout(s@),
            Error::ElementNotFound(s) => ErrorView::ElementNotFound(s@),
            Error::NoPage => ErrorView::NoPage,
            Error::Internal(s) => ErrorView::Internal(s@),
        }
    }
}

impl ErrorView {
    /// The error in words.
    pub open spec fn message(self) -> Seq<char> {
        match self {
            ErrorView::Navigation(s) => "navigation error: "@ + s,
            ErrorView::JsEval(s) => "JS evaluation error: "@ + s,
            ErrorView::Timeout(s) => "timeout: "@ + s,
            ErrorView::ElementNotFound(s) => "element not found: "@ + s,
            ErrorView::NoPage => "no page session"@,
            ErrorView::Internal(s) => s,
        }
    }
}

impl Error {
    /// The error in words.
    pub fn message(&self) -> (r: String)
        ensures
            r@ == self@.message(),
    {
        match self {
            Error::Navigation(s) => "navigation error: ".to_owned().concat(s.as_str()),
            Error::JsEval(s) => "JS evaluation error: ".to_owned().concat(s.as_str()),
            Error::Timeout(s) => "timeout: ".to_owned().concat(s.as_str()),
            Error::ElementNotFound(s) => "element not found: ".to_owned().concat(s.as_str()),
            Error::NoPage => "no page session".to_owned(),
            Error::Internal(s) => s.clone(),
        }
    }
}

} // verus!
