//! What can go wrong in an exchange with the server.

use crate::conf;
use vstd::prelude::*;

verus! {

/// Why an exchange with the server failed.
#[derive(Debug)]
pub enum Error {
    TokensNotFound,
    NotConnected,
    RequestFailed(String),
    InvalidResponse(String),
    Conf(conf::Error),
    ProfileOrGuideNotFound,
    ValidationError(String),
    TokenExpired,
}

pub enum ErrorView {
    TokensNotFound,
    NotConnected,
    RequestFailed(Seq<char>),
    InvalidResponse(Seq<char>),
    Conf(Seq<char>),
    ProfileOrGuideNotFound,
    ValidationError(Seq<char>),
    TokenExpired,
}

impl View for Error {
    type V = ErrorView;

    open spec fn view(&self) -> ErrorView {
        match self {
            Error::TokensNotFound => ErrorView::TokensNotFound,
            Error::NotConnected => ErrorView::NotConnected,
            Error::RequestFailed(text) => ErrorView::RequestFailed(text@),
            Error::InvalidResponse(text) => ErrorView::InvalidResponse(text@),
            Error::Conf(error) => ErrorView::Conf(error.message@),
            Error::ProfileOrGuideNotFound => ErrorView::ProfileOrGuideNotFound,
            Error::ValidationError(text) => ErrorView::ValidationError(text@),
            Error::TokenExpired => ErrorView::TokenExpired,
        }
    }
}

/// The error in words.
pub open spec fn error_message(error: ErrorView) -> Seq<char> {
    match error {
        ErrorView::TokensNotFound => "tokens not found"@,
        ErrorView::NotConnected => "user not connected"@,
        ErrorView::RequestFailed(text) => "request failed: "@ + text,
        ErrorView::InvalidResponse(text) => "invalid response: "@ + text,
        ErrorView::Conf(text) => "conf error: "@ + text,
        ErrorView::ProfileOrGuideNotFound => "profile or guide not found on server"@,
        ErrorView::ValidationError(text) => "validation error: "@ + text,
        ErrorView::TokenExpired => "token expired"@,
    }
}

fn prefixed(prefix: &str, text: &String) -> (message: String)
    ensures
        message@ == prefix@ + text@,
{
    let mut message = prefix.to_owned();
    message.append(text.as_str());
    message
}

impl Error {
    /// The error in words.
    pub fn message(&self) -> (message: String)
        ensures
            message@ == error_message(self@),
    {
        match self {
            Error::TokensNotFound => "tokens not found".to_owned(),
            Error::NotConnected => "user not connected".to_owned(),
            Error::RequestFailed(text) => prefixed("request failed: ", text),
            Error::InvalidResponse(text) => prefixed("invalid response: ", text),
            Error::Conf(error) => prefixed("conf error: ", &error.message),
            Error::ProfileOrGuideNotFound => "profile or guide not found on server".to_owned(),
            Error::ValidationError(text) => prefixed("validation error: ", text),
            Error::TokenExpired => "token expired".to_owned(),
        }
    }
}

} // verus!
