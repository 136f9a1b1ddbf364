//! What the procedures of the interface are made of. A procedure decides between one piece of
//! outside work and the next: each step takes what the last piece of work led to, and says what to
//! do now.

use crate::conf;
use crate::conf::Conf;
use crate::error::{Error, ErrorView};
use crate::exchange::{Request, Sent};
use crate::remote::SyncServerResponse;
use vstd::prelude::*;

verus! {

/// Why the user has no access to the server.
#[derive(Debug, Clone, Copy, PartialEq, Eq, Structural)]
pub enum AccessFailure {
    /// There are tokens, but they expired and could not be renewed.
    TokenExpired,
    /// The user never signed in.
    TokensNotFound,
}

/// A piece of outside work.
#[derive(Debug)]
pub enum Work {
    /// Make sure that the user has access to the server.
    Authorize,
    ReadConf,
    SaveConf(Conf),
    Send(Request),
    /// Parse the profiles in the body of a reply.
    ParseProfiles(String),
    /// Parse the identifier in the body of a reply.
    ParseId(String),
    /// Parse the timestamp in the body of a reply.
    ParseStamp(String),
}

/// What a piece of outside work led to.
#[derive(Debug)]
pub enum Event {
    Authorized(Result<(), AccessFailure>),
    ConfRead(Result<Conf, conf::Error>),
    ConfSaved(Result<(), conf::Error>),
    Replied(Sent),
    ProfilesParsed(Result<SyncServerResponse, String>),
    IdParsed(Result<u32, String>),
    StampParsed(Result<String, String>),
}

/// How a procedure goes on: with more work, or with its answer.
#[derive(Debug)]
pub enum Next<S, T> {
    Continue(S, Work),
    Finish(Result<T, Error>),
}

/// The error that a procedure answers for want of access.
pub open spec fn access_error(failure: AccessFailure) -> ErrorView {
    match failure {
        AccessFailure::TokenExpired => ErrorView::TokenExpired,
        AccessFailure::TokensNotFound => ErrorView::TokensNotFound,
    }
}

/// The procedure ends with an error.
pub open spec fn fails<S, T>(next: Next<S, T>, error: ErrorView) -> bool {
    next matches Next::Finish(Err(answered)) && answered@ == error
}

/// Tells which error stands for want of access.
pub(crate) fn denied(failure: AccessFailure) -> (error: Error)
    ensures
        error@ == access_error(failure),
{
    match failure {
        AccessFailure::TokenExpired => Error::TokenExpired,
        AccessFailure::TokensNotFound => Error::TokensNotFound,
    }
}

} // verus!
