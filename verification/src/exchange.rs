//! Requests to the server, and what its replies mean.

use crate::conf::{steps_view, ConfStep};
use crate::error::{Error, ErrorView};
use crate::payload::SyncProfilePayload;
use crate::text::{decimal, occurs_at, replace_first, to_decimal, with_first_replaced};
use reqwest::StatusCode;
use std::collections::HashMap;
use vstd::prelude::*;

verus! {

/// How many line breaks of a refusal are flattened before it is shown.
pub const FLATTENED_BREAKS: usize = 300;

/// The status of a reply in words, as reqwest writes it: the code, then its standard reason.
pub uninterp spec fn status_text(code: u16) -> Seq<char>;

/// Calls `Display` of `reqwest::StatusCode`. The text depends on the code alone: the code in
/// decimal, a space, and the reason that belongs to the code. Which reason that is stays unsaid.
#[verifier::external_body]
fn status_line(code: u16) -> (text: String)
    requires
        100 <= code <= 999,
    ensures
        text@ == status_text(code),
        occurs_at(text@, decimal(code as nat).push(' '), 0),
{
    StatusCode::from_u16(code).unwrap().to_string()
}

#[derive(Debug, Clone, Copy, PartialEq, Eq, Structural)]
pub enum Method {
    Post,
    Put,
    Patch,
    Delete,
}

/// What a request carries, before it is written as JSON.
#[derive(Debug)]
pub enum Body {
    Empty,
    NewProfile { name: String, uuid: String },
    Name { name: String },
    Progress { current_step: u32, steps: HashMap<u32, ConfStep> },
    Profiles { profiles: Vec<SyncProfilePayload> },
}

#[derive(Debug)]
pub struct Request {
    pub method: Method,
    pub url: String,
    pub body: Body,
}

/// A reply, with its body or the reason why the body could not be read.
#[derive(Debug)]
pub struct Reply {
    pub status: u16,
    pub body: Result<String, String>,
}

impl Reply {
    /// The status has three digits, as every status of a reply has.
    pub open spec fn well_formed(&self) -> bool {
        100 <= self.status <= 999
    }
}

/// Why no reply came.
#[derive(Debug)]
pub enum SendFailure {
    /// The access token expired and could not be renewed.
    TokenExpired,
    /// The request did not go through.
    Transport { connect: bool, timeout: bool, message: String },
}

/// What sending a request led to.
pub type Sent = Result<Reply, SendFailure>;

pub open spec fn sent_well_formed(sent: Sent) -> bool {
    sent matches Ok(reply) ==> reply.well_formed()
}

/// The status means success.
pub open spec fn succeeded(status: u16) -> bool {
    200 <= status < 300
}

/// The body of a reply, or nothing where it could not be read.
pub open spec fn body_or_empty(reply: Reply) -> Seq<char> {
    match reply.body {
        Ok(text) => text@,
        Err(_) => Seq::empty(),
    }
}

/// The failure as it is reported for changes to a profile.
pub open spec fn failure(failure: SendFailure) -> ErrorView {
    match failure {
        SendFailure::TokenExpired => ErrorView::TokenExpired,
        SendFailure::Transport { connect: _, timeout: _, message } => ErrorView::RequestFailed(
            message@,
        ),
    }
}

/// The failure as it is reported for synchronisation, which tells a missing connection apart.
pub open spec fn sync_failure(failure: SendFailure) -> ErrorView {
    match failure {
        SendFailure::TokenExpired => ErrorView::TokenExpired,
        SendFailure::Transport { connect, timeout, message } => {
            if connect || timeout {
                ErrorView::NotConnected
            } else {
                ErrorView::RequestFailed(message@)
            }
        },
    }
}

/// A refusal with what the server said.
pub open spec fn refusal(status: u16, text: Seq<char>) -> ErrorView {
    ErrorView::RequestFailed("HTTP "@ + status_text(status) + ": "@ + text)
}

/// A refusal without what the server said.
pub open spec fn bare_refusal(status: u16) -> ErrorView {
    ErrorView::RequestFailed("HTTP "@ + status_text(status))
}

/// The error is a failed request whose message begins with the status code.
pub open spec fn names_status(error: ErrorView, status: u16) -> bool {
    error matches ErrorView::RequestFailed(message) && occurs_at(
        message,
        "HTTP "@ + decimal(status as nat).push(' '),
        0,
    )
}

/// Whether the status means success.
pub fn is_success(status: u16) -> (success: bool)
    ensures
        success == succeeded(status),
{
    200 <= status && status < 300
}

fn text_or_empty(body: &Result<String, String>) -> (text: String)
    ensures
        text@ == (match body {
            Ok(text) => text@,
            Err(_) => Seq::empty(),
        }),
{
    match body {
        Ok(text) => text.clone(),
        Err(_) => String::new(),
    }
}

fn send_error(failed: SendFailure) -> (error: Error)
    ensures
        error@ == failure(failed),
{
    match failed {
        SendFailure::TokenExpired => Error::TokenExpired,
        SendFailure::Transport { connect: _, timeout: _, message } => Error::RequestFailed(message),
    }
}

fn sync_send_error(failed: SendFailure) -> (error: Error)
    ensures
        error@ == sync_failure(failed),
{
    match failed {
        SendFailure::TokenExpired => Error::TokenExpired,
        SendFailure::Transport { connect, timeout, message } => {
            if connect || timeout {
                Error::NotConnected
            } else {
                Error::RequestFailed(message)
            }
        },
    }
}

/// The message of a refusal, given its status in words and what the server said.
pub fn refusal_message(status: &str, text: &str) -> (message: String)
    ensures
        message@ == "HTTP "@ + status@ + ": "@ + text@,
{
    let mut message = bare_refusal_message(status);
    message.append(": ");
    message.append(text);
    message
}

/// The message of a refusal, given its status in words.
pub fn bare_refusal_message(status: &str) -> (message: String)
    ensures
        message@ == "HTTP "@ + status@,
{
    let mut message = "HTTP ".to_owned();
    message.append(status);
    message
}

fn refused(status: u16, text: &str) -> (error: Error)
    requires
        100 <= status <= 999,
    ensures
        error@ == refusal(status, text@),
        names_status(error@, status),
{
    let line = status_line(status);
    proof {
        lemma_names_status(line@, status, ": "@ + text@);
        assert("HTTP "@ + line@ + (": "@ + text@) =~= "HTTP "@ + line@ + ": "@ + text@);
    }
    Error::RequestFailed(refusal_message(line.as_str(), text))
}

fn refused_bare(status: u16) -> (error: Error)
    requires
        100 <= status <= 999,
    ensures
        error@ == bare_refusal(status),
        names_status(error@, status),
{
    let line = status_line(status);
    proof {
        lemma_names_status(line@, status, Seq::empty());
        assert("HTTP "@ + line@ + Seq::<char>::empty() =~= "HTTP "@ + line@);
    }
    Error::RequestFailed(bare_refusal_message(line.as_str()))
}

proof fn lemma_names_status(line: Seq<char>, status: u16, rest: Seq<char>)
    requires
        occurs_at(line, decimal(status as nat).push(' '), 0),
    ensures
        names_status(ErrorView::RequestFailed("HTTP "@ + line + rest), status),
{
    let start = "HTTP "@ + decimal(status as nat).push(' ');
    let message = "HTTP "@ + line + rest;
    assert(decimal(status as nat).push(' ') =~= line.subrange(
        0,
        decimal(status as nat).push(' ').len() as int,
    ));
    assert(message.subrange(0, start.len() as int) =~= start);
}

/// The address of the profiles on the server.
pub open spec fn profiles_url(api: Seq<char>) -> Seq<char> {
    api + "/profiles"@
}

/// The address of one profile on the server.
pub open spec fn profile_url(api: Seq<char>, server_id: u32) -> Seq<char> {
    api + "/profiles/"@ + decimal(server_id as nat)
}

/// The address of the progress of one profile in one guide on the server.
pub open spec fn progress_url(api: Seq<char>, server_id: u32, guide_id: u32) -> Seq<char> {
    profile_url(api, server_id) + "/progress/"@ + decimal(guide_id as nat)
}

fn profile_address(api: &str, server_id: u32) -> (url: String)
    ensures
        url@ == profile_url(api@, server_id),
{
    let mut url = api.to_owned();
    url.append("/profiles/");
    url.append(to_decimal(server_id).as_str());
    url
}

/// Asks the server for a new profile.
pub fn create_profile_request(api: &str, name: &str, uuid: &str) -> (request: Request)
    ensures
        request.method == Method::Post,
        request.url@ == profiles_url(api@),
        request.body matches Body::NewProfile { name: n, uuid: u } && n@ == name@ && u@ == uuid@,
{
    let mut url = api.to_owned();
    url.append("/profiles");
    Request {
        method: Method::Post,
        url,
        body: Body::NewProfile { name: name.to_owned(), uuid: uuid.to_owned() },
    }
}

/// Asks the server to rename a profile.
pub fn rename_profile_request(api: &str, server_id: u32, name: &str) -> (request: Request)
    ensures
        request.method == Method::Patch,
        request.url@ == profile_url(api@, server_id),
        request.body matches Body::Name { name: n } && n@ == name@,
{
    Request {
        method: Method::Patch,
        url: profile_address(api, server_id),
        body: Body::Name { name: name.to_owned() },
    }
}

/// Asks the server to delete a profile.
pub fn delete_profile_request(api: &str, server_id: u32) -> (request: Request)
    ensures
        request.method == Method::Delete,
        request.url@ == profile_url(api@, server_id),
        request.body is Empty,
{
    Request { method: Method::Delete, url: profile_address(api, server_id), body: Body::Empty }
}

/// Sends the server a progress.
pub fn sync_progress_request(
    api: &str,
    server_id: u32,
    guide_id: u32,
    current_step: u32,
    steps: &HashMap<u32, ConfStep>,
) -> (request: Request)
    ensures
        request.method == Method::Put,
        request.url@ == progress_url(api@, server_id, guide_id),
        request.body matches Body::Progress { current_step: c, steps: s } && c == current_step
            && steps_view(s@) == steps_view(steps@),
{
    let mut url = profile_address(api, server_id);
    url.append("/progress/");
    url.append(to_decimal(guide_id).as_str());
    Request {
        method: Method::Put,
        url,
        body: Body::Progress { current_step, steps: steps.clone() },
    }
}

/// Sends the server every profile.
pub fn sync_profiles_request(api: &str, payload: Vec<SyncProfilePayload>) -> (request: Request)
    ensures
        request.method == Method::Post,
        request.url@ == profiles_url(api@) + "/sync"@,
        request.body matches Body::Profiles { profiles } && profiles@ == payload@,
{
    let mut url = api.to_owned();
    url.append("/profiles");
    url.append("/sync");
    Request { method: Method::Post, url, body: Body::Profiles { profiles: payload } }
}

/// The outcome of a request that is answered with nothing but success or a refusal.
pub open spec fn plain_outcome(sent: Sent) -> Result<(), ErrorView> {
    match sent {
        Err(failed) => Err(failure(failed)),
        Ok(reply) => {
            if succeeded(reply.status) {
                Ok(())
            } else {
                Err(refusal(reply.status, body_or_empty(reply)))
            }
        },
    }
}

/// The outcome of asking for a new profile: the body that tells the new identifier, or an error.
pub open spec fn creation_outcome(sent: Sent) -> Result<Seq<char>, ErrorView> {
    match sent {
        Err(failed) => Err(failure(failed)),
        Ok(reply) => {
            if !succeeded(reply.status) {
                Err(refusal(reply.status, body_or_empty(reply)))
            } else {
                match reply.body {
                    Ok(text) => Ok(text@),
                    Err(reason) => Err(ErrorView::RequestFailed(reason@)),
                }
            }
        },
    }
}

/// The outcome of sending a progress: the body that may tell the new timestamp, if it could be
/// read, or an error. The server does not know the profile or the guide where it answers 404.
pub open spec fn upload_outcome(sent: Sent) -> Result<Option<Seq<char>>, ErrorView> {
    match sent {
        Err(failed) => Err(sync_failure(failed)),
        Ok(reply) => {
            if reply.status == 404 {
                Err(ErrorView::ProfileOrGuideNotFound)
            } else if !succeeded(reply.status) {
                Err(
                    refusal(
                        reply.status,
                        with_first_replaced(
                            body_or_empty(reply),
                            '\n',
                            ' ',
                            FLATTENED_BREAKS as nat,
                        ),
                    ),
                )
            } else {
                match reply.body {
                    Ok(text) => Ok(Some(text@)),
                    Err(_) => Ok(None),
                }
            }
        },
    }
}

/// The outcome of sending every profile: the body that holds the server's profiles, or an error.
/// The server found the profiles invalid where it answers 422.
pub open spec fn sync_outcome(sent: Sent) -> Result<Seq<char>, ErrorView> {
    match sent {
        Err(failed) => Err(sync_failure(failed)),
        Ok(reply) => {
            if reply.status == 422 {
                Err(ErrorView::ValidationError(body_or_empty(reply)))
            } else if !succeeded(reply.status) {
                Err(bare_refusal(reply.status))
            } else {
                match reply.body {
                    Ok(text) => Ok(text@),
                    Err(reason) => Err(ErrorView::RequestFailed(reason@)),
                }
            }
        },
    }
}

/// A text with its error, each by its characters.
pub open spec fn text_result_view(result: Result<String, Error>) -> Result<Seq<char>, ErrorView> {
    match result {
        Ok(text) => Ok(text@),
        Err(error) => Err(error@),
    }
}

/// Decides what the reply to a change of a profile means.
pub fn change_profile_on_server(sent: Sent) -> (outcome: Result<(), Error>)
    requires
        sent_well_formed(sent),
    ensures
        match outcome {
            Ok(_) => plain_outcome(sent) is Ok,
            Err(error) => plain_outcome(sent) == Err::<(), ErrorView>(error@),
        },
        sent matches Ok(reply) ==> (!succeeded(reply.status) ==> names_status(
            outcome->Err_0@,
            reply.status,
        )),
{
    match sent {
        Err(failed) => Err(send_error(failed)),
        Ok(reply) => {
            if is_success(reply.status) {
                Ok(())
            } else {
                Err(refused(reply.status, text_or_empty(&reply.body).as_str()))
            }
        },
    }
}

/// Decides what the reply to a request for a new profile means.
pub fn create_profile_on_server(sent: Sent) -> (outcome: Result<String, Error>)
    requires
        sent_well_formed(sent),
    ensures
        text_result_view(outcome) == creation_outcome(sent),
        sent matches Ok(reply) ==> (!succeeded(reply.status) ==> names_status(
            outcome->Err_0@,
            reply.status,
        )),
{
    match sent {
        Err(failed) => Err(send_error(failed)),
        Ok(reply) => {
            if !is_success(reply.status) {
                return Err(refused(reply.status, text_or_empty(&reply.body).as_str()));
            }
            match reply.body {
                Ok(text) => Ok(text),
                Err(reason) => Err(Error::RequestFailed(reason)),
            }
        },
    }
}

/// Decides what the reply to a progress means.
pub fn sync_progress_on_server(sent: Sent) -> (outcome: Result<Option<String>, Error>)
    requires
        sent_well_formed(sent),
    ensures
        match outcome {
            Ok(Some(text)) => upload_outcome(sent) == Ok::<Option<Seq<char>>, ErrorView>(
                Some(text@),
            ),
            Ok(None) => upload_outcome(sent) == Ok::<Option<Seq<char>>, ErrorView>(None),
            Err(error) => upload_outcome(sent) == Err::<Option<Seq<char>>, ErrorView>(error@),
        },
        sent matches Ok(reply) ==> (!succeeded(reply.status) && reply.status != 404
            ==> names_status(outcome->Err_0@, reply.status)),
{
    match sent {
        Err(failed) => Err(sync_send_error(failed)),
        Ok(reply) => {
            if reply.status == 404 {
                return Err(Error::ProfileOrGuideNotFound);
            }
            if !is_success(reply.status) {
                let text = text_or_empty(&reply.body);
                let flat = replace_first(text.as_str(), '\n', ' ', FLATTENED_BREAKS);
                return Err(refused(reply.status, flat.as_str()));
            }
            match reply.body {
                Ok(text) => Ok(Some(text)),
                Err(_) => Ok(None),
            }
        },
    }
}

/// Decides what the reply to a full synchronisation means.
pub fn sync_profiles_on_server(sent: Sent) -> (outcome: Result<String, Error>)
    requires
        sent_well_formed(sent),
    ensures
        text_result_view(outcome) == sync_outcome(sent),
        sent matches Ok(reply) ==> (!succeeded(reply.status) && reply.status != 422
            ==> names_status(outcome->Err_0@, reply.status)),
{
    match sent {
        Err(failed) => Err(sync_send_error(failed)),
        Ok(reply) => {
            if !is_success(reply.status) {
                if reply.status == 422 {
                    return Err(Error::ValidationError(text_or_empty(&reply.body)));
                }
                return Err(refused_bare(reply.status));
            }
            match reply.body {
                Ok(text) => Ok(text),
                Err(reason) => Err(Error::RequestFailed(reason)),
            }
        },
    }
}

/// A reply is taken for a success exactly where its status means success, for every request; the
/// body of a new profile or of the server's profiles must be readable as well.
pub proof fn only_success_is_success(reply: Reply)
    ensures
        plain_outcome(Ok(reply)) is Ok <==> succeeded(reply.status),
        upload_outcome(Ok(reply)) is Ok <==> succeeded(reply.status),
        creation_outcome(Ok(reply)) is Ok <==> succeeded(reply.status) && reply.body is Ok,
        sync_outcome(Ok(reply)) is Ok <==> succeeded(reply.status) && reply.body is Ok,
{
}

/// A request that never reached the server succeeds in no way, and an expired token is reported as
/// such whatever was asked.
pub proof fn failed_sending_is_an_error(failed: SendFailure)
    ensures
        plain_outcome(Err(failed)) is Err,
        creation_outcome(Err(failed)) is Err,
        upload_outcome(Err(failed)) is Err,
        sync_outcome(Err(failed)) is Err,
        failed is TokenExpired ==> {
            &&& plain_outcome(Err(failed))->Err_0 is TokenExpired
            &&& creation_outcome(Err(failed))->Err_0 is TokenExpired
            &&& upload_outcome(Err(failed))->Err_0 is TokenExpired
            &&& sync_outcome(Err(failed))->Err_0 is TokenExpired
        },
{
}

} // verus!
