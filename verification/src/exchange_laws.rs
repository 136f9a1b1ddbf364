//! What each reply is taken for, status by status, and where each request goes.

use crate::error::{Error, ErrorView};
use crate::exchange::{
    creation_outcome, plain_outcome, profile_url, profiles_url, progress_url, status_text,
    sync_outcome, text_result_view, upload_outcome, Reply, SendFailure,
};
use crate::text::{decimal, with_first_replaced};
use vstd::prelude::*;

verus! {

/// Every request goes to an address under that of the server, made up of the identifiers in
/// decimal.
pub proof fn addresses_name_what_they_are_for(api: Seq<char>, server_id: u32, guide_id: u32)
    ensures
        profiles_url(api) == api + "/profiles"@,
        profile_url(api, server_id) == api + "/profiles/"@ + decimal(server_id as nat),
        progress_url(api, server_id, guide_id) == api + "/profiles/"@ + decimal(server_id as nat)
            + "/progress/"@ + decimal(guide_id as nat),
{
}

/// The model of an outcome shows its text, or its error.
pub proof fn model_shows_outcome(text: String, error: Error)
    ensures
        text_result_view(Ok(text)) == Ok::<Seq<char>, ErrorView>(text@),
        text_result_view(Err(error)) == Err::<Seq<char>, ErrorView>(error@),
{
}

/// A change of a profile is answered with success exactly where the status is in the two hundreds.
/// Any other reply is a failed request that tells the status and what the server said.
pub proof fn change_is_answered(reply: Reply)
    ensures
        200 <= reply.status < 300 <==> plain_outcome(Ok(reply)) is Ok,
        !(200 <= reply.status < 300) && reply.body is Ok ==> plain_outcome(Ok(reply)) == Err::<
            (),
            ErrorView,
        >(
            ErrorView::RequestFailed(
                "HTTP "@ + status_text(reply.status) + ": "@ + reply.body->Ok_0@,
            ),
        ),
        !(200 <= reply.status < 300) && reply.body is Err ==> plain_outcome(Ok(reply)) == Err::<
            (),
            ErrorView,
        >(ErrorView::RequestFailed("HTTP "@ + status_text(reply.status) + ": "@)),
{
    let start = "HTTP "@ + status_text(reply.status) + ": "@;
    assert(start + Seq::<char>::empty() =~= start);
}

/// A creation is answered with the body exactly where the status is in the two hundreds and the body
/// could be read. An unreadable body is a failed request that tells why; any other status is one
/// that tells the status and what the server said.
pub proof fn creation_is_answered(reply: Reply)
    ensures
        200 <= reply.status < 300 && reply.body is Ok ==> creation_outcome(Ok(reply)) == Ok::<
            Seq<char>,
            ErrorView,
        >(reply.body->Ok_0@),
        200 <= reply.status < 300 && reply.body is Err ==> creation_outcome(Ok(reply)) == Err::<
            Seq<char>,
            ErrorView,
        >(ErrorView::RequestFailed(reply.body->Err_0@)),
        !(200 <= reply.status < 300) && reply.body is Ok ==> creation_outcome(Ok(reply)) == Err::<
            Seq<char>,
            ErrorView,
        >(
            ErrorView::RequestFailed(
                "HTTP "@ + status_text(reply.status) + ": "@ + reply.body->Ok_0@,
            ),
        ),
        !(200 <= reply.status < 300) && reply.body is Err ==> creation_outcome(Ok(reply)) == Err::<
            Seq<char>,
            ErrorView,
        >(ErrorView::RequestFailed("HTTP "@ + status_text(reply.status) + ": "@)),
{
    let start = "HTTP "@ + status_text(reply.status) + ": "@;
    assert(start + Seq::<char>::empty() =~= start);
}

/// A sent progress is acknowledged exactly where the status is in the two hundreds, with the body
/// where it could be read. The profile or guide is unknown exactly where the status is 404. Any
/// other reply is a failed request that tells the status and what the server said, with its first
/// three hundred line breaks turned into spaces.
pub proof fn upload_is_answered(reply: Reply)
    ensures
        200 <= reply.status < 300 && reply.body is Ok ==> upload_outcome(Ok(reply)) == Ok::<
            Option<Seq<char>>,
            ErrorView,
        >(Some(reply.body->Ok_0@)),
        200 <= reply.status < 300 && reply.body is Err ==> upload_outcome(Ok(reply)) == Ok::<
            Option<Seq<char>>,
            ErrorView,
        >(None),
        reply.status == 404 ==> upload_outcome(Ok(reply)) == Err::<Option<Seq<char>>, ErrorView>(
            ErrorView::ProfileOrGuideNotFound,
        ),
        !(200 <= reply.status < 300) && reply.status != 404 && reply.body is Ok ==> upload_outcome(
            Ok(reply),
        ) == Err::<Option<Seq<char>>, ErrorView>(
            ErrorView::RequestFailed(
                "HTTP "@ + status_text(reply.status) + ": "@ + with_first_replaced(
                    reply.body->Ok_0@,
                    '\n',
                    ' ',
                    300,
                ),
            ),
        ),
        !(200 <= reply.status < 300) && reply.status != 404 && reply.body is Err ==> upload_outcome(
            Ok(reply),
        ) == Err::<Option<Seq<char>>, ErrorView>(
            ErrorView::RequestFailed("HTTP "@ + status_text(reply.status) + ": "@),
        ),
{
    let start = "HTTP "@ + status_text(reply.status) + ": "@;
    assert(start + Seq::<char>::empty() =~= start);
    assert(with_first_replaced(Seq::empty(), '\n', ' ', 300) =~= Seq::<char>::empty());
}

/// A full synchronisation is answered with the body exactly where the status is in the two hundreds
/// and the body could be read. The profiles are invalid exactly where the status is 422, and the
/// error is what the server said. An unreadable body is a failed request that tells why; any other
/// status is one that tells nothing but the status.
pub proof fn synchronisation_is_answered(reply: Reply)
    ensures
        200 <= reply.status < 300 && reply.body is Ok ==> sync_outcome(Ok(reply)) == Ok::<
            Seq<char>,
            ErrorView,
        >(reply.body->Ok_0@),
        200 <= reply.status < 300 && reply.body is Err ==> sync_outcome(Ok(reply)) == Err::<
            Seq<char>,
            ErrorView,
        >(ErrorView::RequestFailed(reply.body->Err_0@)),
        reply.status == 422 && reply.body is Ok ==> sync_outcome(Ok(reply)) == Err::<
            Seq<char>,
            ErrorView,
        >(ErrorView::ValidationError(reply.body->Ok_0@)),
        reply.status == 422 && reply.body is Err ==> sync_outcome(Ok(reply)) == Err::<
            Seq<char>,
            ErrorView,
        >(ErrorView::ValidationError(Seq::empty())),
        !(200 <= reply.status < 300) && reply.status != 422 ==> sync_outcome(Ok(reply)) == Err::<
            Seq<char>,
            ErrorView,
        >(ErrorView::RequestFailed("HTTP "@ + status_text(reply.status))),
{
}

/// Whatever was asked, an expired token is reported as such. A request that did not go through is
/// reported with the reason; synchronisation reports a lost connection or a timeout as a missing
/// connection instead.
pub proof fn failure_is_reported(connect: bool, timeout: bool, message: String)
    ensures
        ({
            let expired = SendFailure::TokenExpired;
            let broken = SendFailure::Transport { connect, timeout, message };
            let reason = ErrorView::RequestFailed(message@);
            let sync_reason = if connect || timeout {
                ErrorView::NotConnected
            } else {
                reason
            };
            &&& plain_outcome(Err(expired)) == Err::<(), ErrorView>(ErrorView::TokenExpired)
            &&& creation_outcome(Err(expired)) == Err::<Seq<char>, ErrorView>(
                ErrorView::TokenExpired,
            )
            &&& upload_outcome(Err(expired)) == Err::<Option<Seq<char>>, ErrorView>(
                ErrorView::TokenExpired,
            )
            &&& sync_outcome(Err(expired)) == Err::<Seq<char>, ErrorView>(ErrorView::TokenExpired)
            &&& plain_outcome(Err(broken)) == Err::<(), ErrorView>(reason)
            &&& creation_outcome(Err(broken)) == Err::<Seq<char>, ErrorView>(reason)
            &&& upload_outcome(Err(broken)) == Err::<Option<Seq<char>>, ErrorView>(sync_reason)
            &&& sync_outcome(Err(broken)) == Err::<Seq<char>, ErrorView>(sync_reason)
        }),
{
}

} // verus!
