//! What each procedure does at each of its steps: what it sends, writes, and answers.

use crate::changes::{
    change_advances, change_awaits, create_advances, create_awaits, ChangeState, CreateState,
};
use crate::conf;
use crate::conf::{steps_view, Conf};
use crate::error::ErrorView;
use crate::exchange::{
    creation_outcome, plain_outcome, sync_outcome, upload_outcome, Body, Method, Request, Sent,
};
use crate::exchange_laws::{addresses_name_what_they_are_for, upload_is_answered};
use crate::merge::merged_conf;
use crate::payload::{carries_conf, SyncResponse};
use crate::procedure::{access_error, AccessFailure, Event, Next, Work};
use crate::push::{can_mark, pending_of, pushes_view, synced, PendingPush, PushView};
use crate::remote::{remote_profiles_view, SyncServerResponse};
use crate::sync::{advances, awaits, SyncState};
use crate::text::decimal;
use crate::upload::{
    begins_upload, progress_advances, progress_awaits, upload_advances, upload_awaits,
    ProgressState, UploadState,
};
use vstd::prelude::*;

verus! {

/// Every outcome of the work under way is one that the procedure goes on from.
pub proof fn every_outcome_is_awaited(
    api: String,
    reply: SyncServerResponse,
    request: Request,
    push: PendingPush,
    updated_at: Option<String>,
    rest: Vec<PendingPush>,
    upload: UploadState,
    event: Event,
)
    ensures
        event is Authorized ==> {
            &&& awaits(SyncState::Authorizing { api }, event)
            &&& progress_awaits(ProgressState::Authorizing { api, push }, event)
            &&& create_awaits(CreateState::Authorizing { request }, event)
            &&& change_awaits(ChangeState::Authorizing { request }, event)
        },
        event is ConfRead ==> {
            &&& awaits(SyncState::Starting { api }, event)
            &&& awaits(SyncState::Rereading { api, reply }, event)
            &&& awaits(SyncState::Listing { api, reply }, event)
            &&& upload_awaits(UploadState::Acknowledging { push, updated_at }, event)
        },
        event is ConfSaved ==> {
            &&& awaits(SyncState::Saving { api, reply }, event)
            &&& upload_awaits(UploadState::Remembering, event)
        },
        (event matches Event::Replied(sent) && (sent matches Ok(got) ==> 100 <= got.status <= 999))
            ==> {
            &&& awaits(SyncState::Sending { api }, event)
            &&& upload_awaits(UploadState::Sending { push }, event)
            &&& create_awaits(CreateState::Sending, event)
            &&& change_awaits(ChangeState::Sending, event)
        },
        event is ProfilesParsed ==> awaits(SyncState::Parsing { api }, event),
        event is IdParsed ==> create_awaits(CreateState::Parsing, event),
        event is StampParsed ==> upload_awaits(UploadState::Stamping { push }, event),
        upload_awaits(upload, event) ==> {
            &&& awaits(SyncState::Uploading { api, reply, upload, rest }, event)
            &&& progress_awaits(ProgressState::Uploading { upload }, event)
        },
{
}

/// Want of access is told apart by its cause.
pub proof fn want_of_access_is_told_apart()
    ensures
        access_error(AccessFailure::TokenExpired) == ErrorView::TokenExpired,
        access_error(AccessFailure::TokensNotFound) == ErrorView::TokensNotFound,
{
}

/// An upload begins by putting the current step and the steps to the address of the profile and the
/// guide, and keeps in mind what it uploads.
pub proof fn upload_puts_the_progress(
    api: Seq<char>,
    push: PushView,
    state: UploadState,
    work: Work,
)
    requires
        begins_upload(api, push, state, work),
    ensures
        state matches UploadState::Sending { push: kept } && kept@ == push,
        work matches Work::Send(request) && {
            &&& request.method == Method::Put
            &&& request.url@ == api + "/profiles/"@ + decimal(push.server_id as nat)
                + "/progress/"@ + decimal(push.guide_id as nat)
            &&& request.body matches Body::Progress { current_step, steps } && {
                &&& current_step == push.current_step
                &&& steps_view(steps@) == push.steps
            }
        },
{
    addresses_name_what_they_are_for(api, push.server_id, push.guide_id);
}

/// The reply to an upload decides: a failure or a refusal ends it with the error for it; otherwise
/// the server acknowledged it, and the timestamp in the body is parsed, or the configuration is read
/// without one where the body could not be read. What was uploaded is kept in mind.
pub proof fn upload_goes_on_where_acknowledged(
    push: PendingPush,
    sent: Sent,
    next: Next<UploadState, ()>,
)
    requires
        upload_advances(UploadState::Sending { push }, Event::Replied(sent), next),
    ensures
        match next {
            Next::Finish(answer) => {
                &&& upload_outcome(sent) is Err
                &&& answer is Err && answer->Err_0@ == upload_outcome(sent)->Err_0
            },
            Next::Continue(after, work) => sent matches Ok(reply) && {
                &&& 200 <= reply.status < 300
                &&& reply.body matches Ok(text) ==> {
                    &&& after == (UploadState::Stamping { push })
                    &&& work matches Work::ParseStamp(parsed) && parsed@ == text@
                }
                &&& reply.body is Err ==> {
                    &&& after == (UploadState::Acknowledging { push, updated_at: None })
                    &&& work is ReadConf
                }
            },
        },
{
    if let Ok(reply) = sent {
        upload_is_answered(reply);
    }
}

/// A timestamp that could be parsed is kept for the acknowledgement, and one that could not is none.
pub proof fn parsed_stamp_is_kept(
    push: PendingPush,
    parsed: Result<String, String>,
    next: Next<UploadState, ()>,
)
    requires
        upload_advances(UploadState::Stamping { push }, Event::StampParsed(parsed), next),
    ensures
        next matches Next::Continue(after, work) && {
            &&& work is ReadConf
            &&& after matches UploadState::Acknowledging { push: kept, updated_at } && {
                &&& kept == push
                &&& parsed matches Ok(stamp) ==> updated_at is Some && updated_at->0@ == stamp@
                &&& parsed is Err ==> updated_at is None
            }
        },
{
}

/// An acknowledgement is written where there is something to note in the configuration, with the
/// timestamp that the server sent, if any; the upload ends well where there is nothing to note, or
/// where the configuration could not be read.
pub proof fn acknowledgement_is_written(
    push: PendingPush,
    updated_at: Option<String>,
    read: Result<Conf, conf::Error>,
    next: Next<UploadState, ()>,
)
    requires
        upload_advances(
            UploadState::Acknowledging { push, updated_at },
            Event::ConfRead(read),
            next,
        ),
    ensures
        read is Err || !can_mark(read->Ok_0@.profiles, push@) <==> next is Finish,
        next matches Next::Finish(answer) ==> answer is Ok,
        next matches Next::Continue(after, work) ==> {
            &&& after is Remembering
            &&& work matches Work::SaveConf(marked) && {
                &&& updated_at matches Some(stamp) ==> synced(
                    read->Ok_0@,
                    marked@,
                    push@,
                    Some(stamp@),
                )
                &&& updated_at is None ==> synced(read->Ok_0@, marked@, push@, None)
            }
        },
{
}

/// An upload ends well once its acknowledgement was written, or could not be.
pub proof fn written_acknowledgement_ends_the_upload(
    saved: Result<(), conf::Error>,
    next: Next<UploadState, ()>,
)
    requires
        upload_advances(UploadState::Remembering, Event::ConfSaved(saved), next),
    ensures
        next matches Next::Finish(answer) && answer is Ok,
{
}

/// The upload of a single progress begins once the user has access, and then goes on and ends as its
/// upload does.
pub proof fn single_upload_is_an_upload(
    before: ProgressState,
    event: Event,
    next: Next<ProgressState, ()>,
)
    requires
        progress_awaits(before, event),
        progress_advances(before, event, next),
    ensures
        before matches ProgressState::Authorizing { api, push } ==> match event->Authorized_0 {
            Err(failure) => next matches Next::Finish(Err(error)) && error@ == access_error(
                failure,
            ),
            Ok(_) => next matches Next::Continue(ProgressState::Uploading { upload }, work)
                && begins_upload(api@, push@, upload, work),
        },
        before matches ProgressState::Uploading { upload } ==> match next {
            Next::Continue(after, work) => after matches ProgressState::Uploading { upload: then }
                && upload_advances(upload, event, Next::Continue(then, work)),
            Next::Finish(answer) => upload_advances(upload, event, Next::Finish(answer)),
        },
{
}

/// The creation of a profile sends its request once the user has access, parses the body of a
/// successful reply, and answers the identifier in it. Anything else ends it with the error for it.
pub proof fn creation_answers_the_identifier(
    before: CreateState,
    event: Event,
    next: Next<CreateState, u32>,
)
    requires
        create_awaits(before, event),
        create_advances(before, event, next),
    ensures
        before matches CreateState::Authorizing { request } ==> match event->Authorized_0 {
            Err(failure) => next matches Next::Finish(Err(error)) && error@ == access_error(
                failure,
            ),
            Ok(_) => next matches Next::Continue(CreateState::Sending, Work::Send(sent)) && sent
                == request,
        },
        before is Sending ==> match creation_outcome(event->Replied_0) {
            Err(error) => next matches Next::Finish(Err(answered)) && answered@ == error,
            Ok(body) => next matches Next::Continue(CreateState::Parsing, Work::ParseId(text))
                && text@ == body,
        },
        before is Parsing ==> match event->IdParsed_0 {
            Err(reason) => next matches Next::Finish(Err(error)) && error@
                == ErrorView::InvalidResponse(reason@),
            Ok(id) => next matches Next::Finish(Ok(answered)) && answered == id,
        },
{
}

/// A change of a profile sends its request once the user has access, and answers what the reply
/// means.
pub proof fn change_answers_the_reply(
    before: ChangeState,
    event: Event,
    next: Next<ChangeState, ()>,
)
    requires
        change_awaits(before, event),
        change_advances(before, event, next),
    ensures
        before matches ChangeState::Authorizing { request } ==> match event->Authorized_0 {
            Err(failure) => next matches Next::Finish(Err(error)) && error@ == access_error(
                failure,
            ),
            Ok(_) => next matches Next::Continue(ChangeState::Sending, Work::Send(sent)) && sent
                == request,
        },
        before is Sending ==> match plain_outcome(event->Replied_0) {
            Err(error) => next matches Next::Finish(Err(answered)) && answered@ == error,
            Ok(_) => next matches Next::Finish(Ok(_)),
        },
{
}

/// A full synchronisation reads the configuration once the user has access.
pub proof fn synchronisation_reads_once_authorized(
    api: String,
    granted: Result<(), AccessFailure>,
    next: Next<SyncState, SyncResponse>,
)
    requires
        advances(SyncState::Authorizing { api }, Event::Authorized(granted), next),
    ensures
        match granted {
            Err(failure) => next matches Next::Finish(Err(error)) && error@ == access_error(
                failure,
            ),
            Ok(_) => next matches Next::Continue(after, work) && work is ReadConf && after == (
            SyncState::Starting { api }),
        },
{
}

/// A full synchronisation posts everything that the configuration holds.
pub proof fn synchronisation_sends_everything(
    api: String,
    read: Result<Conf, conf::Error>,
    next: Next<SyncState, SyncResponse>,
)
    requires
        advances(SyncState::Starting { api }, Event::ConfRead(read), next),
    ensures
        match read {
            Err(error) => next matches Next::Finish(Err(answered)) && answered@ == ErrorView::Conf(
                error.message@,
            ),
            Ok(conf) => next matches Next::Continue(after, Work::Send(request)) && {
                &&& after == (SyncState::Sending { api })
                &&& request.method == Method::Post
                &&& request.url@ == api@ + "/profiles"@ + "/sync"@
                &&& request.body matches Body::Profiles { profiles } && carries_conf(
                    profiles@,
                    conf@,
                )
            },
        },
{
    addresses_name_what_they_are_for(api@, 0, 0);
}

/// A full synchronisation parses the body of a successful reply, and then reads the configuration
/// once more with what was parsed in mind. Anything else ends it with the error for it.
pub proof fn synchronisation_parses_the_reply(
    api: String,
    sent: Sent,
    parsed: Result<SyncServerResponse, String>,
    replied: Next<SyncState, SyncResponse>,
    next: Next<SyncState, SyncResponse>,
)
    requires
        advances(SyncState::Sending { api }, Event::Replied(sent), replied),
        advances(SyncState::Parsing { api }, Event::ProfilesParsed(parsed), next),
    ensures
        match sync_outcome(sent) {
            Err(error) => replied matches Next::Finish(Err(answered)) && answered@ == error,
            Ok(body) => replied matches Next::Continue(after, Work::ParseProfiles(text)) && {
                &&& after == (SyncState::Parsing { api })
                &&& text@ == body
            },
        },
        match parsed {
            Err(reason) => next matches Next::Finish(Err(answered)) && answered@
                == ErrorView::InvalidResponse(reason@),
            Ok(reply) => next matches Next::Continue(after, work) && work is ReadConf && after == (
            SyncState::Rereading { api, reply }),
        },
{
}

/// A full synchronisation writes what was just read with the server's profiles merged into it, and
/// then reads it back for what is to be uploaded. Anything else ends it with the error for it.
pub proof fn synchronisation_writes_the_merge(
    api: String,
    reply: SyncServerResponse,
    read: Result<Conf, conf::Error>,
    saved: Result<(), conf::Error>,
    merged: Next<SyncState, SyncResponse>,
    next: Next<SyncState, SyncResponse>,
)
    requires
        advances(SyncState::Rereading { api, reply }, Event::ConfRead(read), merged),
        advances(SyncState::Saving { api, reply }, Event::ConfSaved(saved), next),
    ensures
        match read {
            Err(error) => merged matches Next::Finish(Err(answered)) && answered@
                == ErrorView::Conf(error.message@),
            Ok(conf) => merged matches Next::Continue(after, Work::SaveConf(written)) && {
                &&& after == (SyncState::Saving { api, reply })
                &&& written@ == merged_conf(conf@, remote_profiles_view(reply.profiles@))
            },
        },
        match saved {
            Err(error) => next matches Next::Finish(Err(answered)) && answered@ == ErrorView::Conf(
                error.message@,
            ),
            Ok(_) => next matches Next::Continue(after, work) && work is ReadConf && after == (
            SyncState::Listing { api, reply }),
        },
{
}

/// A full synchronisation uploads the first of what is to be uploaded and keeps the rest in mind, or
/// answers what the server sent where nothing is to be uploaded.
pub proof fn synchronisation_uploads_what_is_pending(
    api: String,
    reply: SyncServerResponse,
    read: Result<Conf, conf::Error>,
    next: Next<SyncState, SyncResponse>,
)
    requires
        advances(SyncState::Listing { api, reply }, Event::ConfRead(read), next),
    ensures
        match read {
            Err(error) => next matches Next::Finish(Err(answered)) && answered@ == ErrorView::Conf(
                error.message@,
            ),
            Ok(conf) => {
                let pending = pending_of(conf@.profiles);
                if pending.len() == 0 {
                    next matches Next::Finish(Ok(response)) && response@ == remote_profiles_view(
                        reply.profiles@,
                    )
                } else {
                    next matches Next::Continue(
                        SyncState::Uploading { api: same, reply: kept, upload, rest },
                        work,
                    ) && {
                        &&& same == api
                        &&& kept == reply
                        &&& begins_upload(api@, pending[0], upload, work)
                        &&& seq![pending[0]] + pushes_view(rest@) == pending
                    }
                }
            },
        },
{
    if let Ok(conf) = read {
        let pending = pending_of(conf@.profiles);
        if pending.len() > 0 {
            assert(seq![pending[0]] + pending.drop_first() =~= pending);
        }
    }
}

/// While a full synchronisation uploads, it goes on as the upload under way does. Once that ended,
/// well or not, it goes on with the first of the rest, or answers what the server sent where nothing
/// is left.
pub proof fn synchronisation_uploads_one_by_one(
    api: String,
    reply: SyncServerResponse,
    upload: UploadState,
    rest: Vec<PendingPush>,
    event: Event,
    next: Next<SyncState, SyncResponse>,
)
    requires
        advances(SyncState::Uploading { api, reply, upload, rest }, event, next),
    ensures
        match next {
            Next::Finish(answer) => {
                &&& rest@.len() == 0
                &&& answer is Ok && answer->Ok_0@ == remote_profiles_view(reply.profiles@)
                &&& exists|ended: Next<UploadState, ()>|
                    ended is Finish && #[trigger] upload_advances(upload, event, ended)
            },
            Next::Continue(after, work) => after matches SyncState::Uploading {
                api: same,
                reply: kept,
                upload: then,
                rest: others,
            } && {
                &&& same == api
                &&& kept == reply
                &&& (others == rest && upload_advances(upload, event, Next::Continue(then, work)))
                    || (rest@.len() > 0 && begins_upload(api@, rest@[0]@, then, work) && seq![
                    rest@[0]@,
                ] + pushes_view(others@) == pushes_view(rest@) && exists|
                    ended: Next<UploadState, ()>,
                | ended is Finish && #[trigger] upload_advances(upload, event, ended))
            },
        },
{
    let all = pushes_view(rest@);
    if all.len() > 0 {
        assert(seq![all[0]] + all.drop_first() =~= all);
    }
}

} // verus!
