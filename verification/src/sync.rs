//! The synchronisation procedures, and the full synchronisation itself: the server gets every
//! profile and sends its own back, these are merged into the local configuration, and what the
//! server never acknowledged is uploaded.

use crate::changes::{ChangeState, CreateState};
use crate::conf::{steps_view, Conf, ConfStep};
use crate::error::{Error, ErrorView};
use crate::exchange::{
    create_profile_request, delete_profile_request, profile_url, profiles_url,
    rename_profile_request, sent_well_formed, sync_outcome, sync_profiles_on_server,
    sync_profiles_request, Body, Method,
};
use crate::merge::{merge_remote_profiles, merged_conf};
use crate::payload::{carries_conf, sync_payload, sync_response, SyncResponse};
use crate::procedure::{access_error, denied, fails, Event, Next, Work};
use crate::push::{pending_of, pending_progresses, pushes_view, PendingPush, PushView};
use crate::remote::{remote_profiles_view, SyncServerResponse};
use crate::upload::{
    begin_upload, begins_upload, upload_advances, upload_awaits, ProgressState, UploadState,
};
use std::collections::HashMap;
use vstd::prelude::*;

verus! {

/// Where a full synchronisation with the server at `api` stands, by the work that is under way.
#[derive(Debug)]
pub enum SyncState {
    Authorizing { api: String },
    /// The configuration is read to be sent.
    Starting { api: String },
    Sending { api: String },
    Parsing { api: String },
    /// The configuration is read once more, to have the server's profiles merged into it.
    Rereading { api: String, reply: SyncServerResponse },
    /// The merged configuration is written.
    Saving { api: String, reply: SyncServerResponse },
    /// The configuration is read for what the server never acknowledged.
    Listing { api: String, reply: SyncServerResponse },
    /// One progress is uploaded, and `rest` is still to be.
    Uploading { api: String, reply: SyncServerResponse, upload: UploadState, rest: Vec<PendingPush> },
}

/// The event is what the work under way can lead to.
pub open spec fn awaits(state: SyncState, event: Event) -> bool {
    match state {
        SyncState::Authorizing { .. } => event is Authorized,
        SyncState::Starting { .. } => event is ConfRead,
        SyncState::Sending { .. } => event matches Event::Replied(sent) && sent_well_formed(sent),
        SyncState::Parsing { .. } => event is ProfilesParsed,
        SyncState::Rereading { .. } => event is ConfRead,
        SyncState::Saving { .. } => event is ConfSaved,
        SyncState::Listing { .. } => event is ConfRead,
        SyncState::Uploading { upload, .. } => upload_awaits(upload, event),
    }
}

/// The synchronisation reads the configuration next, in the state `after`.
pub open spec fn reads_in(next: Next<SyncState, SyncResponse>, after: SyncState) -> bool {
    next == Next::<SyncState, SyncResponse>::Continue(after, Work::ReadConf)
}

/// The uploads go on with the first of `rest`, or end with the server's profiles as the answer.
pub open spec fn goes_on(
    api: String,
    reply: SyncServerResponse,
    rest: Seq<PushView>,
    next: Next<SyncState, SyncResponse>,
) -> bool {
    if rest.len() == 0 {
        next matches Next::Finish(Ok(response)) && response@ == remote_profiles_view(
            reply.profiles@,
        )
    } else {
        next matches Next::Continue(after, work) && {
            &&& after matches SyncState::Uploading { api: same, reply: kept, upload, rest: others }
                && {
                &&& same == api
                &&& kept == reply
                &&& pushes_view(others@) == rest.drop_first()
                &&& begins_upload(api@, rest[0], upload, work)
            }
        }
    }
}

/// The synchronisation goes as far as the upload under way does, and then on to the rest, whether or
/// not the upload failed.
pub open spec fn sync_follows(
    api: String,
    reply: SyncServerResponse,
    rest: Vec<PendingPush>,
    inner: Next<UploadState, ()>,
    next: Next<SyncState, SyncResponse>,
) -> bool {
    match inner {
        Next::Continue(upload, work) => next == Next::<SyncState, SyncResponse>::Continue(
            SyncState::Uploading { api, reply, upload, rest },
            work,
        ),
        Next::Finish(_) => goes_on(api, reply, pushes_view(rest@), next),
    }
}

/// The synchronisation goes on from `before` to `next` on `event`.
pub open spec fn advances(
    before: SyncState,
    event: Event,
    next: Next<SyncState, SyncResponse>,
) -> bool {
    match (before, event) {
        (SyncState::Authorizing { api }, Event::Authorized(granted)) => match granted {
            Err(failure) => fails(next, access_error(failure)),
            Ok(_) => reads_in(next, SyncState::Starting { api }),
        },
        (SyncState::Starting { api }, Event::ConfRead(read)) => match read {
            Err(error) => fails(next, ErrorView::Conf(error.message@)),
            Ok(conf) => next matches Next::Continue(after, work) && {
                &&& after == (SyncState::Sending { api })
                &&& work matches Work::Send(request) && {
                    &&& request.method == Method::Post
                    &&& request.url@ == profiles_url(api@) + "/sync"@
                    &&& request.body matches Body::Profiles { profiles } && carries_conf(
                        profiles@,
                        conf@,
                    )
                }
            },
        },
        (SyncState::Sending { api }, Event::Replied(sent)) => match sync_outcome(sent) {
            Err(error) => fails(next, error),
            Ok(body) => next matches Next::Continue(after, work) && {
                &&& after == (SyncState::Parsing { api })
                &&& work matches Work::ParseProfiles(text) && text@ == body
            },
        },
        (SyncState::Parsing { api }, Event::ProfilesParsed(parsed)) => match parsed {
            Err(reason) => fails(next, ErrorView::InvalidResponse(reason@)),
            Ok(reply) => reads_in(next, SyncState::Rereading { api, reply }),
        },
        (SyncState::Rereading { api, reply }, Event::ConfRead(read)) => match read {
            Err(error) => fails(next, ErrorView::Conf(error.message@)),
            Ok(conf) => next matches Next::Continue(after, work) && {
                &&& after == (SyncState::Saving { api, reply })
                &&& work matches Work::SaveConf(merged) && merged@ == merged_conf(
                    conf@,
                    remote_profiles_view(reply.profiles@),
                )
            },
        },
        (SyncState::Saving { api, reply }, Event::ConfSaved(saved)) => match saved {
            Err(error) => fails(next, ErrorView::Conf(error.message@)),
            Ok(_) => reads_in(next, SyncState::Listing { api, reply }),
        },
        (SyncState::Listing { api, reply }, Event::ConfRead(read)) => match read {
            Err(error) => fails(next, ErrorView::Conf(error.message@)),
            Ok(conf) => goes_on(api, reply, pending_of(conf@.profiles), next),
        },
        (
            SyncState::Uploading { api, reply, upload, rest },
            event,
        ) => exists|inner: Next<UploadState, ()>|
            #[trigger] upload_advances(upload, event, inner) && sync_follows(
                api,
                reply,
                rest,
                inner,
                next,
            ),
        _ => false,
    }
}

/// Goes on with the next upload, or ends the synchronisation.
fn push_next(api: String, reply: SyncServerResponse, rest: Vec<PendingPush>) -> (next: Next<
    SyncState,
    SyncResponse,
>)
    ensures
        goes_on(api, reply, pushes_view(rest@), next),
{
    let mut rest = rest;
    if rest.is_empty() {
        return Next::Finish(Ok(sync_response(reply)));
    }
    let ghost all = pushes_view(rest@);
    let push = rest.remove(0);
    assert(pushes_view(rest@) =~= all.drop_first());
    let (upload, work) = begin_upload(api.as_str(), push);
    Next::Continue(SyncState::Uploading { api, reply, upload, rest }, work)
}

/// Uploads whatever the server never acknowledged.
fn push_pending_progresses(api: String, reply: SyncServerResponse, conf: &Conf) -> (next: Next<
    SyncState,
    SyncResponse,
>)
    ensures
        goes_on(api, reply, pending_of(conf@.profiles), next),
{
    push_next(api, reply, pending_progresses(conf))
}

/// Takes what the upload under way led to.
fn push_on(
    api: String,
    reply: SyncServerResponse,
    rest: Vec<PendingPush>,
    inner: Next<UploadState, ()>,
) -> (next: Next<SyncState, SyncResponse>)
    ensures
        sync_follows(api, reply, rest, inner, next),
{
    match inner {
        Next::Continue(upload, work) => Next::Continue(
            SyncState::Uploading { api, reply, upload, rest },
            work,
        ),
        Next::Finish(_) => push_next(api, reply, rest),
    }
}

impl SyncState {
    /// Takes what the work under way led to, and says how the synchronisation goes on.
    pub fn advance(self, event: Event) -> (next: Next<SyncState, SyncResponse>)
        requires
            awaits(self, event),
        ensures
            advances(self, event, next),
    {
        match (self, event) {
            (SyncState::Authorizing { api }, Event::Authorized(granted)) => match granted {
                Err(failure) => Next::Finish(Err(denied(failure))),
                Ok(_) => Next::Continue(SyncState::Starting { api }, Work::ReadConf),
            },
            (SyncState::Starting { api }, Event::ConfRead(read)) => match read {
                Err(error) => Next::Finish(Err(Error::Conf(error))),
                Ok(conf) => {
                    let request = sync_profiles_request(api.as_str(), sync_payload(&conf));
                    Next::Continue(SyncState::Sending { api }, Work::Send(request))
                },
            },
            (SyncState::Sending { api }, Event::Replied(sent)) => match sync_profiles_on_server(
                sent,
            ) {
                Err(error) => Next::Finish(Err(error)),
                Ok(text) => Next::Continue(SyncState::Parsing { api }, Work::ParseProfiles(text)),
            },
            (SyncState::Parsing { api }, Event::ProfilesParsed(parsed)) => match parsed {
                Err(reason) => Next::Finish(Err(Error::InvalidResponse(reason))),
                Ok(reply) => Next::Continue(SyncState::Rereading { api, reply }, Work::ReadConf),
            },
            (SyncState::Rereading { api, reply }, Event::ConfRead(read)) => match read {
                Err(error) => Next::Finish(Err(Error::Conf(error))),
                Ok(conf) => {
                    let mut conf = conf;
                    merge_remote_profiles(&mut conf, reply.profiles.as_slice());
                    Next::Continue(SyncState::Saving { api, reply }, Work::SaveConf(conf))
                },
            },
            (SyncState::Saving { api, reply }, Event::ConfSaved(saved)) => match saved {
                Err(error) => Next::Finish(Err(Error::Conf(error))),
                Ok(_) => Next::Continue(SyncState::Listing { api, reply }, Work::ReadConf),
            },
            (SyncState::Listing { api, reply }, Event::ConfRead(read)) => match read {
                Err(error) => Next::Finish(Err(Error::Conf(error))),
                Ok(conf) => push_pending_progresses(api, reply, &conf),
            },
            (SyncState::Uploading { api, reply, upload, rest }, event) => {
                let inner = upload.advance(event);
                assert(upload_advances(upload, event, inner));
                push_on(api, reply, rest, inner)
            },
            _ => vstd::pervasive::unreached(),
        }
    }
}

/// The synchronisation procedures. Each begins by making sure that the user has access to the
/// server.
#[derive(Debug, Clone, Copy)]
pub struct SyncApiImpl;

impl SyncApiImpl {
    /// Begins a full synchronisation with the server at `api`.
    pub fn sync_profiles(&self, api: &str) -> (first: (SyncState, Work))
        ensures
            first.0 matches SyncState::Authorizing { api: kept } && kept@ == api@,
            first.1 is Authorize,
    {
        (SyncState::Authorizing { api: api.to_owned() }, Work::Authorize)
    }

    /// Begins the creation of a profile on the server at `api`.
    pub fn create_profile(&self, api: &str, name: &str, uuid: &str) -> (first: (CreateState, Work))
        ensures
            first.0 matches CreateState::Authorizing { request } && {
                &&& request.method == Method::Post
                &&& request.url@ == profiles_url(api@)
                &&& request.body matches Body::NewProfile { name: n, uuid: u } && n@ == name@ && u@
                    == uuid@
            },
            first.1 is Authorize,
    {
        let request = create_profile_request(api, name, uuid);
        (CreateState::Authorizing { request }, Work::Authorize)
    }

    /// Begins the renaming of a profile on the server at `api`.
    pub fn rename_profile(&self, api: &str, server_id: u32, name: &str) -> (first: (
        ChangeState,
        Work,
    ))
        ensures
            first.0 matches ChangeState::Authorizing { request } && {
                &&& request.method == Method::Patch
                &&& request.url@ == profile_url(api@, server_id)
                &&& request.body matches Body::Name { name: n } && n@ == name@
            },
            first.1 is Authorize,
    {
        let request = rename_profile_request(api, server_id, name);
        (ChangeState::Authorizing { request }, Work::Authorize)
    }

    /// Begins the deletion of a profile on the server at `api`.
    pub fn delete_profile(&self, api: &str, server_id: u32) -> (first: (ChangeState, Work))
        ensures
            first.0 matches ChangeState::Authorizing { request } && {
                &&& request.method == Method::Delete
                &&& request.url@ == profile_url(api@, server_id)
                &&& request.body is Empty
            },
            first.1 is Authorize,
    {
        let request = delete_profile_request(api, server_id);
        (ChangeState::Authorizing { request }, Work::Authorize)
    }

    /// Begins the upload of one progress to the server at `api`.
    pub fn sync_progress(
        &self,
        api: &str,
        server_id: u32,
        guide_id: u32,
        current_step: u32,
        steps: HashMap<u32, ConfStep>,
    ) -> (first: (ProgressState, Work))
        ensures
            first.0 matches ProgressState::Authorizing { api: kept, push } && {
                &&& kept@ == api@
                &&& push@ == (PushView {
                    server_id,
                    guide_id,
                    current_step,
                    steps: steps_view(steps@),
                })
            },
            first.1 is Authorize,
    {
        let push = PendingPush { server_id, guide_id, current_step, steps };
        (ProgressState::Authorizing { api: api.to_owned(), push }, Work::Authorize)
    }
}

} // verus!
