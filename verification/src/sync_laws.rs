//! What holds of every full synchronisation, step by step.

use crate::changes::{change_advances, create_advances, ChangeState, CreateState};
use crate::conf::text_view;
use crate::merge::merged_conf;
use crate::payload::SyncResponse;
use crate::procedure::{access_error, fails, AccessFailure, Event, Next, Work};
use crate::push::{pushes_view, synced, PushView};
use crate::remote::{remote_profiles_view, SyncServerResponse};
use crate::sync::{advances, awaits, SyncState};
use crate::upload::{begins_upload, progress_advances, ProgressState, UploadState};
use vstd::prelude::*;

verus! {

/// A user without access to the server is told so by every procedure, and nothing else happens.
pub proof fn nothing_happens_without_access(
    failure: AccessFailure,
    sync: SyncState,
    sync_next: Next<SyncState, SyncResponse>,
    upload: ProgressState,
    upload_next: Next<ProgressState, ()>,
    create: CreateState,
    create_next: Next<CreateState, u32>,
    change: ChangeState,
    change_next: Next<ChangeState, ()>,
)
    requires
        sync is Authorizing,
        advances(sync, Event::Authorized(Err(failure)), sync_next),
        upload is Authorizing,
        progress_advances(upload, Event::Authorized(Err(failure)), upload_next),
        create is Authorizing,
        create_advances(create, Event::Authorized(Err(failure)), create_next),
        change is Authorizing,
        change_advances(change, Event::Authorized(Err(failure)), change_next),
    ensures
        fails(sync_next, access_error(failure)),
        fails(upload_next, access_error(failure)),
        fails(create_next, access_error(failure)),
        fails(change_next, access_error(failure)),
{
}

/// The profiles that the server sent, while they are held on to.
pub open spec fn reply_of(state: SyncState) -> Option<SyncServerResponse> {
    match state {
        SyncState::Rereading { reply, .. } => Some(reply),
        SyncState::Saving { reply, .. } => Some(reply),
        SyncState::Listing { reply, .. } => Some(reply),
        SyncState::Uploading { reply, .. } => Some(reply),
        _ => None,
    }
}

/// Uploads are best effort: once they are under way, whatever fails, the synchronisation ends with
/// no error, and its answer is the profiles that the server sent.
pub proof fn uploads_are_best_effort(
    before: SyncState,
    event: Event,
    next: Next<SyncState, SyncResponse>,
)
    requires
        before is Uploading,
        awaits(before, event),
        advances(before, event, next),
    ensures
        next matches Next::Finish(answer) ==> answer is Ok && answer->Ok_0@ == remote_profiles_view(
            reply_of(before)->0.profiles@,
        ),
        next matches Next::Continue(after, _) ==> after is Uploading && reply_of(after) == reply_of(
            before,
        ),
{
}

/// The address of the server that the synchronisation is with.
pub open spec fn api_of(state: SyncState) -> Seq<char> {
    match state {
        SyncState::Authorizing { api } => api@,
        SyncState::Starting { api } => api@,
        SyncState::Sending { api } => api@,
        SyncState::Parsing { api } => api@,
        SyncState::Rereading { api, .. } => api@,
        SyncState::Saving { api, .. } => api@,
        SyncState::Listing { api, .. } => api@,
        SyncState::Uploading { api, .. } => api@,
    }
}

/// A synchronisation never turns to another server, and keeps the profiles that the server sent.
pub proof fn server_stays_the_same(
    before: SyncState,
    event: Event,
    after: SyncState,
    work: Work,
)
    requires
        awaits(before, event),
        advances(before, event, Next::Continue(after, work)),
    ensures
        api_of(after) == api_of(before),
        reply_of(before) is Some ==> reply_of(after) == reply_of(before),
{
}

/// What is still to be uploaded after the upload under way.
pub open spec fn still_to_upload(state: SyncState) -> Seq<PushView> {
    match state {
        SyncState::Uploading { rest, .. } => pushes_view(rest@),
        _ => Seq::empty(),
    }
}

/// The upload under way.
pub open spec fn upload_of(state: SyncState) -> UploadState
    recommends
        state is Uploading,
{
    state->upload
}

/// Every progress that was listed is sent once, in order: a step that sends anything sends the first
/// of what is left to upload, any other step leaves it as it is, and none is left when the
/// synchronisation ends.
pub proof fn each_pending_progress_is_sent_once(
    before: SyncState,
    event: Event,
    next: Next<SyncState, SyncResponse>,
)
    requires
        before is Uploading,
        awaits(before, event),
        advances(before, event, next),
    ensures
        match next {
            Next::Continue(after, work) => {
                if work is Send {
                    &&& still_to_upload(before).len() > 0
                    &&& begins_upload(
                        api_of(before),
                        still_to_upload(before)[0],
                        upload_of(after),
                        work,
                    )
                    &&& still_to_upload(after) == still_to_upload(before).drop_first()
                } else {
                    still_to_upload(after) == still_to_upload(before)
                }
            },
            Next::Finish(_) => still_to_upload(before).len() == 0,
        },
{
}

/// How far a synchronisation is from its end, coarsely.
pub open spec fn stages_left(state: SyncState) -> nat {
    match state {
        SyncState::Authorizing { .. } => 7,
        SyncState::Starting { .. } => 6,
        SyncState::Sending { .. } => 5,
        SyncState::Parsing { .. } => 4,
        SyncState::Rereading { .. } => 3,
        SyncState::Saving { .. } => 2,
        SyncState::Listing { .. } => 1,
        SyncState::Uploading { .. } => 0,
    }
}

/// How far an upload is from its end.
pub open spec fn upload_left(state: UploadState) -> nat {
    match state {
        UploadState::Sending { .. } => 3,
        UploadState::Stamping { .. } => 2,
        UploadState::Acknowledging { .. } => 1,
        UploadState::Remembering => 0,
    }
}

/// How far the uploads are from their end.
pub open spec fn work_left(state: SyncState) -> nat {
    match state {
        SyncState::Uploading { upload, rest, .. } => 4 * rest@.len() + upload_left(upload),
        _ => 0,
    }
}

/// A synchronisation ends: each step that is not the last either reaches a later stage, or leaves
/// less to upload.
pub proof fn every_synchronisation_ends(
    before: SyncState,
    event: Event,
    after: SyncState,
    work: Work,
)
    requires
        awaits(before, event),
        advances(before, event, Next::Continue(after, work)),
    ensures
        stages_left(after) < stages_left(before) || (stages_left(after) == stages_left(before)
            && work_left(after) < work_left(before)),
{
    if let SyncState::Uploading { rest, .. } = before {
        if let SyncState::Uploading { rest: others, .. } = after {
            assert(pushes_view(rest@).len() == rest@.len());
            assert(pushes_view(others@).len() == others@.len());
        }
    }
}

/// The local configuration is written only with the server's profiles merged into what was just
/// read, or with an acknowledgement noted in what was just read.
pub proof fn only_merges_and_acknowledgements_are_saved(
    before: SyncState,
    event: Event,
    after: SyncState,
    work: Work,
)
    requires
        awaits(before, event),
        advances(before, event, Next::Continue(after, work)),
        work is SaveConf,
    ensures
        event matches Event::ConfRead(Ok(conf)) && {
            ||| before matches SyncState::Rereading { reply, .. } && work->SaveConf_0@
                == merged_conf(conf@, remote_profiles_view(reply.profiles@))
            ||| before matches SyncState::Uploading {
                upload: UploadState::Acknowledging { push, updated_at },
                ..
            } && synced(conf@, work->SaveConf_0@, push@, text_view(updated_at))
        },
{
}

} // verus!
