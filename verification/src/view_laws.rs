//! What the models of the types show: every field, each for itself.

use crate::conf;
use crate::conf::{steps_view, Conf, ConfStep, Profile, Progress};
use crate::error::{error_message, Error, ErrorView};
use crate::payload::{SyncProgressPayload, SyncResponse};
use crate::push::{pushes_view, PendingPush};
use crate::remote::{remote_profiles_view, RemoteProfileResponse, RemoteProgressResponse};
use vstd::prelude::*;

verus! {

/// The model of steps holds the checkboxes of every step at its index, and nothing else.
pub proof fn model_shows_every_step(steps: Map<u32, ConfStep>)
    ensures
        forall|index: u32| #[trigger]
            steps_view(steps).contains_key(index) <==> steps.contains_key(index),
        forall|index: u32|
            steps.contains_key(index) ==> #[trigger] steps_view(steps)[index]
                == steps[index].checkboxes@,
{
}

/// Steps have the same model exactly where they tick the same checkboxes at the same indices.
pub proof fn model_tells_steps_apart(left: Map<u32, ConfStep>, right: Map<u32, ConfStep>)
    ensures
        steps_view(left) == steps_view(right) <==> (forall|index: u32|
            #![trigger left.contains_key(index)]
            #![trigger right.contains_key(index)]
            (left.contains_key(index) <==> right.contains_key(index)) && (left.contains_key(index)
                ==> left[index].checkboxes@ == right[index].checkboxes@)),
{
    if steps_view(left) == steps_view(right) {
        assert forall|index: u32|
            #![trigger left.contains_key(index)]
            #![trigger right.contains_key(index)]
            (left.contains_key(index) <==> right.contains_key(index)) && (left.contains_key(index)
                ==> left[index].checkboxes@ == right[index].checkboxes@) by {
            assert(steps_view(left).contains_key(index) == left.contains_key(index));
            assert(steps_view(right).contains_key(index) == right.contains_key(index));
            if left.contains_key(index) {
                assert(steps_view(left)[index] == left[index].checkboxes@);
                assert(steps_view(right)[index] == right[index].checkboxes@);
            }
        }
    }
    if (forall|index: u32|
        #![trigger left.contains_key(index)]
        #![trigger right.contains_key(index)]
        (left.contains_key(index) <==> right.contains_key(index)) && (left.contains_key(index)
            ==> left[index].checkboxes@ == right[index].checkboxes@)) {
        assert(steps_view(left) =~= steps_view(right));
    }
}

/// The model of a local progress shows each of its fields.
pub proof fn model_shows_progress(progress: Progress)
    ensures
        progress@.id == progress.id,
        progress@.current_step == progress.current_step,
        progress@.steps == steps_view(progress.steps@),
        progress.updated_at is None <==> progress@.updated_at is None,
        progress.updated_at matches Some(text) ==> progress@.updated_at == Some(text@),
        progress@.sync_pending == progress.sync_pending,
{
}

/// The model of a local profile shows each of its fields, and every progress in its place.
pub proof fn model_shows_profile(profile: Profile)
    ensures
        profile@.id == profile.id@,
        profile@.name == profile.name@,
        profile@.level == profile.level,
        profile@.server_id == profile.server_id,
        profile@.progresses.len() == profile.progresses@.len(),
        forall|j: int|
            0 <= j < profile.progresses@.len() ==> #[trigger] profile@.progresses[j]
                == profile.progresses@[j]@,
{
}

/// The model of the configuration shows the profile in use, and every profile in its place.
pub proof fn model_shows_conf(conf: Conf)
    ensures
        conf@.profile_in_use == conf.profile_in_use@,
        conf@.profiles.len() == conf.profiles@.len(),
        forall|i: int|
            0 <= i < conf.profiles@.len() ==> #[trigger] conf@.profiles[i] == conf.profiles@[i]@,
{
}

/// The model of a remote progress shows each of its fields.
pub proof fn model_shows_remote_progress(progress: RemoteProgressResponse)
    ensures
        progress@.id == progress.id,
        progress@.current_step == progress.current_step,
        progress@.steps == steps_view(progress.steps@),
        progress@.updated_at == progress.updated_at@,
{
}

/// The model of a remote profile shows each of its fields, and every progress in its place.
pub proof fn model_shows_remote_profile(profile: RemoteProfileResponse)
    ensures
        profile@.id == profile.id,
        profile.uuid is None <==> profile@.uuid is None,
        profile.uuid matches Some(uuid) ==> profile@.uuid == Some(uuid@),
        profile@.name == profile.name@,
        profile@.progresses.len() == profile.progresses@.len(),
        forall|j: int|
            0 <= j < profile.progresses@.len() ==> #[trigger] profile@.progresses[j]
                == profile.progresses@[j]@,
{
}

/// The model of the remote profiles shows every one in its place.
pub proof fn model_shows_remote_profiles(profiles: Seq<RemoteProfileResponse>)
    ensures
        remote_profiles_view(profiles).len() == profiles.len(),
        forall|i: int|
            0 <= i < profiles.len() ==> #[trigger] remote_profiles_view(profiles)[i]
                == profiles[i]@,
{
}

/// The model of a progress on its way shows each of its fields.
pub proof fn model_shows_progress_payload(payload: SyncProgressPayload)
    ensures
        payload@.id == payload.id,
        payload@.current_step == payload.current_step,
        payload@.steps == steps_view(payload.steps@),
        payload@.updated_at == payload.updated_at@,
{
}

/// The model of the answer to the interface shows every profile in its place, each field of it, and
/// every progress of it in its place.
pub proof fn model_shows_response(response: SyncResponse, i: int)
    requires
        0 <= i < response.profiles@.len(),
    ensures
        response@.len() == response.profiles@.len(),
        response@[i].id == response.profiles@[i].id,
        response.profiles@[i].uuid is None <==> response@[i].uuid is None,
        response.profiles@[i].uuid matches Some(uuid) ==> response@[i].uuid == Some(uuid@),
        response@[i].name == response.profiles@[i].name@,
        response@[i].progresses.len() == response.profiles@[i].progresses@.len(),
        forall|j: int|
            0 <= j < response.profiles@[i].progresses@.len()
                ==> #[trigger] response@[i].progresses[j]
                == response.profiles@[i].progresses@[j]@,
{
}

/// The model of an upload shows each of its fields.
pub proof fn model_shows_push(push: PendingPush)
    ensures
        push@.server_id == push.server_id,
        push@.guide_id == push.guide_id,
        push@.current_step == push.current_step,
        push@.steps == steps_view(push.steps@),
{
}

/// The model of some uploads shows every one in its place.
pub proof fn model_shows_pushes(pushes: Seq<PendingPush>)
    ensures
        pushes_view(pushes).len() == pushes.len(),
        forall|n: int| 0 <= n < pushes.len() ==> #[trigger] pushes_view(pushes)[n] == pushes[n]@,
{
}

/// The model of an error tells every kind of error apart, and shows the text that it comes with.
pub proof fn model_shows_error(text: String)
    ensures
        Error::TokensNotFound@ == ErrorView::TokensNotFound,
        Error::NotConnected@ == ErrorView::NotConnected,
        Error::RequestFailed(text)@ == ErrorView::RequestFailed(text@),
        Error::InvalidResponse(text)@ == ErrorView::InvalidResponse(text@),
        Error::Conf(conf::Error { message: text })@ == ErrorView::Conf(text@),
        Error::ProfileOrGuideNotFound@ == ErrorView::ProfileOrGuideNotFound,
        Error::ValidationError(text)@ == ErrorView::ValidationError(text@),
        Error::TokenExpired@ == ErrorView::TokenExpired,
{
}

/// An error in words begins with what kind it is, and ends with the text that it comes with.
pub proof fn message_carries_the_text(text: Seq<char>)
    ensures
        error_message(ErrorView::TokensNotFound) == "tokens not found"@,
        error_message(ErrorView::NotConnected) == "user not connected"@,
        error_message(ErrorView::RequestFailed(text)) == "request failed: "@ + text,
        error_message(ErrorView::InvalidResponse(text)) == "invalid response: "@ + text,
        error_message(ErrorView::Conf(text)) == "conf error: "@ + text,
        error_message(ErrorView::ProfileOrGuideNotFound) == "profile or guide not found on server"@,
        error_message(ErrorView::ValidationError(text)) == "validation error: "@ + text,
        error_message(ErrorView::TokenExpired) == "token expired"@,
{
}

} // verus!
