//! What is on its way to the server and to the interface, field by field.

use crate::conf::{steps_view, Conf, Progress};
use crate::payload::{
    carries_conf, carries_profile, carries_progress, stamped_payload, SyncProfilePayload,
    SyncProgressPayload, SyncResponse,
};
use crate::remote::{remote_profiles_view, SyncServerResponse};
use crate::timestamp::is_clock_text;
use crate::view_laws::model_tells_steps_apart;
use vstd::prelude::*;

verus! {

/// What a full synchronisation sends has every local profile in its place, with its identifier, its
/// name, and as many progresses.
pub proof fn every_profile_is_sent(payload: Seq<SyncProfilePayload>, conf: Conf, i: int)
    requires
        carries_conf(payload, conf@),
        0 <= i < conf.profiles@.len(),
    ensures
        payload.len() == conf.profiles@.len(),
        payload[i].uuid@ == conf.profiles@[i].id@,
        payload[i].name@ == conf.profiles@[i].name@,
        payload[i].progresses@.len() == conf.profiles@[i].progresses@.len(),
{
    assert(carries_profile(payload[i], conf@.profiles[i]));
}

/// What a full synchronisation sends has every local progress in its place, with its guide, its
/// current step, the checkboxes of each of its steps, and its timestamp; the local clock stands in
/// for a timestamp that it lacks.
pub proof fn every_progress_is_sent_whole(
    payload: Seq<SyncProfilePayload>,
    conf: Conf,
    i: int,
    j: int,
)
    requires
        carries_conf(payload, conf@),
        0 <= i < conf.profiles@.len(),
        0 <= j < conf.profiles@[i].progresses@.len(),
    ensures
        ({
            let sent = payload[i].progresses@[j];
            let local = conf.profiles@[i].progresses@[j];
            &&& sent.id == local.id
            &&& sent.current_step == local.current_step
            &&& forall|index: u32| #[trigger]
                sent.steps@.contains_key(index) <==> local.steps@.contains_key(index)
            &&& forall|index: u32|
                local.steps@.contains_key(index) ==> (
                #[trigger] sent.steps@[index]).checkboxes@ == local.steps@[index].checkboxes@
            &&& local.updated_at matches Some(text) ==> sent.updated_at@ == text@
            &&& local.updated_at is None ==> is_clock_text(sent.updated_at@)
        }),
{
    assert(carries_profile(payload[i], conf@.profiles[i]));
    let sent = payload[i].progresses@[j];
    let local = conf.profiles@[i].progresses@[j];
    assert(payload[i].progresses[j] == sent);
    assert(conf@.profiles[i].progresses[j] == local@);
    assert(carries_progress(sent@, local@));
    model_tells_steps_apart(sent.steps@, local.steps@);
}

/// A progress that is sent under a timestamp has the content of the local one, and that timestamp.
pub proof fn stamped_progress_is_sent_whole(
    payload: SyncProgressPayload,
    progress: Progress,
    stamp: Seq<char>,
)
    requires
        payload@ == stamped_payload(progress@, stamp),
    ensures
        payload.id == progress.id,
        payload.current_step == progress.current_step,
        forall|index: u32| #[trigger]
            payload.steps@.contains_key(index) <==> progress.steps@.contains_key(index),
        forall|index: u32|
            progress.steps@.contains_key(index) ==> (
            #[trigger] payload.steps@[index]).checkboxes@ == progress.steps@[index].checkboxes@,
        payload.updated_at@ == stamp,
{
    model_tells_steps_apart(payload.steps@, progress.steps@);
}

/// The interface gets every profile that the server sent, in its place and with each of its fields,
/// and every progress of it in its place and with each of its fields.
pub proof fn interface_gets_what_the_server_sent(
    response: SyncResponse,
    server: SyncServerResponse,
    i: int,
)
    requires
        response@ == remote_profiles_view(server.profiles@),
        0 <= i < server.profiles@.len(),
    ensures
        response.profiles@.len() == server.profiles@.len(),
        response.profiles@[i].id == server.profiles@[i].id,
        response.profiles@[i].uuid is Some <==> server.profiles@[i].uuid is Some,
        server.profiles@[i].uuid is Some ==> response.profiles@[i].uuid->0@
            == server.profiles@[i].uuid->0@,
        response.profiles@[i].name@ == server.profiles@[i].name@,
        response.profiles@[i].progresses@.len() == server.profiles@[i].progresses@.len(),
        forall|j: int|
            0 <= j < server.profiles@[i].progresses@.len() ==> {
                let got = #[trigger] response.profiles@[i].progresses@[j];
                let sent = server.profiles@[i].progresses@[j];
                &&& got.id == sent.id
                &&& got.current_step == sent.current_step
                &&& steps_view(got.steps@) == steps_view(sent.steps@)
                &&& got.updated_at@ == sent.updated_at@
            },
{
    assert(response@.len() == response.profiles@.len());
    assert(response@[i] == response.profiles@[i]@);
    assert(response@[i] == server.profiles@[i]@);
    let got = response.profiles@[i];
    let sent = server.profiles@[i];
    assert(got@.progresses.len() == got.progresses@.len());
    assert forall|j: int| 0 <= j < sent.progresses@.len() implies {
        let g = #[trigger] response.profiles@[i].progresses@[j];
        let s = sent.progresses@[j];
        &&& g.id == s.id
        &&& g.current_step == s.current_step
        &&& steps_view(g.steps@) == steps_view(s.steps@)
        &&& g.updated_at@ == s.updated_at@
    } by {
        assert(got@.progresses[j] == got.progresses@[j]@);
        assert(sent@.progresses[j] == sent.progresses@[j]@);
    }
}

} // verus!
