//! Profiles on their way to the server, and on their way to the interface.

use crate::conf::{
    steps_view, Conf, ConfStep, ConfView, Profile, ProfileView, Progress, ProgressView,
};
use crate::remote::{
    remote_profiles_view, RemoteProfileView, RemoteProgressView, SyncServerResponse,
};
use crate::timestamp::{is_clock_text, now_text};
use std::collections::HashMap;
use vstd::prelude::*;

verus! {

/// A progress as it is sent.
#[derive(Debug)]
pub struct SyncProgressPayload {
    pub id: u32,
    pub current_step: u32,
    pub steps: HashMap<u32, ConfStep>,
    pub updated_at: String,
}

/// A local profile as it is sent.
#[derive(Debug)]
pub struct SyncProfilePayload {
    pub uuid: String,
    pub name: String,
    pub progresses: Vec<SyncProgressPayload>,
}

/// A profile of the server as the interface sees it.
#[derive(Debug)]
pub struct RemoteProfile {
    pub id: u32,
    pub uuid: Option<String>,
    pub name: String,
    pub progresses: Vec<SyncProgressPayload>,
}

/// What a full synchronisation answers the interface.
#[derive(Debug)]
pub struct SyncResponse {
    pub profiles: Vec<RemoteProfile>,
}

impl View for SyncProgressPayload {
    type V = RemoteProgressView;

    open spec fn view(&self) -> RemoteProgressView {
        RemoteProgressView {
            id: self.id,
            current_step: self.current_step,
            steps: steps_view(self.steps@),
            updated_at: self.updated_at@,
        }
    }
}

pub open spec fn payloads_view(payloads: Seq<SyncProgressPayload>) -> Seq<RemoteProgressView> {
    Seq::new(payloads.len(), |i: int| payloads[i]@)
}

impl View for RemoteProfile {
    type V = RemoteProfileView;

    open spec fn view(&self) -> RemoteProfileView {
        RemoteProfileView {
            id: self.id,
            uuid: match self.uuid {
                Some(uuid) => Some(uuid@),
                None => None,
            },
            name: self.name@,
            progresses: payloads_view(self.progresses@),
        }
    }
}

impl View for SyncResponse {
    type V = Seq<RemoteProfileView>;

    open spec fn view(&self) -> Seq<RemoteProfileView> {
        Seq::new(self.profiles.len() as nat, |i: int| self.profiles[i]@)
    }
}

/// The payload carries the progress, with `stamp` for its timestamp.
pub open spec fn stamped_payload(progress: ProgressView, stamp: Seq<char>) -> RemoteProgressView {
    RemoteProgressView {
        id: progress.id,
        current_step: progress.current_step,
        steps: progress.steps,
        updated_at: stamp,
    }
}

/// The payload carries the progress with its own timestamp, or with the current time where it has
/// none.
pub open spec fn carries_progress(payload: RemoteProgressView, progress: ProgressView) -> bool {
    match progress.updated_at {
        Some(stamp) => payload == stamped_payload(progress, stamp),
        None => {
            &&& is_clock_text(payload.updated_at)
            &&& payload == stamped_payload(progress, payload.updated_at)
        },
    }
}

/// The payload carries the profile: its identifier, its name, and each of its progresses in order.
pub open spec fn carries_profile(payload: SyncProfilePayload, profile: ProfileView) -> bool {
    &&& payload.uuid@ == profile.id
    &&& payload.name@ == profile.name
    &&& payload.progresses.len() == profile.progresses.len()
    &&& forall|j: int|
        0 <= j < profile.progresses.len() ==> carries_progress(
            (#[trigger] payload.progresses[j])@,
            profile.progresses[j],
        )
}

/// The payload carries every profile of the configuration, in order.
pub open spec fn carries_conf(payload: Seq<SyncProfilePayload>, conf: ConfView) -> bool {
    &&& payload.len() == conf.profiles.len()
    &&& forall|i: int|
        0 <= i < conf.profiles.len() ==> carries_profile(#[trigger] payload[i], conf.profiles[i])
}

/// The payload of a progress, with `stamp` for the timestamp that it lacks.
pub fn progress_payload(progress: &Progress, stamp: &str) -> (payload: SyncProgressPayload)
    ensures
        payload@ == stamped_payload(
            progress@,
            match progress@.updated_at {
                Some(updated_at) => updated_at,
                None => stamp@,
            },
        ),
        payload.id == progress.id,
        payload.current_step == progress.current_step,
        steps_view(payload.steps@) == steps_view(progress.steps@),
        progress.updated_at matches Some(updated_at) ==> payload.updated_at@ == updated_at@,
        progress.updated_at is None ==> payload.updated_at@ == stamp@,
{
    SyncProgressPayload {
        id: progress.id,
        current_step: progress.current_step,
        steps: progress.steps.clone(),
        updated_at: match &progress.updated_at {
            Some(updated_at) => updated_at.clone(),
            None => stamp.to_owned(),
        },
    }
}

fn profile_payload(profile: &Profile) -> (payload: SyncProfilePayload)
    ensures
        carries_profile(payload, profile@),
{
    let mut progresses: Vec<SyncProgressPayload> = Vec::new();
    for j in 0..profile.progresses.len()
        invariant
            progresses.len() == j,
            forall|k: int|
                0 <= k < j ==> carries_progress(
                    (#[trigger] progresses[k])@,
                    profile@.progresses[k],
                ),
    {
        let progress = &profile.progresses[j];
        let stamp = if progress.updated_at.is_some() {
            String::new()
        } else {
            now_text()
        };
        progresses.push(progress_payload(progress, stamp.as_str()));
    }
    SyncProfilePayload { uuid: profile.id.clone(), name: profile.name.clone(), progresses }
}

/// Everything that the configuration holds, as it is sent in a full synchronisation.
pub fn sync_payload(conf: &Conf) -> (payload: Vec<SyncProfilePayload>)
    ensures
        carries_conf(payload@, conf@),
{
    let mut payload: Vec<SyncProfilePayload> = Vec::new();
    for i in 0..conf.profiles.len()
        invariant
            payload.len() == i,
            forall|k: int|
                0 <= k < i ==> carries_profile(#[trigger] payload[k], conf@.profiles[k]),
    {
        payload.push(profile_payload(&conf.profiles[i]));
    }
    payload
}

/// Hands the server's profiles on to the interface.
pub fn sync_response(server: SyncServerResponse) -> (response: SyncResponse)
    ensures
        response@ == remote_profiles_view(server.profiles@),
{
    let mut profiles: Vec<RemoteProfile> = Vec::new();
    let ghost all = server.profiles@;
    for profile in it: server.profiles
        invariant
            it.seq() == all,
            profiles.len() == it.index(),
            forall|k: int| 0 <= k < it.index() ==> (#[trigger] profiles[k])@ == all[k]@,
    {
        let ghost whole = profile;
        let ghost sent = profile.progresses@;
        let mut progresses: Vec<SyncProgressPayload> = Vec::new();
        for progress in inner: profile.progresses
            invariant
                inner.seq() == sent,
                progresses.len() == inner.index(),
                forall|k: int| 0 <= k < inner.index() ==> (#[trigger] progresses[k])@ == sent[k]@,
        {
            progresses.push(
                SyncProgressPayload {
                    id: progress.id,
                    current_step: progress.current_step,
                    steps: progress.steps,
                    updated_at: progress.updated_at,
                },
            );
        }
        let handed = RemoteProfile {
            id: profile.id,
            uuid: profile.uuid,
            name: profile.name,
            progresses,
        };
        assert(handed@.progresses =~= whole@.progresses);
        profiles.push(handed);
    }
    let response = SyncResponse { profiles };
    assert(response@ =~= remote_profiles_view(all));
    response
}

} // verus!
