//! Merging the server's copy of the profiles into the local configuration.

use crate::conf::{
    find_profile, find_progress, first_for_guide, first_with_id, has_guide, has_profile,
    profiles_view, progresses_view, steps_view, Conf, ConfView, Profile, ProfileView, Progress,
    ProgressView,
};
use crate::remote::{
    remote_profiles_view, remote_progresses_view, RemoteProfileResponse, RemoteProfileView,
    RemoteProgressResponse, RemoteProgressView,
};
use crate::timestamp::{is_remote_newer, remote_newer};
use vstd::prelude::*;

verus! {

/// The level of a profile that was first heard of from the server.
pub const DEFAULT_LEVEL: u32 = 200;

/// The progress holds something that the server never acknowledged.
pub open spec fn is_pending(progress: ProgressView) -> bool {
    progress.sync_pending || progress.updated_at is None
}

/// The local progress with the content of the server's copy.
pub open spec fn overwritten(local: ProgressView, remote: RemoteProgressView) -> ProgressView {
    ProgressView {
        current_step: remote.current_step,
        steps: remote.steps,
        updated_at: Some(remote.updated_at),
        ..local
    }
}

/// A local progress once the server's copy of it is merged in: the copy is taken where it is newer
/// and nothing local is pending.
pub open spec fn merged_progress(local: ProgressView, remote: RemoteProgressView) -> ProgressView {
    if !is_pending(local) && remote_newer(local.updated_at, remote.updated_at) {
        overwritten(local, remote)
    } else {
        local
    }
}

/// A progress that only the server had.
pub open spec fn new_progress(remote: RemoteProgressView) -> ProgressView {
    ProgressView {
        id: remote.id,
        current_step: remote.current_step,
        steps: remote.steps,
        updated_at: Some(remote.updated_at),
        sync_pending: false,
    }
}

pub open spec fn new_progresses(remotes: Seq<RemoteProgressView>) -> Seq<ProgressView> {
    Seq::new(remotes.len(), |i: int| new_progress(remotes[i]))
}

/// A profile's progresses once one of the server's is merged in: into the first for the same guide,
/// or behind them all where there is none.
pub open spec fn with_remote_progress(
    progresses: Seq<ProgressView>,
    remote: RemoteProgressView,
) -> Seq<ProgressView> {
    if has_guide(progresses, remote.id) {
        let at = choose|at: int| first_for_guide(progresses, remote.id, at);
        progresses.update(at, merged_progress(progresses[at], remote))
    } else {
        progresses.push(new_progress(remote))
    }
}

/// A profile's progresses once all of the server's are merged in, one after the other.
pub open spec fn with_remote_progresses(
    progresses: Seq<ProgressView>,
    remotes: Seq<RemoteProgressView>,
) -> Seq<ProgressView>
    decreases remotes.len(),
{
    if remotes.len() == 0 {
        progresses
    } else {
        with_remote_progress(
            with_remote_progresses(progresses, remotes.drop_last()),
            remotes.last(),
        )
    }
}

/// A local profile once the server's copy of it is merged in.
pub open spec fn merged_profile(local: ProfileView, remote: RemoteProfileView) -> ProfileView {
    ProfileView {
        server_id: Some(remote.id),
        name: remote.name,
        progresses: with_remote_progresses(local.progresses, remote.progresses),
        ..local
    }
}

/// A profile that only the server had.
pub open spec fn new_profile(id: Seq<char>, remote: RemoteProfileView) -> ProfileView {
    ProfileView {
        id,
        name: remote.name,
        level: DEFAULT_LEVEL,
        progresses: new_progresses(remote.progresses),
        server_id: Some(remote.id),
    }
}

/// The profiles once a remote one is merged into the first with its identifier, if there is one.
pub open spec fn with_known_profile(
    profiles: Seq<ProfileView>,
    remote: RemoteProfileView,
) -> Seq<ProfileView> {
    match remote.uuid {
        Some(uuid) => {
            if has_profile(profiles, uuid) {
                let at = choose|at: int| first_with_id(profiles, uuid, at);
                profiles.update(at, merged_profile(profiles[at], remote))
            } else {
                profiles
            }
        },
        None => profiles,
    }
}

/// The profiles once every remote one that they know is merged in.
pub open spec fn with_known_profiles(
    profiles: Seq<ProfileView>,
    remotes: Seq<RemoteProfileView>,
) -> Seq<ProfileView>
    decreases remotes.len(),
{
    if remotes.len() == 0 {
        profiles
    } else {
        with_known_profile(with_known_profiles(profiles, remotes.drop_last()), remotes.last())
    }
}

/// The profiles, followed by a remote one that they do not know.
pub open spec fn with_new_profile(
    profiles: Seq<ProfileView>,
    remote: RemoteProfileView,
) -> Seq<ProfileView> {
    match remote.uuid {
        Some(uuid) => {
            if has_profile(profiles, uuid) {
                profiles
            } else {
                profiles.push(new_profile(uuid, remote))
            }
        },
        None => profiles,
    }
}

/// The profiles, followed by the remote ones that they do not know.
pub open spec fn with_new_profiles(
    profiles: Seq<ProfileView>,
    remotes: Seq<RemoteProfileView>,
) -> Seq<ProfileView>
    decreases remotes.len(),
{
    if remotes.len() == 0 {
        profiles
    } else {
        with_new_profile(with_new_profiles(profiles, remotes.drop_last()), remotes.last())
    }
}

/// The local configuration once the server's profiles are merged into it: first into the profiles
/// known locally, then as new profiles.
pub open spec fn merged_conf(conf: ConfView, remotes: Seq<RemoteProfileView>) -> ConfView {
    ConfView {
        profiles: with_new_profiles(with_known_profiles(conf.profiles, remotes), remotes),
        ..conf
    }
}

/// Whether a progress was changed locally and never acknowledged by the server. Such a progress
/// wins over the remote copy, otherwise checkboxes ticked right before the reader was closed would
/// be wiped on the next start. A progress without a timestamp was never pushed either.
pub fn has_local_pending_changes(progress: &Progress) -> (pending: bool)
    ensures
        pending == is_pending(progress@),
        progress.sync_pending ==> pending,
        progress.updated_at is None ==> pending,
        !progress.sync_pending && progress.updated_at is Some ==> !pending,
{
    progress.sync_pending || progress.updated_at.is_none()
}

/// Replaces the content of a local progress by the server's copy, where the copy is newer and
/// nothing local is pending.
pub fn apply_remote_progress(local: &mut Progress, remote: &RemoteProgressResponse, newer: bool)
    ensures
        final(local)@ == (if !is_pending(old(local)@) && newer {
            overwritten(old(local)@, remote@)
        } else {
            old(local)@
        }),
        final(local).id == old(local).id,
        final(local).sync_pending == old(local).sync_pending,
        old(local).sync_pending || old(local).updated_at is None || !newer ==> final(local)@ == old(
            local,
        )@,
        !old(local).sync_pending && old(local).updated_at is Some && newer ==> {
            &&& final(local).current_step == remote.current_step
            &&& steps_view(final(local).steps@) == steps_view(remote.steps@)
            &&& final(local).updated_at is Some
            &&& final(local).updated_at->0@ == remote.updated_at@
        },
{
    if !has_local_pending_changes(local) && newer {
        local.current_step = remote.current_step;
        local.steps = remote.steps.clone();
        local.updated_at = Some(remote.updated_at.clone());
    }
}

/// A local progress that holds what the server sent.
fn progress_from_remote(remote: &RemoteProgressResponse) -> (progress: Progress)
    ensures
        progress@ == new_progress(remote@),
{
    Progress {
        id: remote.id,
        current_step: remote.current_step,
        steps: remote.steps.clone(),
        updated_at: Some(remote.updated_at.clone()),
        sync_pending: false,
    }
}

fn merge_remote_progress(progresses: &mut Vec<Progress>, remote: &RemoteProgressResponse)
    ensures
        progresses_view(final(progresses)@) == with_remote_progress(
            progresses_view(old(progresses)@),
            remote@,
        ),
{
    match find_progress(progresses, remote.id) {
        Some(at) => {
            let local = &mut progresses[at];
            let newer = is_remote_newer(local.updated_at.as_ref(), remote.updated_at.as_str());
            apply_remote_progress(local, remote, newer);
        },
        None => {
            progresses.push(progress_from_remote(remote));
        },
    }
}

fn merge_remote_profile(local: &mut Profile, remote: &RemoteProfileResponse)
    ensures
        final(local)@ == merged_profile(old(local)@, remote@),
{
    local.server_id = Some(remote.id);
    if local.name != remote.name {
        local.name = remote.name.clone();
    }
    let ghost sent = remote@.progresses;
    assert(sent.take(0) =~= Seq::<RemoteProgressView>::empty());
    for i in 0..remote.progresses.len()
        invariant
            sent == remote_progresses_view(remote.progresses@),
            local.id == old(local).id,
            local.name@ == remote.name@,
            local.level == old(local).level,
            local.server_id == Some(remote.id),
            progresses_view(local.progresses@) == with_remote_progresses(
                old(local)@.progresses,
                sent.take(i as int),
            ),
    {
        merge_remote_progress(&mut local.progresses, &remote.progresses[i]);
        assert(sent.take(i + 1).drop_last() =~= sent.take(i as int));
    }
    assert(sent.take(sent.len() as int) =~= sent);
}

fn profile_from_remote(id: &String, remote: &RemoteProfileResponse) -> (profile: Profile)
    ensures
        profile@ == new_profile(id@, remote@),
{
    let mut progresses: Vec<Progress> = Vec::new();
    for i in 0..remote.progresses.len()
        invariant
            progresses.len() == i,
            forall|k: int|
                0 <= k < i ==> (#[trigger] progresses[k])@ == new_progress(remote.progresses[k]@),
    {
        progresses.push(progress_from_remote(&remote.progresses[i]));
    }
    assert(progresses_view(progresses@) =~= new_progresses(remote@.progresses));
    Profile {
        id: id.clone(),
        name: remote.name.clone(),
        level: DEFAULT_LEVEL,
        progresses,
        server_id: Some(remote.id),
    }
}

/// Merges the server's profiles into the local configuration.
pub fn merge_remote_profiles(conf: &mut Conf, remote_profiles: &[RemoteProfileResponse])
    ensures
        final(conf)@ == merged_conf(old(conf)@, remote_profiles_view(remote_profiles@)),
{
    let ghost remotes = remote_profiles_view(remote_profiles@);
    let ghost local = conf@.profiles;
    assert(remotes.take(0) =~= Seq::<RemoteProfileView>::empty());
    for i in 0..remote_profiles.len()
        invariant
            remotes == remote_profiles_view(remote_profiles@),
            conf.profile_in_use == old(conf).profile_in_use,
            profiles_view(conf.profiles@) == with_known_profiles(local, remotes.take(i as int)),
    {
        let remote_profile = &remote_profiles[i];
        assert(remotes.take(i + 1).drop_last() =~= remotes.take(i as int));
        if let Some(uuid) = &remote_profile.uuid {
            if let Some(at) = find_profile(&conf.profiles, uuid) {
                merge_remote_profile(&mut conf.profiles[at], remote_profile);
            }
        }
    }
    assert(remotes.take(remotes.len() as int) =~= remotes);

    // Add the profiles that only the server had.
    let ghost known = profiles_view(conf.profiles@);
    for i in 0..remote_profiles.len()
        invariant
            remotes == remote_profiles_view(remote_profiles@),
            conf.profile_in_use == old(conf).profile_in_use,
            profiles_view(conf.profiles@) == with_new_profiles(known, remotes.take(i as int)),
    {
        let remote_profile = &remote_profiles[i];
        assert(remotes.take(i + 1).drop_last() =~= remotes.take(i as int));
        if let Some(uuid) = &remote_profile.uuid {
            if find_profile(&conf.profiles, uuid).is_none() {
                conf.profiles.push(profile_from_remote(uuid, remote_profile));
            }
        }
    }
}

} // verus!
