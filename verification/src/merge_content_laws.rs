//! What stands in each field after a merge, and what one more copy from the server adds to it.

use crate::conf::{
    first_for_guide, first_with_id, has_guide, has_profile, lemma_first_with_id, ConfView,
    ProfileView,
};
use crate::merge::{
    merged_conf, merged_profile, with_known_profiles, with_new_profiles, with_remote_progress,
    with_remote_progresses,
};
use crate::merge_laws::{
    lemma_first_stays_first, lemma_known_profiles_stay, lemma_new_profiles_come_last,
    newer_copy_is_applied, profile_only_on_the_server_is_added,
    progress_only_on_the_server_is_added, progress_without_newer_copy_is_kept,
};
use crate::remote::{RemoteProfileView, RemoteProgressView};
use crate::timestamp::remote_newer;
use vstd::prelude::*;

verus! {

/// A newer copy replaces a progress that has nothing pending, field by field; the guide stays, and
/// the progress is still not pending.
pub proof fn newer_copy_is_taken_whole(
    conf: ConfView,
    remotes: Seq<RemoteProfileView>,
    k: int,
    m: int,
    i: int,
    j: int,
)
    requires
        0 <= i < conf.profiles.len(),
        0 <= j < conf.profiles[i].progresses.len(),
        0 <= k < remotes.len(),
        0 <= m < remotes[k].progresses.len(),
        remotes[k].uuid == Some(conf.profiles[i].id),
        remotes[k].progresses[m].id == conf.profiles[i].progresses[j].id,
        forall|a: int| 0 <= a < i ==> (#[trigger] conf.profiles[a]).id != conf.profiles[i].id,
        forall|b: int|
            0 <= b < j ==> (#[trigger] conf.profiles[i].progresses[b]).id
                != conf.profiles[i].progresses[j].id,
        forall|l: int, n: int|
            #![trigger remotes[l].progresses[n]]
            0 <= l < remotes.len() && remotes[l].uuid == remotes[k].uuid && 0 <= n
                < remotes[l].progresses.len() && remotes[l].progresses[n].id
                == remotes[k].progresses[m].id ==> l == k && n == m,
        !conf.profiles[i].progresses[j].sync_pending,
        conf.profiles[i].progresses[j].updated_at is Some,
        remote_newer(
            conf.profiles[i].progresses[j].updated_at,
            remotes[k].progresses[m].updated_at,
        ),
    ensures
        ({
            let after = merged_conf(conf, remotes).profiles[i].progresses[j];
            &&& after.id == conf.profiles[i].progresses[j].id
            &&& after.current_step == remotes[k].progresses[m].current_step
            &&& after.steps == remotes[k].progresses[m].steps
            &&& after.updated_at == Some(remotes[k].progresses[m].updated_at)
            &&& after.sync_pending == false
        }),
{
    assert(first_with_id(conf.profiles, remotes[k].uuid->0, i));
    assert(first_for_guide(conf.profiles[i].progresses, remotes[k].progresses[m].id, j));
    newer_copy_is_applied(conf, remotes, k, m, i, j);
}

/// A progress with the pending flag, or without a timestamp, or both, is left by a merge in every
/// field as it was.
pub proof fn unacknowledged_progress_is_left_alone(
    conf: ConfView,
    remotes: Seq<RemoteProfileView>,
    i: int,
    j: int,
)
    requires
        0 <= i < conf.profiles.len(),
        0 <= j < conf.profiles[i].progresses.len(),
        conf.profiles[i].progresses[j].sync_pending
            || conf.profiles[i].progresses[j].updated_at is None,
    ensures
        j < merged_conf(conf, remotes).profiles[i].progresses.len(),
        merged_conf(conf, remotes).profiles[i].progresses[j] == conf.profiles[i].progresses[j],
{
    progress_without_newer_copy_is_kept(conf, remotes, i, j);
}

/// A progress is left in every field as it was where no copy of it is newer.
pub proof fn older_copies_change_nothing(
    conf: ConfView,
    remotes: Seq<RemoteProfileView>,
    i: int,
    j: int,
)
    requires
        0 <= i < conf.profiles.len(),
        0 <= j < conf.profiles[i].progresses.len(),
        forall|k: int, m: int|
            #![trigger remotes[k].progresses[m]]
            0 <= k < remotes.len() && remotes[k].uuid == Some(conf.profiles[i].id) && 0 <= m
                < remotes[k].progresses.len() && remotes[k].progresses[m].id
                == conf.profiles[i].progresses[j].id ==> !remote_newer(
                conf.profiles[i].progresses[j].updated_at,
                remotes[k].progresses[m].updated_at,
            ),
    ensures
        j < merged_conf(conf, remotes).profiles[i].progresses.len(),
        merged_conf(conf, remotes).profiles[i].progresses[j] == conf.profiles[i].progresses[j],
{
    progress_without_newer_copy_is_kept(conf, remotes, i, j);
}

/// A progress that only the server had, for a profile known locally, is added with every field of
/// the server's copy and nothing pending.
pub proof fn new_progress_is_taken_whole(
    conf: ConfView,
    remotes: Seq<RemoteProfileView>,
    k: int,
    m: int,
    i: int,
)
    requires
        0 <= i < conf.profiles.len(),
        0 <= k < remotes.len(),
        0 <= m < remotes[k].progresses.len(),
        remotes[k].uuid == Some(conf.profiles[i].id),
        forall|a: int| 0 <= a < i ==> (#[trigger] conf.profiles[a]).id != conf.profiles[i].id,
        forall|b: int|
            0 <= b < conf.profiles[i].progresses.len() ==> (
            #[trigger] conf.profiles[i].progresses[b]).id != remotes[k].progresses[m].id,
        forall|l: int, n: int|
            #![trigger remotes[l].progresses[n]]
            0 <= l < remotes.len() && remotes[l].uuid == remotes[k].uuid && 0 <= n
                < remotes[l].progresses.len() && remotes[l].progresses[n].id
                == remotes[k].progresses[m].id ==> l == k && n == m,
    ensures
        exists|j: int|
            {
                let added = #[trigger] merged_conf(conf, remotes).profiles[i].progresses[j];
                &&& conf.profiles[i].progresses.len() <= j
                &&& j < merged_conf(conf, remotes).profiles[i].progresses.len()
                &&& added.id == remotes[k].progresses[m].id
                &&& added.current_step == remotes[k].progresses[m].current_step
                &&& added.steps == remotes[k].progresses[m].steps
                &&& added.updated_at == Some(remotes[k].progresses[m].updated_at)
                &&& added.sync_pending == false
            },
{
    assert(first_with_id(conf.profiles, remotes[k].uuid->0, i));
    assert(!has_guide(conf.profiles[i].progresses, remotes[k].progresses[m].id));
    progress_only_on_the_server_is_added(conf, remotes, k, m, i);
    let merged = merged_conf(conf, remotes).profiles[i].progresses;
    let j = choose|j: int|
        conf.profiles[i].progresses.len() <= j && #[trigger] first_for_guide(
            merged,
            remotes[k].progresses[m].id,
            j,
        ) && merged[j].current_step == remotes[k].progresses[m].current_step && merged[j].steps
            == remotes[k].progresses[m].steps && merged[j].updated_at == Some(
            remotes[k].progresses[m].updated_at,
        ) && !merged[j].sync_pending;
    assert(merged_conf(conf, remotes).profiles[i].progresses[j].id
        == remotes[k].progresses[m].id);
}

/// The local profile holds what the server has of a profile: its name, its identifiers, and each
/// progress in order, in every field, with nothing pending.
spec fn mirrors(profile: ProfileView, remote: RemoteProfileView) -> bool {
    &&& remote.uuid == Some(profile.id)
    &&& profile.name == remote.name
    &&& profile.server_id == Some(remote.id)
    &&& profile.progresses.len() == remote.progresses.len()
    &&& forall|m: int|
        0 <= m < remote.progresses.len() ==> {
            let progress = #[trigger] profile.progresses[m];
            &&& progress.id == remote.progresses[m].id
            &&& progress.current_step == remote.progresses[m].current_step
            &&& progress.steps == remote.progresses[m].steps
            &&& progress.updated_at == Some(remote.progresses[m].updated_at)
            &&& progress.sync_pending == false
        }
}

/// A profile that only the server had is added with everything that the server has of it, at level
/// 200; of several with the same identifier, the first is.
pub proof fn new_profile_is_taken_whole(
    conf: ConfView,
    remotes: Seq<RemoteProfileView>,
    k: int,
)
    requires
        0 <= k < remotes.len(),
        remotes[k].uuid is Some,
        forall|a: int|
            0 <= a < conf.profiles.len() ==> Some((#[trigger] conf.profiles[a]).id)
                != remotes[k].uuid,
        forall|l: int| 0 <= l < k ==> (#[trigger] remotes[l]).uuid != remotes[k].uuid,
    ensures
        exists|i: int|
            {
                let added = #[trigger] merged_conf(conf, remotes).profiles[i];
                &&& conf.profiles.len() <= i
                &&& i < merged_conf(conf, remotes).profiles.len()
                &&& Some(added.id) == remotes[k].uuid
                &&& added.name == remotes[k].name
                &&& added.level == 200
                &&& added.server_id == Some(remotes[k].id)
                &&& added.progresses.len() == remotes[k].progresses.len()
                &&& forall|m: int|
                    0 <= m < remotes[k].progresses.len() ==> {
                        let progress = #[trigger] added.progresses[m];
                        &&& progress.id == remotes[k].progresses[m].id
                        &&& progress.current_step == remotes[k].progresses[m].current_step
                        &&& progress.steps == remotes[k].progresses[m].steps
                        &&& progress.updated_at == Some(remotes[k].progresses[m].updated_at)
                        &&& progress.sync_pending == false
                    }
            },
{
    assert(!has_profile(conf.profiles, remotes[k].uuid->0));
    profile_only_on_the_server_is_added(conf, remotes, k);
    let merged = merged_conf(conf, remotes).profiles;
    let i = choose|i: int|
        conf.profiles.len() <= i && #[trigger] first_with_id(merged, remotes[k].uuid->0, i)
            && mirrors(merged[i], remotes[k]) && merged[i].level == 200;
    let added = merged_conf(conf, remotes).profiles[i];
    assert(mirrors(added, remotes[k]));
}

/// Whether a profile has an identifier does not depend on what else it holds.
proof fn lemma_content_does_not_identify(
    profiles: Seq<ProfileView>,
    i: int,
    profile: ProfileView,
    id: Seq<char>,
)
    requires
        0 <= i < profiles.len(),
        profile.id == profiles[i].id,
    ensures
        has_profile(profiles.update(i, profile), id) == has_profile(profiles, id),
{
    let updated = profiles.update(i, profile);
    if has_profile(profiles, id) {
        let at = choose|at: int| first_with_id(profiles, id, at);
        assert(updated[at].id == id);
        lemma_first_with_id(updated, id, at);
    }
    if has_profile(updated, id) {
        let at = choose|at: int| first_with_id(updated, id, at);
        assert(profiles[at].id == id);
        lemma_first_with_id(profiles, id, at);
    }
}

/// New profiles do not depend on what the known ones hold.
proof fn lemma_new_profiles_ignore_content(
    profiles: Seq<ProfileView>,
    remotes: Seq<RemoteProfileView>,
    i: int,
    profile: ProfileView,
)
    requires
        0 <= i < profiles.len(),
        profile.id == profiles[i].id,
    ensures
        with_new_profiles(profiles.update(i, profile), remotes) == with_new_profiles(
            profiles,
            remotes,
        ).update(i, profile),
    decreases remotes.len(),
{
    if remotes.len() > 0 {
        let rest = remotes.drop_last();
        lemma_new_profiles_ignore_content(profiles, rest, i, profile);
        lemma_new_profiles_come_last(profiles, rest);
        let before = with_new_profiles(profiles, rest);
        if remotes.last().uuid is Some {
            lemma_content_does_not_identify(before, i, profile, remotes.last().uuid->0);
        }
        assert(with_new_profiles(profiles.update(i, profile), remotes) =~= with_new_profiles(
            profiles,
            remotes,
        ).update(i, profile));
    }
}

/// What one more remote profile does where the profile is known locally.
proof fn lemma_one_more_known(
    conf: ConfView,
    remotes: Seq<RemoteProfileView>,
    remote: RemoteProfileView,
    i: int,
)
    requires
        remote.uuid is Some,
        first_with_id(conf.profiles, remote.uuid->0, i),
    ensures
        0 <= i < merged_conf(conf, remotes).profiles.len(),
        merged_conf(conf, remotes).profiles[i].id == conf.profiles[i].id,
        merged_conf(conf, remotes.push(remote)) == (ConfView {
            profiles: merged_conf(conf, remotes).profiles.update(
                i,
                merged_profile(merged_conf(conf, remotes).profiles[i], remote),
            ),
            ..conf
        }),
{
    let id = remote.uuid->0;
    let all = remotes.push(remote);
    assert(all.drop_last() =~= remotes);
    let known = with_known_profiles(conf.profiles, remotes);
    lemma_known_profiles_stay(conf.profiles, remotes);
    lemma_first_stays_first(conf.profiles, remotes, id, i);
    assert(first_with_id(known, id, i));
    let at = choose|at: int| first_with_id(known, id, at);
    assert(at == i) by {
        if at < i {
            assert(known[at].id != id);
        }
        if i < at {
            assert(known[i].id != id);
        }
    }
    let merged = merged_profile(known[i], remote);
    let after = known.update(i, merged);
    assert(with_known_profiles(conf.profiles, all) == after);
    lemma_new_profiles_ignore_content(known, remotes, i, merged);
    lemma_new_profiles_come_last(known, remotes);
    let extended = with_new_profiles(after, remotes);
    assert(extended[i].id == id);
    lemma_first_with_id(extended, id, i);
    assert(with_new_profiles(after, all) == extended);
}

/// One more remote profile for a known one changes nothing but that profile, which takes the name
/// and the identifier on the server, and keeps its own identifier and level. Where it comes without
/// progresses, those of the profile stay as they are.
pub proof fn one_more_copy_of_a_profile(
    conf: ConfView,
    remotes: Seq<RemoteProfileView>,
    remote: RemoteProfileView,
    i: int,
)
    requires
        0 <= i < conf.profiles.len(),
        remote.uuid == Some(conf.profiles[i].id),
        forall|a: int| 0 <= a < i ==> (#[trigger] conf.profiles[a]).id != conf.profiles[i].id,
    ensures
        ({
            let before = merged_conf(conf, remotes);
            let after = merged_conf(conf, remotes.push(remote));
            &&& after.profile_in_use == before.profile_in_use
            &&& after.profiles.len() == before.profiles.len()
            &&& i < after.profiles.len()
            &&& forall|a: int|
                0 <= a < after.profiles.len() && a != i ==> #[trigger] after.profiles[a]
                    == before.profiles[a]
            &&& after.profiles[i].id == conf.profiles[i].id
            &&& after.profiles[i].level == before.profiles[i].level
            &&& after.profiles[i].name == remote.name
            &&& after.profiles[i].server_id == Some(remote.id)
            &&& remote.progresses.len() == 0 ==> after.profiles[i].progresses
                == before.profiles[i].progresses
        }),
{
    assert(first_with_id(conf.profiles, remote.uuid->0, i));
    lemma_one_more_known(conf, remotes, remote, i);
}

/// What one more progress in the last remote profile does: nothing to any other profile, nor to the
/// other fields of the profile.
proof fn lemma_one_more_progress(
    conf: ConfView,
    remotes: Seq<RemoteProfileView>,
    remote: RemoteProfileView,
    progress: RemoteProgressView,
    i: int,
)
    requires
        remote.uuid is Some,
        first_with_id(conf.profiles, remote.uuid->0, i),
    ensures
        ({
            let longer = RemoteProfileView {
                progresses: remote.progresses.push(progress),
                ..remote
            };
            let merged = merged_conf(conf, remotes).profiles[i];
            let before = merged_conf(conf, remotes.push(remote));
            let after = merged_conf(conf, remotes.push(longer));
            &&& 0 <= i < before.profiles.len()
            &&& after.profile_in_use == before.profile_in_use
            &&& after.profiles.len() == before.profiles.len()
            &&& forall|a: int|
                0 <= a < after.profiles.len() && a != i ==> #[trigger] after.profiles[a]
                    == before.profiles[a]
            &&& before.profiles[i].progresses == with_remote_progresses(
                merged.progresses,
                remote.progresses,
            )
            &&& after.profiles[i] == (ProfileView {
                progresses: with_remote_progress(before.profiles[i].progresses, progress),
                ..before.profiles[i]
            })
        }),
{
    let longer = RemoteProfileView { progresses: remote.progresses.push(progress), ..remote };
    lemma_one_more_known(conf, remotes, remote, i);
    lemma_one_more_known(conf, remotes, longer, i);
    assert(longer.progresses.drop_last() =~= remote.progresses);
}

/// One more remote progress for a guide that the merged profile already has, first at `j`, changes
/// nothing but the progress there. That is left as it is where it is pending or where the copy is
/// not newer, and takes the content of the copy otherwise.
pub proof fn one_more_copy_of_a_progress(
    conf: ConfView,
    remotes: Seq<RemoteProfileView>,
    remote: RemoteProfileView,
    progress: RemoteProgressView,
    i: int,
    j: int,
)
    requires
        0 <= i < conf.profiles.len(),
        remote.uuid == Some(conf.profiles[i].id),
        forall|a: int| 0 <= a < i ==> (#[trigger] conf.profiles[a]).id != conf.profiles[i].id,
        0 <= j < merged_conf(conf, remotes.push(remote)).profiles[i].progresses.len(),
        merged_conf(conf, remotes.push(remote)).profiles[i].progresses[j].id == progress.id,
        forall|b: int|
            0 <= b < j ==> (#[trigger] merged_conf(
                conf,
                remotes.push(remote),
            ).profiles[i].progresses[b]).id != progress.id,
    ensures
        ({
            let longer = RemoteProfileView {
                progresses: remote.progresses.push(progress),
                ..remote
            };
            let before = merged_conf(conf, remotes.push(remote));
            let after = merged_conf(conf, remotes.push(longer));
            let was = before.profiles[i].progresses[j];
            let now = after.profiles[i].progresses[j];
            &&& after.profiles.len() == before.profiles.len()
            &&& forall|a: int|
                0 <= a < after.profiles.len() && a != i ==> #[trigger] after.profiles[a]
                    == before.profiles[a]
            &&& after.profiles[i].id == before.profiles[i].id
            &&& after.profiles[i].name == before.profiles[i].name
            &&& after.profiles[i].level == before.profiles[i].level
            &&& after.profiles[i].server_id == before.profiles[i].server_id
            &&& after.profiles[i].progresses.len() == before.profiles[i].progresses.len()
            &&& forall|b: int|
                0 <= b < after.profiles[i].progresses.len() && b != j
                    ==> #[trigger] after.profiles[i].progresses[b]
                    == before.profiles[i].progresses[b]
            &&& was.sync_pending || was.updated_at is None || !remote_newer(
                was.updated_at,
                progress.updated_at,
            ) ==> now == was
            &&& !was.sync_pending && was.updated_at is Some && remote_newer(
                was.updated_at,
                progress.updated_at,
            ) ==> {
                &&& now.id == was.id
                &&& now.current_step == progress.current_step
                &&& now.steps == progress.steps
                &&& now.updated_at == Some(progress.updated_at)
                &&& now.sync_pending == false
            }
        }),
{
    assert(first_with_id(conf.profiles, remote.uuid->0, i));
    lemma_one_more_progress(conf, remotes, remote, progress, i);
    let progresses = merged_conf(conf, remotes.push(remote)).profiles[i].progresses;
    assert(first_for_guide(progresses, progress.id, j));
    let at = choose|at: int| first_for_guide(progresses, progress.id, at);
    assert(at == j) by {
        if at < j {
            assert(progresses[at].id != progress.id);
        }
        if j < at {
            assert(progresses[j].id != progress.id);
        }
    }
}

/// One more remote progress for a guide that the merged profile lacks comes behind the others, with
/// every field of the copy and nothing pending, and changes nothing else.
pub proof fn one_more_progress_is_added(
    conf: ConfView,
    remotes: Seq<RemoteProfileView>,
    remote: RemoteProfileView,
    progress: RemoteProgressView,
    i: int,
)
    requires
        0 <= i < conf.profiles.len(),
        remote.uuid == Some(conf.profiles[i].id),
        forall|a: int| 0 <= a < i ==> (#[trigger] conf.profiles[a]).id != conf.profiles[i].id,
        forall|b: int|
            0 <= b < merged_conf(conf, remotes.push(remote)).profiles[i].progresses.len() ==> (
            #[trigger] merged_conf(conf, remotes.push(remote)).profiles[i].progresses[b]).id
                != progress.id,
    ensures
        ({
            let longer = RemoteProfileView {
                progresses: remote.progresses.push(progress),
                ..remote
            };
            let before = merged_conf(conf, remotes.push(remote));
            let after = merged_conf(conf, remotes.push(longer));
            let added = after.profiles[i].progresses.last();
            &&& after.profiles.len() == before.profiles.len()
            &&& forall|a: int|
                0 <= a < after.profiles.len() && a != i ==> #[trigger] after.profiles[a]
                    == before.profiles[a]
            &&& after.profiles[i].id == before.profiles[i].id
            &&& after.profiles[i].name == before.profiles[i].name
            &&& after.profiles[i].level == before.profiles[i].level
            &&& after.profiles[i].server_id == before.profiles[i].server_id
            &&& after.profiles[i].progresses.len() == before.profiles[i].progresses.len() + 1
            &&& after.profiles[i].progresses.drop_last() == before.profiles[i].progresses
            &&& added.id == progress.id
            &&& added.current_step == progress.current_step
            &&& added.steps == progress.steps
            &&& added.updated_at == Some(progress.updated_at)
            &&& added.sync_pending == false
        }),
{
    assert(first_with_id(conf.profiles, remote.uuid->0, i));
    lemma_one_more_progress(conf, remotes, remote, progress, i);
    let progresses = merged_conf(conf, remotes.push(remote)).profiles[i].progresses;
    assert(!has_guide(progresses, progress.id));
    let longer = RemoteProfileView { progresses: remote.progresses.push(progress), ..remote };
    assert(merged_conf(conf, remotes.push(longer)).profiles[i].progresses.drop_last()
        =~= progresses);
}

/// One more remote profile that names no local one changes nothing.
pub proof fn one_more_anonymous_profile_changes_nothing(
    conf: ConfView,
    remotes: Seq<RemoteProfileView>,
    remote: RemoteProfileView,
)
    requires
        remote.uuid is None,
    ensures
        merged_conf(conf, remotes.push(remote)) == merged_conf(conf, remotes),
{
    assert(remotes.push(remote).drop_last() =~= remotes);
}

/// One more remote profile that is not known locally changes no profile: it comes behind the others
/// with everything that the server has of it, at level 200, or is passed over where one with its
/// identifier was added before.
pub proof fn one_more_profile_is_added_once(
    conf: ConfView,
    remotes: Seq<RemoteProfileView>,
    remote: RemoteProfileView,
)
    requires
        remote.uuid is Some,
        forall|a: int|
            0 <= a < conf.profiles.len() ==> Some((#[trigger] conf.profiles[a]).id) != remote.uuid,
    ensures
        ({
            let before = merged_conf(conf, remotes);
            let after = merged_conf(conf, remotes.push(remote));
            &&& (exists|a: int|
                0 <= a < before.profiles.len() && Some((#[trigger] before.profiles[a]).id)
                    == remote.uuid) ==> after == before
            &&& (forall|a: int|
                0 <= a < before.profiles.len() ==> Some((#[trigger] before.profiles[a]).id)
                    != remote.uuid) ==> {
                &&& after.profile_in_use == before.profile_in_use
                &&& after.profiles.len() == before.profiles.len() + 1
                &&& after.profiles.drop_last() == before.profiles
                &&& Some(after.profiles.last().id) == remote.uuid
                &&& after.profiles.last().name == remote.name
                &&& after.profiles.last().level == 200
                &&& after.profiles.last().server_id == Some(remote.id)
                &&& after.profiles.last().progresses.len() == remote.progresses.len()
                &&& forall|m: int|
                    0 <= m < remote.progresses.len() ==> {
                        let progress = #[trigger] after.profiles.last().progresses[m];
                        &&& progress.id == remote.progresses[m].id
                        &&& progress.current_step == remote.progresses[m].current_step
                        &&& progress.steps == remote.progresses[m].steps
                        &&& progress.updated_at == Some(remote.progresses[m].updated_at)
                        &&& progress.sync_pending == false
                    }
            }
        }),
{
    let id = remote.uuid->0;
    let all = remotes.push(remote);
    assert(all.drop_last() =~= remotes);
    let known = with_known_profiles(conf.profiles, remotes);
    lemma_known_profiles_stay(conf.profiles, remotes);
    assert(!has_profile(conf.profiles, id));
    lemma_first_stays_first(conf.profiles, remotes, id, 0);
    assert(with_known_profiles(conf.profiles, all) == known);
    let before = merged_conf(conf, remotes);
    if exists|a: int|
        0 <= a < before.profiles.len() && Some((#[trigger] before.profiles[a]).id) == remote.uuid {
        let a = choose|a: int|
            0 <= a < before.profiles.len() && Some((#[trigger] before.profiles[a]).id)
                == remote.uuid;
        lemma_first_with_id(before.profiles, id, a);
    } else {
        assert(!has_profile(before.profiles, id));
        assert(merged_conf(conf, all).profiles.drop_last() =~= before.profiles);
    }
}

} // verus!
