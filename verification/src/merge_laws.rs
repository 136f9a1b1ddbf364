//! What a merge keeps, takes, and adds, whatever the server sends.

use crate::conf::{
    first_for_guide, first_with_id, has_guide, has_profile, lemma_first_for_guide,
    lemma_first_with_id, ConfView, ProfileView, ProgressView,
};
use crate::merge::{
    is_pending, merged_conf, merged_profile, merged_progress, new_profile, new_progress,
    new_progresses, overwritten, with_known_profile, with_known_profiles, with_new_profile,
    with_new_profiles, with_remote_progress, with_remote_progresses,
};
use crate::remote::{RemoteProfileView, RemoteProgressView};
use crate::timestamp::{remote_newer, same_timestamp_is_not_newer};
use vstd::prelude::*;

verus! {

/// Progresses are only ever added, behind those already there, and each stays with its guide.
proof fn lemma_progresses_stay(progresses: Seq<ProgressView>, remotes: Seq<RemoteProgressView>)
    ensures
        progresses.len() <= with_remote_progresses(progresses, remotes).len(),
        forall|j: int|
            0 <= j < progresses.len() ==> (#[trigger] with_remote_progresses(
                progresses,
                remotes,
            )[j]).id == progresses[j].id,
    decreases remotes.len(),
{
    if remotes.len() > 0 {
        lemma_progresses_stay(progresses, remotes.drop_last());
    }
}

/// Profiles known locally keep their place, identifier, level, and progresses.
pub(crate) proof fn lemma_known_profiles_stay(profiles: Seq<ProfileView>, remotes: Seq<RemoteProfileView>)
    ensures
        with_known_profiles(profiles, remotes).len() == profiles.len(),
        forall|i: int|
            0 <= i < profiles.len() ==> {
                let after = #[trigger] with_known_profiles(profiles, remotes)[i];
                &&& after.id == profiles[i].id
                &&& after.level == profiles[i].level
                &&& profiles[i].progresses.len() <= after.progresses.len()
                &&& forall|j: int|
                    0 <= j < profiles[i].progresses.len() ==> (#[trigger] after.progresses[j]).id
                        == profiles[i].progresses[j].id
            },
    decreases remotes.len(),
{
    if remotes.len() > 0 {
        let rest = remotes.drop_last();
        let remote = remotes.last();
        lemma_known_profiles_stay(profiles, rest);
        let before = with_known_profiles(profiles, rest);
        if remote.uuid is Some && has_profile(before, remote.uuid->0) {
            let at = choose|at: int| first_with_id(before, remote.uuid->0, at);
            lemma_progresses_stay(before[at].progresses, remote.progresses);
        }
    }
}

/// New profiles come behind the others, which they leave as they are.
pub(crate) proof fn lemma_new_profiles_come_last(profiles: Seq<ProfileView>, remotes: Seq<RemoteProfileView>)
    ensures
        profiles.len() <= with_new_profiles(profiles, remotes).len(),
        forall|i: int|
            0 <= i < profiles.len() ==> #[trigger] with_new_profiles(profiles, remotes)[i]
                == profiles[i],
    decreases remotes.len(),
{
    if remotes.len() > 0 {
        lemma_new_profiles_come_last(profiles, remotes.drop_last());
    }
}

/// Nothing local is dropped by a merge: every profile keeps its place, identifier and level, every
/// progress keeps its place and its guide, and the profile in use stays in use.
pub proof fn nothing_local_is_dropped(conf: ConfView, remotes: Seq<RemoteProfileView>)
    ensures
        ({
            let merged = merged_conf(conf, remotes);
            &&& merged.profile_in_use == conf.profile_in_use
            &&& conf.profiles.len() <= merged.profiles.len()
            &&& forall|i: int|
                0 <= i < conf.profiles.len() ==> {
                    let after = #[trigger] merged.profiles[i];
                    &&& after.id == conf.profiles[i].id
                    &&& after.level == conf.profiles[i].level
                    &&& conf.profiles[i].progresses.len() <= after.progresses.len()
                    &&& forall|j: int|
                        0 <= j < conf.profiles[i].progresses.len() ==> (
                        #[trigger] after.progresses[j]).id == conf.profiles[i].progresses[j].id
                }
        }),
{
    lemma_known_profiles_stay(conf.profiles, remotes);
    lemma_new_profiles_come_last(with_known_profiles(conf.profiles, remotes), remotes);
}

/// None of the progresses that the server sent for a profile replaces `progress`.
pub open spec fn left_alone(
    remotes: Seq<RemoteProfileView>,
    profile: Seq<char>,
    progress: ProgressView,
) -> bool {
    forall|k: int, m: int|
        #![trigger remotes[k].progresses[m]]
        0 <= k < remotes.len() && remotes[k].uuid == Some(profile) && 0 <= m
            < remotes[k].progresses.len() && remotes[k].progresses[m].id == progress.id
            ==> merged_progress(progress, remotes[k].progresses[m]) == progress
}

proof fn lemma_progress_kept(
    progresses: Seq<ProgressView>,
    remotes: Seq<RemoteProgressView>,
    j: int,
)
    requires
        0 <= j < progresses.len(),
        forall|m: int|
            0 <= m < remotes.len() && (#[trigger] remotes[m]).id == progresses[j].id
                ==> merged_progress(progresses[j], remotes[m]) == progresses[j],
    ensures
        with_remote_progresses(progresses, remotes)[j] == progresses[j],
    decreases remotes.len(),
{
    if remotes.len() > 0 {
        let rest = remotes.drop_last();
        assert forall|m: int|
            0 <= m < rest.len() && (#[trigger] rest[m]).id
                == progresses[j].id implies merged_progress(progresses[j], rest[m])
            == progresses[j] by {
            assert(rest[m] == remotes[m]);
        }
        lemma_progress_kept(progresses, rest, j);
        lemma_progresses_stay(progresses, rest);
        assert(remotes[remotes.len() - 1] == remotes.last());
    }
}

proof fn lemma_known_progress_kept(
    profiles: Seq<ProfileView>,
    remotes: Seq<RemoteProfileView>,
    i: int,
    j: int,
)
    requires
        0 <= i < profiles.len(),
        0 <= j < profiles[i].progresses.len(),
        left_alone(remotes, profiles[i].id, profiles[i].progresses[j]),
    ensures
        with_known_profiles(profiles, remotes)[i].progresses[j] == profiles[i].progresses[j],
    decreases remotes.len(),
{
    if remotes.len() > 0 {
        let rest = remotes.drop_last();
        let remote = remotes.last();
        let progress = profiles[i].progresses[j];
        assert(left_alone(rest, profiles[i].id, progress)) by {
            assert forall|k: int, m: int|
                #![trigger rest[k].progresses[m]]
                0 <= k < rest.len() && rest[k].uuid == Some(profiles[i].id) && 0 <= m
                    < rest[k].progresses.len() && rest[k].progresses[m].id
                    == progress.id implies merged_progress(progress, rest[k].progresses[m])
                == progress by {
                assert(rest[k].progresses[m] == remotes[k].progresses[m]);
            }
        }
        lemma_known_progress_kept(profiles, rest, i, j);
        lemma_known_profiles_stay(profiles, rest);
        let before = with_known_profiles(profiles, rest);
        if remote.uuid is Some && has_profile(before, remote.uuid->0) {
            let at = choose|at: int| first_with_id(before, remote.uuid->0, at);
            if at == i {
                assert(remotes[remotes.len() - 1] == remote);
                lemma_progress_kept(before[i].progresses, remote.progresses, j);
            }
        }
    }
}

/// A progress that no remote copy may replace is still there after the merge, unchanged.
pub proof fn progress_without_newer_copy_is_kept(
    conf: ConfView,
    remotes: Seq<RemoteProfileView>,
    i: int,
    j: int,
)
    requires
        0 <= i < conf.profiles.len(),
        0 <= j < conf.profiles[i].progresses.len(),
        left_alone(remotes, conf.profiles[i].id, conf.profiles[i].progresses[j]),
    ensures
        j < merged_conf(conf, remotes).profiles[i].progresses.len(),
        merged_conf(conf, remotes).profiles[i].progresses[j] == conf.profiles[i].progresses[j],
{
    nothing_local_is_dropped(conf, remotes);
    lemma_known_progress_kept(conf.profiles, remotes, i, j);
    lemma_known_profiles_stay(conf.profiles, remotes);
    lemma_new_profiles_come_last(with_known_profiles(conf.profiles, remotes), remotes);
}

/// A progress changed locally and never acknowledged by the server wins over whatever copies the
/// server sends: it is still there after the merge, unchanged.
pub proof fn pending_progress_wins(
    conf: ConfView,
    remotes: Seq<RemoteProfileView>,
    i: int,
    j: int,
)
    requires
        0 <= i < conf.profiles.len(),
        0 <= j < conf.profiles[i].progresses.len(),
        is_pending(conf.profiles[i].progresses[j]),
    ensures
        j < merged_conf(conf, remotes).profiles[i].progresses.len(),
        merged_conf(conf, remotes).profiles[i].progresses[j] == conf.profiles[i].progresses[j],
{
    progress_without_newer_copy_is_kept(conf, remotes, i, j);
}

/// No guide occurs twice.
pub open spec fn distinct_guides(remotes: Seq<RemoteProgressView>) -> bool {
    forall|m: int, n: int|
        #![trigger remotes[m], remotes[n]]
        0 <= m < n < remotes.len() ==> remotes[m].id != remotes[n].id
}

/// No identifier occurs twice, and no guide twice within a profile.
pub open spec fn distinct_response(remotes: Seq<RemoteProfileView>) -> bool {
    &&& forall|k: int, l: int|
        #![trigger remotes[k], remotes[l]]
        0 <= k < l < remotes.len() && remotes[k].uuid is Some ==> remotes[k].uuid
            != remotes[l].uuid
    &&& forall|k: int| 0 <= k < remotes.len() ==> distinct_guides((#[trigger] remotes[k]).progresses)
}

proof fn lemma_progress_merged(
    progresses: Seq<ProgressView>,
    remotes: Seq<RemoteProgressView>,
    m: int,
    j: int,
)
    requires
        0 <= m < remotes.len(),
        forall|n: int|
            0 <= n < remotes.len() && n != m ==> (#[trigger] remotes[n]).id != remotes[m].id,
        first_for_guide(progresses, remotes[m].id, j),
    ensures
        j < with_remote_progresses(progresses, remotes).len(),
        with_remote_progresses(progresses, remotes)[j] == merged_progress(
            progresses[j],
            remotes[m],
        ),
    decreases remotes.len(),
{
    let rest = remotes.drop_last();
    let last = remotes.len() - 1;
    lemma_progresses_stay(progresses, rest);
    lemma_progresses_stay(progresses, remotes);
    assert forall|n: int| 0 <= n < rest.len() && n != m implies (#[trigger] rest[n]).id
        != remotes[m].id by {
        assert(rest[n] == remotes[n]);
    }
    if m == last {
        lemma_progress_kept(progresses, rest, j);
        assert(first_for_guide(with_remote_progresses(progresses, rest), remotes[m].id, j));
    } else {
        assert(rest[m] == remotes[m]);
        lemma_progress_merged(progresses, rest, m, j);
        assert(remotes[m].id != remotes[last].id);
    }
}

proof fn lemma_unnamed_profile_kept(
    profiles: Seq<ProfileView>,
    remotes: Seq<RemoteProfileView>,
    i: int,
)
    requires
        0 <= i < profiles.len(),
        forall|k: int|
            0 <= k < remotes.len() ==> (#[trigger] remotes[k]).uuid != Some(profiles[i].id),
    ensures
        with_known_profiles(profiles, remotes)[i] == profiles[i],
    decreases remotes.len(),
{
    if remotes.len() > 0 {
        let rest = remotes.drop_last();
        assert forall|k: int| 0 <= k < rest.len() implies (#[trigger] rest[k]).uuid != Some(
            profiles[i].id,
        ) by {
            assert(rest[k] == remotes[k]);
        }
        lemma_unnamed_profile_kept(profiles, rest, i);
        lemma_known_profiles_stay(profiles, rest);
        assert(remotes[remotes.len() - 1] == remotes.last());
    }
}

/// A profile that the server does not name is left exactly as it is.
pub proof fn profile_unknown_to_the_server_is_kept(
    conf: ConfView,
    remotes: Seq<RemoteProfileView>,
    i: int,
)
    requires
        0 <= i < conf.profiles.len(),
        forall|k: int|
            0 <= k < remotes.len() ==> (#[trigger] remotes[k]).uuid != Some(conf.profiles[i].id),
    ensures
        merged_conf(conf, remotes).profiles[i] == conf.profiles[i],
{
    lemma_unnamed_profile_kept(conf.profiles, remotes, i);
    lemma_known_profiles_stay(conf.profiles, remotes);
    lemma_new_profiles_come_last(with_known_profiles(conf.profiles, remotes), remotes);
}

/// No other remote profile has the identifier of the one at `k`.
pub open spec fn only_copy_of_profile(remotes: Seq<RemoteProfileView>, k: int) -> bool {
    forall|l: int|
        0 <= l < remotes.len() && l != k ==> (#[trigger] remotes[l]).uuid != remotes[k].uuid
}

/// No other remote progress is for the same profile and guide as the one at `m` in the profile at
/// `k`.
pub open spec fn only_copy_of_progress(remotes: Seq<RemoteProfileView>, k: int, m: int) -> bool {
    forall|l: int, n: int|
        #![trigger remotes[l].progresses[n]]
        0 <= l < remotes.len() && remotes[l].uuid == remotes[k].uuid && 0 <= n
            < remotes[l].progresses.len() && remotes[l].progresses[n].id
            == remotes[k].progresses[m].id ==> l == k && n == m
}

proof fn lemma_profile_merged(
    profiles: Seq<ProfileView>,
    remotes: Seq<RemoteProfileView>,
    k: int,
    i: int,
)
    requires
        0 <= k < remotes.len(),
        only_copy_of_profile(remotes, k),
        remotes[k].uuid is Some,
        first_with_id(profiles, remotes[k].uuid->0, i),
    ensures
        with_known_profiles(profiles, remotes)[i] == merged_profile(profiles[i], remotes[k]),
    decreases remotes.len(),
{
    let rest = remotes.drop_last();
    let last = remotes.len() - 1;
    lemma_known_profiles_stay(profiles, rest);
    assert forall|l: int| 0 <= l < rest.len() && l != k implies (#[trigger] rest[l]).uuid
        != remotes[k].uuid by {
        assert(rest[l] == remotes[l]);
    }
    if k == last {
        lemma_unnamed_profile_kept(profiles, rest, i);
        assert(first_with_id(with_known_profiles(profiles, rest), remotes[k].uuid->0, i));
    } else {
        assert(rest[k] == remotes[k]);
        lemma_profile_merged(profiles, rest, k, i);
        assert(remotes[last].uuid != remotes[k].uuid);
    }
}

/// A remote profile is merged into the first local profile with its identifier, which takes the
/// name and the identifier that it has on the server.
pub proof fn known_profile_takes_the_remote_copy(
    conf: ConfView,
    remotes: Seq<RemoteProfileView>,
    k: int,
    i: int,
)
    requires
        0 <= k < remotes.len(),
        only_copy_of_profile(remotes, k),
        remotes[k].uuid is Some,
        first_with_id(conf.profiles, remotes[k].uuid->0, i),
    ensures
        merged_conf(conf, remotes).profiles[i] == merged_profile(conf.profiles[i], remotes[k]),
        merged_conf(conf, remotes).profiles[i].name == remotes[k].name,
        merged_conf(conf, remotes).profiles[i].server_id == Some(remotes[k].id),
{
    lemma_profile_merged(conf.profiles, remotes, k, i);
    lemma_known_profiles_stay(conf.profiles, remotes);
    lemma_new_profiles_come_last(with_known_profiles(conf.profiles, remotes), remotes);
}

proof fn lemma_known_progress_merged(
    profiles: Seq<ProfileView>,
    remotes: Seq<RemoteProfileView>,
    k: int,
    m: int,
    i: int,
    j: int,
)
    requires
        0 <= k < remotes.len(),
        remotes[k].uuid is Some,
        0 <= m < remotes[k].progresses.len(),
        only_copy_of_progress(remotes, k, m),
        first_with_id(profiles, remotes[k].uuid->0, i),
        first_for_guide(profiles[i].progresses, remotes[k].progresses[m].id, j),
    ensures
        with_known_profiles(profiles, remotes)[i].progresses[j] == merged_progress(
            profiles[i].progresses[j],
            remotes[k].progresses[m],
        ),
    decreases remotes.len(),
{
    let rest = remotes.drop_last();
    let last = remotes.len() - 1;
    let before = with_known_profiles(profiles, rest);
    lemma_known_profiles_stay(profiles, rest);
    lemma_first_stays_first(profiles, rest, remotes[k].uuid->0, i);
    assert forall|l: int, n: int|
        #![trigger rest[l].progresses[n]]
        0 <= l < rest.len() && rest[l].uuid == remotes[k].uuid && 0 <= n
            < rest[l].progresses.len() && rest[l].progresses[n].id
            == remotes[k].progresses[m].id implies l == k && n == m by {
        assert(rest[l].progresses[n] == remotes[l].progresses[n]);
    }
    if k == last {
        lemma_known_progress_kept(profiles, rest, i, j);
        assert(first_for_guide(before[i].progresses, remotes[k].progresses[m].id, j));
        assert forall|n: int| 0 <= n < remotes[k].progresses.len() && n != m implies (
        #[trigger] remotes[k].progresses[n]).id != remotes[k].progresses[m].id by {
        }
        lemma_progress_merged(before[i].progresses, remotes[k].progresses, m, j);
        assert(has_profile(before, remotes[k].uuid->0));
    } else {
        assert(rest[k] == remotes[k]);
        lemma_known_progress_merged(profiles, rest, k, m, i, j);
        if remotes[last].uuid == remotes[k].uuid {
            assert forall|n: int| 0 <= n < remotes[last].progresses.len() implies (
            #[trigger] remotes[last].progresses[n]).id != before[i].progresses[j].id by {
            }
            lemma_progress_kept(before[i].progresses, remotes[last].progresses, j);
        }
    }
}

/// A remote progress replaces the local one for the same profile and guide where it is newer and
/// nothing local is pending, and leaves it unchanged otherwise.
pub proof fn newer_copy_is_applied(
    conf: ConfView,
    remotes: Seq<RemoteProfileView>,
    k: int,
    m: int,
    i: int,
    j: int,
)
    requires
        0 <= k < remotes.len(),
        remotes[k].uuid is Some,
        0 <= m < remotes[k].progresses.len(),
        only_copy_of_progress(remotes, k, m),
        first_with_id(conf.profiles, remotes[k].uuid->0, i),
        first_for_guide(conf.profiles[i].progresses, remotes[k].progresses[m].id, j),
    ensures
        ({
            let local = conf.profiles[i].progresses[j];
            let remote = remotes[k].progresses[m];
            merged_conf(conf, remotes).profiles[i].progresses[j] == (if !is_pending(local)
                && remote_newer(local.updated_at, remote.updated_at) {
                overwritten(local, remote)
            } else {
                local
            })
        }),
{
    lemma_known_progress_merged(conf.profiles, remotes, k, m, i, j);
    lemma_known_profiles_stay(conf.profiles, remotes);
    lemma_new_profiles_come_last(with_known_profiles(conf.profiles, remotes), remotes);
}

/// What a progress is after a merge: what it was, or its guide with the content of a copy that the
/// server sent.
pub open spec fn stems_from(
    after: ProgressView,
    before: ProgressView,
    remotes: Seq<RemoteProgressView>,
) -> bool {
    after == before || exists|m: int|
        0 <= m < remotes.len() && remotes[m].id == before.id && after == overwritten(
            before,
            #[trigger] remotes[m],
        )
}

proof fn lemma_progress_stems_from(
    progresses: Seq<ProgressView>,
    remotes: Seq<RemoteProgressView>,
    j: int,
)
    requires
        0 <= j < progresses.len(),
    ensures
        stems_from(with_remote_progresses(progresses, remotes)[j], progresses[j], remotes),
    decreases remotes.len(),
{
    if remotes.len() > 0 {
        let rest = remotes.drop_last();
        let last = remotes.last();
        lemma_progress_stems_from(progresses, rest, j);
        lemma_progresses_stay(progresses, rest);
        let before = with_remote_progresses(progresses, rest)[j];
        let after = with_remote_progresses(progresses, remotes)[j];
        if after == before {
            if before != progresses[j] {
                let m = choose|m: int|
                    0 <= m < rest.len() && rest[m].id == progresses[j].id && before == overwritten(
                        progresses[j],
                        #[trigger] rest[m],
                    );
                assert(remotes[m] == rest[m]);
            }
        } else {
            assert(remotes[remotes.len() - 1] == last);
            assert(after == overwritten(progresses[j], last));
        }
    }
}

/// `after` is `before` with the content of a copy that the server sent for the profile.
pub open spec fn copied_from(
    after: ProgressView,
    before: ProgressView,
    profile: Seq<char>,
    remotes: Seq<RemoteProfileView>,
) -> bool {
    exists|k: int, m: int|
        #![trigger remotes[k].progresses[m]]
        0 <= k < remotes.len() && remotes[k].uuid == Some(profile) && 0 <= m
            < remotes[k].progresses.len() && remotes[k].progresses[m].id == before.id && after
            == overwritten(before, remotes[k].progresses[m])
}

proof fn lemma_known_progress_stems_from(
    profiles: Seq<ProfileView>,
    remotes: Seq<RemoteProfileView>,
    i: int,
    j: int,
)
    requires
        0 <= i < profiles.len(),
        0 <= j < profiles[i].progresses.len(),
    ensures
        ({
            let after = with_known_profiles(profiles, remotes)[i].progresses[j];
            let before = profiles[i].progresses[j];
            after == before || copied_from(after, before, profiles[i].id, remotes)
        }),
    decreases remotes.len(),
{
    if remotes.len() > 0 {
        let rest = remotes.drop_last();
        let remote = remotes.last();
        let last = remotes.len() - 1;
        lemma_known_progress_stems_from(profiles, rest, i, j);
        lemma_known_profiles_stay(profiles, rest);
        let local = profiles[i].progresses[j];
        let before = with_known_profiles(profiles, rest);
        let after = with_known_profiles(profiles, remotes)[i].progresses[j];
        if after == before[i].progresses[j] {
            if after != local {
                let (k, m) = choose|k: int, m: int|
                    #![trigger rest[k].progresses[m]]
                    0 <= k < rest.len() && rest[k].uuid == Some(profiles[i].id) && 0 <= m
                        < rest[k].progresses.len() && rest[k].progresses[m].id == local.id && after
                        == overwritten(local, rest[k].progresses[m]);
                assert(remotes[k].progresses[m] == rest[k].progresses[m]);
            }
        } else {
            let at = choose|at: int| first_with_id(before, remote.uuid->0, at);
            assert(at == i);
            lemma_progress_stems_from(before[i].progresses, remote.progresses, j);
            let m = choose|m: int|
                0 <= m < remote.progresses.len() && remote.progresses[m].id
                    == before[i].progresses[j].id && after == overwritten(
                    before[i].progresses[j],
                    #[trigger] remote.progresses[m],
                );
            assert(remotes[last].progresses[m] == remote.progresses[m]);
            assert(after == overwritten(local, remotes[last].progresses[m]));
        }
    }
}

/// A merge invents nothing: a progress that was there is afterwards what it was, or carries the
/// content of one copy that the server sent for the same profile and guide.
pub proof fn merged_progress_comes_from_somewhere(
    conf: ConfView,
    remotes: Seq<RemoteProfileView>,
    i: int,
    j: int,
)
    requires
        0 <= i < conf.profiles.len(),
        0 <= j < conf.profiles[i].progresses.len(),
    ensures
        ({
            let after = merged_conf(conf, remotes).profiles[i].progresses[j];
            let before = conf.profiles[i].progresses[j];
            after == before || copied_from(after, before, conf.profiles[i].id, remotes)
        }),
{
    lemma_known_progress_stems_from(conf.profiles, remotes, i, j);
    lemma_known_profiles_stay(conf.profiles, remotes);
    lemma_new_profiles_come_last(with_known_profiles(conf.profiles, remotes), remotes);
}

/// An empty reply changes nothing.
pub proof fn empty_reply_changes_nothing(conf: ConfView)
    ensures
        merged_conf(conf, Seq::empty()) == conf,
{
}

/// The remote profiles that carry the identifier of a local one.
pub open spec fn identified(remotes: Seq<RemoteProfileView>) -> Seq<RemoteProfileView>
    decreases remotes.len(),
{
    if remotes.len() == 0 {
        remotes
    } else if remotes.last().uuid is Some {
        identified(remotes.drop_last()).push(remotes.last())
    } else {
        identified(remotes.drop_last())
    }
}

proof fn lemma_identified_only(profiles: Seq<ProfileView>, remotes: Seq<RemoteProfileView>)
    ensures
        with_known_profiles(profiles, remotes) == with_known_profiles(
            profiles,
            identified(remotes),
        ),
        with_new_profiles(profiles, remotes) == with_new_profiles(profiles, identified(remotes)),
    decreases remotes.len(),
{
    if remotes.len() > 0 {
        let rest = remotes.drop_last();
        lemma_identified_only(profiles, rest);
        if remotes.last().uuid is Some {
            assert(identified(remotes).drop_last() =~= identified(rest));
        }
    }
}

/// A remote profile without the identifier of a local one has no effect.
pub proof fn unidentified_profiles_are_ignored(conf: ConfView, remotes: Seq<RemoteProfileView>)
    ensures
        merged_conf(conf, remotes) == merged_conf(conf, identified(remotes)),
{
    lemma_identified_only(conf.profiles, remotes);
    lemma_identified_only(with_known_profiles(conf.profiles, remotes), remotes);
}

/// Where the profile of a remote one stands once it is merged: a known profile stays as it was
/// merged; of the remote ones that share an unknown identifier, the first became a new profile.
proof fn lemma_profile_present(
    profiles: Seq<ProfileView>,
    remotes: Seq<RemoteProfileView>,
    k: int,
) -> (i: int)
    requires
        0 <= k < remotes.len(),
        remotes[k].uuid is Some,
    ensures
        first_with_id(with_new_profiles(profiles, remotes), remotes[k].uuid->0, i),
        has_profile(profiles, remotes[k].uuid->0) ==> first_with_id(
            profiles,
            remotes[k].uuid->0,
            i,
        ),
        !has_profile(profiles, remotes[k].uuid->0) && (forall|l: int|
            0 <= l < k ==> (#[trigger] remotes[l]).uuid != remotes[k].uuid)
            ==> with_new_profiles(profiles, remotes)[i] == new_profile(
            remotes[k].uuid->0,
            remotes[k],
        ),
    decreases remotes.len(),
{
    let rest = remotes.drop_last();
    let last = remotes.len() - 1;
    let id = remotes[k].uuid->0;
    let before = with_new_profiles(profiles, rest);
    lemma_new_profiles_come_last(profiles, rest);
    if k < last {
        assert(rest[k] == remotes[k]);
        let i = lemma_profile_present(profiles, rest, k);
        if (forall|l: int| 0 <= l < k ==> (#[trigger] remotes[l]).uuid != remotes[k].uuid) {
            assert forall|l: int| 0 <= l < k implies (#[trigger] rest[l]).uuid != rest[k].uuid by {
                assert(rest[l] == remotes[l]);
            }
        }
        assert(first_with_id(before, id, i));
        i
    } else if has_profile(before, id) {
        let i = choose|i: int| first_with_id(before, id, i);
        if has_profile(profiles, id) {
            let at = choose|at: int| first_with_id(profiles, id, at);
            assert(before[at] == profiles[at]);
            if i < at {
                assert(before[i] == profiles[i]);
            }
            assert(i == at);
        } else if (forall|l: int| 0 <= l < k ==> (#[trigger] remotes[l]).uuid != remotes[k].uuid) {
            lemma_absent_stays_absent(profiles, rest, id);
        }
        i
    } else {
        let i = before.len() as int;
        assert forall|a: int| 0 <= a < i implies (#[trigger] before[a]).id != id by {
            if before[a].id == id {
                lemma_first_with_id(before, id, a);
            }
        }
        if has_profile(profiles, id) {
            let at = choose|at: int| first_with_id(profiles, id, at);
            assert(before[at] == profiles[at]);
        }
        i
    }
}

proof fn lemma_absent_stays_absent(
    profiles: Seq<ProfileView>,
    remotes: Seq<RemoteProfileView>,
    id: Seq<char>,
)
    requires
        !has_profile(profiles, id),
        forall|l: int| 0 <= l < remotes.len() ==> (#[trigger] remotes[l]).uuid != Some(id),
    ensures
        !has_profile(with_new_profiles(profiles, remotes), id),
    decreases remotes.len(),
{
    if remotes.len() > 0 {
        let rest = remotes.drop_last();
        assert forall|l: int| 0 <= l < rest.len() implies (#[trigger] rest[l]).uuid != Some(id) by {
            assert(rest[l] == remotes[l]);
        }
        lemma_absent_stays_absent(profiles, rest, id);
        assert(remotes[remotes.len() - 1] == remotes.last());
        let before = with_new_profiles(profiles, rest);
        let after = with_new_profiles(profiles, remotes);
        if has_profile(after, id) {
            let at = choose|at: int| first_with_id(after, id, at);
            assert(at < before.len());
            lemma_first_with_id(before, id, at);
        }
    }
}

pub(crate) proof fn lemma_first_stays_first(
    profiles: Seq<ProfileView>,
    remotes: Seq<RemoteProfileView>,
    id: Seq<char>,
    i: int,
)
    ensures
        first_with_id(profiles, id, i) == first_with_id(
            with_known_profiles(profiles, remotes),
            id,
            i,
        ),
        has_profile(profiles, id) == has_profile(with_known_profiles(profiles, remotes), id),
{
    lemma_known_profiles_stay(profiles, remotes);
    let after = with_known_profiles(profiles, remotes);
    assert forall|at: int| first_with_id(profiles, id, at) == first_with_id(after, id, at) by {
        if first_with_id(profiles, id, at) {
            assert forall|k: int| 0 <= k < at implies (#[trigger] after[k]).id != id by {
                assert(profiles[k].id != id);
            }
        }
        if first_with_id(after, id, at) {
            assert forall|k: int| 0 <= k < at implies (#[trigger] profiles[k]).id != id by {
                assert(after[k].id != id);
            }
        }
    }
}

/// Every remote profile with an identifier has a local profile with it once it is merged.
pub proof fn every_remote_profile_is_present(
    conf: ConfView,
    remotes: Seq<RemoteProfileView>,
    k: int,
)
    requires
        0 <= k < remotes.len(),
        remotes[k].uuid is Some,
    ensures
        has_profile(merged_conf(conf, remotes).profiles, remotes[k].uuid->0),
{
    let i = lemma_profile_present(with_known_profiles(conf.profiles, remotes), remotes, k);
}

/// A profile that only the server has is added as the server has it, with nothing pending; of
/// several with the same identifier, the first is.
pub proof fn profile_only_on_the_server_is_added(
    conf: ConfView,
    remotes: Seq<RemoteProfileView>,
    k: int,
)
    requires
        0 <= k < remotes.len(),
        remotes[k].uuid is Some,
        !has_profile(conf.profiles, remotes[k].uuid->0),
        forall|l: int| 0 <= l < k ==> (#[trigger] remotes[l]).uuid != remotes[k].uuid,
    ensures
        exists|i: int|
            conf.profiles.len() <= i && #[trigger] first_with_id(
                merged_conf(conf, remotes).profiles,
                remotes[k].uuid->0,
                i,
            ) && merged_conf(conf, remotes).profiles[i] == new_profile(
                remotes[k].uuid->0,
                remotes[k],
            ),
{
    let known = with_known_profiles(conf.profiles, remotes);
    let id = remotes[k].uuid->0;
    let i = lemma_profile_present(known, remotes, k);
    lemma_first_stays_first(conf.profiles, remotes, id, i);
    lemma_known_profiles_stay(conf.profiles, remotes);
    lemma_new_profiles_come_last(known, remotes);
    if i < conf.profiles.len() {
        assert(known[i].id == id);
        lemma_first_with_id(known, id, i);
    }
    assert(first_with_id(merged_conf(conf, remotes).profiles, id, i));
}

proof fn lemma_guides_present(
    progresses: Seq<ProgressView>,
    remotes: Seq<RemoteProgressView>,
    m: int,
)
    requires
        0 <= m < remotes.len(),
    ensures
        has_guide(with_remote_progresses(progresses, remotes), remotes[m].id),
    decreases remotes.len(),
{
    let rest = remotes.drop_last();
    let before = with_remote_progresses(progresses, rest);
    let after = with_remote_progresses(progresses, remotes);
    if m < rest.len() {
        assert(rest[m] == remotes[m]);
        lemma_guides_present(progresses, rest, m);
        let at = choose|at: int| first_for_guide(before, remotes[m].id, at);
        assert(after[at].id == remotes[m].id);
        lemma_first_for_guide(after, remotes[m].id, at);
    } else if has_guide(before, remotes[m].id) {
        let at = choose|at: int| first_for_guide(before, remotes[m].id, at);
        assert(after[at].id == remotes[m].id);
        lemma_first_for_guide(after, remotes[m].id, at);
    } else {
        lemma_first_for_guide(after, remotes[m].id, before.len() as int);
    }
}

proof fn lemma_known_guides_present(
    profiles: Seq<ProfileView>,
    remotes: Seq<RemoteProfileView>,
    k: int,
    m: int,
    i: int,
)
    requires
        0 <= k < remotes.len(),
        remotes[k].uuid is Some,
        0 <= m < remotes[k].progresses.len(),
        first_with_id(profiles, remotes[k].uuid->0, i),
    ensures
        has_guide(
            with_known_profiles(profiles, remotes)[i].progresses,
            remotes[k].progresses[m].id,
        ),
    decreases remotes.len(),
{
    let rest = remotes.drop_last();
    let last = remotes.len() - 1;
    let guide = remotes[k].progresses[m].id;
    let before = with_known_profiles(profiles, rest);
    let after = with_known_profiles(profiles, remotes);
    lemma_known_profiles_stay(profiles, rest);
    lemma_first_stays_first(profiles, rest, remotes[k].uuid->0, i);
    if k < last {
        assert(rest[k] == remotes[k]);
        lemma_known_guides_present(profiles, rest, k, m, i);
        if after[i] != before[i] {
            lemma_progresses_stay(before[i].progresses, remotes[last].progresses);
            let at = choose|at: int| first_for_guide(before[i].progresses, guide, at);
            assert(after[i].progresses[at].id == guide);
            lemma_first_for_guide(after[i].progresses, guide, at);
        }
    } else {
        assert(has_profile(before, remotes[k].uuid->0));
        lemma_guides_present(before[i].progresses, remotes[k].progresses, m);
    }
}

/// Every progress that the server sent for a profile known locally has a local progress for its
/// guide once it is merged.
pub proof fn every_remote_progress_is_present(
    conf: ConfView,
    remotes: Seq<RemoteProfileView>,
    k: int,
    m: int,
    i: int,
)
    requires
        0 <= k < remotes.len(),
        remotes[k].uuid is Some,
        0 <= m < remotes[k].progresses.len(),
        first_with_id(conf.profiles, remotes[k].uuid->0, i),
    ensures
        has_guide(
            merged_conf(conf, remotes).profiles[i].progresses,
            remotes[k].progresses[m].id,
        ),
{
    lemma_known_guides_present(conf.profiles, remotes, k, m, i);
    lemma_known_profiles_stay(conf.profiles, remotes);
    lemma_new_profiles_come_last(with_known_profiles(conf.profiles, remotes), remotes);
}

/// A progress that only the server has, for a profile known locally, is added as the server has
/// it, with nothing pending.
pub proof fn progress_only_on_the_server_is_added(
    conf: ConfView,
    remotes: Seq<RemoteProfileView>,
    k: int,
    m: int,
    i: int,
)
    requires
        0 <= k < remotes.len(),
        remotes[k].uuid is Some,
        0 <= m < remotes[k].progresses.len(),
        only_copy_of_progress(remotes, k, m),
        first_with_id(conf.profiles, remotes[k].uuid->0, i),
        !has_guide(conf.profiles[i].progresses, remotes[k].progresses[m].id),
    ensures
        exists|j: int|
            conf.profiles[i].progresses.len() <= j && #[trigger] first_for_guide(
                merged_conf(conf, remotes).profiles[i].progresses,
                remotes[k].progresses[m].id,
                j,
            ) && merged_conf(conf, remotes).profiles[i].progresses[j] == new_progress(
                remotes[k].progresses[m],
            ),
{
    let j = lemma_known_progress_added(conf.profiles, remotes, k, m, i);
    lemma_known_profiles_stay(conf.profiles, remotes);
    lemma_new_profiles_come_last(with_known_profiles(conf.profiles, remotes), remotes);
    assert(first_for_guide(
        merged_conf(conf, remotes).profiles[i].progresses,
        remotes[k].progresses[m].id,
        j,
    ));
}

proof fn lemma_rest_has_distinct_guides(remotes: Seq<RemoteProgressView>)
    requires
        distinct_guides(remotes),
        remotes.len() > 0,
    ensures
        distinct_guides(remotes.drop_last()),
{
    let rest = remotes.drop_last();
    assert forall|a: int, b: int|
        #![trigger rest[a], rest[b]]
        0 <= a < b < rest.len() implies rest[a].id != rest[b].id by {
        assert(rest[a] == remotes[a] && rest[b] == remotes[b]);
    }
}

proof fn lemma_new_progress_added(
    progresses: Seq<ProgressView>,
    remotes: Seq<RemoteProgressView>,
    m: int,
) -> (j: int)
    requires
        0 <= m < remotes.len(),
        forall|n: int|
            0 <= n < remotes.len() && n != m ==> (#[trigger] remotes[n]).id != remotes[m].id,
        !has_guide(progresses, remotes[m].id),
    ensures
        progresses.len() <= j,
        first_for_guide(with_remote_progresses(progresses, remotes), remotes[m].id, j),
        with_remote_progresses(progresses, remotes)[j] == new_progress(remotes[m]),
    decreases remotes.len(),
{
    let rest = remotes.drop_last();
    let last = remotes.len() - 1;
    let before = with_remote_progresses(progresses, rest);
    lemma_progresses_stay(progresses, rest);
    assert forall|n: int| 0 <= n < rest.len() && n != m implies (#[trigger] rest[n]).id
        != remotes[m].id by {
        assert(rest[n] == remotes[n]);
    }
    if m < last {
        assert(rest[m] == remotes[m]);
        assert(remotes[m].id != remotes[last].id);
        lemma_new_progress_added(progresses, rest, m)
    } else {
        lemma_absent_guide_stays_absent(progresses, rest, remotes[m].id);
        let j = before.len() as int;
        assert forall|a: int| 0 <= a < j implies (#[trigger] before[a]).id != remotes[m].id by {
            if before[a].id == remotes[m].id {
                lemma_first_for_guide(before, remotes[m].id, a);
            }
        }
        j
    }
}

proof fn lemma_known_progress_added(
    profiles: Seq<ProfileView>,
    remotes: Seq<RemoteProfileView>,
    k: int,
    m: int,
    i: int,
) -> (j: int)
    requires
        0 <= k < remotes.len(),
        remotes[k].uuid is Some,
        0 <= m < remotes[k].progresses.len(),
        only_copy_of_progress(remotes, k, m),
        first_with_id(profiles, remotes[k].uuid->0, i),
        !has_guide(profiles[i].progresses, remotes[k].progresses[m].id),
    ensures
        profiles[i].progresses.len() <= j,
        first_for_guide(
            with_known_profiles(profiles, remotes)[i].progresses,
            remotes[k].progresses[m].id,
            j,
        ),
        with_known_profiles(profiles, remotes)[i].progresses[j] == new_progress(
            remotes[k].progresses[m],
        ),
    decreases remotes.len(),
{
    let rest = remotes.drop_last();
    let last = remotes.len() - 1;
    let guide = remotes[k].progresses[m].id;
    let before = with_known_profiles(profiles, rest);
    let after = with_known_profiles(profiles, remotes);
    lemma_known_profiles_stay(profiles, rest);
    lemma_first_stays_first(profiles, rest, remotes[k].uuid->0, i);
    assert(has_profile(before, remotes[k].uuid->0));
    assert forall|l: int, n: int|
        #![trigger rest[l].progresses[n]]
        0 <= l < rest.len() && rest[l].uuid == remotes[k].uuid && 0 <= n
            < rest[l].progresses.len() && rest[l].progresses[n].id == guide implies l == k && n
        == m by {
        assert(rest[l].progresses[n] == remotes[l].progresses[n]);
    }
    if k == last {
        lemma_unsent_guide_stays_absent(profiles, rest, i, guide);
        assert forall|n: int| 0 <= n < remotes[k].progresses.len() && n != m implies (
        #[trigger] remotes[k].progresses[n]).id != guide by {
        }
        lemma_new_progress_added(before[i].progresses, remotes[k].progresses, m)
    } else {
        assert(rest[k] == remotes[k]);
        let j = lemma_known_progress_added(profiles, rest, k, m, i);
        if remotes[last].uuid == remotes[k].uuid {
            assert forall|n: int| 0 <= n < remotes[last].progresses.len() implies (
            #[trigger] remotes[last].progresses[n]).id != before[i].progresses[j].id by {
            }
            lemma_progress_kept(before[i].progresses, remotes[last].progresses, j);
            lemma_progresses_stay(before[i].progresses, remotes[last].progresses);
            assert forall|a: int| 0 <= a < j implies (#[trigger] after[i].progresses[a]).id
                != guide by {
                assert(before[i].progresses[a].id != guide);
            }
        }
        j
    }
}

/// A guide that the server sends no progress for, and that the profile lacks, stays lacking.
proof fn lemma_unsent_guide_stays_absent(
    profiles: Seq<ProfileView>,
    remotes: Seq<RemoteProfileView>,
    i: int,
    guide: u32,
)
    requires
        0 <= i < profiles.len(),
        !has_guide(profiles[i].progresses, guide),
        forall|l: int, n: int|
            #![trigger remotes[l].progresses[n]]
            0 <= l < remotes.len() && remotes[l].uuid == Some(profiles[i].id) && 0 <= n
                < remotes[l].progresses.len() ==> remotes[l].progresses[n].id != guide,
    ensures
        !has_guide(with_known_profiles(profiles, remotes)[i].progresses, guide),
    decreases remotes.len(),
{
    if remotes.len() > 0 {
        let rest = remotes.drop_last();
        let last = remotes.len() - 1;
        let before = with_known_profiles(profiles, rest);
        lemma_known_profiles_stay(profiles, rest);
        assert forall|l: int, n: int|
            #![trigger rest[l].progresses[n]]
            0 <= l < rest.len() && rest[l].uuid == Some(profiles[i].id) && 0 <= n
                < rest[l].progresses.len() implies rest[l].progresses[n].id != guide by {
            assert(rest[l].progresses[n] == remotes[l].progresses[n]);
        }
        lemma_unsent_guide_stays_absent(profiles, rest, i, guide);
        if remotes[last].uuid == Some(profiles[i].id) {
            assert forall|n: int| 0 <= n < remotes[last].progresses.len() implies (
            #[trigger] remotes[last].progresses[n]).id != guide by {
            }
            lemma_absent_guide_stays_absent(
                before[i].progresses,
                remotes[last].progresses,
                guide,
            );
        }
    }
}

proof fn lemma_absent_guide_stays_absent(
    progresses: Seq<ProgressView>,
    remotes: Seq<RemoteProgressView>,
    id: u32,
)
    requires
        !has_guide(progresses, id),
        forall|n: int| 0 <= n < remotes.len() ==> (#[trigger] remotes[n]).id != id,
    ensures
        !has_guide(with_remote_progresses(progresses, remotes), id),
    decreases remotes.len(),
{
    if remotes.len() > 0 {
        let rest = remotes.drop_last();
        assert forall|n: int| 0 <= n < rest.len() implies (#[trigger] rest[n]).id != id by {
            assert(rest[n] == remotes[n]);
        }
        lemma_absent_guide_stays_absent(progresses, rest, id);
        assert(remotes[remotes.len() - 1] == remotes.last());
        let before = with_remote_progresses(progresses, rest);
        let after = with_remote_progresses(progresses, remotes);
        if has_guide(after, id) {
            let at = choose|at: int| first_for_guide(after, id, at);
            assert(at < before.len());
            lemma_first_for_guide(before, id, at);
        }
    }
}

/// Merging the remote progress again leaves the one that it was merged into as it is.
pub open spec fn is_settled(progresses: Seq<ProgressView>, remote: RemoteProgressView) -> bool {
    exists|at: int| #[trigger]
        first_for_guide(progresses, remote.id, at) && merged_progress(progresses[at], remote)
            == progresses[at]
}

proof fn lemma_settled_progresses_stay(
    progresses: Seq<ProgressView>,
    remotes: Seq<RemoteProgressView>,
)
    requires
        forall|m: int| 0 <= m < remotes.len() ==> is_settled(progresses, #[trigger] remotes[m]),
    ensures
        with_remote_progresses(progresses, remotes) == progresses,
    decreases remotes.len(),
{
    if remotes.len() > 0 {
        let rest = remotes.drop_last();
        assert forall|m: int| 0 <= m < rest.len() implies is_settled(
            progresses,
            #[trigger] rest[m],
        ) by {
            assert(rest[m] == remotes[m]);
        }
        lemma_settled_progresses_stay(progresses, rest);
        let last = remotes[remotes.len() - 1];
        assert(is_settled(progresses, last));
        assert(with_remote_progress(progresses, last) =~= progresses);
    }
}

proof fn lemma_merged_progresses_are_settled(
    progresses: Seq<ProgressView>,
    remotes: Seq<RemoteProgressView>,
)
    requires
        distinct_guides(remotes),
    ensures
        forall|m: int|
            0 <= m < remotes.len() ==> is_settled(
                with_remote_progresses(progresses, remotes),
                #[trigger] remotes[m],
            ),
    decreases remotes.len(),
{
    if remotes.len() > 0 {
        let rest = remotes.drop_last();
        let last = remotes.len() - 1;
        let before = with_remote_progresses(progresses, rest);
        let after = with_remote_progresses(progresses, remotes);
        lemma_rest_has_distinct_guides(remotes);
        lemma_merged_progresses_are_settled(progresses, rest);
        same_timestamp_is_not_newer(remotes[last].updated_at);
        assert forall|m: int| 0 <= m < remotes.len() implies is_settled(
            after,
            #[trigger] remotes[m],
        ) by {
            let guide = remotes[m].id;
            if m < last {
                assert(rest[m] == remotes[m]);
                assert(is_settled(before, rest[m]));
                let at = choose|at: int| #[trigger]
                    first_for_guide(before, guide, at) && merged_progress(before[at], rest[m])
                        == before[at];
                assert(remotes[m].id != remotes[last].id);
                assert(after[at] == before[at]);
                assert(first_for_guide(after, guide, at));
            } else if has_guide(before, guide) {
                let at = choose|at: int| first_for_guide(before, guide, at);
                assert(first_for_guide(after, guide, at));
            } else {
                let at = before.len() as int;
                assert forall|a: int| 0 <= a < at implies (#[trigger] after[a]).id != guide by {
                    if before[a].id == guide {
                        lemma_first_for_guide(before, guide, a);
                    }
                }
                assert(first_for_guide(after, guide, at));
            }
        }
    }
}

proof fn lemma_merged_profile_is_settled(local: ProfileView, remote: RemoteProfileView)
    requires
        distinct_guides(remote.progresses),
    ensures
        merged_profile(merged_profile(local, remote), remote) == merged_profile(local, remote),
{
    lemma_merged_progresses_are_settled(local.progresses, remote.progresses);
    lemma_settled_progresses_stay(
        with_remote_progresses(local.progresses, remote.progresses),
        remote.progresses,
    );
}

proof fn lemma_new_profile_is_settled(id: Seq<char>, remote: RemoteProfileView)
    requires
        distinct_guides(remote.progresses),
    ensures
        merged_profile(new_profile(id, remote), remote) == new_profile(id, remote),
{
    let progresses = new_progresses(remote.progresses);
    assert forall|m: int| 0 <= m < remote.progresses.len() implies is_settled(
        progresses,
        #[trigger] remote.progresses[m],
    ) by {
        same_timestamp_is_not_newer(remote.progresses[m].updated_at);
        assert forall|a: int| 0 <= a < m implies (#[trigger] progresses[a]).id
            != remote.progresses[m].id by {
            assert(remote.progresses[a].id != remote.progresses[m].id);
        }
        assert(first_for_guide(progresses, remote.progresses[m].id, m));
    }
    lemma_settled_progresses_stay(progresses, remote.progresses);
}

/// Merging the remote profile again leaves the one that it was merged into as it is.
pub open spec fn is_merged(profiles: Seq<ProfileView>, remote: RemoteProfileView) -> bool {
    remote.uuid is Some ==> exists|at: int| #[trigger]
        first_with_id(profiles, remote.uuid->0, at) && merged_profile(profiles[at], remote)
            == profiles[at]
}

proof fn lemma_merged_profiles_stay(profiles: Seq<ProfileView>, remotes: Seq<RemoteProfileView>)
    requires
        forall|k: int| 0 <= k < remotes.len() ==> is_merged(profiles, #[trigger] remotes[k]),
    ensures
        with_known_profiles(profiles, remotes) == profiles,
        with_new_profiles(profiles, remotes) == profiles,
    decreases remotes.len(),
{
    if remotes.len() > 0 {
        let rest = remotes.drop_last();
        assert forall|k: int| 0 <= k < rest.len() implies is_merged(
            profiles,
            #[trigger] rest[k],
        ) by {
            assert(rest[k] == remotes[k]);
        }
        lemma_merged_profiles_stay(profiles, rest);
        let last = remotes[remotes.len() - 1];
        assert(is_merged(profiles, last));
        assert(with_known_profile(profiles, last) =~= profiles);
        assert(with_new_profile(profiles, last) =~= profiles);
    }
}

/// A configuration that every remote profile is already merged into is left as it is.
pub proof fn settled_conf_is_kept(conf: ConfView, remotes: Seq<RemoteProfileView>)
    requires
        forall|k: int| 0 <= k < remotes.len() ==> is_merged(conf.profiles, #[trigger] remotes[k]),
    ensures
        merged_conf(conf, remotes) == conf,
{
    lemma_merged_profiles_stay(conf.profiles, remotes);
}

/// Merging the same reply a second time changes nothing, as long as the reply names no profile
/// twice and no guide twice within a profile.
pub proof fn merging_twice_is_merging_once(conf: ConfView, remotes: Seq<RemoteProfileView>)
    requires
        distinct_response(remotes),
    ensures
        merged_conf(merged_conf(conf, remotes), remotes) == merged_conf(conf, remotes),
{
    let merged = merged_conf(conf, remotes);
    assert forall|k: int| 0 <= k < remotes.len() implies is_merged(
        merged.profiles,
        #[trigger] remotes[k],
    ) by {
        let remote = remotes[k];
        if remote.uuid is Some {
            let id = remote.uuid->0;
            assert(distinct_guides(remote.progresses));
            if has_profile(conf.profiles, id) {
                let at = choose|at: int| first_with_id(conf.profiles, id, at);
                assert(only_copy_of_profile(remotes, k)) by {
                    assert forall|l: int| 0 <= l < remotes.len() && l != k implies (
                    #[trigger] remotes[l]).uuid != remotes[k].uuid by {
                        assert(remotes[k] == remote);
                    }
                }
                known_profile_takes_the_remote_copy(conf, remotes, k, at);
                nothing_local_is_dropped(conf, remotes);
                lemma_merged_profile_is_settled(conf.profiles[at], remote);
                assert(first_with_id(merged.profiles, id, at));
            } else {
                assert forall|l: int| 0 <= l < k implies (#[trigger] remotes[l]).uuid
                    != remotes[k].uuid by {
                    assert(remotes[l].uuid is Some ==> remotes[l].uuid != remotes[k].uuid);
                }
                profile_only_on_the_server_is_added(conf, remotes, k);
                lemma_new_profile_is_settled(id, remote);
            }
        }
    }
    settled_conf_is_kept(merged, remotes);
}

} // verus!
