//! What uploads and their acknowledgements lead to, and how they fit together with a merge.

use crate::conf::{first_for_guide, first_on_server, ConfView, ProfileView, ProgressView};
use crate::merge::{is_pending, merged_conf};
use crate::merge_laws::progress_without_newer_copy_is_kept;
use crate::push::{
    acknowledged, can_mark, marked_conf, marks, pending_in, pending_of, pending_of_profile,
    push_of, with_acknowledged, PushView,
};
use crate::remote::RemoteProfileView;
use crate::timestamp::same_timestamp_is_not_newer;
use vstd::prelude::*;

verus! {

/// There is one progress at most that a push marks.
proof fn lemma_marks_once(profiles: Seq<ProfileView>, push: PushView, i: int, j: int)
    requires
        marks(profiles, push, i, j),
    ensures
        forall|a: int, b: int| #[trigger] marks(profiles, push, a, b) ==> a == i && b == j,
{
    assert forall|a: int, b: int| #[trigger] marks(profiles, push, a, b) implies a == i && b
        == j by {
        if a < i {
            assert(profiles[a].server_id != Some(push.server_id));
        }
        if i < a {
            assert(profiles[i].server_id != Some(push.server_id));
        }
        if b < j {
            assert(profiles[i].progresses[b].id != push.guide_id);
        }
        if j < b {
            assert(profiles[i].progresses[j].id != push.guide_id);
        }
    }
}

/// A progress that the server acknowledged is no longer pending, so it is not pushed again on every
/// start, and nothing else changes.
pub proof fn acknowledged_progress_is_settled(
    conf: ConfView,
    push: PushView,
    stamp: Seq<char>,
    i: int,
    j: int,
)
    requires
        marks(conf.profiles, push, i, j),
    ensures
        ({
            let marked = marked_conf(conf, push, stamp);
            &&& marked == ConfView {
                profiles: with_acknowledged(conf.profiles, i, j, stamp),
                ..conf
            }
            &&& !is_pending(marked.profiles[i].progresses[j])
            &&& marked.profiles[i].progresses[j].updated_at == Some(stamp)
            &&& forall|a: int|
                0 <= a < conf.profiles.len() && a != i ==> #[trigger] marked.profiles[a]
                    == conf.profiles[a]
            &&& forall|b: int|
                0 <= b < conf.profiles[i].progresses.len() && b != j
                    ==> #[trigger] marked.profiles[i].progresses[b]
                    == conf.profiles[i].progresses[b]
        }),
{
    lemma_marks_once(conf.profiles, push, i, j);
}

/// A progress that changed while its push was in flight stays as it is, so that the newer change
/// is still pushed.
pub proof fn change_in_flight_stays_pending(
    conf: ConfView,
    push: PushView,
    stamp: Seq<char>,
    i: int,
    j: int,
)
    requires
        first_on_server(conf.profiles, push.server_id, i),
        first_for_guide(conf.profiles[i].progresses, push.guide_id, j),
        conf.profiles[i].progresses[j].current_step != push.current_step
            || conf.profiles[i].progresses[j].steps != push.steps,
    ensures
        marked_conf(conf, push, stamp) == conf,
{
    if can_mark(conf.profiles, push) {
        let (a, b) = choose|a: int, b: int| marks(conf.profiles, push, a, b);
        lemma_marks_once(conf.profiles, push, a, b);
        if a < i {
            assert(conf.profiles[a].server_id != Some(push.server_id));
        }
        if i < a {
            assert(conf.profiles[i].server_id != Some(push.server_id));
        }
        if b < j {
            assert(conf.profiles[i].progresses[b].id != push.guide_id);
        }
        if j < b {
            assert(conf.profiles[i].progresses[j].id != push.guide_id);
        }
    }
}

/// After a push, a full synchronisation in which the server sends the pushed progress back under
/// the timestamp that it acknowledged it with leaves the local progress untouched.
pub proof fn acknowledged_progress_survives_the_next_sync(
    conf: ConfView,
    push: PushView,
    stamp: Seq<char>,
    remotes: Seq<RemoteProfileView>,
    i: int,
    j: int,
)
    requires
        marks(conf.profiles, push, i, j),
        forall|k: int, m: int|
            #![trigger remotes[k].progresses[m]]
            0 <= k < remotes.len() && remotes[k].uuid == Some(conf.profiles[i].id) && 0 <= m
                < remotes[k].progresses.len() && remotes[k].progresses[m].id == push.guide_id
                ==> remotes[k].progresses[m].updated_at == stamp,
    ensures
        merged_conf(marked_conf(conf, push, stamp), remotes).profiles[i].progresses[j]
            == acknowledged(conf.profiles[i].progresses[j], stamp),
{
    acknowledged_progress_is_settled(conf, push, stamp, i, j);
    same_timestamp_is_not_newer(stamp);
    let marked = marked_conf(conf, push, stamp);
    progress_without_newer_copy_is_kept(marked, remotes, i, j);
}

proof fn lemma_listed_in(server_id: u32, progresses: Seq<ProgressView>, j: int) -> (n: int)
    requires
        0 <= j < progresses.len(),
        is_pending(progresses[j]),
    ensures
        0 <= n < pending_in(server_id, progresses).len(),
        pending_in(server_id, progresses)[n] == push_of(server_id, progresses[j]),
    decreases progresses.len(),
{
    let rest = progresses.drop_last();
    if j == rest.len() {
        pending_in(server_id, rest).len() as int
    } else {
        assert(rest[j] == progresses[j]);
        lemma_listed_in(server_id, rest, j)
    }
}

proof fn lemma_listed(profiles: Seq<ProfileView>, i: int, n: int) -> (at: int)
    requires
        0 <= i < profiles.len(),
        0 <= n < pending_of_profile(profiles[i]).len(),
    ensures
        0 <= at < pending_of(profiles).len(),
        pending_of(profiles)[at] == pending_of_profile(profiles[i])[n],
    decreases profiles.len(),
{
    let rest = profiles.drop_last();
    if i == rest.len() {
        pending_of(rest).len() + n
    } else {
        assert(rest[i] == profiles[i]);
        lemma_listed(rest, i, n)
    }
}

/// Every pending progress of a profile that the server knows is listed for upload, as it is.
pub proof fn every_pending_progress_is_listed(conf: ConfView, i: int, j: int)
    requires
        0 <= i < conf.profiles.len(),
        conf.profiles[i].server_id is Some,
        0 <= j < conf.profiles[i].progresses.len(),
        is_pending(conf.profiles[i].progresses[j]),
    ensures
        pending_of(conf.profiles).contains(
            push_of(conf.profiles[i].server_id->0, conf.profiles[i].progresses[j]),
        ),
{
    let n = lemma_listed_in(conf.profiles[i].server_id->0, conf.profiles[i].progresses, j);
    let at = lemma_listed(conf.profiles, i, n);
}

/// Where the `n`-th upload of a profile comes from, and what is left of them once the server
/// acknowledged it.
proof fn lemma_upload_in(
    server_id: u32,
    progresses: Seq<ProgressView>,
    n: int,
    stamp: Seq<char>,
) -> (j: int)
    requires
        0 <= n < pending_in(server_id, progresses).len(),
    ensures
        0 <= j < progresses.len(),
        is_pending(progresses[j]),
        pending_in(server_id, progresses)[n] == push_of(server_id, progresses[j]),
        pending_in(server_id, progresses.update(j, acknowledged(progresses[j], stamp)))
            == pending_in(server_id, progresses).remove(n),
    decreases progresses.len(),
{
    let rest = progresses.drop_last();
    let listed = pending_in(server_id, rest);
    let all = pending_in(server_id, progresses);
    if n < listed.len() {
        let j = lemma_upload_in(server_id, rest, n, stamp);
        let after = progresses.update(j, acknowledged(progresses[j], stamp));
        assert(after.drop_last() =~= rest.update(j, acknowledged(rest[j], stamp)));
        assert(pending_in(server_id, after) =~= all.remove(n));
        j
    } else {
        let j = rest.len() as int;
        let after = progresses.update(j, acknowledged(progresses[j], stamp));
        assert(after.drop_last() =~= rest);
        assert(pending_in(server_id, after) =~= all.remove(n));
        j
    }
}

/// Where the `n`-th upload comes from, and what is left of them once the server acknowledged it.
proof fn lemma_upload(profiles: Seq<ProfileView>, n: int, stamp: Seq<char>) -> (at: (int, int))
    requires
        0 <= n < pending_of(profiles).len(),
    ensures
        0 <= at.0 < profiles.len(),
        0 <= at.1 < profiles[at.0].progresses.len(),
        profiles[at.0].server_id is Some,
        is_pending(profiles[at.0].progresses[at.1]),
        pending_of(profiles)[n] == push_of(
            profiles[at.0].server_id->0,
            profiles[at.0].progresses[at.1],
        ),
        pending_of(with_acknowledged(profiles, at.0, at.1, stamp)) == pending_of(profiles).remove(
            n,
        ),
    decreases profiles.len(),
{
    let rest = profiles.drop_last();
    let listed = pending_of(rest);
    let all = pending_of(profiles);
    if n < listed.len() {
        let at = lemma_upload(rest, n, stamp);
        let after = with_acknowledged(profiles, at.0, at.1, stamp);
        assert(after.drop_last() =~= with_acknowledged(rest, at.0, at.1, stamp));
        assert(after.last() == profiles.last());
        assert(pending_of(after) =~= all.remove(n));
        at
    } else {
        let last = profiles.last();
        let j = lemma_upload_in(last.server_id->0, last.progresses, n - listed.len(), stamp);
        let at = (rest.len() as int, j);
        let after = with_acknowledged(profiles, at.0, at.1, stamp);
        assert(after.drop_last() =~= rest);
        assert(pending_of(after) =~= all.remove(n));
        at
    }
}

/// Every upload that is listed stems from a pending progress of a profile that the server knows.
pub proof fn only_pending_progress_is_listed(conf: ConfView, n: int)
    requires
        0 <= n < pending_of(conf.profiles).len(),
    ensures
        exists|i: int, j: int|
            #![trigger conf.profiles[i].progresses[j]]
            0 <= i < conf.profiles.len() && 0 <= j < conf.profiles[i].progresses.len()
                && conf.profiles[i].server_id is Some && is_pending(conf.profiles[i].progresses[j])
                && pending_of(conf.profiles)[n] == push_of(
                conf.profiles[i].server_id->0,
                conf.profiles[i].progresses[j],
            ),
{
    let at = lemma_upload(conf.profiles, n, Seq::empty());
    assert(is_pending(conf.profiles[at.0].progresses[at.1]));
}

/// The server knows no two profiles by the same identifier, and no profile has two progresses for
/// the same guide.
pub open spec fn distinct_on_server(profiles: Seq<ProfileView>) -> bool {
    &&& forall|a: int, b: int|
        #![trigger profiles[a], profiles[b]]
        0 <= a < b < profiles.len() && profiles[a].server_id is Some ==> profiles[a].server_id
            != profiles[b].server_id
    &&& forall|i: int, a: int, b: int|
        #![trigger profiles[i].progresses[a], profiles[i].progresses[b]]
        0 <= i < profiles.len() && 0 <= a < b < profiles[i].progresses.len()
            ==> profiles[i].progresses[a].id != profiles[i].progresses[b].id
}

/// A push that the server acknowledged, of a progress that did not change meanwhile, is not sent
/// again, and every other pending one still is.
pub proof fn acknowledged_push_is_not_sent_again(conf: ConfView, n: int, stamp: Seq<char>)
    requires
        distinct_on_server(conf.profiles),
        0 <= n < pending_of(conf.profiles).len(),
    ensures
        ({
            let marked = marked_conf(conf, pending_of(conf.profiles)[n], stamp);
            &&& pending_of(marked.profiles) == pending_of(conf.profiles).remove(n)
            &&& distinct_on_server(marked.profiles)
        }),
{
    let profiles = conf.profiles;
    let push = pending_of(profiles)[n];
    let at = lemma_upload(profiles, n, stamp);
    assert(marks(profiles, push, at.0, at.1)) by {
        assert forall|k: int| 0 <= k < at.0 implies (#[trigger] profiles[k]).server_id != Some(
            push.server_id,
        ) by {
            assert(profiles[k].server_id is Some ==> profiles[k].server_id
                != profiles[at.0].server_id);
        }
        assert forall|k: int| 0 <= k < at.1 implies (
        #[trigger] profiles[at.0].progresses[k]).id != push.guide_id by {
            assert(profiles[at.0].progresses[k].id != profiles[at.0].progresses[at.1].id);
        }
    }
    acknowledged_progress_is_settled(conf, push, stamp, at.0, at.1);
    let after = with_acknowledged(profiles, at.0, at.1, stamp);
    assert(distinct_on_server(after)) by {
        assert forall|a: int, b: int|
            #![trigger after[a], after[b]]
            0 <= a < b < after.len() && after[a].server_id is Some implies after[a].server_id
            != after[b].server_id by {
            assert(profiles[a].server_id == after[a].server_id);
            assert(profiles[b].server_id == after[b].server_id);
        }
        assert forall|i: int, a: int, b: int|
            #![trigger after[i].progresses[a], after[i].progresses[b]]
            0 <= i < after.len() && 0 <= a < b < after[i].progresses.len() implies
            after[i].progresses[a].id != after[i].progresses[b].id by {
            assert(profiles[i].progresses[a].id == after[i].progresses[a].id);
            assert(profiles[i].progresses[b].id == after[i].progresses[b].id);
        }
    }
}

/// The configuration once the server acknowledged the pushes, one after the other.
pub open spec fn all_marked(
    conf: ConfView,
    pushes: Seq<PushView>,
    stamps: Seq<Seq<char>>,
) -> ConfView
    decreases pushes.len(),
{
    if pushes.len() == 0 {
        conf
    } else {
        all_marked(
            marked_conf(conf, pushes[0], stamps[0]),
            pushes.drop_first(),
            stamps.drop_first(),
        )
    }
}

/// Once the server acknowledged every listed upload, and nothing changed meanwhile, nothing is left
/// to upload.
pub proof fn acknowledging_everything_leaves_nothing_pending(
    conf: ConfView,
    stamps: Seq<Seq<char>>,
)
    requires
        distinct_on_server(conf.profiles),
        stamps.len() == pending_of(conf.profiles).len(),
    ensures
        pending_of(all_marked(conf, pending_of(conf.profiles), stamps).profiles).len() == 0,
    decreases pending_of(conf.profiles).len(),
{
    let pushes = pending_of(conf.profiles);
    if pushes.len() > 0 {
        acknowledged_push_is_not_sent_again(conf, 0, stamps[0]);
        let marked = marked_conf(conf, pushes[0], stamps[0]);
        assert(pushes.remove(0) =~= pushes.drop_first());
        acknowledging_everything_leaves_nothing_pending(marked, stamps.drop_first());
    }
}

} // verus!
