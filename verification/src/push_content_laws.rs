//! What is uploaded and what an acknowledgement changes, field by field.

use crate::conf::{first_for_guide, first_on_server, ConfView, ProfileView, ProgressView};
use crate::push::{can_mark, marked_conf, marks, pending_of, synced, PushView};
use crate::push_laws::{
    acknowledged_progress_is_settled, every_pending_progress_is_listed,
    only_pending_progress_is_listed,
};
use crate::timestamp::is_clock_text;
use vstd::prelude::*;

verus! {

/// An upload is listed exactly where a profile that the server knows has a progress with that
/// content which carries the pending flag, or no timestamp, or both.
pub proof fn unacknowledged_progress_is_what_is_listed(conf: ConfView, push: PushView)
    ensures
        pending_of(conf.profiles).contains(push) <==> exists|i: int, j: int|
            {
                let progress = #[trigger] conf.profiles[i].progresses[j];
                &&& 0 <= i < conf.profiles.len()
                &&& 0 <= j < conf.profiles[i].progresses.len()
                &&& conf.profiles[i].server_id == Some(push.server_id)
                &&& progress.sync_pending || progress.updated_at is None
                &&& progress.id == push.guide_id
                &&& progress.current_step == push.current_step
                &&& progress.steps == push.steps
            },
{
    let profiles = conf.profiles;
    if pending_of(profiles).contains(push) {
        let n = choose|n: int| 0 <= n < pending_of(profiles).len() && pending_of(profiles)[n] == push;
        only_pending_progress_is_listed(conf, n);
        let (i, j) = choose|i: int, j: int|
            {
                let progress = #[trigger] profiles[i].progresses[j];
                &&& 0 <= i < profiles.len()
                &&& 0 <= j < profiles[i].progresses.len()
                &&& profiles[i].server_id == Some(push.server_id)
                &&& progress.sync_pending || progress.updated_at is None
                &&& progress.id == push.guide_id
                &&& progress.current_step == push.current_step
                &&& progress.steps == push.steps
            };
        assert(conf.profiles[i].progresses[j].id == push.guide_id);
    }
    if exists|i: int, j: int|
        {
            let progress = #[trigger] profiles[i].progresses[j];
            &&& 0 <= i < profiles.len()
            &&& 0 <= j < profiles[i].progresses.len()
            &&& profiles[i].server_id == Some(push.server_id)
            &&& progress.sync_pending || progress.updated_at is None
            &&& progress.id == push.guide_id
            &&& progress.current_step == push.current_step
            &&& progress.steps == push.steps
        } {
        let (i, j) = choose|i: int, j: int|
            {
                let progress = #[trigger] profiles[i].progresses[j];
                &&& 0 <= i < profiles.len()
                &&& 0 <= j < profiles[i].progresses.len()
                &&& profiles[i].server_id == Some(push.server_id)
                &&& progress.sync_pending || progress.updated_at is None
                &&& progress.id == push.guide_id
                &&& progress.current_step == push.current_step
                &&& progress.steps == push.steps
            };
        every_pending_progress_is_listed(conf, i, j);
    }
}

/// Without profiles there is nothing to upload, and a profile without progresses, or one that the
/// server does not know, calls for no upload.
pub proof fn nothing_to_upload(profiles: Seq<ProfileView>, profile: ProfileView)
    requires
        profile.server_id is None || profile.progresses.len() == 0,
    ensures
        pending_of(Seq::empty()).len() == 0,
        pending_of(profiles.push(profile)) == pending_of(profiles),
{
    assert(profiles.push(profile).drop_last() =~= profiles);
    assert(pending_of(profiles.push(profile)) =~= pending_of(profiles));
}

/// One more progress in the last profile calls for one more upload, behind the others and with the
/// content of the progress, where the server knows the profile and the progress carries the pending
/// flag, or no timestamp, or both; and for none otherwise.
pub proof fn one_more_progress_to_upload(
    profiles: Seq<ProfileView>,
    profile: ProfileView,
    progress: ProgressView,
)
    ensures
        ({
            let longer = ProfileView { progresses: profile.progresses.push(progress), ..profile };
            let before = pending_of(profiles.push(profile));
            let after = pending_of(profiles.push(longer));
            if profile.server_id is Some && (progress.sync_pending || progress.updated_at is None) {
                &&& after.len() == before.len() + 1
                &&& after.drop_last() == before
                &&& Some(after.last().server_id) == profile.server_id
                &&& after.last().guide_id == progress.id
                &&& after.last().current_step == progress.current_step
                &&& after.last().steps == progress.steps
            } else {
                after == before
            }
        }),
{
    let longer = ProfileView { progresses: profile.progresses.push(progress), ..profile };
    assert(profiles.push(profile).drop_last() =~= profiles);
    assert(profiles.push(longer).drop_last() =~= profiles);
    assert(longer.progresses.drop_last() =~= profile.progresses);
    let before = pending_of(profiles.push(profile));
    let after = pending_of(profiles.push(longer));
    if profile.server_id is Some && (progress.sync_pending || progress.updated_at is None) {
        assert(after.drop_last() =~= before);
    }
}

/// The acknowledgement of a push whose content is still there, in the first progress for the guide
/// of the first profile that the server knows by the identifier, gives that progress the timestamp
/// and clears its pending flag. Its guide, its current step and its steps stay, and so does
/// everything else.
pub proof fn acknowledgement_changes_only_the_stamp(
    conf: ConfView,
    push: PushView,
    stamp: Seq<char>,
    i: int,
    j: int,
)
    requires
        0 <= i < conf.profiles.len(),
        0 <= j < conf.profiles[i].progresses.len(),
        conf.profiles[i].server_id == Some(push.server_id),
        forall|a: int|
            0 <= a < i ==> (#[trigger] conf.profiles[a]).server_id != Some(push.server_id),
        conf.profiles[i].progresses[j].id == push.guide_id,
        forall|b: int|
            0 <= b < j ==> (#[trigger] conf.profiles[i].progresses[b]).id != push.guide_id,
        conf.profiles[i].progresses[j].current_step == push.current_step,
        conf.profiles[i].progresses[j].steps == push.steps,
    ensures
        can_mark(conf.profiles, push),
        ({
            let marked = marked_conf(conf, push, stamp);
            let now = marked.profiles[i].progresses[j];
            &&& marked.profile_in_use == conf.profile_in_use
            &&& marked.profiles.len() == conf.profiles.len()
            &&& forall|a: int|
                0 <= a < conf.profiles.len() && a != i ==> #[trigger] marked.profiles[a]
                    == conf.profiles[a]
            &&& marked.profiles[i].id == conf.profiles[i].id
            &&& marked.profiles[i].name == conf.profiles[i].name
            &&& marked.profiles[i].level == conf.profiles[i].level
            &&& marked.profiles[i].server_id == conf.profiles[i].server_id
            &&& marked.profiles[i].progresses.len() == conf.profiles[i].progresses.len()
            &&& forall|b: int|
                0 <= b < conf.profiles[i].progresses.len() && b != j
                    ==> #[trigger] marked.profiles[i].progresses[b]
                    == conf.profiles[i].progresses[b]
            &&& now.id == conf.profiles[i].progresses[j].id
            &&& now.current_step == conf.profiles[i].progresses[j].current_step
            &&& now.steps == conf.profiles[i].progresses[j].steps
            &&& now.updated_at == Some(stamp)
            &&& now.sync_pending == false
        }),
{
    assert(marks(conf.profiles, push, i, j));
    acknowledged_progress_is_settled(conf, push, stamp, i, j);
}

/// The acknowledgement of a push changes nothing where the progress that was pushed is gone or no
/// longer holds what was pushed.
pub proof fn stale_acknowledgement_changes_nothing(
    conf: ConfView,
    push: PushView,
    stamp: Seq<char>,
)
    requires
        forall|i: int, j: int|
            #![trigger conf.profiles[i].progresses[j]]
            0 <= i < conf.profiles.len() && 0 <= j < conf.profiles[i].progresses.len()
                && conf.profiles[i].server_id == Some(push.server_id)
                && conf.profiles[i].progresses[j].id == push.guide_id
                && conf.profiles[i].progresses[j].current_step == push.current_step
                && conf.profiles[i].progresses[j].steps == push.steps ==> (exists|a: int|
                0 <= a < i && (#[trigger] conf.profiles[a]).server_id == Some(push.server_id)) || (
            exists|b: int|
                0 <= b < j && (#[trigger] conf.profiles[i].progresses[b]).id == push.guide_id),
    ensures
        !can_mark(conf.profiles, push),
        marked_conf(conf, push, stamp) == conf,
{
    if can_mark(conf.profiles, push) {
        let (i, j) = choose|i: int, j: int| marks(conf.profiles, push, i, j);
        assert(first_on_server(conf.profiles, push.server_id, i));
        assert(first_for_guide(conf.profiles[i].progresses, push.guide_id, j));
        assert(conf.profiles[i].progresses[j].id == push.guide_id);
    }
}

/// Noting an acknowledgement takes the timestamp that the server sent, and the local clock where it
/// sent none; and it is the acknowledgement of the push, where there is something to note.
pub proof fn server_stamp_comes_before_the_clock(
    before: ConfView,
    after: ConfView,
    push: PushView,
    updated_at: Option<Seq<char>>,
    i: int,
    j: int,
)
    requires
        synced(before, after, push, updated_at),
        0 <= i < before.profiles.len(),
        0 <= j < before.profiles[i].progresses.len(),
        before.profiles[i].server_id == Some(push.server_id),
        forall|a: int|
            0 <= a < i ==> (#[trigger] before.profiles[a]).server_id != Some(push.server_id),
        before.profiles[i].progresses[j].id == push.guide_id,
        forall|b: int|
            0 <= b < j ==> (#[trigger] before.profiles[i].progresses[b]).id != push.guide_id,
        before.profiles[i].progresses[j].current_step == push.current_step,
        before.profiles[i].progresses[j].steps == push.steps,
    ensures
        after.profile_in_use == before.profile_in_use,
        after.profiles.len() == before.profiles.len(),
        forall|a: int|
            0 <= a < before.profiles.len() && a != i ==> #[trigger] after.profiles[a]
                == before.profiles[a],
        after.profiles[i].id == before.profiles[i].id,
        after.profiles[i].name == before.profiles[i].name,
        after.profiles[i].level == before.profiles[i].level,
        after.profiles[i].server_id == before.profiles[i].server_id,
        after.profiles[i].progresses.len() == before.profiles[i].progresses.len(),
        forall|b: int|
            0 <= b < before.profiles[i].progresses.len() && b != j
                ==> #[trigger] after.profiles[i].progresses[b]
                == before.profiles[i].progresses[b],
        after.profiles[i].progresses[j].id == before.profiles[i].progresses[j].id,
        after.profiles[i].progresses[j].current_step
            == before.profiles[i].progresses[j].current_step,
        after.profiles[i].progresses[j].steps == before.profiles[i].progresses[j].steps,
        after.profiles[i].progresses[j].sync_pending == false,
        after.profiles[i].progresses[j].updated_at is Some,
        updated_at is Some ==> after.profiles[i].progresses[j].updated_at == updated_at,
        updated_at is None ==> is_clock_text(after.profiles[i].progresses[j].updated_at->0),
{
    let stamp = match updated_at {
        Some(stamp) => stamp,
        None => {
            acknowledgement_changes_only_the_stamp(before, push, Seq::empty(), i, j);
            choose|stamp: Seq<char>|
                is_clock_text(stamp) && after == #[trigger] marked_conf(before, push, stamp)
        },
    };
    acknowledgement_changes_only_the_stamp(before, push, stamp, i, j);
}

/// Noting an acknowledgement changes nothing where the progress that was pushed is gone or no longer
/// holds what was pushed.
pub proof fn change_in_flight_is_not_overwritten(
    before: ConfView,
    after: ConfView,
    push: PushView,
    updated_at: Option<Seq<char>>,
)
    requires
        synced(before, after, push, updated_at),
        forall|i: int, j: int|
            #![trigger before.profiles[i].progresses[j]]
            0 <= i < before.profiles.len() && 0 <= j < before.profiles[i].progresses.len()
                && before.profiles[i].server_id == Some(push.server_id)
                && before.profiles[i].progresses[j].id == push.guide_id
                && before.profiles[i].progresses[j].current_step == push.current_step
                && before.profiles[i].progresses[j].steps == push.steps ==> (exists|a: int|
                0 <= a < i && (#[trigger] before.profiles[a]).server_id == Some(push.server_id)) || (
            exists|b: int|
                0 <= b < j && (#[trigger] before.profiles[i].progresses[b]).id == push.guide_id),
    ensures
        after == before,
{
    stale_acknowledgement_changes_nothing(before, push, Seq::empty());
}

} // verus!
