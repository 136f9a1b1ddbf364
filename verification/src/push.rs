//! Uploading progress that the server never acknowledged, and taking note of what it acknowledges.

use crate::conf::{
    find_on_server, find_progress, first_for_guide, first_on_server, profiles_view,
    progresses_view, steps_view, Conf, ConfStep, ConfView, Profile, ProfileView, ProgressView,
    StepsView,
};
use crate::merge::{has_local_pending_changes, is_pending};
use crate::steps::same_steps;
use crate::timestamp::{is_clock_text, now_text};
use std::collections::HashMap;
use vstd::prelude::*;

verus! {

/// A progress as it is to be uploaded.
#[derive(Debug)]
pub struct PendingPush {
    pub server_id: u32,
    pub guide_id: u32,
    pub current_step: u32,
    pub steps: HashMap<u32, ConfStep>,
}

pub struct PushView {
    pub server_id: u32,
    pub guide_id: u32,
    pub current_step: u32,
    pub steps: StepsView,
}

impl View for PendingPush {
    type V = PushView;

    open spec fn view(&self) -> PushView {
        PushView {
            server_id: self.server_id,
            guide_id: self.guide_id,
            current_step: self.current_step,
            steps: steps_view(self.steps@),
        }
    }
}

pub open spec fn pushes_view(pushes: Seq<PendingPush>) -> Seq<PushView> {
    Seq::new(pushes.len(), |i: int| pushes[i]@)
}

/// The upload of a progress of the profile that the server knows as `server_id`.
pub open spec fn push_of(server_id: u32, progress: ProgressView) -> PushView {
    PushView {
        server_id,
        guide_id: progress.id,
        current_step: progress.current_step,
        steps: progress.steps,
    }
}

/// The uploads that some progresses of one profile call for, in their order.
pub open spec fn pending_in(server_id: u32, progresses: Seq<ProgressView>) -> Seq<PushView>
    decreases progresses.len(),
{
    if progresses.len() == 0 {
        Seq::empty()
    } else if is_pending(progresses.last()) {
        pending_in(server_id, progresses.drop_last()).push(push_of(server_id, progresses.last()))
    } else {
        pending_in(server_id, progresses.drop_last())
    }
}

/// The uploads that a profile calls for: none before the server knows it.
pub open spec fn pending_of_profile(profile: ProfileView) -> Seq<PushView> {
    match profile.server_id {
        Some(server_id) => pending_in(server_id, profile.progresses),
        None => Seq::empty(),
    }
}

/// The uploads that some profiles call for, profile by profile.
pub open spec fn pending_of(profiles: Seq<ProfileView>) -> Seq<PushView>
    decreases profiles.len(),
{
    if profiles.len() == 0 {
        Seq::empty()
    } else {
        pending_of(profiles.drop_last()) + pending_of_profile(profiles.last())
    }
}

/// The progress once the server acknowledged it.
pub open spec fn acknowledged(progress: ProgressView, stamp: Seq<char>) -> ProgressView {
    ProgressView { updated_at: Some(stamp), sync_pending: false, ..progress }
}

/// The progress at `j` of the profile at `i` is the one that was pushed, and still holds what was
/// pushed.
pub open spec fn marks(profiles: Seq<ProfileView>, push: PushView, i: int, j: int) -> bool {
    &&& first_on_server(profiles, push.server_id, i)
    &&& first_for_guide(profiles[i].progresses, push.guide_id, j)
    &&& profiles[i].progresses[j].current_step == push.current_step
    &&& profiles[i].progresses[j].steps == push.steps
}

/// Some progress is the one that was pushed, and still holds what was pushed.
pub open spec fn can_mark(profiles: Seq<ProfileView>, push: PushView) -> bool {
    exists|i: int, j: int| marks(profiles, push, i, j)
}

/// The profiles with one progress acknowledged.
pub open spec fn with_acknowledged(
    profiles: Seq<ProfileView>,
    i: int,
    j: int,
    stamp: Seq<char>,
) -> Seq<ProfileView> {
    profiles.update(
        i,
        ProfileView {
            progresses: profiles[i].progresses.update(
                j,
                acknowledged(profiles[i].progresses[j], stamp),
            ),
            ..profiles[i]
        },
    )
}

/// The configuration once the server acknowledged a push. A progress that changed while the push
/// was in flight stays as it is, still to be pushed.
pub open spec fn marked_conf(conf: ConfView, push: PushView, stamp: Seq<char>) -> ConfView {
    if can_mark(conf.profiles, push) {
        let (i, j) = choose|i: int, j: int| marks(conf.profiles, push, i, j);
        ConfView { profiles: with_acknowledged(conf.profiles, i, j, stamp), ..conf }
    } else {
        conf
    }
}

/// Lists the uploads that one profile calls for.
fn pending_progresses_of(server_id: u32, profile: &Profile, pending: &mut Vec<PendingPush>)
    ensures
        pushes_view(final(pending)@) == pushes_view(old(pending)@) + pending_in(
            server_id,
            profile@.progresses,
        ),
{
    let ghost all = profile@.progresses;
    assert(all.take(0) =~= Seq::<ProgressView>::empty());
    assert(pushes_view(pending@) =~= pushes_view(old(pending)@) + Seq::<PushView>::empty());
    for j in 0..profile.progresses.len()
        invariant
            all == progresses_view(profile.progresses@),
            pushes_view(pending@) == pushes_view(old(pending)@) + pending_in(
                server_id,
                all.take(j as int),
            ),
    {
        let progress = &profile.progresses[j];
        let ghost before = pending@;
        assert(all.take(j + 1).drop_last() =~= all.take(j as int));
        assert(all.take(j + 1).last() == progress@);
        if has_local_pending_changes(progress) {
            pending.push(
                PendingPush {
                    server_id,
                    guide_id: progress.id,
                    current_step: progress.current_step,
                    steps: progress.steps.clone(),
                },
            );
            assert(pushes_view(pending@) =~= pushes_view(before).push(
                push_of(server_id, progress@),
            ));
        }
        assert(pushes_view(pending@) =~= pushes_view(old(pending)@) + pending_in(
            server_id,
            all.take(j + 1),
        ));
    }
    assert(all.take(all.len() as int) =~= all);
}

/// Lists the uploads of everything that the server never acknowledged, typically checkboxes that
/// were ticked right before the reader was closed.
pub fn pending_progresses(conf: &Conf) -> (pending: Vec<PendingPush>)
    ensures
        pushes_view(pending@) == pending_of(conf@.profiles),
{
    let mut pending: Vec<PendingPush> = Vec::new();
    let ghost all = conf@.profiles;
    assert(all.take(0) =~= Seq::<ProfileView>::empty());
    assert(pushes_view(pending@) =~= Seq::<PushView>::empty());
    for i in 0..conf.profiles.len()
        invariant
            all == profiles_view(conf.profiles@),
            pushes_view(pending@) == pending_of(all.take(i as int)),
    {
        let profile = &conf.profiles[i];
        assert(all.take(i + 1).drop_last() =~= all.take(i as int));
        if let Some(server_id) = profile.server_id {
            pending_progresses_of(server_id, profile, &mut pending);
        } else {
            assert(pushes_view(pending@) =~= pushes_view(pending@) + Seq::<PushView>::empty());
        }
    }
    assert(all.take(all.len() as int) =~= all);
    pending
}

/// Finds the progress that was pushed, if it still holds what was pushed.
fn find_pushed(
    conf: &Conf,
    server_id: u32,
    guide_id: u32,
    current_step: u32,
    steps: &HashMap<u32, ConfStep>,
) -> (found: Option<(usize, usize)>)
    ensures
        ({
            let push = PushView { server_id, guide_id, current_step, steps: steps_view(steps@) };
            match found {
                Some((i, j)) => marks(conf@.profiles, push, i as int, j as int),
                None => !can_mark(conf@.profiles, push),
            }
        }),
{
    if let Some(i) = find_on_server(&conf.profiles, server_id) {
        let profile = &conf.profiles[i];
        assert(conf@.profiles[i as int] == profile@);
        if let Some(j) = find_progress(&profile.progresses, guide_id) {
            let progress = &profile.progresses[j];
            assert(profile@.progresses[j as int] == progress@);
            if progress.current_step == current_step && same_steps(&progress.steps, steps) {
                return Some((i, j));
            }
        }
    }
    None
}

fn acknowledge(conf: &mut Conf, i: usize, j: usize, stamp: String)
    requires
        i < old(conf).profiles.len(),
        j < old(conf).profiles[i as int].progresses.len(),
    ensures
        final(conf)@ == (ConfView {
            profiles: with_acknowledged(old(conf)@.profiles, i as int, j as int, stamp@),
            ..old(conf)@
        }),
{
    let profile = &mut conf.profiles[i];
    let progress = &mut profile.progresses[j];
    progress.updated_at = Some(stamp);
    progress.sync_pending = false;
    assert(conf@.profiles[i as int].progresses =~= old(conf)@.profiles[i as int].progresses.update(
        j as int,
        acknowledged(old(conf)@.profiles[i as int].progresses[j as int], stamp@),
    ));
    assert(conf@.profiles =~= with_acknowledged(
        old(conf)@.profiles,
        i as int,
        j as int,
        stamp@,
    ));
}

/// Clears the pending flag of a progress that the server acknowledged and gives it the timestamp
/// `stamp`. Says whether the configuration changed.
pub fn mark_progress_stamped(
    conf: &mut Conf,
    server_id: u32,
    guide_id: u32,
    current_step: u32,
    steps: &HashMap<u32, ConfStep>,
    stamp: &str,
) -> (changed: bool)
    ensures
        ({
            let push = PushView { server_id, guide_id, current_step, steps: steps_view(steps@) };
            &&& changed == can_mark(old(conf)@.profiles, push)
            &&& final(conf)@ == marked_conf(old(conf)@, push, stamp@)
        }),
{
    match find_pushed(conf, server_id, guide_id, current_step, steps) {
        Some((i, j)) => {
            acknowledge(conf, i, j, stamp.to_owned());
            true
        },
        None => false,
    }
}

/// The configuration went from `before` to `after` on the acknowledgement of a push that the
/// server stamped with `updated_at`, or, where it sent no timestamp, on the local clock.
pub open spec fn synced(
    before: ConfView,
    after: ConfView,
    push: PushView,
    updated_at: Option<Seq<char>>,
) -> bool {
    if can_mark(before.profiles, push) {
        match updated_at {
            Some(stamp) => after == marked_conf(before, push, stamp),
            None => exists|stamp: Seq<char>|
                is_clock_text(stamp) && after == #[trigger] marked_conf(before, push, stamp),
        }
    } else {
        after == before
    }
}

/// Clears the pending flag and aligns the local timestamp with the one that the server assigned to
/// the pushed progress, so that a later full synchronisation does not take the remote copy for a
/// newer one. Where the server sent no timestamp, the local clock stands in for it. Says whether
/// the configuration changed.
pub fn mark_progress_synced(
    conf: &mut Conf,
    server_id: u32,
    guide_id: u32,
    current_step: u32,
    steps: &HashMap<u32, ConfStep>,
    updated_at: Option<&str>,
) -> (changed: bool)
    ensures
        ({
            let push = PushView { server_id, guide_id, current_step, steps: steps_view(steps@) };
            &&& changed == can_mark(old(conf)@.profiles, push)
            &&& synced(
                old(conf)@,
                final(conf)@,
                push,
                match updated_at {
                    Some(stamp) => Some(stamp@),
                    None => None,
                },
            )
        }),
{
    match find_pushed(conf, server_id, guide_id, current_step, steps) {
        Some((i, j)) => {
            let stamp = match updated_at {
                Some(stamp) => stamp.to_owned(),
                None => now_text(),
            };
            acknowledge(conf, i, j, stamp);
            proof {
                let push = PushView {
                    server_id,
                    guide_id,
                    current_step,
                    steps: steps_view(steps@),
                };
                assert(marks(old(conf)@.profiles, push, i as int, j as int));
                assert(conf@ == marked_conf(old(conf)@, push, stamp@));
            }
            true
        },
        None => false,
    }
}

} // verus!
