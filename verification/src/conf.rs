//! The part of the local configuration that takes part in synchronisation: profiles, and the
//! progress of each through its guides.

use std::collections::HashMap;
use vstd::prelude::*;

verus! {

/// Why the configuration could not be read or written, in words.
#[derive(Debug)]
pub struct Error {
    pub message: String,
}

/// What was ticked in one step of a guide.
#[derive(Debug)]
pub struct ConfStep {
    pub checkboxes: Vec<u32>,
}

impl Clone for ConfStep {
    fn clone(&self) -> (step: ConfStep)
        ensures
            step.checkboxes@ == self.checkboxes@,
    {
        ConfStep { checkboxes: self.checkboxes.clone() }
    }
}

/// How far a profile is in one guide.
#[derive(Debug)]
pub struct Progress {
    /// The guide.
    pub id: u32,
    pub current_step: u32,
    pub steps: HashMap<u32, ConfStep>,
    /// When the server last stamped this progress, if it ever did.
    pub updated_at: Option<String>,
    /// The progress changed locally since the server last acknowledged it.
    pub sync_pending: bool,
}

#[derive(Debug)]
pub struct Profile {
    pub id: String,
    pub name: String,
    pub level: u32,
    pub progresses: Vec<Progress>,
    /// The profile's identifier on the server, once it is known there.
    pub server_id: Option<u32>,
}

#[derive(Debug)]
pub struct Conf {
    pub profiles: Vec<Profile>,
    pub profile_in_use: String,
}

/// The ticked checkboxes of each step, by step index.
pub type StepsView = Map<u32, Seq<u32>>;

pub struct ProgressView {
    pub id: u32,
    pub current_step: u32,
    pub steps: StepsView,
    pub updated_at: Option<Seq<char>>,
    pub sync_pending: bool,
}

pub struct ProfileView {
    pub id: Seq<char>,
    pub name: Seq<char>,
    pub level: u32,
    pub progresses: Seq<ProgressView>,
    pub server_id: Option<u32>,
}

pub struct ConfView {
    pub profiles: Seq<ProfileView>,
    pub profile_in_use: Seq<char>,
}

pub open spec fn steps_view(steps: Map<u32, ConfStep>) -> StepsView {
    steps.map_values(|step: ConfStep| step.checkboxes@)
}

pub open spec fn text_view(text: Option<String>) -> Option<Seq<char>> {
    match text {
        Some(text) => Some(text@),
        None => None,
    }
}

impl View for Progress {
    type V = ProgressView;

    open spec fn view(&self) -> ProgressView {
        ProgressView {
            id: self.id,
            current_step: self.current_step,
            steps: steps_view(self.steps@),
            updated_at: text_view(self.updated_at),
            sync_pending: self.sync_pending,
        }
    }
}

pub open spec fn progresses_view(progresses: Seq<Progress>) -> Seq<ProgressView> {
    Seq::new(progresses.len(), |i: int| progresses[i]@)
}

impl View for Profile {
    type V = ProfileView;

    open spec fn view(&self) -> ProfileView {
        ProfileView {
            id: self.id@,
            name: self.name@,
            level: self.level,
            progresses: progresses_view(self.progresses@),
            server_id: self.server_id,
        }
    }
}

pub open spec fn profiles_view(profiles: Seq<Profile>) -> Seq<ProfileView> {
    Seq::new(profiles.len(), |i: int| profiles[i]@)
}

impl View for Conf {
    type V = ConfView;

    open spec fn view(&self) -> ConfView {
        ConfView {
            profiles: profiles_view(self.profiles@),
            profile_in_use: self.profile_in_use@,
        }
    }
}

/// The progress at `at` is the first one for the guide `id`.
pub open spec fn first_for_guide(progresses: Seq<ProgressView>, id: u32, at: int) -> bool {
    &&& 0 <= at < progresses.len()
    &&& progresses[at].id == id
    &&& forall|k: int| 0 <= k < at ==> (#[trigger] progresses[k]).id != id
}

/// Some progress is for the guide `id`.
pub open spec fn has_guide(progresses: Seq<ProgressView>, id: u32) -> bool {
    exists|at: int| first_for_guide(progresses, id, at)
}

/// The profile at `at` is the first one whose identifier is `id`.
pub open spec fn first_with_id(profiles: Seq<ProfileView>, id: Seq<char>, at: int) -> bool {
    &&& 0 <= at < profiles.len()
    &&& profiles[at].id == id
    &&& forall|k: int| 0 <= k < at ==> (#[trigger] profiles[k]).id != id
}

/// Some profile's identifier is `id`.
pub open spec fn has_profile(profiles: Seq<ProfileView>, id: Seq<char>) -> bool {
    exists|at: int| first_with_id(profiles, id, at)
}

/// The profile at `at` is the first one that the server knows as `server_id`.
pub open spec fn first_on_server(profiles: Seq<ProfileView>, server_id: u32, at: int) -> bool {
    &&& 0 <= at < profiles.len()
    &&& profiles[at].server_id == Some(server_id)
    &&& forall|k: int| 0 <= k < at ==> (#[trigger] profiles[k]).server_id != Some(server_id)
}

/// Finds the first progress for a guide.
pub fn find_progress(progresses: &Vec<Progress>, id: u32) -> (found: Option<usize>)
    ensures
        match found {
            Some(at) => first_for_guide(progresses_view(progresses@), id, at as int),
            None => forall|k: int|
                0 <= k < progresses.len() ==> (#[trigger] progresses_view(progresses@)[k]).id != id,
        },
{
    for at in 0..progresses.len()
        invariant
            forall|k: int|
                0 <= k < at ==> (#[trigger] progresses_view(progresses@)[k]).id != id,
    {
        if progresses[at].id == id {
            return Some(at);
        }
    }
    None
}

/// Finds the first profile with an identifier.
pub fn find_profile(profiles: &Vec<Profile>, id: &String) -> (found: Option<usize>)
    ensures
        match found {
            Some(at) => first_with_id(profiles_view(profiles@), id@, at as int),
            None => forall|k: int|
                0 <= k < profiles.len() ==> (#[trigger] profiles_view(profiles@)[k]).id != id@,
        },
{
    for at in 0..profiles.len()
        invariant
            forall|k: int| 0 <= k < at ==> (#[trigger] profiles_view(profiles@)[k]).id != id@,
    {
        if profiles[at].id == *id {
            return Some(at);
        }
    }
    None
}

/// Finds the first profile that the server knows by an identifier.
pub fn find_on_server(profiles: &Vec<Profile>, server_id: u32) -> (found: Option<usize>)
    ensures
        match found {
            Some(at) => first_on_server(profiles_view(profiles@), server_id, at as int),
            None => forall|k: int|
                0 <= k < profiles.len() ==> (#[trigger] profiles_view(profiles@)[k]).server_id
                    != Some(server_id),
        },
{
    for at in 0..profiles.len()
        invariant
            forall|k: int|
                0 <= k < at ==> (#[trigger] profiles_view(profiles@)[k]).server_id != Some(
                    server_id,
                ),
    {
        if let Some(known) = profiles[at].server_id {
            if known == server_id {
                return Some(at);
            }
        }
    }
    None
}

/// A progress for the guide, wherever it stands, means that there is a first one.
pub proof fn lemma_first_for_guide(progresses: Seq<ProgressView>, id: u32, at: int)
    requires
        0 <= at < progresses.len(),
        progresses[at].id == id,
    ensures
        has_guide(progresses, id),
    decreases at,
{
    if exists|k: int| 0 <= k < at && (#[trigger] progresses[k]).id == id {
        let k = choose|k: int| 0 <= k < at && (#[trigger] progresses[k]).id == id;
        lemma_first_for_guide(progresses, id, k);
    } else {
        assert(first_for_guide(progresses, id, at));
    }
}

/// A profile with the identifier, wherever it stands, means that there is a first one.
pub proof fn lemma_first_with_id(profiles: Seq<ProfileView>, id: Seq<char>, at: int)
    requires
        0 <= at < profiles.len(),
        profiles[at].id == id,
    ensures
        has_profile(profiles, id),
    decreases at,
{
    if exists|k: int| 0 <= k < at && (#[trigger] profiles[k]).id == id {
        let k = choose|k: int| 0 <= k < at && (#[trigger] profiles[k]).id == id;
        lemma_first_with_id(profiles, id, k);
    } else {
        assert(first_with_id(profiles, id, at));
    }
}

} // verus!
