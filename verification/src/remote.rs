//! Profiles and progress as the server sends them.

use crate::conf::{steps_view, text_view, ConfStep, StepsView};
use std::collections::HashMap;
use vstd::prelude::*;

verus! {

/// How far a profile is in one guide, in the server's copy.
#[derive(Debug)]
pub struct RemoteProgressResponse {
    /// The guide.
    pub id: u32,
    pub current_step: u32,
    pub steps: HashMap<u32, ConfStep>,
    pub updated_at: String,
}

#[derive(Debug)]
pub struct RemoteProfileResponse {
    pub id: u32,
    /// The identifier of the local profile, where the server was ever told one.
    pub uuid: Option<String>,
    pub name: String,
    pub progresses: Vec<RemoteProgressResponse>,
}

/// The reply to a full synchronisation.
#[derive(Debug)]
pub struct SyncServerResponse {
    pub profiles: Vec<RemoteProfileResponse>,
}

pub struct RemoteProgressView {
    pub id: u32,
    pub current_step: u32,
    pub steps: StepsView,
    pub updated_at: Seq<char>,
}

pub struct RemoteProfileView {
    pub id: u32,
    pub uuid: Option<Seq<char>>,
    pub name: Seq<char>,
    pub progresses: Seq<RemoteProgressView>,
}

impl View for RemoteProgressResponse {
    type V = RemoteProgressView;

    open spec fn view(&self) -> RemoteProgressView {
        RemoteProgressView {
            id: self.id,
            current_step: self.current_step,
            steps: steps_view(self.steps@),
            updated_at: self.updated_at@,
        }
    }
}

pub open spec fn remote_progresses_view(
    progresses: Seq<RemoteProgressResponse>,
) -> Seq<RemoteProgressView> {
    Seq::new(progresses.len(), |i: int| progresses[i]@)
}

impl View for RemoteProfileResponse {
    type V = RemoteProfileView;

    open spec fn view(&self) -> RemoteProfileView {
        RemoteProfileView {
            id: self.id,
            uuid: text_view(self.uuid),
            name: self.name@,
            progresses: remote_progresses_view(self.progresses@),
        }
    }
}

pub open spec fn remote_profiles_view(
    profiles: Seq<RemoteProfileResponse>,
) -> Seq<RemoteProfileView> {
    Seq::new(profiles.len(), |i: int| profiles[i]@)
}

} // verus!
