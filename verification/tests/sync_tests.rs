use std::collections::HashMap;

use ganymede::changes::{ChangeState, CreateState};
use ganymede::conf::{self, Conf, ConfStep, Profile, Progress};
use ganymede::error::Error;
use ganymede::exchange::{Body, Method, Reply, Request, SendFailure};
use ganymede::payload::{progress_payload, sync_payload, sync_response, SyncResponse};
use ganymede::procedure::{AccessFailure, Event, Next, Work};
use ganymede::push::{mark_progress_stamped, mark_progress_synced, pending_progresses};
use ganymede::remote::{RemoteProfileResponse, RemoteProgressResponse, SyncServerResponse};
use ganymede::sync::{SyncApiImpl, SyncState};
use ganymede::timestamp::parse_timestamp;
use ganymede::upload::ProgressState;

const API: &str = "https://server.example/api";

fn steps(ticked: Vec<u32>) -> HashMap<u32, ConfStep> {
    HashMap::from([(3, ConfStep { checkboxes: ticked })])
}

fn progress(id: u32, updated_at: Option<&str>, sync_pending: bool) -> Progress {
    Progress {
        id,
        current_step: 3,
        steps: steps(vec![0, 2]),
        updated_at: updated_at.map(str::to_owned),
        sync_pending,
    }
}

fn profile(id: &str, server_id: Option<u32>, progresses: Vec<Progress>) -> Profile {
    Profile {
        id: id.to_owned(),
        name: format!("name of {}", id),
        level: 200,
        progresses,
        server_id,
    }
}

fn conf(profiles: Vec<Profile>) -> Conf {
    Conf {
        profiles,
        profile_in_use: "a".to_owned(),
    }
}

fn sample() -> Conf {
    conf(vec![
        profile(
            "a",
            Some(1),
            vec![
                progress(10, Some("2026-07-24T10:00:00Z"), true),
                progress(11, Some("2026-07-24T10:00:00Z"), false),
                progress(12, None, false),
            ],
        ),
        profile("b", None, vec![progress(13, None, true)]),
        profile("c", Some(3), vec![progress(10, None, false)]),
    ])
}

fn remote() -> SyncServerResponse {
    SyncServerResponse {
        profiles: vec![RemoteProfileResponse {
            id: 9,
            uuid: Some("z".to_owned()),
            name: "Zed".to_owned(),
            progresses: vec![RemoteProgressResponse {
                id: 5,
                current_step: 6,
                steps: steps(vec![7]),
                updated_at: "2026-07-25T10:00:00Z".to_owned(),
            }],
        }],
    }
}

fn replied(status: u16, body: &str) -> Event {
    Event::Replied(Ok(Reply {
        status,
        body: Ok(body.to_owned()),
    }))
}

fn broken_conf() -> conf::Error {
    conf::Error {
        message: "disk full".to_owned(),
    }
}

fn go<S, T>(next: Next<S, T>) -> (S, Work) {
    match next {
        Next::Continue(state, work) => (state, work),
        Next::Finish(_) => panic!("the procedure ended"),
    }
}

fn answer<S, T>(next: Next<S, T>) -> Result<T, Error> {
    match next {
        Next::Continue(_, _) => panic!("the procedure goes on"),
        Next::Finish(answer) => answer,
    }
}

fn request(work: Work) -> Request {
    match work {
        Work::Send(request) => request,
        other => panic!("unexpected work: {:?}", other),
    }
}

fn saved(work: Work) -> Conf {
    match work {
        Work::SaveConf(conf) => conf,
        other => panic!("unexpected work: {:?}", other),
    }
}

fn sending() -> SyncState {
    let (state, work) = SyncApiImpl.sync_profiles(API);
    assert!(matches!(work, Work::Authorize));
    let (state, work) = go(state.advance(Event::Authorized(Ok(()))));
    assert!(matches!(work, Work::ReadConf));
    let (state, work) = go(state.advance(Event::ConfRead(Ok(sample()))));
    let request = request(work);
    assert_eq!(request.method, Method::Post);
    assert_eq!(request.url, "https://server.example/api/profiles/sync");
    state
}

fn rereading() -> SyncState {
    let (state, work) = go(sending().advance(replied(200, "the body")));
    assert!(matches!(work, Work::ParseProfiles(text) if text == "the body"));
    let (state, work) = go(state.advance(Event::ProfilesParsed(Ok(remote()))));
    assert!(matches!(work, Work::ReadConf));
    state
}

fn listing() -> SyncState {
    let (state, work) = go(rereading().advance(Event::ConfRead(Ok(sample()))));
    let merged = saved(work);
    assert_eq!(merged.profiles.len(), 4);
    assert_eq!(merged.profiles[3].id, "z");
    let (state, work) = go(state.advance(Event::ConfSaved(Ok(()))));
    assert!(matches!(work, Work::ReadConf));
    state
}

fn check_response(response: SyncResponse) {
    assert_eq!(response.profiles.len(), 1);
    assert_eq!(response.profiles[0].id, 9);
    assert_eq!(response.profiles[0].uuid.as_deref(), Some("z"));
    assert_eq!(response.profiles[0].name, "Zed");
    assert_eq!(response.profiles[0].progresses[0].id, 5);
    assert_eq!(response.profiles[0].progresses[0].current_step, 6);
    assert_eq!(response.profiles[0].progresses[0].steps[&3].checkboxes, vec![7]);
    assert_eq!(response.profiles[0].progresses[0].updated_at, "2026-07-25T10:00:00Z");
}

#[test]
fn what_is_pending_and_known_to_the_server_is_listed_in_order() {
    let pending = pending_progresses(&sample());
    let listed: Vec<(u32, u32)> = pending.iter().map(|p| (p.server_id, p.guide_id)).collect();

    assert_eq!(listed, vec![(1, 10), (1, 12), (3, 10)]);
    assert_eq!(pending[0].current_step, 3);
    assert_eq!(pending[0].steps[&3].checkboxes, vec![0, 2]);
}

#[test]
fn an_acknowledged_progress_is_settled() {
    let mut conf = sample();

    assert!(mark_progress_synced(&mut conf, 1, 10, 3, &steps(vec![0, 2]), Some("stamp")));

    let progress = &conf.profiles[0].progresses[0];
    assert_eq!(progress.updated_at.as_deref(), Some("stamp"));
    assert!(!progress.sync_pending);
    assert_eq!(pending_progresses(&conf).len(), 2);
}

#[test]
fn a_change_in_flight_stays_pending() {
    let mut conf = sample();

    assert!(!mark_progress_synced(&mut conf, 1, 10, 3, &steps(vec![0]), Some("stamp")));
    assert!(!mark_progress_synced(&mut conf, 1, 10, 4, &steps(vec![0, 2]), Some("stamp")));

    assert!(conf.profiles[0].progresses[0].sync_pending);
    assert_eq!(pending_progresses(&conf).len(), 3);
}

#[test]
fn an_unknown_profile_or_guide_is_not_marked() {
    let mut conf = sample();

    assert!(!mark_progress_synced(&mut conf, 2, 10, 3, &steps(vec![0, 2]), Some("stamp")));
    assert!(!mark_progress_synced(&mut conf, 1, 99, 3, &steps(vec![0, 2]), Some("stamp")));
    assert_eq!(format!("{:?}", conf), format!("{:?}", sample()));
}

#[test]
fn the_local_clock_stands_in_for_a_missing_timestamp() {
    let mut conf = sample();

    assert!(mark_progress_synced(&mut conf, 1, 12, 3, &steps(vec![0, 2]), None));

    let stamp = conf.profiles[0].progresses[2].updated_at.as_deref().unwrap();
    assert!(parse_timestamp(stamp).unwrap().seconds > 1_600_000_000);
}

#[test]
fn a_given_stamp_is_used_as_it_is() {
    let mut conf = sample();

    assert!(mark_progress_stamped(&mut conf, 3, 10, 3, &steps(vec![0, 2]), "now"));
    assert!(!mark_progress_stamped(&mut conf, 3, 11, 3, &steps(vec![0, 2]), "now"));

    assert_eq!(conf.profiles[2].progresses[0].updated_at.as_deref(), Some("now"));
    assert_eq!(conf.profiles[0].progresses[0].updated_at.as_deref(), Some("2026-07-24T10:00:00Z"));
}

#[test]
fn everything_is_in_the_payload() {
    let payload = sync_payload(&sample());

    assert_eq!(payload.len(), 3);
    assert_eq!(payload[0].uuid, "a");
    assert_eq!(payload[0].name, "name of a");
    assert_eq!(payload[0].progresses.len(), 3);
    assert_eq!(payload[0].progresses[0].id, 10);
    assert_eq!(payload[0].progresses[0].updated_at, "2026-07-24T10:00:00Z");
    assert_eq!(payload[0].progresses[0].steps[&3].checkboxes, vec![0, 2]);
    assert!(parse_timestamp(&payload[0].progresses[2].updated_at).is_some());
}

#[test]
fn a_missing_timestamp_is_filled_in() {
    assert_eq!(progress_payload(&progress(1, None, false), "now").updated_at, "now");
    assert_eq!(progress_payload(&progress(1, Some("then"), false), "now").updated_at, "then");
}

#[test]
fn the_servers_profiles_are_handed_on() {
    check_response(sync_response(remote()));
}

#[test]
fn nothing_happens_without_access() {
    let (state, _) = SyncApiImpl.sync_profiles(API);
    let denied = Event::Authorized(Err(AccessFailure::TokensNotFound));
    assert!(matches!(answer(state.advance(denied)), Err(Error::TokensNotFound)));

    let (state, _) = SyncApiImpl.delete_profile(API, 1);
    let denied = Event::Authorized(Err(AccessFailure::TokenExpired));
    assert!(matches!(answer(state.advance(denied)), Err(Error::TokenExpired)));

    let (state, _) = SyncApiImpl.create_profile(API, "n", "u");
    let denied = Event::Authorized(Err(AccessFailure::TokenExpired));
    assert!(matches!(answer(state.advance(denied)), Err(Error::TokenExpired)));

    let (state, _) = SyncApiImpl.sync_progress(API, 1, 2, 3, steps(vec![]));
    let denied = Event::Authorized(Err(AccessFailure::TokensNotFound));
    assert!(matches!(answer(state.advance(denied)), Err(Error::TokensNotFound)));
}

#[test]
fn a_configuration_that_cannot_be_read_or_written_ends_the_synchronisation() {
    let (state, _) = SyncApiImpl.sync_profiles(API);
    let (state, _) = go(state.advance(Event::Authorized(Ok(()))));
    let error = answer(state.advance(Event::ConfRead(Err(broken_conf())))).unwrap_err();
    assert_eq!(error.message(), "conf error: disk full");

    let error = answer(rereading().advance(Event::ConfRead(Err(broken_conf())))).unwrap_err();
    assert_eq!(error.message(), "conf error: disk full");

    let (state, _) = go(rereading().advance(Event::ConfRead(Ok(sample()))));
    let error = answer(state.advance(Event::ConfSaved(Err(broken_conf())))).unwrap_err();
    assert_eq!(error.message(), "conf error: disk full");

    let error = answer(listing().advance(Event::ConfRead(Err(broken_conf())))).unwrap_err();
    assert_eq!(error.message(), "conf error: disk full");
}

#[test]
fn a_refused_synchronisation_is_reported() {
    let error = answer(sending().advance(replied(422, "bad name"))).unwrap_err();
    assert_eq!(error.message(), "validation error: bad name");

    let failed = Event::Replied(Err(SendFailure::TokenExpired));
    assert!(matches!(answer(sending().advance(failed)), Err(Error::TokenExpired)));

    let (state, _) = go(sending().advance(replied(200, "{")));
    let garbled = Event::ProfilesParsed(Err("EOF".to_owned()));
    let error = answer(state.advance(garbled)).unwrap_err();
    assert_eq!(error.message(), "invalid response: EOF");
}

#[test]
fn with_nothing_pending_the_synchronisation_ends() {
    let settled = conf(vec![profile(
        "a",
        Some(1),
        vec![progress(10, Some("2026-07-24T10:00:00Z"), false)],
    )]);

    check_response(answer(listing().advance(Event::ConfRead(Ok(settled)))).unwrap());
}

#[test]
fn every_pending_progress_is_sent_and_failures_do_not_matter() {
    // The first push is acknowledged with a timestamp.
    let (state, work) = go(listing().advance(Event::ConfRead(Ok(sample()))));
    let sent = request(work);
    assert_eq!(sent.method, Method::Put);
    assert_eq!(sent.url, "https://server.example/api/profiles/1/progress/10");
    assert!(matches!(sent.body, Body::Progress { current_step: 3, .. }));
    let (state, work) = go(state.advance(replied(200, "stamped")));
    assert!(matches!(work, Work::ParseStamp(text) if text == "stamped"));
    let (state, work) = go(state.advance(Event::StampParsed(Ok("2026-08-01T00:00:00Z".to_owned()))));
    assert!(matches!(work, Work::ReadConf));
    let (state, work) = go(state.advance(Event::ConfRead(Ok(sample()))));
    let marked = saved(work);
    assert_eq!(
        marked.profiles[0].progresses[0].updated_at.as_deref(),
        Some("2026-08-01T00:00:00Z")
    );
    assert!(!marked.profiles[0].progresses[0].sync_pending);

    // The note cannot be written, and the second push is refused.
    let (state, work) = go(state.advance(Event::ConfSaved(Err(broken_conf()))));
    assert_eq!(request(work).url, "https://server.example/api/profiles/1/progress/12");
    let (state, work) = go(state.advance(replied(404, "")));

    // The third is acknowledged, but its note cannot be taken.
    assert_eq!(request(work).url, "https://server.example/api/profiles/3/progress/10");
    let unreadable = Event::Replied(Ok(Reply {
        status: 200,
        body: Err("reset".to_owned()),
    }));
    let (state, work) = go(state.advance(unreadable));
    assert!(matches!(work, Work::ReadConf));
    check_response(answer(state.advance(Event::ConfRead(Err(broken_conf())))).unwrap());
}

fn uploading() -> ProgressState {
    let (state, work) = SyncApiImpl.sync_progress(API, 1, 10, 3, steps(vec![0, 2]));
    assert!(matches!(work, Work::Authorize));
    let (state, work) = go(state.advance(Event::Authorized(Ok(()))));
    let sent = request(work);
    assert_eq!(sent.url, "https://server.example/api/profiles/1/progress/10");
    state
}

#[test]
fn a_single_progress_is_uploaded_and_noted() {
    let (state, _) = go(uploading().advance(replied(200, "no stamp")));
    let (state, _) = go(state.advance(Event::StampParsed(Err("not JSON".to_owned()))));
    let (state, work) = go(state.advance(Event::ConfRead(Ok(sample()))));
    let marked = saved(work);
    let stamp = marked.profiles[0].progresses[0].updated_at.as_deref().unwrap();
    assert!(parse_timestamp(stamp).unwrap().seconds > 1_600_000_000);
    assert!(answer(state.advance(Event::ConfSaved(Err(broken_conf())))).is_ok());
}

#[test]
fn a_single_progress_that_changed_meanwhile_is_not_noted() {
    let (state, _) = go(uploading().advance(replied(200, "{}")));
    let (state, _) = go(state.advance(Event::StampParsed(Ok("stamp".to_owned()))));
    let mut changed = sample();
    changed.profiles[0].progresses[0].current_step = 4;

    assert!(answer(state.advance(Event::ConfRead(Ok(changed)))).is_ok());
}

#[test]
fn a_single_progress_that_is_refused_is_reported() {
    assert!(matches!(
        answer(uploading().advance(replied(404, ""))),
        Err(Error::ProfileOrGuideNotFound)
    ));
    let offline = Event::Replied(Err(SendFailure::Transport {
        connect: true,
        timeout: false,
        message: "dns".to_owned(),
    }));
    assert!(matches!(answer(uploading().advance(offline)), Err(Error::NotConnected)));
}

#[test]
fn a_profile_is_created() {
    let (state, _): (CreateState, Work) = SyncApiImpl.create_profile(API, "Player", "uuid");
    let (state, work) = go(state.advance(Event::Authorized(Ok(()))));
    let sent = request(work);
    assert_eq!(sent.url, "https://server.example/api/profiles");
    assert!(matches!(sent.body, Body::NewProfile { name, uuid } if name == "Player" && uuid == "uuid"));
    let (state, work) = go(state.advance(replied(201, "{\"id\":5}")));
    assert!(matches!(work, Work::ParseId(text) if text == "{\"id\":5}"));
    assert_eq!(answer(state.advance(Event::IdParsed(Ok(5)))).unwrap(), 5);
}

#[test]
fn a_garbled_identifier_is_reported() {
    let (state, _) = SyncApiImpl.create_profile(API, "Player", "uuid");
    let (state, _) = go(state.advance(Event::Authorized(Ok(()))));
    let (state, _) = go(state.advance(replied(200, "oops")));
    let error = answer(state.advance(Event::IdParsed(Err("expected value".to_owned())))).unwrap_err();

    assert_eq!(error.message(), "invalid response: expected value");
}

#[test]
fn a_profile_is_renamed_and_deleted() {
    let (state, _): (ChangeState, Work) = SyncApiImpl.rename_profile(API, 7, "New");
    let (state, work) = go(state.advance(Event::Authorized(Ok(()))));
    let sent = request(work);
    assert_eq!(sent.method, Method::Patch);
    assert_eq!(sent.url, "https://server.example/api/profiles/7");
    assert!(answer(state.advance(replied(200, ""))).is_ok());

    let (state, _) = SyncApiImpl.delete_profile(API, 7);
    let (state, work) = go(state.advance(Event::Authorized(Ok(()))));
    assert_eq!(request(work).method, Method::Delete);
    let error = answer(state.advance(replied(403, "no"))).unwrap_err();
    assert_eq!(error.message(), "request failed: HTTP 403 Forbidden: no");
}
