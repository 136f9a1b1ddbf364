use std::collections::HashMap;

use ganymede::conf::{Conf, ConfStep, Profile, Progress};
use ganymede::merge::{apply_remote_progress, has_local_pending_changes, merge_remote_profiles};
use ganymede::remote::{RemoteProfileResponse, RemoteProgressResponse};
use ganymede::steps::{deserialize_steps, SentSteps};
use ganymede::timestamp::is_remote_newer;
use serde_json::Value;

const REMOTE_WITHOUT_CHECKBOXES: &str = r#"[{"id":1,"uuid":"local-uuid","name":"Player","progresses":[{"id":42,"current_step":0,"steps":{},"updated_at":"2026-07-25T10:00:00.000000Z"}]}]"#;

fn number(value: &Value) -> u32 {
    value.as_u64().unwrap() as u32
}

fn text(value: &Value) -> String {
    value.as_str().unwrap().to_owned()
}

fn step(value: &Value) -> ConfStep {
    ConfStep {
        checkboxes: value["checkboxes"].as_array().unwrap().iter().map(number).collect(),
    }
}

fn sent_steps(value: &Value) -> SentSteps {
    match value {
        Value::Null => SentSteps::Missing,
        Value::Array(list) => SentSteps::List(list.iter().map(step).collect()),
        Value::Object(entries) => {
            SentSteps::Keyed(entries.iter().map(|(k, v)| (k.clone(), step(v))).collect())
        }
        other => panic!("not steps: {}", other),
    }
}

fn remote_progress(value: &Value) -> RemoteProgressResponse {
    RemoteProgressResponse {
        id: number(&value["id"]),
        current_step: number(&value["current_step"]),
        steps: deserialize_steps(sent_steps(&value["steps"])).unwrap(),
        updated_at: text(&value["updated_at"]),
    }
}

fn remote_profile(value: &Value) -> RemoteProfileResponse {
    RemoteProfileResponse {
        id: number(&value["id"]),
        uuid: value["uuid"].as_str().map(str::to_owned),
        name: text(&value["name"]),
        progresses: value["progresses"].as_array().unwrap().iter().map(remote_progress).collect(),
    }
}

fn remote_profiles(json: &str) -> Vec<RemoteProfileResponse> {
    let value: Value = serde_json::from_str(json).unwrap();
    value.as_array().unwrap().iter().map(remote_profile).collect()
}

fn parse_progress(json: &str) -> RemoteProgressResponse {
    let value: Value = serde_json::from_str(json).unwrap();
    remote_progress(&value)
}

fn local_progress(updated_at: Option<&str>, sync_pending: bool) -> Progress {
    let mut steps = HashMap::new();
    steps.insert(
        3,
        ConfStep {
            checkboxes: vec![0, 2],
        },
    );

    Progress {
        id: 42,
        current_step: 3,
        steps,
        updated_at: updated_at.map(str::to_owned),
        sync_pending,
    }
}

fn conf_with(progress: Progress) -> Conf {
    Conf {
        profiles: vec![Profile {
            id: "local-uuid".to_owned(),
            name: "Player".to_owned(),
            level: 200,
            progresses: vec![progress],
            server_id: Some(1),
        }],
        profile_in_use: "local-uuid".to_owned(),
    }
}

fn merge(conf: &mut Conf, remote: &str) {
    merge_remote_profiles(conf, &remote_profiles(remote));
}

#[test]
fn keeps_local_checkboxes_when_the_push_is_still_pending() {
    let mut conf = conf_with(local_progress(Some("2026-07-24T10:00:00.000000Z"), true));

    merge(&mut conf, REMOTE_WITHOUT_CHECKBOXES);

    let progress = &conf.profiles[0].progresses[0];

    assert_eq!(progress.steps[&3].checkboxes, vec![0, 2]);
    assert_eq!(progress.current_step, 3);
    assert!(progress.sync_pending);
}

#[test]
fn keeps_local_checkboxes_when_the_progress_was_never_synced() {
    let mut conf = conf_with(local_progress(None, false));

    merge(&mut conf, REMOTE_WITHOUT_CHECKBOXES);

    assert_eq!(
        conf.profiles[0].progresses[0].steps[&3].checkboxes,
        vec![0, 2]
    );
}

#[test]
fn applies_the_remote_progress_when_it_is_newer_and_nothing_is_pending() {
    let mut conf = conf_with(local_progress(Some("2026-07-24T10:00:00.000000Z"), false));

    merge(&mut conf, REMOTE_WITHOUT_CHECKBOXES);

    let progress = &conf.profiles[0].progresses[0];

    assert!(progress.steps.is_empty());
    assert_eq!(progress.current_step, 0);
    assert_eq!(
        progress.updated_at.as_deref(),
        Some("2026-07-25T10:00:00.000000Z")
    );
}

#[test]
fn keeps_the_local_progress_when_the_remote_is_older() {
    let mut conf = conf_with(local_progress(Some("2026-07-26T10:00:00.000000Z"), false));

    merge(&mut conf, REMOTE_WITHOUT_CHECKBOXES);

    assert_eq!(
        conf.profiles[0].progresses[0].steps[&3].checkboxes,
        vec![0, 2]
    );
}

#[test]
fn adds_profiles_and_progresses_only_known_by_the_server() {
    let mut conf = conf_with(local_progress(Some("2026-07-26T10:00:00.000000Z"), false));

    merge(
        &mut conf,
        r#"[{"id":2,"uuid":"remote-uuid","name":"Alt","progresses":[{"id":7,"current_step":1,"steps":{"1":{"checkboxes":[4]}},"updated_at":"2026-07-25T10:00:00.000000Z"}]}]"#,
    );

    let profile = conf
        .profiles
        .iter()
        .find(|p| p.id == "remote-uuid")
        .expect("remote profile should have been added");

    assert_eq!(profile.server_id, Some(2));
    assert_eq!(profile.progresses[0].steps[&1].checkboxes, vec![4]);
    assert!(!profile.progresses[0].sync_pending);
}

#[test]
fn deserializes_steps_sent_back_as_an_indexed_map() {
    let json = r#"{"id":42,"current_step":3,"steps":{"3":{"checkboxes":[0,2]}},"updated_at":"2026-07-24T10:06:40.000000Z"}"#;

    let progress: RemoteProgressResponse = parse_progress(json);

    assert_eq!(progress.steps.len(), 1);
    assert_eq!(progress.steps[&3].checkboxes, vec![0, 2]);
}

#[test]
fn deserializes_steps_sent_back_as_a_list() {
    let json = r#"{"id":42,"current_step":1,"steps":[{"checkboxes":[]},{"checkboxes":[1]}],"updated_at":"2026-07-24T10:06:40.000000Z"}"#;

    let progress: RemoteProgressResponse = parse_progress(json);

    assert_eq!(progress.steps.len(), 2);
    assert_eq!(progress.steps[&1].checkboxes, vec![1]);
}

#[test]
fn deserializes_missing_steps() {
    let json =
        r#"{"id":42,"current_step":0,"steps":null,"updated_at":"2026-07-24T10:06:40.000000Z"}"#;

    let progress: RemoteProgressResponse = parse_progress(json);

    assert!(progress.steps.is_empty());
}

#[test]
fn compares_timestamps_written_in_different_formats() {
    let local = "2026-07-24T10:06:40.123456789+00:00".to_string();

    assert!(is_remote_newer(Some(&local), "2026-07-24T10:06:41.000000Z"));
    assert!(!is_remote_newer(
        Some(&local),
        "2026-07-24T10:06:40.000000Z"
    ));
    assert!(is_remote_newer(None, "2026-07-24T10:06:40.000000Z"));
}

#[test]
fn pending_is_the_flag_or_a_missing_timestamp() {
    assert!(has_local_pending_changes(&local_progress(Some("2026-07-24T10:00:00Z"), true)));
    assert!(has_local_pending_changes(&local_progress(None, false)));
    assert!(!has_local_pending_changes(&local_progress(Some("2026-07-24T10:00:00Z"), false)));
}

#[test]
fn an_older_copy_is_never_applied() {
    let remote = parse_progress(
        r#"{"id":42,"current_step":9,"steps":[],"updated_at":"2026-07-25T10:00:00Z"}"#,
    );
    let mut progress = local_progress(Some("2026-07-24T10:00:00Z"), false);

    apply_remote_progress(&mut progress, &remote, false);
    assert_eq!(progress.current_step, 3);

    apply_remote_progress(&mut progress, &remote, true);
    assert_eq!(progress.current_step, 9);
    assert_eq!(progress.id, 42);
    assert!(progress.steps.is_empty());
}

#[test]
fn a_known_profile_takes_the_name_and_identifier_of_the_server() {
    let mut conf = conf_with(local_progress(None, true));
    conf.profiles[0].level = 87;

    merge(&mut conf, r#"[{"id":5,"uuid":"local-uuid","name":"Renamed","progresses":[]}]"#);

    assert_eq!(conf.profiles.len(), 1);
    assert_eq!(conf.profiles[0].name, "Renamed");
    assert_eq!(conf.profiles[0].server_id, Some(5));
    assert_eq!(conf.profiles[0].level, 87);
    assert_eq!(conf.profile_in_use, "local-uuid");
}

#[test]
fn a_new_profile_has_the_default_level() {
    let mut conf = Conf {
        profiles: vec![],
        profile_in_use: String::new(),
    };

    merge(&mut conf, r#"[{"id":5,"uuid":"new","name":"New","progresses":[]}]"#);

    assert_eq!(conf.profiles.len(), 1);
    assert_eq!(conf.profiles[0].level, 200);
    assert_eq!(conf.profiles[0].id, "new");
}

#[test]
fn a_remote_profile_without_identifier_is_ignored() {
    let mut conf = conf_with(local_progress(None, false));

    merge(&mut conf, r#"[{"id":5,"uuid":null,"name":"Other","progresses":[]}]"#);

    assert_eq!(conf.profiles.len(), 1);
    assert_eq!(conf.profiles[0].name, "Player");
    assert_eq!(conf.profiles[0].server_id, Some(1));
}

#[test]
fn a_progress_only_on_the_server_is_appended() {
    let mut conf = conf_with(local_progress(None, false));

    merge(
        &mut conf,
        r#"[{"id":1,"uuid":"local-uuid","name":"Player","progresses":[{"id":7,"current_step":1,"steps":{"1":{"checkboxes":[4]}},"updated_at":"2026-07-25T10:00:00Z"}]}]"#,
    );

    let progresses = &conf.profiles[0].progresses;
    assert_eq!(progresses.len(), 2);
    assert_eq!(progresses[0].id, 42);
    assert_eq!(progresses[1].id, 7);
    assert_eq!(progresses[1].updated_at.as_deref(), Some("2026-07-25T10:00:00Z"));
    assert!(!progresses[1].sync_pending);
}

#[test]
fn an_unmentioned_profile_is_left_alone() {
    let mut conf = conf_with(local_progress(Some("2026-07-24T10:00:00Z"), false));

    merge(&mut conf, r#"[{"id":9,"uuid":"other","name":"Other","progresses":[]}]"#);

    assert_eq!(conf.profiles.len(), 2);
    assert_eq!(conf.profiles[0].name, "Player");
    assert_eq!(conf.profiles[0].progresses[0].current_step, 3);
    assert_eq!(conf.profiles[1].id, "other");
}

#[test]
fn an_empty_reply_leaves_everything_alone() {
    let mut conf = conf_with(local_progress(Some("2026-07-24T10:00:00Z"), false));

    merge(&mut conf, "[]");

    assert_eq!(conf.profiles.len(), 1);
    assert_eq!(conf.profiles[0].progresses[0].current_step, 3);
}

#[test]
fn merging_twice_gives_the_same_configuration() {
    let reply = r#"[{"id":1,"uuid":"local-uuid","name":"A","progresses":[{"id":42,"current_step":1,"steps":null,"updated_at":"2026-07-25T10:00:00Z"},{"id":8,"current_step":2,"steps":[],"updated_at":"yesterday"}]},{"id":3,"uuid":"new","name":"B","progresses":[]}]"#;
    let mut once = conf_with(local_progress(Some("2026-07-24T10:00:00Z"), false));
    let mut twice = conf_with(local_progress(Some("2026-07-24T10:00:00Z"), false));

    merge(&mut once, reply);
    merge(&mut twice, reply);
    merge(&mut twice, reply);

    assert_eq!(format!("{:?}", once), format!("{:?}", twice));
    assert_eq!(once.profiles[0].progresses[0].current_step, 1);
}

#[test]
fn a_profile_named_twice_and_unknown_is_added_once() {
    let mut conf = conf_with(local_progress(None, false));

    merge(
        &mut conf,
        r#"[{"id":2,"uuid":"new","name":"First","progresses":[]},{"id":3,"uuid":"new","name":"Second","progresses":[]}]"#,
    );

    assert_eq!(conf.profiles.len(), 2);
    assert_eq!(conf.profiles[1].name, "First");
    assert_eq!(conf.profiles[1].server_id, Some(2));
}
