use std::collections::HashMap;

use ganymede::conf::{self, ConfStep};
use ganymede::error::Error;
use ganymede::exchange::{
    bare_refusal_message, change_profile_on_server, create_profile_on_server,
    create_profile_request, delete_profile_request, is_success, refusal_message,
    rename_profile_request, sync_profiles_on_server, sync_profiles_request,
    sync_progress_on_server, sync_progress_request, Body, Method, Reply, SendFailure, Sent,
};

const API: &str = "https://server.example/api";

fn reply(status: u16, body: &str) -> Sent {
    Ok(Reply {
        status,
        body: Ok(body.to_owned()),
    })
}

fn unreadable(status: u16) -> Sent {
    Ok(Reply {
        status,
        body: Err("connection reset".to_owned()),
    })
}

fn transport(connect: bool, timeout: bool) -> Sent {
    Err(SendFailure::Transport {
        connect,
        timeout,
        message: "it broke".to_owned(),
    })
}

fn expired() -> Sent {
    Err(SendFailure::TokenExpired)
}

#[test]
fn only_the_two_hundreds_are_success() {
    assert!(!is_success(199));
    assert!(is_success(200));
    assert!(is_success(204));
    assert!(is_success(299));
    assert!(!is_success(300));
    assert!(!is_success(422));
}

#[test]
fn refusals_are_put_in_words() {
    assert_eq!(refusal_message("403 Forbidden", "no"), "HTTP 403 Forbidden: no");
    assert_eq!(bare_refusal_message("500 Internal Server Error"), "HTTP 500 Internal Server Error");
}

#[test]
fn creation_asks_with_name_and_identifier() {
    let request = create_profile_request(API, "Player", "some-uuid");

    assert_eq!(request.method, Method::Post);
    assert_eq!(request.url, "https://server.example/api/profiles");
    match request.body {
        Body::NewProfile { name, uuid } => {
            assert_eq!(name, "Player");
            assert_eq!(uuid, "some-uuid");
        }
        other => panic!("unexpected body: {:?}", other),
    }
}

#[test]
fn renaming_asks_with_the_name() {
    let request = rename_profile_request(API, 17, "New");

    assert_eq!(request.method, Method::Patch);
    assert_eq!(request.url, "https://server.example/api/profiles/17");
    assert!(matches!(request.body, Body::Name { name } if name == "New"));
}

#[test]
fn deletion_asks_with_nothing() {
    let request = delete_profile_request(API, 4294967295);

    assert_eq!(request.method, Method::Delete);
    assert_eq!(request.url, "https://server.example/api/profiles/4294967295");
    assert!(matches!(request.body, Body::Empty));
}

#[test]
fn a_progress_is_put_under_its_profile_and_guide() {
    let steps = HashMap::from([(3, ConfStep { checkboxes: vec![0, 2] })]);
    let request = sync_progress_request(API, 1, 42, 3, &steps);

    assert_eq!(request.method, Method::Put);
    assert_eq!(request.url, "https://server.example/api/profiles/1/progress/42");
    match request.body {
        Body::Progress { current_step, steps } => {
            assert_eq!(current_step, 3);
            assert_eq!(steps.len(), 1);
            assert_eq!(steps[&3].checkboxes, vec![0, 2]);
        }
        other => panic!("unexpected body: {:?}", other),
    }
}

#[test]
fn profiles_are_posted_together() {
    let request = sync_profiles_request(API, vec![]);

    assert_eq!(request.method, Method::Post);
    assert_eq!(request.url, "https://server.example/api/profiles/sync");
    assert!(matches!(request.body, Body::Profiles { profiles } if profiles.is_empty()));
}

#[test]
fn a_change_of_a_profile_is_answered() {
    assert!(change_profile_on_server(reply(204, "")).is_ok());
    assert!(change_profile_on_server(unreadable(200)).is_ok());
    assert_eq!(
        change_profile_on_server(reply(403, "not yours\n")).unwrap_err().message(),
        "request failed: HTTP 403 Forbidden: not yours\n"
    );
    assert_eq!(
        change_profile_on_server(unreadable(500)).unwrap_err().message(),
        "request failed: HTTP 500 Internal Server Error: "
    );
    assert_eq!(
        change_profile_on_server(transport(true, true)).unwrap_err().message(),
        "request failed: it broke"
    );
    assert!(matches!(change_profile_on_server(expired()), Err(Error::TokenExpired)));
}

#[test]
fn a_status_without_a_reason_is_still_named() {
    assert_eq!(
        change_profile_on_server(reply(599, "x")).unwrap_err().message(),
        "request failed: HTTP 599 <unknown status code>: x"
    );
}

#[test]
fn a_creation_is_answered() {
    assert_eq!(create_profile_on_server(reply(201, "{\"id\":3}")).unwrap(), "{\"id\":3}");
    assert_eq!(
        create_profile_on_server(reply(404, "gone")).unwrap_err().message(),
        "request failed: HTTP 404 Not Found: gone"
    );
    assert_eq!(
        create_profile_on_server(unreadable(200)).unwrap_err().message(),
        "request failed: connection reset"
    );
    assert_eq!(
        create_profile_on_server(transport(true, false)).unwrap_err().message(),
        "request failed: it broke"
    );
    assert!(matches!(create_profile_on_server(expired()), Err(Error::TokenExpired)));
}

#[test]
fn a_sent_progress_is_answered() {
    assert_eq!(sync_progress_on_server(reply(200, "{}")).unwrap(), Some("{}".to_owned()));
    assert_eq!(sync_progress_on_server(unreadable(200)).unwrap(), None);
    assert!(matches!(
        sync_progress_on_server(reply(404, "")),
        Err(Error::ProfileOrGuideNotFound)
    ));
    assert_eq!(
        sync_progress_on_server(reply(500, "a\nb\nc")).unwrap_err().message(),
        "request failed: HTTP 500 Internal Server Error: a b c"
    );
    assert!(matches!(sync_progress_on_server(transport(true, false)), Err(Error::NotConnected)));
    assert!(matches!(sync_progress_on_server(transport(false, true)), Err(Error::NotConnected)));
    assert_eq!(
        sync_progress_on_server(transport(false, false)).unwrap_err().message(),
        "request failed: it broke"
    );
    assert!(matches!(sync_progress_on_server(expired()), Err(Error::TokenExpired)));
}

#[test]
fn at_most_three_hundred_line_breaks_are_flattened() {
    let body = "\n".repeat(302);
    let message = sync_progress_on_server(reply(400, &body)).unwrap_err().message();

    assert_eq!(message, format!("request failed: HTTP 400 Bad Request: {}\n\n", " ".repeat(300)));
}

#[test]
fn a_full_synchronisation_is_answered() {
    assert_eq!(sync_profiles_on_server(reply(200, "body")).unwrap(), "body");
    assert_eq!(
        sync_profiles_on_server(unreadable(200)).unwrap_err().message(),
        "request failed: connection reset"
    );
    assert_eq!(
        sync_profiles_on_server(reply(422, "too long")).unwrap_err().message(),
        "validation error: too long"
    );
    assert_eq!(
        sync_profiles_on_server(unreadable(422)).unwrap_err().message(),
        "validation error: "
    );
    assert_eq!(
        sync_profiles_on_server(reply(404, "nothing here")).unwrap_err().message(),
        "request failed: HTTP 404 Not Found"
    );
    assert!(matches!(sync_profiles_on_server(transport(false, true)), Err(Error::NotConnected)));
    assert!(matches!(sync_profiles_on_server(expired()), Err(Error::TokenExpired)));
}

#[test]
fn errors_are_put_in_words() {
    assert_eq!(Error::TokensNotFound.message(), "tokens not found");
    assert_eq!(Error::NotConnected.message(), "user not connected");
    assert_eq!(Error::RequestFailed("x".to_owned()).message(), "request failed: x");
    assert_eq!(Error::InvalidResponse("x".to_owned()).message(), "invalid response: x");
    assert_eq!(
        Error::Conf(conf::Error { message: "x".to_owned() }).message(),
        "conf error: x"
    );
    assert_eq!(
        Error::ProfileOrGuideNotFound.message(),
        "profile or guide not found on server"
    );
    assert_eq!(Error::ValidationError("x".to_owned()).message(), "validation error: x");
    assert_eq!(Error::TokenExpired.message(), "token expired");
}
