use codemark::cli::login::{
    device_start, login_message, logout_message, poll_step, DeviceReply, PollOutcome, PollReply,
};
use codemark::error::Error;
use codemark::DEFAULT_SERVER_URL;

fn reply(uri: Option<&str>, user: Option<&str>, device: Option<&str>) -> DeviceReply {
    DeviceReply {
        verification_uri: uri.map(|s| s.to_string()),
        user_code: user.map(|s| s.to_string()),
        device_code: device.map(|s| s.to_string()),
        interval: None,
        expires_in: None,
    }
}

#[test]
fn device_start_uses_defaults() {
    let s = device_start(&reply(Some("https://gh/device"), Some("AB-12"), Some("dc"))).unwrap();
    assert_eq!(s.verification_uri, "https://gh/device");
    assert_eq!(s.user_code, "AB-12");
    assert_eq!(s.device_code, "dc");
    assert_eq!(s.interval, 5);
    assert_eq!(s.expires_in, 300);

    let mut r = reply(Some("u"), Some("c"), Some("d"));
    r.interval = Some(7);
    r.expires_in = Some(60);
    let s = device_start(&r).unwrap();
    assert_eq!((s.interval, s.expires_in), (7, 60));
}

#[test]
fn device_start_reports_the_first_missing_field() {
    let e = device_start(&reply(None, None, None)).unwrap_err();
    assert_eq!(e, Error::Operation("Missing verification_uri".to_string()));
    let e = device_start(&reply(Some("u"), None, None)).unwrap_err();
    assert_eq!(e, Error::Operation("Missing user_code".to_string()));
    let e = device_start(&reply(Some("u"), Some("c"), None)).unwrap_err();
    assert_eq!(e, Error::Operation("Missing device_code".to_string()));
}

fn poll(token: Option<&str>, username: Option<&str>, error: Option<&str>) -> PollReply {
    PollReply {
        token: token.map(|s| s.to_string()),
        username: username.map(|s| s.to_string()),
        email: None,
        error: error.map(|s| s.to_string()),
    }
}

#[test]
fn poll_token_logs_in_with_the_right_username() {
    match poll_step(5, &poll(Some("tok"), Some("octo"), None), None) {
        PollOutcome::LoggedIn { token, username, email } => {
            assert_eq!(token, "tok");
            assert_eq!(username, "octo");
            assert_eq!(email, None);
        }
        other => panic!("unexpected {other:?}"),
    }
    match poll_step(5, &poll(Some("tok"), Some("octo"), None), Some("me")) {
        PollOutcome::LoggedIn { username, .. } => assert_eq!(username, "me"),
        other => panic!("unexpected {other:?}"),
    }
    match poll_step(5, &poll(Some("tok"), None, Some("slow_down")), None) {
        PollOutcome::LoggedIn { username, .. } => assert_eq!(username, "default"),
        other => panic!("unexpected {other:?}"),
    }
}

#[test]
fn poll_errors_decide_the_next_step() {
    assert!(matches!(
        poll_step(5, &poll(None, None, Some("authorization_pending")), None),
        PollOutcome::Wait { interval: 5 }
    ));
    assert!(matches!(
        poll_step(5, &poll(None, None, Some("slow_down")), None),
        PollOutcome::Wait { interval: 10 }
    ));
    assert!(matches!(
        poll_step(u64::MAX - 2, &poll(None, None, Some("slow_down")), None),
        PollOutcome::Wait { interval: u64::MAX }
    ));
    assert!(matches!(poll_step(9, &poll(None, None, None), None), PollOutcome::Wait { interval: 9 }));
    match poll_step(5, &poll(None, None, Some("expired_token")), None) {
        PollOutcome::Failed(e) => {
            assert_eq!(e, Error::Operation("Device code expired".to_string()))
        }
        other => panic!("unexpected {other:?}"),
    }
    match poll_step(5, &poll(None, None, Some("access_denied")), None) {
        PollOutcome::Failed(e) => {
            assert_eq!(e, Error::Operation("Auth error: access_denied".to_string()))
        }
        other => panic!("unexpected {other:?}"),
    }
}

#[test]
fn login_and_logout_messages() {
    assert_eq!(
        login_message("https://codetours.fly.dev", "octo"),
        "Logged in to https://codetours.fly.dev as octo"
    );
    let users = vec!["alice".to_string(), "bob".to_string()];
    assert_eq!(logout_message("https://s", &users, None).unwrap(), "Logged out from https://s");
    assert_eq!(
        logout_message("https://s", &users, Some("bob")).unwrap(),
        "Logged out bob from https://s"
    );
    assert_eq!(
        logout_message("https://s", &users, Some("carol")).unwrap_err(),
        Error::Operation("Not logged in to https://s as carol".to_string())
    );
    assert_eq!(
        logout_message("https://s", &[], None).unwrap_err(),
        Error::Operation("Not logged in to https://s".to_string())
    );
}

#[test]
fn default_server_is_codetours() {
    assert_eq!(login_message(DEFAULT_SERVER_URL, "me"), "Logged in to https://codetours.fly.dev as me");
}
