use codemark::cli::auth::ServerEntry;
use codemark::cli::pull::pull_plan;
use codemark::error::Error;

fn servers() -> Vec<ServerEntry> {
    vec![
        ServerEntry { name: "team".to_string(), url: "https://team.example".to_string(), token: Some("cfg".to_string()) },
        ServerEntry { name: "open".to_string(), url: "https://open.example".to_string(), token: None },
    ]
}

#[test]
fn tour_url_is_split_at_its_last_tours_segment() {
    let p = pull_plan("https://srv.example/tours/abc", None, None, None, &servers()).unwrap();
    assert_eq!(p.server_url, "https://srv.example");
    assert_eq!(p.tour_id, "abc");
    assert_eq!(p.token, None);

    let p = pull_plan("http://h/tours/x/tours/y", None, Some("flag"), None, &servers()).unwrap();
    assert_eq!(p.server_url, "http://h/tours/x");
    assert_eq!(p.tour_id, "y");
    assert_eq!(p.token, Some("flag".to_string()));
}

#[test]
fn tour_url_without_tours_segment_is_rejected() {
    let e = pull_plan("https://srv.example/abc", None, None, None, &servers()).unwrap_err();
    assert_eq!(e, Error::Input("invalid tour URL format, expected .../tours/<id>".to_string()));
}

#[test]
fn bare_id_needs_a_server() {
    let e = pull_plan("abc", None, None, None, &servers()).unwrap_err();
    assert_eq!(e, Error::Input("server is required when pull by ID".to_string()));
}

#[test]
fn bare_id_with_server_url_or_name() {
    let p = pull_plan("abc", Some("https://direct"), None, Some("team"), &servers()).unwrap();
    assert_eq!((p.server_url.as_str(), p.tour_id.as_str(), p.token), ("https://direct", "abc", None));

    let p = pull_plan("abc", None, None, Some("team"), &servers()).unwrap();
    assert_eq!(p.server_url, "https://team.example");
    assert_eq!(p.token, Some("cfg".to_string()));

    let p = pull_plan("abc", Some("team"), Some("flag"), None, &servers()).unwrap();
    assert_eq!(p.token, Some("flag".to_string()));

    let p = pull_plan("abc", Some("open"), None, None, &servers()).unwrap();
    assert_eq!((p.server_url.as_str(), p.token), ("https://open.example", None));

    let e = pull_plan("abc", Some("nope"), None, None, &servers()).unwrap_err();
    assert_eq!(e, Error::Input("server 'nope' not found in config".to_string()));
}
