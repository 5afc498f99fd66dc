use mpix::error::ErrorKind;
use mpix::handlers::{
    create, event_payload, history_key, index, not_found, stats_events_response,
    stats_tokens_response, status, track, track_response, tracking_stats, user_tokens_key,
    StatsQuery,
};
use mpix::http::{Method, Request};
use mpix::{Auth, Caps, Context};

fn ctx_with(path: &str, auth: Option<Auth>, caps: Caps, body: &[u8]) -> Context {
    let request = Request {
        method: Method::Get,
        path: String::from(path),
        headers: Vec::new(),
        body: body.to_vec(),
    };
    Context::new(request, auth, caps)
}

fn auth_as(token: &str) -> Option<Auth> {
    Some(Auth { user_token: String::from(token) })
}

const CREATED: &str = "2021-03-04T05:06:07+00:00";
const TOKEN_ID: &str = "0123456789abcdef0123456789abcdef";

#[test]
fn status_is_stable_within_a_deployment() {
    let c = ctx_with("/status", None, Caps::empty(), b"");
    let first = status(&c, "abc123").expect("status never fails");
    let second = status(&c, "abc123").expect("status never fails");
    assert_eq!(first.status, 200);
    assert_eq!(first.body, b"{\"status\":\"ok\",\"hash\":\"abc123\"}");
    assert_eq!(first.body, second.body);
    assert_eq!(first.status, second.status);
}

#[test]
fn index_serves_the_landing_page() {
    let c = ctx_with("", None, Caps::empty(), b"");
    let resp = index(&c).expect("index never fails");
    assert_eq!(resp.status, 200);
    assert_eq!(resp.headers, vec![(String::from("content-type"), String::from("text/html"))]);
    let body = String::from_utf8(resp.body).expect("utf-8 html");
    assert!(body.contains("hello!"));
    assert!(body.contains("<html>"));
}

#[test]
fn not_found_is_a_plain_404() {
    let c = ctx_with("/whatever", None, Caps::empty(), b"");
    let resp = not_found(&c).expect("not_found never fails");
    assert_eq!(resp.status, 404);
    assert_eq!(resp.body, b"not found");
}

#[test]
fn key_derivation_is_fixed() {
    assert_eq!(history_key("tok"), "mpix.token:tok");
    assert_eq!(user_tokens_key("u1"), "mpix.user_tokens:u1");
}

#[test]
fn create_frames_the_token_record() {
    let c = ctx_with("/create", auth_as("u1"), Caps::empty(), b"{\"description\":\"test\"}");
    let w = create(&c, TOKEN_ID, CREATED).expect("create succeeds");
    assert_eq!(w.hash_key, "mpix.user_tokens:u1");
    assert_eq!(w.field, TOKEN_ID);
    let expected = format!(
        "{{\"token\":\"{}\",\"description\":\"test\",\"created\":\"{}\"}}",
        TOKEN_ID, CREATED
    );
    assert_eq!(w.value, expected.as_bytes());
    assert_eq!(w.response.status, 200);
    assert_eq!(
        w.response.headers,
        vec![(String::from("content-type"), String::from("application/json"))]
    );
    assert_eq!(w.response.body, w.value);
}

#[test]
fn create_accepts_extra_members_and_escapes() {
    let body = b"{\"other\":[1,2,{\"x\":null}],\"description\":\"a\\\"b\"}";
    let c = ctx_with("/create", auth_as("u1"), Caps::empty(), body);
    let w = create(&c, TOKEN_ID, CREATED).expect("create succeeds");
    let value = String::from_utf8(w.value).expect("utf-8 json");
    assert!(value.contains("\"description\":\"a\\\"b\""));
}

#[test]
fn create_requires_an_identity() {
    let c = ctx_with("/create", None, Caps::empty(), b"{\"description\":\"test\"}");
    let e = create(&c, TOKEN_ID, CREATED).expect_err("no identity");
    assert!(matches!(e.kind(), ErrorKind::S(_)));
}

#[test]
fn create_rejects_an_unparsable_body() {
    for body in [
        &b"not json"[..],
        &b"{}"[..],
        &b"{\"description\":7}"[..],
        &b"[\"description\"]"[..],
    ] {
        let c = ctx_with("/create", auth_as("u1"), Caps::empty(), body);
        let e = create(&c, TOKEN_ID, CREATED).expect_err("bad body");
        assert!(matches!(e.kind(), ErrorKind::BadRequest(_)));
    }
}

#[test]
fn track_derives_the_history_key() {
    let caps = Caps::with(vec![(String::from("token"), String::from("t-1"))]);
    let c = ctx_with("/p/t-1", None, caps, b"");
    assert_eq!(track(&c).expect("token capture present"), "mpix.token:t-1");
}

#[test]
fn track_without_a_capture_is_a_parameter_error() {
    let c = ctx_with("/p/x", None, Caps::empty(), b"");
    let e = track(&c).expect_err("no capture");
    assert!(matches!(e.kind(), ErrorKind::MissingUriParam(_)));
    assert!(!e.is_does_not_exist());
}

#[test]
fn track_response_is_the_png_pixel() {
    let resp = track_response().expect("pixel decodes");
    assert_eq!(resp.status, 200);
    assert_eq!(resp.headers, vec![(String::from("content-type"), String::from("image/png"))]);
    // PNG signature: the base64 text really was decoded
    assert_eq!(&resp.body[..8], &[0x89, 0x50, 0x4e, 0x47, 0x0d, 0x0a, 0x1a, 0x0a]);
    assert_eq!(resp.body.len(), 68);
}

#[test]
fn event_payload_frames_the_timestamp() {
    assert_eq!(event_payload("T1"), b"{\"created\":\"T1\"}");
}

#[test]
fn tracking_stats_picks_the_query() {
    let caps = Caps::with(vec![(String::from("token"), String::from("tk"))]);
    let c = ctx_with("/stat/tk", auth_as("u1"), caps, b"");
    match tracking_stats(&c).expect("authorized") {
        StatsQuery::TokenEvents(k) => assert_eq!(k, "mpix.token:tk"),
        StatsQuery::UserTokens(_) => panic!("expected the token's events"),
    }

    let c = ctx_with("/stat", auth_as("u1"), Caps::empty(), b"");
    match tracking_stats(&c).expect("authorized") {
        StatsQuery::UserTokens(k) => assert_eq!(k, "mpix.user_tokens:u1"),
        StatsQuery::TokenEvents(_) => panic!("expected the user's tokens"),
    }

    let c = ctx_with("/stat", None, Caps::empty(), b"");
    let e = tracking_stats(&c).expect_err("no identity");
    assert!(matches!(e.kind(), ErrorKind::S(_)));
}

#[test]
fn stats_responses_embed_the_stored_records() {
    let entries = vec![
        String::from("{\"created\":\"a\"}"),
        String::from("{\"created\":\"b\"}"),
    ];
    let resp = stats_events_response(&entries);
    assert_eq!(resp.status, 200);
    assert_eq!(resp.body, b"{\"events\":[{\"created\":\"a\"},{\"created\":\"b\"}]}");

    let none: Vec<String> = Vec::new();
    let resp = stats_tokens_response(&none);
    assert_eq!(resp.body, b"{\"tokens\":[]}");
}
