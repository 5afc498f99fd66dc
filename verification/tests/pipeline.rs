use std::collections::HashMap;
use std::io::Read;

use mpix::auth::{auth_conclude, auth_plan, AuthOutcome, AuthPlan, LookupOutcome};
use mpix::configuration::Config;
use mpix::error::{Error, ErrorKind};
use mpix::history::History;
use mpix::http::{Method, Request, Response};
use mpix::routing::{standard_routes, RouteTable};
use mpix::service::{error_response, finish, handler_work, route, HandlerWork};
use mpix::{Caps, Environment, User};

/// The in-memory stand-in for the external store the tests drive the
/// pipeline against.
struct ModelStore {
    users: HashMap<String, String>,
    user_tokens: HashMap<String, HashMap<String, Vec<u8>>>,
    histories: HashMap<String, History>,
}

impl ModelStore {
    fn new() -> Self {
        Self { users: HashMap::new(), user_tokens: HashMap::new(), histories: HashMap::new() }
    }

    fn lookup_user(&self, token: &str) -> LookupOutcome {
        if self.users.contains_key(token) {
            LookupOutcome::Found
        } else {
            LookupOutcome::Absent
        }
    }
}

fn get(path: &str, headers: Vec<(String, String)>) -> Request {
    Request { method: Method::Get, path: String::from(path), headers, body: Vec::new() }
}

fn post(path: &str, headers: Vec<(String, String)>, body: &[u8]) -> Request {
    Request { method: Method::Post, path: String::from(path), headers, body: body.to_vec() }
}

fn auth_header(token: &str) -> Vec<(String, String)> {
    vec![(String::from("x-mpix-auth"), String::from(token))]
}

/// One full trip through the pipeline's fixed stage order, against the
/// model store; returns the response and, for a track request, the count.
fn serve(table: &RouteTable, store: &mut ModelStore, req: Request) -> (Response, Option<usize>) {
    let req_headers = req.headers.clone();
    // stage one: the auth gate, which may short-circuit past everything
    let plan = auth_plan(&req);
    let lookup = match &plan {
        AuthPlan::Lookup(t) => store.lookup_user(t),
        _ => LookupOutcome::Absent,
    };
    let auth = match auth_conclude(plan, lookup) {
        AuthOutcome::Allow(a) => a,
        AuthOutcome::Deny(resp) => return (resp, None),
    };
    // stage two: route resolution and handler dispatch
    let (ctx, handler) = route(table, req, auth);
    let mut count = None;
    let result: Result<Response, Error> = match handler_work(&ctx, handler, "build-1") {
        Err(e) => Err(e),
        Ok(HandlerWork::Ready(resp)) => Ok(resp),
        Ok(HandlerWork::Create(w)) => {
            store
                .user_tokens
                .entry(w.hash_key.clone())
                .or_insert_with(HashMap::new)
                .insert(w.field.clone(), w.value.clone());
            Ok(w.response)
        },
        Ok(HandlerWork::Track(key, event)) => {
            let h = store.histories.entry(key).or_insert_with(History::new);
            count = Some(h.record(String::from_utf8(event).expect("utf-8 event")));
            mpix::handlers::track_response()
        },
        Ok(HandlerWork::Stats(q)) => match q {
            mpix::handlers::StatsQuery::TokenEvents(key) => {
                let entries = match store.histories.get(&key) {
                    Some(h) => h.entries().clone(),
                    None => Vec::new(),
                };
                Ok(mpix::handlers::stats_events_response(&entries))
            },
            mpix::handlers::StatsQuery::UserTokens(key) => {
                let values = match store.user_tokens.get(&key) {
                    Some(m) => m
                        .values()
                        .map(|v| String::from_utf8(v.clone()).expect("utf-8 record"))
                        .collect(),
                    None => Vec::new(),
                };
                Ok(mpix::handlers::stats_tokens_response(&values))
            },
        },
    };
    // stage three: the conditional transform, and the error boundary
    (finish(&req_headers, result), count)
}

#[test]
fn end_to_end_create_then_track_twice() {
    let table = standard_routes();
    let mut store = ModelStore::new();
    store.users.insert(String::from("valid-token"), String::from("{\"name\":\"u\"}"));

    // POST /create with a valid token and a description
    let (resp, _) = serve(
        &table,
        &mut store,
        post("/create", auth_header("valid-token"), b"{\"description\":\"test\"}"),
    );
    assert_eq!(resp.status, 200);
    let body = String::from_utf8(resp.body).expect("utf-8 json");
    assert!(body.contains("\"description\":\"test\""));
    assert!(body.contains("\"created\":\""));
    // a fresh 32-digit token
    let token_at = body.find("\"token\":\"").expect("token member") + 9;
    let token: String = body[token_at..token_at + 32].to_string();
    assert_eq!(token.len(), 32);
    assert!(token.chars().all(|c| c.is_ascii_hexdigit() && !c.is_ascii_uppercase()));
    // and it was stored under the caller's table
    assert!(store.user_tokens["mpix.user_tokens:valid-token"].contains_key(&token));

    // GET /p/{token} raises the count 0 -> 1, then 1 -> 2
    let pixel_path = format!("/p/{}", token);
    let (resp, count) = serve(&table, &mut store, get(&pixel_path, Vec::new()));
    assert_eq!(resp.status, 200);
    assert_eq!(count, Some(1));
    let (resp, count) = serve(&table, &mut store, get(&pixel_path, Vec::new()));
    assert_eq!(resp.status, 200);
    assert_eq!(count, Some(2));

    // GET /stat/{token} shows both events, newest first
    let stat_path = format!("/stat/{}", token);
    let (resp, _) = serve(&table, &mut store, get(&stat_path, auth_header("valid-token")));
    assert_eq!(resp.status, 200);
    let body = String::from_utf8(resp.body).expect("utf-8 json");
    assert!(body.starts_with("{\"events\":[{\"created\":\""));
    assert_eq!(body.matches("\"created\":\"").count(), 2);
}

#[test]
fn unauthorized_short_circuit_skips_dispatch_and_transform() {
    let table = standard_routes();
    let mut store = ModelStore::new();
    // gzip is requested, but the 401 short-circuit skips the transform
    let mut headers = Vec::new();
    headers.push((String::from("accept-encoding"), String::from("gzip")));
    let (resp, _) = serve(&table, &mut store, get("/stat", headers));
    assert_eq!(resp.status, 401);
    assert_eq!(resp.body, b"unauthorized");
    assert!(resp.headers.iter().all(|h| h.0 != "content-encoding"));
}

#[test]
fn status_is_served_gzipped_when_asked() {
    let table = standard_routes();
    let mut store = ModelStore::new();
    let (plain, _) = serve(&table, &mut store, get("/status", Vec::new()));
    assert_eq!(plain.status, 200);
    let mut headers = Vec::new();
    headers.push((String::from("accept-encoding"), String::from("gzip")));
    let (zipped, _) = serve(&table, &mut store, get("/status", headers));
    assert_eq!(zipped.status, 200);
    assert!(zipped.headers.contains(&(String::from("content-encoding"), String::from("gzip"))));
    let mut out = Vec::new();
    flate2::read::GzDecoder::new(&zipped.body[..]).read_to_end(&mut out).expect("valid gzip");
    assert_eq!(out, plain.body);
}

#[test]
fn unknown_paths_get_the_fallback_404() {
    let table = standard_routes();
    let mut store = ModelStore::new();
    let (resp, _) = serve(&table, &mut store, get("/no/such/page", Vec::new()));
    // `/no/...` is not exempt and carries no header: refused before routing
    assert_eq!(resp.status, 401);
    // exempt prefix, but `%` is no token character: the fallback answers
    let (resp, _) = serve(&table, &mut store, get("/p/bad%20token", Vec::new()));
    assert_eq!(resp.status, 404);
    assert_eq!(resp.body, b"not found");
}

#[test]
fn the_error_boundary_maps_kinds_to_statuses() {
    let cases = [
        (ErrorKind::BadRequest(String::from("x")), 400, &b"bad request"[..]),
        (ErrorKind::MissingUriParam(String::from("x")), 400, &b"bad request"[..]),
        (ErrorKind::InvalidAuth(String::from("x")), 401, &b"unauthorized"[..]),
        (ErrorKind::DoesNotExist(String::from("x")), 404, &b"not found"[..]),
        (ErrorKind::Store(String::from("x")), 500, &b"server error"[..]),
        (ErrorKind::Internal(String::from("x")), 500, &b"server error"[..]),
        (ErrorKind::S(String::from("x")), 500, &b"server error"[..]),
    ];
    for (kind, status, body) in cases {
        let resp = error_response(&Error::from_kind(kind));
        assert_eq!(resp.status, status);
        assert_eq!(resp.body, body);
    }
}

#[test]
fn error_messages_carry_their_prefix() {
    let e = Error::from_kind(ErrorKind::InvalidAuth(String::from("missing auth token")));
    assert_eq!(e.message(), "InvalidAuth: missing auth token");
    let e = Error::from_kind(ErrorKind::DoesNotExist(String::from("gone")));
    assert!(e.is_does_not_exist());
    assert_eq!(e.message(), "DoesNotExist: gone");
}

#[test]
fn configuration_parses_and_fails_fast() {
    let c = Config::from_parts(" Production ", "example.test:6379", "hunter2", "tok")
        .expect("valid configuration");
    assert_eq!(c.env, Environment::Production);
    assert_eq!(c.redis_url, "redis://:hunter2@example.test:6379");
    assert_eq!(c.auth_token, "tok");

    assert!(Environment::from_str("local").is_ok());
    assert!(Environment::from_str("LOCAL\n").is_ok());
    let e = Environment::from_str("dev").expect_err("unknown environment");
    assert!(matches!(e.kind(), ErrorKind::S(_)));
    assert!(Config::from_parts("dev", "h", "p", "t").is_err());
}

#[test]
fn caps_lookup_and_user_roundtrip() {
    let caps = Caps::with(vec![(String::from("token"), String::from("v1"))]);
    assert_eq!(caps.get("token").expect("bound parameter"), "v1");
    let e = caps.get("other").expect_err("unbound parameter");
    assert!(matches!(e.kind(), ErrorKind::MissingUriParam(_)));
    let e = Caps::empty().get("token").expect_err("no captures at all");
    assert!(matches!(e.kind(), ErrorKind::MissingUriParam(_)));

    let u = User::new(String::from("ada"));
    assert_eq!(u.name(), "ada");
}
