use mpix::http::Method;
use mpix::routing::{match_route, standard_routes, validate_route, validate_table, HandlerKind, PatSeg, Route};

fn caps_get(caps: &mpix::Caps, name: &str) -> Option<String> {
    caps.get(name).ok()
}

#[test]
fn declared_routes_dispatch_to_their_handlers() {
    let t = standard_routes();
    let (h, caps) = match_route(&t, Method::Get, "/p/abc-DEF_123");
    assert_eq!(h, HandlerKind::Track);
    assert_eq!(caps_get(&caps, "token").as_deref(), Some("abc-DEF_123"));

    let (h, caps) = match_route(&t, Method::Get, "/status");
    assert_eq!(h, HandlerKind::Status);
    assert!(caps_get(&caps, "token").is_none());

    let (h, _) = match_route(&t, Method::Get, "");
    assert_eq!(h, HandlerKind::Index);

    let (h, _) = match_route(&t, Method::Post, "/create");
    assert_eq!(h, HandlerKind::Create);

    let (h, caps) = match_route(&t, Method::Get, "/stat");
    assert_eq!(h, HandlerKind::TrackingStats);
    assert!(caps_get(&caps, "token").is_none());

    let (h, caps) = match_route(&t, Method::Get, "/stat/tok9");
    assert_eq!(h, HandlerKind::TrackingStats);
    assert_eq!(caps_get(&caps, "token").as_deref(), Some("tok9"));
}

#[test]
fn non_matching_requests_reach_the_fallback() {
    let t = standard_routes();
    let (h, caps) = match_route(&t, Method::Get, "/nope");
    assert_eq!(h, HandlerKind::NotFound);
    assert!(caps_get(&caps, "token").is_none());

    // right path, wrong method
    let (h, _) = match_route(&t, Method::Post, "/status");
    assert_eq!(h, HandlerKind::NotFound);
    let (h, _) = match_route(&t, Method::Get, "/create");
    assert_eq!(h, HandlerKind::NotFound);

    // a capture segment must be non-empty and hold only token characters
    let (h, _) = match_route(&t, Method::Get, "/p/");
    assert_eq!(h, HandlerKind::NotFound);
    let (h, _) = match_route(&t, Method::Get, "/p/a/b");
    assert_eq!(h, HandlerKind::NotFound);
    let (h, _) = match_route(&t, Method::Get, "/p/bad%20token");
    assert_eq!(h, HandlerKind::NotFound);
}

#[test]
fn trailing_slash_resolves_to_the_same_route() {
    let t = standard_routes();
    let (h1, _) = match_route(&t, Method::Get, "/stat");
    let (h2, _) = match_route(&t, Method::Get, "/stat/");
    assert_eq!(h1, HandlerKind::TrackingStats);
    assert_eq!(h1, h2);

    let (h1, _) = match_route(&t, Method::Get, "/status");
    let (h2, _) = match_route(&t, Method::Get, "/status/");
    assert_eq!(h1, h2);

    // only a single trailing slash is stripped
    let (h, _) = match_route(&t, Method::Get, "/status//");
    assert_eq!(h, HandlerKind::NotFound);
}

#[test]
fn declaration_order_wins() {
    let t = standard_routes();
    // `/stat/x` matches the token route, not the bare `/stat` route
    let (h, caps) = match_route(&t, Method::Get, "/stat/x");
    assert_eq!(h, HandlerKind::TrackingStats);
    assert_eq!(caps_get(&caps, "token").as_deref(), Some("x"));
}

#[test]
fn startup_validation_accepts_the_standard_table() {
    let t = standard_routes();
    assert!(validate_table(&t));
}

#[test]
fn startup_validation_rejects_a_capture_mismatch() {
    let bad = Route {
        method: Method::Get,
        pattern: vec![
            PatSeg::Lit(String::from("")),
            PatSeg::Lit(String::from("x")),
        ],
        capture_names: vec![String::from("name")],
        handler: HandlerKind::Index,
    };
    assert!(!validate_route(&bad));

    let misnamed = Route {
        method: Method::Get,
        pattern: vec![
            PatSeg::Lit(String::from("")),
            PatSeg::Param(String::from("id")),
        ],
        capture_names: vec![String::from("name")],
        handler: HandlerKind::Index,
    };
    assert!(!validate_route(&misnamed));

    let good = Route {
        method: Method::Get,
        pattern: vec![
            PatSeg::Lit(String::from("")),
            PatSeg::Param(String::from("id")),
        ],
        capture_names: vec![String::from("id")],
        handler: HandlerKind::Index,
    };
    assert!(validate_route(&good));
}
