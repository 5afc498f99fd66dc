use mpix::auth::{auth_conclude, auth_plan, is_exempt, AuthOutcome, AuthPlan, LookupOutcome};
use mpix::http::{Method, Request};

fn req(method: Method, path: &str, headers: Vec<(String, String)>) -> Request {
    Request { method, path: String::from(path), headers, body: Vec::new() }
}

#[test]
fn exempt_paths_bypass_authentication() {
    assert!(is_exempt(""));
    assert!(is_exempt("/"));
    assert!(is_exempt("/status"));
    assert!(is_exempt("/status/"));
    assert!(is_exempt("/p/abc"));
    assert!(!is_exempt("/stat"));
    assert!(!is_exempt("/create"));
    assert!(!is_exempt("/pixel"));

    // no header needed: the plan asks for no lookup
    let r = req(Method::Get, "/status", Vec::new());
    assert!(matches!(auth_plan(&r), AuthPlan::Exempt));
    match auth_conclude(auth_plan(&r), LookupOutcome::Failed) {
        AuthOutcome::Allow(identity) => assert!(identity.is_none()),
        AuthOutcome::Deny(_) => panic!("exempt request was denied"),
    }
}

#[test]
fn missing_header_is_unauthorized() {
    let r = req(Method::Get, "/stat", Vec::new());
    assert!(matches!(auth_plan(&r), AuthPlan::Missing));
    match auth_conclude(auth_plan(&r), LookupOutcome::Found) {
        AuthOutcome::Deny(resp) => {
            assert_eq!(resp.status, 401);
            assert_eq!(resp.body, b"unauthorized");
        },
        AuthOutcome::Allow(_) => panic!("missing header was allowed"),
    }
}

#[test]
fn unrecognized_token_is_unauthorized() {
    let headers = vec![(String::from("x-mpix-auth"), String::from("nope"))];
    let r = req(Method::Get, "/stat", headers);
    let plan = auth_plan(&r);
    match &plan {
        AuthPlan::Lookup(t) => assert_eq!(t, "nope"),
        _ => panic!("expected a lookup plan"),
    }
    match auth_conclude(plan, LookupOutcome::Absent) {
        AuthOutcome::Deny(resp) => assert_eq!(resp.status, 401),
        AuthOutcome::Allow(_) => panic!("unknown token was allowed"),
    }
}

#[test]
fn store_failure_fails_closed() {
    let headers = vec![(String::from("x-mpix-auth"), String::from("tok"))];
    let r = req(Method::Get, "/stat", headers);
    match auth_conclude(auth_plan(&r), LookupOutcome::Failed) {
        AuthOutcome::Deny(resp) => assert_eq!(resp.status, 401),
        AuthOutcome::Allow(_) => panic!("store failure was allowed through"),
    }
}

#[test]
fn recognized_token_yields_identity() {
    let headers = vec![(String::from("x-mpix-auth"), String::from("sekrit"))];
    let r = req(Method::Get, "/stat", headers);
    match auth_conclude(auth_plan(&r), LookupOutcome::Found) {
        AuthOutcome::Allow(Some(auth)) => assert_eq!(auth.user_token, "sekrit"),
        _ => panic!("recognized token was not allowed"),
    }
}

#[test]
fn header_name_is_case_insensitive() {
    let headers = vec![(String::from("X-Mpix-Auth"), String::from("tok"))];
    let r = req(Method::Get, "/stat", headers);
    assert!(matches!(auth_plan(&r), AuthPlan::Lookup(t) if t == "tok"));
}
