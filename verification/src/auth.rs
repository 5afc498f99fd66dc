//! The auth gate: exempt paths bypass authentication entirely; every other
//! request must carry the auth header with a token the store recognizes, or
//! it is answered with a fixed 401 and the rest of the pipeline is skipped.
//! Store trouble during the lookup counts as failed authentication
//! (authentication fails closed), never as an internal error.

use vstd::prelude::*;
use vstd::string::*;

use crate::http::{spec_header_value, header_value, Request, Response};
use crate::text::{normalize_path, spec_normalize_path, starts_with, starts_with_seq, str_eq};
use crate::Auth;

verus! {

/// The request header that carries the opaque bearer token.
pub const AUTH_HEADER: &'static str = "x-mpix-auth";

/// Exempt paths: the landing page, the status endpoint, and everything
/// under the tracking-pixel prefix, after trailing-slash normalization.
pub open spec fn spec_is_exempt(path: Seq<char>) -> bool {
    let n = spec_normalize_path(path);
    n == ""@ || n == "/status"@ || starts_with_seq(n, "/p/"@)
}

pub fn is_exempt(path: &str) -> (r: bool)
    ensures
        r == spec_is_exempt(path@),
{
    let n = normalize_path(path);
    str_eq(n.as_str(), "") || str_eq(n.as_str(), "/status") || starts_with(n.as_str(), "/p/")
}

/// What the auth stage decides before any store traffic: the path is exempt, or a
/// token must be looked up, or the header is missing altogether.
pub enum AuthPlan {
    Exempt,
    Lookup(String),
    Missing,
}

/// What the store lookup came back with.  `Failed` covers every store or
/// transport error: it is treated exactly like an absent token.
#[derive(PartialEq, Eq, Structural, Clone, Copy, Debug)]
pub enum LookupOutcome {
    Found,
    Absent,
    Failed,
}

/// What authentication concludes: the request passes, with an identity if
/// one was established, or it is answered at once.
pub enum AuthOutcome {
    Allow(Option<Auth>),
    Deny(Response),
}

/// The relation `auth_plan` guarantees between a request and its plan.
pub open spec fn spec_plan_ok(path: Seq<char>, headers: Seq<(String, String)>, plan: AuthPlan) -> bool {
    match plan {
        AuthPlan::Exempt => spec_is_exempt(path),
        AuthPlan::Missing => !spec_is_exempt(path)
            && spec_header_value(headers, "x-mpix-auth"@) is None,
        AuthPlan::Lookup(t) => !spec_is_exempt(path)
            && spec_header_value(headers, "x-mpix-auth"@) == Some(t@),
    }
}

/// Decide what authentication needs for a request: nothing for exempt paths (no
/// header is read, no store call is made), otherwise the auth header's
/// token, if present.
pub fn auth_plan(req: &Request) -> (plan: AuthPlan)
    ensures
        spec_plan_ok(req.path@, req.headers@, plan),
{
    if is_exempt(req.path.as_str()) {
        return AuthPlan::Exempt;
    }
    match header_value(&req.headers, AUTH_HEADER) {
        Some(token) => AuthPlan::Lookup(token),
        None => AuthPlan::Missing,
    }
}

/// The fixed answer for a request that authentication refuses.
pub open spec fn spec_unauthorized(r: Response) -> bool {
    r.status == 401 && r.headers@.len() == 0 && r.body@ == ("unauthorized").spec_bytes()
}

pub fn unauthorized_response() -> (r: Response)
    ensures
        spec_unauthorized(r),
{
    Response { status: 401, headers: Vec::new(), body: "unauthorized".as_bytes_vec() }
}

/// The relation `auth_conclude` guarantees between a plan, the lookup's
/// outcome, and its conclusion.
pub open spec fn spec_conclude_ok(plan: AuthPlan, lookup: LookupOutcome, r: AuthOutcome) -> bool {
    match plan {
        AuthPlan::Exempt => r matches AuthOutcome::Allow(a) && a is None,
        AuthPlan::Missing => r matches AuthOutcome::Deny(resp) && spec_unauthorized(resp),
        AuthPlan::Lookup(t) => {
            if lookup == LookupOutcome::Found {
                r matches AuthOutcome::Allow(a) && a matches Some(auth)
                    && auth.user_token@ == t@
            } else {
                r matches AuthOutcome::Deny(resp) && spec_unauthorized(resp)
            }
        },
    }
}

/// Conclude authentication from the plan and the store's answer.  Exempt
/// requests pass with no identity; a token the store knows yields an
/// identity carrying exactly that token; anything else, including a store
/// failure, is denied with the fixed 401.
pub fn auth_conclude(plan: AuthPlan, lookup: LookupOutcome) -> (r: AuthOutcome)
    ensures
        spec_conclude_ok(plan, lookup, r),
{
    match plan {
        AuthPlan::Exempt => AuthOutcome::Allow(None),
        AuthPlan::Missing => AuthOutcome::Deny(unauthorized_response()),
        AuthPlan::Lookup(t) => {
            if lookup == LookupOutcome::Found {
                AuthOutcome::Allow(Some(Auth { user_token: t }))
            } else {
                AuthOutcome::Deny(unauthorized_response())
            }
        },
    }
}

/// The auth stage end to end.  For any request: an exempt path is let
/// through with no identity, whatever the header or the store says; a
/// non-exempt request without the auth header, or whose token the store
/// does not recognize (or cannot check), is denied with the fixed 401; a
/// recognized token yields an identity carrying that token.
pub proof fn lemma_auth_gate(
    path: Seq<char>,
    headers: Seq<(String, String)>,
    plan: AuthPlan,
    lookup: LookupOutcome,
    outcome: AuthOutcome,
)
    requires
        spec_plan_ok(path, headers, plan),
        spec_conclude_ok(plan, lookup, outcome),
    ensures
        spec_is_exempt(path) ==> (outcome matches AuthOutcome::Allow(a) && a is None),
        !spec_is_exempt(path) && spec_header_value(headers, "x-mpix-auth"@) is None
            ==> (outcome matches AuthOutcome::Deny(resp) && spec_unauthorized(resp)),
        !spec_is_exempt(path) && spec_header_value(headers, "x-mpix-auth"@) is Some
            && lookup != LookupOutcome::Found
            ==> (outcome matches AuthOutcome::Deny(resp) && spec_unauthorized(resp)),
        !spec_is_exempt(path) && spec_header_value(headers, "x-mpix-auth"@) is Some
            && lookup == LookupOutcome::Found
            ==> (outcome matches AuthOutcome::Allow(a) && a matches Some(auth)
                && Some(auth.user_token@) == spec_header_value(headers, "x-mpix-auth"@)),
{
}

} // verus!
