//! The pipeline orchestrator's stages, in their fixed order: the auth gate
//! first (its denial skips everything but logging), then route resolution
//! and handler dispatch, then the conditional response transform.  Errors
//! from any stage are mapped to an HTTP status and a fixed body here and
//! nowhere else; logging sits outside the library and can never change a
//! response.

use vstd::prelude::*;
use vstd::string::*;

use crate::error::{Error, ErrorKind};
use crate::gzip::{gzip_response, spec_accepts_gzip, spec_gzipped};
use crate::handlers;
use crate::handlers::{CreateWork, StatsQuery};
use crate::http::{Request, Response};
use crate::routing::{
    match_route, pairs_views, spec_captures, spec_first_match, spec_param_names, spec_path_segs,
    HandlerKind, RouteTable,
};
use crate::{Auth, Caps, Context};

verus! {

/// Resolve a request against the table and build the handler's context, the
/// second stage of the pipeline.  The context carries the request, the
/// matched route's captures, and the identity the auth gate established.
pub fn route(table: &RouteTable, req: Request, auth: Option<Auth>) -> (r: (Context, HandlerKind))
    ensures
        r.0.request == req,
        r.0.auth == auth,
        match spec_first_match(table.routes@, req.method, spec_path_segs(req.path@)) {
            Some(i) => {
                &&& r.1 == table.routes@[i].handler
                &&& if spec_param_names(table.routes@[i].pattern@).len() == 0 {
                    r.0.captures.spec_inner() is None
                } else {
                    r.0.captures.spec_inner() matches Some(ps) && pairs_views(ps)
                        == spec_captures(table.routes@[i].pattern@, spec_path_segs(req.path@))
                }
            },
            None => r.1 == table.fallback && r.0.captures.spec_inner() is None,
        },
{
    let (handler, caps) = match_route(table, req.method, req.path.as_str());
    (Context::new(req, auth, caps), handler)
}

/// What dispatch owes the rest of the pipeline: a finished response, or the
/// store work a handler needs before its response can be released.
pub enum HandlerWork {
    Ready(Response),
    Create(CreateWork),
    Track(String, Vec<u8>),
    Stats(StatsQuery),
}

/// What `handler_work` guarantees for each handler.
pub open spec fn spec_work_ok(
    h: HandlerKind,
    ctx: Context,
    hash: Seq<char>,
    r: Result<HandlerWork, Error>,
) -> bool {
    match h {
        HandlerKind::Index => r matches Ok(w) && w matches HandlerWork::Ready(resp)
            && handlers::spec_index_ok(resp),
        HandlerKind::Status => r matches Ok(w) && w matches HandlerWork::Ready(resp)
            && handlers::spec_status_ok(hash, resp),
        HandlerKind::NotFound => r matches Ok(w) && w matches HandlerWork::Ready(resp)
            && resp.status == 404 && resp.headers@.len() == 0
            && resp.body@ == ("not found").spec_bytes(),
        HandlerKind::Track => match ctx.captures.spec_get("token"@) {
            Some(tok) => r matches Ok(w) && (w matches HandlerWork::Track(k, e) && {
                &&& k@ == "mpix.token:"@ + tok
                &&& exists|created: Seq<char>|
                    e@ == handlers::spec_event_json(created) && created.len() > 0
            }),
            None => r matches Err(e)
                && e.spec_kind() matches ErrorKind::MissingUriParam(_),
        },
        HandlerKind::Create => {
            if ctx.auth is None {
                r matches Err(e) && e.spec_kind() matches ErrorKind::S(_)
            } else if handlers::json_description_of(ctx.request.body@) is None {
                r matches Err(e) && e.spec_kind() matches ErrorKind::BadRequest(_)
            } else {
                r matches Ok(w) && (w matches HandlerWork::Create(cw) && {
                    let a = ctx.auth->0;
                    let d = handlers::json_description_of(ctx.request.body@)->0;
                    &&& cw.hash_key@ == "mpix.user_tokens:"@ + a.user_token@
                    &&& cw.field@.len() == 32
                    &&& (forall|i: int| 0 <= i < 32 ==> handlers::is_lower_hex(cw.field@[i]))
                    &&& (exists|created: Seq<char>|
                        cw.value@ == handlers::spec_token_json(cw.field@, d, created)
                            && created.len() > 0)
                    &&& cw.response.status == 200
                    &&& cw.response.headers@.len() == 1
                    &&& cw.response.headers@[0].0@ == "content-type"@
                    &&& cw.response.headers@[0].1@ == "application/json"@
                    &&& cw.response.body@ == cw.value@
                })
            }
        },
        HandlerKind::TrackingStats => match ctx.auth {
            None => r matches Err(e) && e.spec_kind() matches ErrorKind::S(_),
            Some(a) => match ctx.captures.spec_get("token"@) {
                Some(tok) => r matches Ok(w) && (w matches HandlerWork::Stats(q)
                    && q matches StatsQuery::TokenEvents(k) && k@ == "mpix.token:"@ + tok),
                None => r matches Ok(w) && (w matches HandlerWork::Stats(q)
                    && q matches StatsQuery::UserTokens(k)
                    && k@ == "mpix.user_tokens:"@ + a.user_token@),
            },
        },
    }
}

/// Run the resolved handler's request-side logic: a pure response where the
/// handler needs no store, otherwise the store work it wants done.
pub fn handler_work(ctx: &Context, h: HandlerKind, build_hash: &str) -> (r: Result<HandlerWork, Error>)
    ensures
        spec_work_ok(h, *ctx, build_hash@, r),
{
    match h {
        HandlerKind::Index => {
            let resp = handlers::index(ctx)?;
            Ok(HandlerWork::Ready(resp))
        },
        HandlerKind::Status => {
            let resp = handlers::status(ctx, build_hash)?;
            Ok(HandlerWork::Ready(resp))
        },
        HandlerKind::NotFound => {
            let resp = handlers::not_found(ctx)?;
            Ok(HandlerWork::Ready(resp))
        },
        HandlerKind::Track => {
            let key = handlers::track(ctx)?;
            let event = handlers::new_event_payload();
            Ok(HandlerWork::Track(key, event))
        },
        HandlerKind::Create => {
            let work = handlers::create_fresh(ctx)?;
            Ok(HandlerWork::Create(work))
        },
        HandlerKind::TrackingStats => {
            let q = handlers::tracking_stats(ctx)?;
            Ok(HandlerWork::Stats(q))
        },
    }
}

/// The status the orchestrator maps each error kind to: validation errors
/// are the caller's fault, an authorization error is a 401, a missing
/// resource a 404, and everything else — store trouble, serialization,
/// anything uncaught — the generic 500.
pub open spec fn spec_error_status(kind: ErrorKind) -> u16 {
    match kind {
        ErrorKind::BadRequest(_) => 400,
        ErrorKind::MissingUriParam(_) => 400,
        ErrorKind::InvalidUriParam(_) => 400,
        ErrorKind::InvalidAuth(_) => 401,
        ErrorKind::DoesNotExist(_) => 404,
        ErrorKind::S(_) => 500,
        ErrorKind::Internal(_) => 500,
        ErrorKind::Store(_) => 500,
        ErrorKind::Serialization(_) => 500,
    }
}

/// The fixed user-visible body for each error status.  Error detail never
/// reaches the caller; it is for the server-side log alone.
pub open spec fn spec_error_body(status: u16) -> Seq<u8> {
    if status == 400 {
        ("bad request").spec_bytes()
    } else if status == 401 {
        ("unauthorized").spec_bytes()
    } else if status == 404 {
        ("not found").spec_bytes()
    } else {
        ("server error").spec_bytes()
    }
}

/// The response an error is answered with.
pub fn error_response(e: &Error) -> (r: Response)
    ensures
        r.status == spec_error_status(e.spec_kind()),
        r.headers@.len() == 0,
        r.body@ == spec_error_body(spec_error_status(e.spec_kind())),
{
    let status: u16 = match e.kind() {
        ErrorKind::BadRequest(_) => 400,
        ErrorKind::MissingUriParam(_) => 400,
        ErrorKind::InvalidUriParam(_) => 400,
        ErrorKind::InvalidAuth(_) => 401,
        ErrorKind::DoesNotExist(_) => 404,
        ErrorKind::S(_) => 500,
        ErrorKind::Internal(_) => 500,
        ErrorKind::Store(_) => 500,
        ErrorKind::Serialization(_) => 500,
    };
    let body: Vec<u8> = if status == 400 {
        "bad request".as_bytes_vec()
    } else if status == 401 {
        "unauthorized".as_bytes_vec()
    } else if status == 404 {
        "not found".as_bytes_vec()
    } else {
        "server error".as_bytes_vec()
    };
    Response { status, headers: Vec::new(), body }
}

/// The transform stage and the error boundary, in one place: a successful
/// response is conditionally compressed; any error — a handler's or a
/// store's — becomes its mapped status with its fixed body.
pub fn finish(req_headers: &Vec<(String, String)>, result: Result<Response, Error>) -> (r: Response)
    ensures
        result is Ok && !spec_accepts_gzip(req_headers@) ==> r == result->Ok_0,
        result is Ok && spec_accepts_gzip(req_headers@) ==> spec_gzipped(result->Ok_0, r),
        result is Err ==> ({
            let kind = result->Err_0.spec_kind();
            r.status == spec_error_status(kind)
                && r.body@ == spec_error_body(spec_error_status(kind))
        }),
{
    match result {
        Ok(resp) => match gzip_response(req_headers, resp) {
            Ok(out) => out,
            Err(e) => error_response(&e),
        },
        Err(e) => error_response(&e),
    }
}

} // verus!
