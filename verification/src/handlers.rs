//! The endpoint handlers' logic: response assembly, store-key derivation,
//! and the JSON framing of what goes to and from the store.  The store
//! round-trips themselves are performed outside and fed back in as plain
//! values.

use vstd::prelude::*;
use vstd::string::*;
use vstd::utf8::encode_utf8;

use crate::error::{Error, ErrorKind};
use crate::http::Response;
use crate::Context;

verus! {

/// What parsing a create request's body yields: the string member
/// `description` of a JSON object, when the body is exactly that.
pub uninterp spec fn json_description_of(b: Seq<u8>) -> Option<Seq<char>>;

/// Relies on serde_json's `from_slice` and `Map::get`: the result is the
/// `description` member of the body parsed as a JSON object, present
/// exactly when the body is a JSON object whose `description` member is a
/// string, and it depends on the body's bytes alone.
#[verifier::external_body]
fn parse_description(body: &Vec<u8>) -> (r: Option<String>)
    ensures
        r is Some <==> json_description_of(body@) is Some,
        r matches Some(s) ==> json_description_of(body@) == Some(s@),
{
    match serde_json::from_slice::<serde_json::Value>(body.as_slice()) {
        Ok(serde_json::Value::Object(m)) => match m.get("description") {
            Some(serde_json::Value::String(s)) => Some(s.clone()),
            _ => None,
        },
        _ => None,
    }
}

/// A lower-case hexadecimal digit.
pub open spec fn is_lower_hex(c: char) -> bool {
    ('0' <= c && c <= '9') || ('a' <= c && c <= 'f')
}

/// Relies on uuid's `Uuid::new_v4` and the simple lower-case encoding: a
/// fresh random identifier of exactly 32 lower-case hexadecimal digits.
/// Nothing more is promised of a random value.
#[verifier::external_body]
fn fresh_token_id() -> (r: String)
    ensures
        r@.len() == 32,
        forall|i: int| 0 <= i < 32 ==> is_lower_hex(r@[i]),
{
    uuid::Uuid::new_v4().simple().encode_lower(&mut uuid::Uuid::encode_buffer()).to_string()
}

/// Relies on chrono's `Local::now` and `to_rfc3339`: the current wall-clock
/// time as an RFC 3339 string, which is never empty.  Nothing more is
/// promised of a clock reading.
#[verifier::external_body]
fn now_rfc3339() -> (r: String)
    ensures
        r@.len() > 0,
{
    chrono::Local::now().to_rfc3339()
}

/// What base64 decoding of the given text yields.
pub uninterp spec fn base64_decode_of(s: Seq<char>) -> Seq<u8>;

/// Whether the given text is decodable base64.
pub uninterp spec fn base64_decodes(s: Seq<char>) -> bool;

/// Relies on base64's standard-alphabet `Engine::decode`: decoding succeeds
/// exactly on decodable input, and the result is the decoding of the input
/// text; both depend on the input alone.
#[verifier::external_body]
fn decode_base64(s: &str) -> (r: Option<Vec<u8>>)
    ensures
        r is Some <==> base64_decodes(s@),
        r matches Some(b) ==> b@ == base64_decode_of(s@),
{
    base64::Engine::decode(&base64::engine::general_purpose::STANDARD, s).ok()
}

/// Append a slice of bytes to a vector.
fn push_bytes(out: &mut Vec<u8>, s: &[u8])
    ensures
        final(out)@ == old(out)@ + s@,
{
    let n = s.len();
    let mut i: usize = 0;
    proof {
        assert(out@ =~= old(out)@ + s@.take(0));
    }
    while i < n
        invariant
            n == s@.len(),
            i <= n,
            out@ == old(out)@ + s@.take(i as int),
        decreases n - i,
    {
        out.push(s[i]);
        proof {
            assert(old(out)@ + s@.take(i + 1) =~= (old(out)@ + s@.take(i as int)).push(s@[i as int]));
        }
        i += 1;
    }
    proof {
        assert(old(out)@ + s@.take(n as int) =~= old(out)@ + s@);
    }
}

/// The byte standing for a hexadecimal digit value below sixteen.
pub open spec fn spec_hex_digit(n: u8) -> u8 {
    if n < 10 {
        (48 + n) as u8
    } else {
        (87 + n) as u8
    }
}

fn hex_digit(n: u8) -> (r: u8)
    requires
        n < 16,
    ensures
        r == spec_hex_digit(n),
{
    if n < 10 {
        48 + n
    } else {
        87 + n
    }
}

/// How one byte appears inside a JSON string: quotes and backslashes are
/// escaped, control bytes become `\u00XX`, everything else stands as is.
pub open spec fn spec_escape_byte(b: u8) -> Seq<u8> {
    if b == 34 {
        seq![92u8, 34u8]
    } else if b == 92 {
        seq![92u8, 92u8]
    } else if b < 32 {
        seq![92u8, 117u8, 48u8, 48u8, spec_hex_digit(b / 16), spec_hex_digit(b % 16)]
    } else {
        seq![b]
    }
}

/// A byte sequence escaped for inclusion in a JSON string literal.
pub open spec fn spec_json_escape(s: Seq<u8>) -> Seq<u8>
    decreases s.len(),
{
    if s.len() == 0 {
        Seq::empty()
    } else {
        spec_json_escape(s.drop_last()) + spec_escape_byte(s.last())
    }
}

/// Escape a byte sequence for inclusion in a JSON string literal.
fn json_escape(b: &[u8]) -> (r: Vec<u8>)
    ensures
        r@ == spec_json_escape(b@),
{
    let n = b.len();
    let mut out: Vec<u8> = Vec::new();
    let mut i: usize = 0;
    proof {
        assert(b@.take(0) =~= Seq::<u8>::empty());
        assert(out@ =~= spec_json_escape(b@.take(0)));
    }
    while i < n
        invariant
            n == b@.len(),
            i <= n,
            out@ == spec_json_escape(b@.take(i as int)),
        decreases n - i,
    {
        let c = b[i];
        proof {
            assert(b@.take(i + 1).drop_last() =~= b@.take(i as int));
            assert(b@.take(i + 1).last() == b@[i as int]);
        }
        if c == 34 {
            out.push(92);
            out.push(34);
        } else if c == 92 {
            out.push(92);
            out.push(92);
        } else if c < 32 {
            out.push(92);
            out.push(117);
            out.push(48);
            out.push(48);
            out.push(hex_digit(c / 16));
            out.push(hex_digit(c % 16));
        } else {
            out.push(c);
        }
        proof {
            assert(out@ =~= spec_json_escape(b@.take(i as int)) + spec_escape_byte(b@[i as int]));
        }
        i += 1;
    }
    proof {
        assert(b@.take(n as int) =~= b@);
    }
    out
}

/// The store key of a token's event history.
pub fn history_key(token: &str) -> (r: String)
    ensures
        r@ == "mpix.token:"@ + token@,
{
    String::from_str("mpix.token:").concat(token)
}

/// The store key of a user's token table.
pub fn user_tokens_key(user: &str) -> (r: String)
    ensures
        r@ == "mpix.user_tokens:"@ + user@,
{
    String::from_str("mpix.user_tokens:").concat(user)
}

/// The JSON record of one tracked event.
pub open spec fn spec_event_json(created: Seq<char>) -> Seq<u8> {
    ("{\"created\":\"").spec_bytes() + spec_json_escape(encode_utf8(created))
        + ("\"}").spec_bytes()
}

/// Frame one tracked event, created at the given time, as its JSON record.
pub fn event_payload(created: &str) -> (r: Vec<u8>)
    ensures
        r@ == spec_event_json(created@),
{
    let mut out: Vec<u8> = Vec::new();
    push_bytes(&mut out, "{\"created\":\"".as_bytes());
    let mut esc = json_escape(created.as_bytes());
    out.append(&mut esc);
    push_bytes(&mut out, "\"}".as_bytes());
    out
}

/// A fresh event record stamped with the current time, which is never
/// empty: the record always carries a real timestamp.
pub fn new_event_payload() -> (r: Vec<u8>)
    ensures
        exists|created: Seq<char>| r@ == spec_event_json(created) && created.len() > 0,
{
    let created = now_rfc3339();
    let r = event_payload(created.as_str());
    proof {
        assert(r@ == spec_event_json(created@) && created@.len() > 0);
    }
    r
}

/// The JSON record of a freshly created token.
pub open spec fn spec_token_json(token: Seq<char>, description: Seq<char>, created: Seq<char>) -> Seq<u8> {
    ("{\"token\":\"").spec_bytes() + spec_json_escape(encode_utf8(token))
        + ("\",\"description\":\"").spec_bytes() + spec_json_escape(encode_utf8(description))
        + ("\",\"created\":\"").spec_bytes() + spec_json_escape(encode_utf8(created))
        + ("\"}").spec_bytes()
}

fn token_json(token: &str, description: &str, created: &str) -> (r: Vec<u8>)
    ensures
        r@ == spec_token_json(token@, description@, created@),
{
    let mut out: Vec<u8> = Vec::new();
    push_bytes(&mut out, "{\"token\":\"".as_bytes());
    let mut esc = json_escape(token.as_bytes());
    out.append(&mut esc);
    push_bytes(&mut out, "\",\"description\":\"".as_bytes());
    let mut esc2 = json_escape(description.as_bytes());
    out.append(&mut esc2);
    push_bytes(&mut out, "\",\"created\":\"".as_bytes());
    let mut esc3 = json_escape(created.as_bytes());
    out.append(&mut esc3);
    push_bytes(&mut out, "\"}".as_bytes());
    out
}

/// The landing page.
pub fn index(_ctx: &Context) -> (r: Result<Response, Error>)
    ensures
        r matches Ok(resp) && spec_index_ok(resp),
{
    let mut headers: Vec<(String, String)> = Vec::new();
    headers.push((String::from_str("content-type"), String::from_str("text/html")));
    let body = index_html().as_bytes_vec();
    Ok(Response { status: 200, headers, body })
}

/// The landing page's fixed HTML.
fn index_html() -> (r: &'static str)
    ensures
        r@ == spec_index_html(),
{
    "\n<html>\n    <head>\n        <link rel=\"shortcut icon\" href=\"/p/favicon?v=1\" type=\"image/png\">\n    </head>\n    hello! <img src=\"/p/163e71e1a222461fac0a139dddacf1d5\"/>\n</html>\n"
}

pub open spec fn spec_index_html() -> Seq<char> {
    ("\n<html>\n    <head>\n        <link rel=\"shortcut icon\" href=\"/p/favicon?v=1\" type=\"image/png\">\n    </head>\n    hello! <img src=\"/p/163e71e1a222461fac0a139dddacf1d5\"/>\n</html>\n")@
}

/// What the landing response looks like: the fixed HTML, served as such.
pub open spec fn spec_index_ok(resp: Response) -> bool {
    &&& resp.status == 200
    &&& resp.headers@.len() == 1
    &&& resp.headers@[0].0@ == "content-type"@
    &&& resp.headers@[0].1@ == "text/html"@
    &&& resp.body@ == encode_utf8(spec_index_html())
}

/// The status body for a given build identifier.
pub open spec fn spec_status_body(hash: Seq<char>) -> Seq<u8> {
    ("{\"status\":\"ok\",\"hash\":\"").spec_bytes() + spec_json_escape(encode_utf8(hash))
        + ("\"}").spec_bytes()
}

/// What a status response looks like for a given build identifier.
pub open spec fn spec_status_ok(hash: Seq<char>, resp: Response) -> bool {
    resp.status == 200 && resp.headers@.len() == 0 && resp.body@ == spec_status_body(hash)
}

/// The health endpoint: a fixed `ok` and the deployment's build identifier.
pub fn status(_ctx: &Context, build_hash: &str) -> (r: Result<Response, Error>)
    ensures
        r matches Ok(resp) && spec_status_ok(build_hash@, resp),
{
    let mut body: Vec<u8> = Vec::new();
    push_bytes(&mut body, "{\"status\":\"ok\",\"hash\":\"".as_bytes());
    let mut esc = json_escape(build_hash.as_bytes());
    body.append(&mut esc);
    push_bytes(&mut body, "\"}".as_bytes());
    Ok(Response { status: 200, headers: Vec::new(), body })
}

/// Within one deployment the status endpoint never changes: two responses
/// for the same build identifier are identical in status and body.
pub proof fn lemma_status_stable(hash: Seq<char>, r1: Response, r2: Response)
    requires
        spec_status_ok(hash, r1),
        spec_status_ok(hash, r2),
    ensures
        r1.status == r2.status,
        r1.body@ == r2.body@,
{
}

/// The fallback: a plain 404.
pub fn not_found(_ctx: &Context) -> (r: Result<Response, Error>)
    ensures
        r matches Ok(resp) && resp.status == 404 && resp.headers@.len() == 0
            && resp.body@ == ("not found").spec_bytes(),
{
    Ok(Response { status: 404, headers: Vec::new(), body: "not found".as_bytes_vec() })
}

/// The work a create request leaves for the store, and the response owed
/// once the store write went through.
#[derive(Debug)]
pub struct CreateWork {
    pub hash_key: String,
    pub field: String,
    pub value: Vec<u8>,
    pub response: Response,
}

/// What `create` guarantees: rejected without an identity or without a
/// parsable body; otherwise the token record goes under the caller's token
/// table, keyed by the fresh identifier, and the response carries exactly
/// that record.
pub open spec fn spec_create_ok(
    ctx: Context,
    token_id: Seq<char>,
    created: Seq<char>,
    r: Result<CreateWork, Error>,
) -> bool {
    match ctx.auth {
        None => r matches Err(e) && e.spec_kind() matches ErrorKind::S(_),
        Some(a) => match json_description_of(ctx.request.body@) {
            None => r matches Err(e) && e.spec_kind() matches ErrorKind::BadRequest(_),
            Some(d) => r matches Ok(w) && {
                &&& w.hash_key@ == "mpix.user_tokens:"@ + a.user_token@
                &&& w.field@ == token_id
                &&& w.value@ == spec_token_json(token_id, d, created)
                &&& w.response.status == 200
                &&& w.response.headers@.len() == 1
                &&& w.response.headers@[0].0@ == "content-type"@
                &&& w.response.headers@[0].1@ == "application/json"@
                &&& w.response.body@ == w.value@
            },
        },
    }
}

/// Create a token: requires an identity, parses the body's `description`,
/// and frames the token record to store and return.  A missing identity is
/// an internal error, an unparsable body a validation error.
pub fn create(ctx: &Context, token_id: &str, created: &str) -> (r: Result<CreateWork, Error>)
    ensures
        spec_create_ok(*ctx, token_id@, created@, r),
{
    let auth = match &ctx.auth {
        Some(a) => a,
        None => {
            return Err(Error::from_kind(ErrorKind::S(
                String::from_str("in an authorized context without a token"),
            )));
        },
    };
    let description = match parse_description(&ctx.request.body) {
        Some(d) => d,
        None => {
            return Err(Error::from_kind(ErrorKind::BadRequest(
                String::from_str("invalid create token input"),
            )));
        },
    };
    let value = token_json(token_id, description.as_str(), created);
    let mut headers: Vec<(String, String)> = Vec::new();
    headers.push((String::from_str("content-type"), String::from_str("application/json")));
    let mut body: Vec<u8> = Vec::new();
    push_bytes(&mut body, value.as_slice());
    proof {
        assert(body@ =~= value@);
    }
    Ok(CreateWork {
        hash_key: user_tokens_key(auth.user_token.as_str()),
        field: token_id.to_owned(),
        value,
        response: Response { status: 200, headers, body },
    })
}

/// Create a token with a fresh random identifier and the current time.
pub fn create_fresh(ctx: &Context) -> (r: Result<CreateWork, Error>)
    ensures
        ctx.auth is None ==> (r matches Err(e) && e.spec_kind() matches ErrorKind::S(_)),
        ctx.auth is Some && json_description_of(ctx.request.body@) is None
            ==> (r matches Err(e) && e.spec_kind() matches ErrorKind::BadRequest(_)),
        (ctx.auth is Some && json_description_of(ctx.request.body@) is Some)
            ==> (r matches Ok(w) && {
                let a = ctx.auth->0;
                let d = json_description_of(ctx.request.body@)->0;
                &&& w.hash_key@ == "mpix.user_tokens:"@ + a.user_token@
                &&& w.field@.len() == 32
                &&& (forall|i: int| 0 <= i < 32 ==> is_lower_hex(w.field@[i]))
                &&& (exists|created: Seq<char>|
                    w.value@ == spec_token_json(w.field@, d, created) && created.len() > 0)
                &&& w.response.status == 200
                &&& w.response.headers@.len() == 1
                &&& w.response.headers@[0].0@ == "content-type"@
                &&& w.response.headers@[0].1@ == "application/json"@
                &&& w.response.body@ == w.value@
            }),
{
    let token_id = fresh_token_id();
    let created = now_rfc3339();
    let r = create(ctx, token_id.as_str(), created.as_str());
    proof {
        if ctx.auth is Some && json_description_of(ctx.request.body@) is Some {
            let d = json_description_of(ctx.request.body@)->0;
            let w = r->Ok_0;
            assert(w.field@ == token_id@);
            assert(w.value@ == spec_token_json(w.field@, d, created@) && created@.len() > 0);
        }
    }
    r
}

/// Derive the history key a track request records into: the token capture
/// its route extracted, or a parameter error when it is absent.
pub fn track(ctx: &Context) -> (r: Result<String, Error>)
    ensures
        match ctx.captures.spec_get("token"@) {
            Some(tok) => r matches Ok(k) && k@ == "mpix.token:"@ + tok,
            None => r matches Err(e)
                && e.spec_kind() matches ErrorKind::MissingUriParam(_),
        },
{
    let token = ctx.captures.get("token")?;
    Ok(history_key(token.as_str()))
}

/// The tracking pixel, decoded from its base64 form.  It succeeds exactly
/// when the fixed text decodes — that is, always, unless the constant in
/// this file were corrupt; a failure would be an internal error.
pub fn pixel_png() -> (r: Result<Vec<u8>, Error>)
    ensures
        r is Ok <==> base64_decodes(
            ("iVBORw0KGgoAAAANSUhEUgAAAAEAAAABCAQAAAC1HAwCAAAAC0lEQVR42mNkYAAAAAYAAjCB0C8AAAAASUVORK5CYII=")@,
        ),
        r matches Ok(b) ==> b@ == base64_decode_of(
            ("iVBORw0KGgoAAAANSUhEUgAAAAEAAAABCAQAAAC1HAwCAAAAC0lEQVR42mNkYAAAAAYAAjCB0C8AAAAASUVORK5CYII=")@,
        ),
        r matches Err(e) ==> e.spec_kind() matches ErrorKind::Internal(_),
{
    match decode_base64(
        "iVBORw0KGgoAAAANSUhEUgAAAAEAAAABCAQAAAC1HAwCAAAAC0lEQVR42mNkYAAAAAYAAjCB0C8AAAAASUVORK5CYII=",
    ) {
        Some(b) => Ok(b),
        None => Err(Error::from_kind(ErrorKind::Internal(
            String::from_str("pixel is invalid base64"),
        ))),
    }
}

/// What a track response looks like: the fixed pixel, served as an image.
pub open spec fn spec_track_response_ok(resp: Response) -> bool {
    &&& resp.status == 200
    &&& resp.headers@.len() == 1
    &&& resp.headers@[0].0@ == "content-type"@
    &&& resp.headers@[0].1@ == "image/png"@
    &&& resp.body@ == base64_decode_of(
        ("iVBORw0KGgoAAAANSUhEUgAAAAEAAAABCAQAAAC1HAwCAAAAC0lEQVR42mNkYAAAAAYAAjCB0C8AAAAASUVORK5CYII=")@,
    )
}

/// The response a track request is owed once its event is recorded.  It
/// succeeds exactly when the fixed pixel text decodes, that is, always.
pub fn track_response() -> (r: Result<Response, Error>)
    ensures
        r is Ok <==> base64_decodes(
            ("iVBORw0KGgoAAAANSUhEUgAAAAEAAAABCAQAAAC1HAwCAAAAC0lEQVR42mNkYAAAAAYAAjCB0C8AAAAASUVORK5CYII=")@,
        ),
        match r {
            Ok(resp) => spec_track_response_ok(resp),
            Err(e) => e.spec_kind() matches ErrorKind::Internal(_),
        },
{
    let pixel = pixel_png()?;
    let mut headers: Vec<(String, String)> = Vec::new();
    headers.push((String::from_str("content-type"), String::from_str("image/png")));
    Ok(Response { status: 200, headers, body: pixel })
}

/// The store read a stats request needs: one token's event history, or the
/// caller's token table.
#[derive(Debug)]
pub enum StatsQuery {
    TokenEvents(String),
    UserTokens(String),
}

/// Decide what a stats request reads: with a token capture, that token's
/// history; otherwise the caller's token table.  Requires an identity
/// either way.
pub fn tracking_stats(ctx: &Context) -> (r: Result<StatsQuery, Error>)
    ensures
        match ctx.auth {
            None => r matches Err(e) && e.spec_kind() matches ErrorKind::S(_),
            Some(a) => match ctx.captures.spec_get("token"@) {
                Some(tok) => r matches Ok(q) && q matches StatsQuery::TokenEvents(k)
                    && k@ == "mpix.token:"@ + tok,
                None => r matches Ok(q) && q matches StatsQuery::UserTokens(k)
                    && k@ == "mpix.user_tokens:"@ + a.user_token@,
            },
        },
{
    let auth = match &ctx.auth {
        Some(a) => a,
        None => {
            return Err(Error::from_kind(ErrorKind::S(
                String::from_str("in an authorized context without a token"),
            )));
        },
    };
    match ctx.captures.get("token") {
        Ok(token) => Ok(StatsQuery::TokenEvents(history_key(token.as_str()))),
        Err(_) => Ok(StatsQuery::UserTokens(user_tokens_key(auth.user_token.as_str()))),
    }
}

/// The byte forms of a list of stored records.
pub open spec fn bytes_views(items: Seq<String>) -> Seq<Seq<u8>> {
    items.map_values(|s: String| encode_utf8(s@))
}

/// Records joined with commas, for embedding in a JSON array.
pub open spec fn spec_join_comma(items: Seq<Seq<u8>>) -> Seq<u8>
    decreases items.len(),
{
    if items.len() == 0 {
        Seq::empty()
    } else if items.len() == 1 {
        items[0]
    } else {
        spec_join_comma(items.drop_last()) + seq![44u8] + items.last()
    }
}

/// A one-member JSON object holding an array of stored records, embedded
/// as they stand.
pub open spec fn spec_array_body(label: Seq<char>, items: Seq<Seq<u8>>) -> Seq<u8> {
    ("{\"").spec_bytes() + encode_utf8(label) + ("\":[").spec_bytes()
        + spec_join_comma(items) + ("]}").spec_bytes()
}

/// Frame stored records as a JSON array under the given label.
fn json_array_body(label: &str, items: &Vec<String>) -> (r: Vec<u8>)
    ensures
        r@ == spec_array_body(label@, bytes_views(items@)),
{
    let mut out: Vec<u8> = Vec::new();
    push_bytes(&mut out, "{\"".as_bytes());
    push_bytes(&mut out, label.as_bytes());
    push_bytes(&mut out, "\":[".as_bytes());
    let ghost prefix = out@;
    let n = items.len();
    let mut i: usize = 0;
    proof {
        assert(bytes_views(items@).take(0) =~= Seq::<Seq<u8>>::empty());
        assert(out@ =~= prefix + spec_join_comma(bytes_views(items@).take(0)));
    }
    while i < n
        invariant
            n == items@.len(),
            i <= n,
            out@ == prefix + spec_join_comma(bytes_views(items@).take(i as int)),
        decreases n - i,
    {
        proof {
            assert(bytes_views(items@).take(i + 1).drop_last() =~= bytes_views(items@).take(i as int));
            assert(bytes_views(items@).take(i + 1).last() == bytes_views(items@)[i as int]);
        }
        if i > 0 {
            out.push(44);
        }
        push_bytes(&mut out, items[i].as_str().as_bytes());
        proof {
            if i == 0 {
                assert(spec_join_comma(bytes_views(items@).take(1)) =~= bytes_views(items@)[0]);
                assert(out@ =~= prefix + spec_join_comma(bytes_views(items@).take(1)));
            } else {
                assert(out@ =~= prefix
                    + (spec_join_comma(bytes_views(items@).take(i as int)) + seq![44u8]
                        + bytes_views(items@)[i as int]));
            }
        }
        i += 1;
    }
    proof {
        assert(bytes_views(items@).take(n as int) =~= bytes_views(items@));
    }
    push_bytes(&mut out, "]}".as_bytes());
    out
}

/// The response for a token's event history: the stored records, newest
/// first, embedded as they stand.
pub fn stats_events_response(entries: &Vec<String>) -> (r: Response)
    ensures
        r.status == 200,
        r.headers@.len() == 0,
        r.body@ == spec_array_body("events"@, bytes_views(entries@)),
{
    Response { status: 200, headers: Vec::new(), body: json_array_body("events", entries) }
}

/// The response for a caller's token table: the stored records, embedded as
/// they stand.
pub fn stats_tokens_response(values: &Vec<String>) -> (r: Response)
    ensures
        r.status == 200,
        r.headers@.len() == 0,
        r.body@ == spec_array_body("tokens"@, bytes_views(values@)),
{
    Response { status: 200, headers: Vec::new(), body: json_array_body("tokens", values) }
}

} // verus!
