//! A small tracking-pixel web service core: an ordered route matcher with
//! named captures, an auth gate over a token store, a bounded per-key event
//! history, conditional gzip response compression, and the pipeline that
//! sequences them.

pub mod auth;
pub mod configuration;
pub mod error;
pub mod gzip;
pub mod handlers;
pub mod history;
pub mod http;
pub mod routing;
pub mod service;
pub mod text;

use vstd::prelude::*;
use vstd::string::*;

use crate::error::{Error, ErrorKind};
use crate::http::Request;
use crate::text::spec_lower;

verus! {

/// The first value bound to `name` in a capture list, or `None`.
pub open spec fn spec_caps_lookup(pairs: Seq<(String, String)>, name: Seq<char>) -> Option<Seq<char>>
    decreases pairs.len(),
{
    if pairs.len() == 0 {
        None
    } else if pairs[0].0@ == name {
        Some(pairs[0].1@)
    } else {
        spec_caps_lookup(pairs.drop_first(), name)
    }
}

/// The named path parameters a route extracted from a request, if any.
pub struct Caps {
    inner: Option<Vec<(String, String)>>,
}

impl Caps {
    pub closed spec fn spec_inner(&self) -> Option<Seq<(String, String)>> {
        match self.inner {
            Some(v) => Some(v@),
            None => None,
        }
    }

    /// What `get` finds for `name`.
    pub open spec fn spec_get(&self, name: Seq<char>) -> Option<Seq<char>> {
        match self.spec_inner() {
            Some(pairs) => spec_caps_lookup(pairs, name),
            None => None,
        }
    }

    pub fn empty() -> (r: Self)
        ensures
            r.spec_inner() is None,
    {
        Self { inner: None }
    }

    pub fn with(capture_map: Vec<(String, String)>) -> (r: Self)
        ensures
            r.spec_inner() == Some(capture_map@),
    {
        Self { inner: Some(capture_map) }
    }

    /// The value of the named parameter, or a `MissingUriParam` error
    /// naming the parameter when the request's route did not bind it.
    pub fn get(&self, s: &str) -> (r: Result<String, Error>)
        ensures
            match r {
                Ok(v) => self.spec_get(s@) == Some(v@),
                Err(e) => self.spec_get(s@) is None
                    && (e.spec_kind() matches ErrorKind::MissingUriParam(m)
                        && m@ == "missing expected uri parameter '"@ + s@ + "'"@),
            },
    {
        if let Some(pairs) = self.inner.as_ref() {
            let n = pairs.len();
            let mut i: usize = 0;
            proof {
                assert(pairs@.skip(0) =~= pairs@);
            }
            while i < n
                invariant
                    n == pairs@.len(),
                    i <= n,
                    self.spec_inner() == Some(pairs@),
                    spec_caps_lookup(pairs@, s@) == spec_caps_lookup(pairs@.skip(i as int), s@),
                decreases n - i,
            {
                proof {
                    assert(pairs@.skip(i as int).len() > 0);
                    assert(pairs@.skip(i as int)[0] == pairs@[i as int]);
                    assert(pairs@.skip(i as int).drop_first() =~= pairs@.skip(i + 1));
                }
                if text::str_eq(pairs[i].0.as_str(), s) {
                    proof {
                        assert(spec_caps_lookup(pairs@.skip(i as int), s@) ==
                            Some(pairs@[i as int].1@));
                        assert(self.spec_get(s@) == Some(pairs@[i as int].1@));
                    }
                    let v = pairs[i].1.clone();
                    proof {
                        assert(v@ == pairs@[i as int].1@);
                    }
                    return Ok(v);
                }
                i += 1;
            }
            proof {
                assert(pairs@.skip(n as int) =~= Seq::<(String, String)>::empty());
            }
        }
        let msg = String::from_str("missing expected uri parameter '").concat(s).concat("'");
        Err(Error::from_kind(ErrorKind::MissingUriParam(msg)))
    }
}

/// A registered caller, as the store describes it.
pub struct User {
    name: String,
}

impl User {
    pub fn new(name: String) -> (r: Self)
        ensures
            r.spec_name() == name@,
    {
        Self { name }
    }

    pub closed spec fn spec_name(&self) -> Seq<char> {
        self.name@
    }

    pub fn name(&self) -> (r: &String)
        ensures
            r@ == self.spec_name(),
    {
        &self.name
    }
}

/// A validated caller identity: the opaque bearer token that the store
/// recognized.
pub struct Auth {
    pub user_token: String,
}

/// Everything a handler gets to see about one request: the request itself,
/// the path parameters its route extracted, and the identity the auth gate
/// established, if any.
pub struct Context {
    pub request: Request,
    pub captures: Caps,
    pub auth: Option<Auth>,
}

impl Context {
    pub fn with_req(r: Request) -> (c: Self)
        ensures
            c.request == r,
            c.captures.spec_inner() is None,
            c.auth is None,
    {
        Self { request: r, auth: None, captures: Caps::empty() }
    }

    pub fn new(r: Request, auth: Option<Auth>, caps: Caps) -> (c: Self)
        ensures
            c.request == r,
            c.captures == caps,
            c.auth == auth,
    {
        Self { request: r, auth, captures: caps }
    }
}

/// The deployment environments the service recognizes.
#[derive(PartialEq, Eq, Structural, Clone, Copy, Debug)]
pub enum Environment {
    Local,
    Production,
}

/// ASCII whitespace, for trimming configuration values.
pub open spec fn spec_is_ws(c: char) -> bool {
    c == ' ' || c == '\t' || c == '\n' || c == '\r'
}

pub open spec fn spec_trim_front(s: Seq<char>) -> Seq<char>
    decreases s.len(),
{
    if s.len() > 0 && spec_is_ws(s[0]) {
        spec_trim_front(s.drop_first())
    } else {
        s
    }
}

pub open spec fn spec_trim_back(s: Seq<char>) -> Seq<char>
    decreases s.len(),
{
    if s.len() > 0 && spec_is_ws(s.last()) {
        spec_trim_back(s.drop_last())
    } else {
        s
    }
}

/// `s` with leading and trailing ASCII whitespace removed.
pub open spec fn spec_trim(s: Seq<char>) -> Seq<char> {
    spec_trim_back(spec_trim_front(s))
}

proof fn lemma_trim_front_skip(s: Seq<char>, i: int)
    requires
        0 <= i <= s.len(),
        forall|j: int| 0 <= j < i ==> spec_is_ws(s[j]),
        i == s.len() || !spec_is_ws(s[i]),
    ensures
        spec_trim_front(s) == s.skip(i),
    decreases i,
{
    if i == 0 {
        assert(s.skip(0) =~= s);
    } else {
        assert(spec_is_ws(s[0]));
        assert(s.drop_first() =~= s.skip(1));
        lemma_trim_front_skip(s.skip(1), i - 1);
        assert(s.skip(1).skip(i - 1) =~= s.skip(i));
    }
}

proof fn lemma_trim_back_take(s: Seq<char>, i: int)
    requires
        0 <= i <= s.len(),
        forall|j: int| i <= j < s.len() ==> spec_is_ws(s[j]),
        i == 0 || !spec_is_ws(s[i - 1]),
    ensures
        spec_trim_back(s) == s.take(i),
    decreases s.len() - i,
{
    if i == s.len() {
        if s.len() > 0 && spec_is_ws(s.last()) {
            assert(!spec_is_ws(s[i - 1]));
            assert(false);
        }
        assert(s.take(i) =~= s);
    } else {
        assert(spec_is_ws(s.last()));
        assert(s.drop_last() =~= s.take(s.len() - 1));
        lemma_trim_back_take(s.take(s.len() - 1), i);
    }
}

/// What parsing a deployment-environment name yields: the name, trimmed and
/// lower-cased, must be exactly `local` or `production`.
pub open spec fn spec_env_of(s: Seq<char>) -> Option<Environment> {
    if spec_lower(spec_trim(s)) == "local"@ {
        Some(Environment::Local)
    } else if spec_lower(spec_trim(s)) == "production"@ {
        Some(Environment::Production)
    } else {
        None
    }
}

impl Environment {
    /// Parse a deployment-environment name, ignoring surrounding whitespace
    /// and ASCII case.  Anything but `local` or `production` is rejected.
    pub fn from_str(s: &str) -> (r: Result<Environment, Error>)
        ensures
            match r {
                Ok(env) => spec_env_of(s@) == Some(env),
                Err(e) => spec_env_of(s@) is None
                    && e.spec_kind() matches ErrorKind::S(_),
            },
    {
        let n = s.unicode_len();
        let mut start: usize = 0;
        while start < n && is_ws(s.get_char(start))
            invariant
                n == s@.len(),
                start <= n,
                forall|j: int| 0 <= j < start ==> spec_is_ws(s@[j]),
            decreases n - start,
        {
            start += 1;
        }
        proof {
            lemma_trim_front_skip(s@, start as int);
        }
        let mut end: usize = n;
        while end > start && is_ws(s.get_char(end - 1))
            invariant
                n == s@.len(),
                start <= end <= n,
                forall|j: int| end <= j < n ==> spec_is_ws(s@[j]),
                forall|j: int| 0 <= j < start ==> spec_is_ws(s@[j]),
                start == n || !spec_is_ws(s@[start as int]),
            decreases end,
        {
            end -= 1;
        }
        proof {
            let front = s@.skip(start as int);
            lemma_trim_back_take(front, end - start);
            assert(spec_trim(s@) == front.take(end - start));
            assert(front.take(end - start) =~= s@.subrange(start as int, end as int));
        }
        let core = s.substring_char(start, end);
        proof {
            reveal_strlit("local");
            reveal_strlit("production");
            assert(spec_lower("local"@) =~= "local"@);
            assert(spec_lower("production"@) =~= "production"@);
        }
        if http::eq_ci(core, "local") {
            Ok(Environment::Local)
        } else if http::eq_ci(core, "production") {
            Ok(Environment::Production)
        } else {
            let msg = String::from_str("Invalid env: ").concat(s);
            Err(Error::from_kind(ErrorKind::S(msg)))
        }
    }
}

/// Executable ASCII whitespace test.
fn is_ws(c: char) -> (r: bool)
    ensures
        r == spec_is_ws(c),
{
    c == ' ' || c == '\t' || c == '\n' || c == '\r'
}

} // verus!
