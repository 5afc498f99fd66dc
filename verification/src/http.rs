//! Plain-value models of HTTP requests and responses, and header lookup.
//! The transport that produces and consumes these lives outside the library.

use vstd::prelude::*;
use crate::text::{spec_lower, lower_char};

verus! {

/// The fixed enumeration of request methods the router distinguishes.
/// Anything else a transport may deliver maps to `Other` and can only reach
/// the fallback route.
#[derive(PartialEq, Eq, Structural, Clone, Copy, Debug)]
pub enum Method {
    Get,
    Post,
    Put,
    Delete,
    Head,
    Options,
    Patch,
    Other,
}

/// An inbound request: method, raw path, headers in arrival order, body.
#[derive(Debug)]
pub struct Request {
    pub method: Method,
    pub path: String,
    pub headers: Vec<(String, String)>,
    pub body: Vec<u8>,
}

/// An outbound response.
#[derive(Debug)]
pub struct Response {
    pub status: u16,
    pub headers: Vec<(String, String)>,
    pub body: Vec<u8>,
}

/// The value of the first header whose name equals `name` up to ASCII case,
/// or `None`.  Header names compare case-insensitively, as HTTP requires.
pub open spec fn spec_header_value(headers: Seq<(String, String)>, name: Seq<char>) -> Option<Seq<char>>
    decreases headers.len(),
{
    if headers.len() == 0 {
        None
    } else if spec_lower(headers[0].0@) == spec_lower(name) {
        Some(headers[0].1@)
    } else {
        spec_header_value(headers.drop_first(), name)
    }
}

/// Case-insensitive equality of two strings.
pub fn eq_ci(a: &str, b: &str) -> (r: bool)
    ensures
        r == (spec_lower(a@) == spec_lower(b@)),
{
    let n = a.unicode_len();
    if n != b.unicode_len() {
        proof {
            assert(spec_lower(a@).len() == a@.len());
            assert(spec_lower(b@).len() == b@.len());
        }
        return false;
    }
    let mut i: usize = 0;
    while i < n
        invariant
            n == a@.len() && n == b@.len(),
            i <= n,
            forall|j: int| 0 <= j < i ==> spec_lower(a@)[j] == spec_lower(b@)[j],
        decreases n - i,
    {
        if lower_char(a.get_char(i)) != lower_char(b.get_char(i)) {
            proof {
                assert(spec_lower(a@)[i as int] != spec_lower(b@)[i as int]);
            }
            return false;
        }
        proof {
            assert(spec_lower(a@)[i as int] == spec_lower(b@)[i as int]);
        }
        i += 1;
    }
    proof {
        assert(spec_lower(a@) =~= spec_lower(b@));
    }
    true
}

/// Look up a header by name, first match wins.
pub fn header_value(headers: &Vec<(String, String)>, name: &str) -> (r: Option<String>)
    ensures
        match r {
            Some(v) => spec_header_value(headers@, name@) == Some(v@),
            None => spec_header_value(headers@, name@) is None,
        },
{
    let n = headers.len();
    let mut i: usize = 0;
    proof {
        assert(headers@.skip(0) =~= headers@);
    }
    while i < n
        invariant
            n == headers@.len(),
            i <= n,
            spec_header_value(headers@, name@) == spec_header_value(headers@.skip(i as int), name@),
        decreases n - i,
    {
        proof {
            assert(headers@.skip(i as int).len() > 0);
            assert(headers@.skip(i as int)[0] == headers@[i as int]);
            assert(headers@.skip(i as int).drop_first() =~= headers@.skip(i + 1));
        }
        if eq_ci(headers[i].0.as_str(), name) {
            proof {
                assert(spec_header_value(headers@.skip(i as int), name@) ==
                    Some(headers@[i as int].1@));
            }
            return Some(headers[i].1.clone());
        }
        i += 1;
    }
    proof {
        assert(headers@.skip(n as int) =~= Seq::<(String, String)>::empty());
    }
    None
}

} // verus!
