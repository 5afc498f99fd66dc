//! The route matcher: an explicit, ordered list of route descriptors,
//! resolved by one generic first-match-wins loop.  Each route binds a
//! method and a segment pattern with named captures to a handler; a table
//! always carries an unconditional fallback.

use vstd::prelude::*;
use vstd::string::*;

use crate::http::Method;
use crate::text::{normalize_path, spec_normalize_path, spec_split, split_char, str_eq, views_of};
use crate::Caps;

verus! {

/// The handlers a route can dispatch to.
#[derive(PartialEq, Eq, Structural, Clone, Copy, Debug)]
pub enum HandlerKind {
    Index,
    Create,
    Track,
    TrackingStats,
    Status,
    NotFound,
}

/// One element of a route's path pattern: either a literal segment or a
/// named capture that matches one non-empty segment of token characters.
pub enum PatSeg {
    Lit(String),
    Param(String),
}

/// Characters a named capture accepts: letters, digits, `-` and `_`.
pub open spec fn is_token_char(c: char) -> bool {
    ('a' <= c && c <= 'z') || ('A' <= c && c <= 'Z') || ('0' <= c && c <= '9')
        || c == '-' || c == '_'
}

fn token_char(c: char) -> (r: bool)
    ensures
        r == is_token_char(c),
{
    ('a' <= c && c <= 'z') || ('A' <= c && c <= 'Z') || ('0' <= c && c <= '9')
        || c == '-' || c == '_'
}

/// Whether one pattern element matches one path segment.
pub open spec fn spec_seg_matches(p: PatSeg, seg: Seq<char>) -> bool {
    match p {
        PatSeg::Lit(l) => l@ == seg,
        PatSeg::Param(_) => seg.len() > 0 && (forall|j: int| 0 <= j < seg.len() ==> is_token_char(seg[j])),
    }
}

/// Whether a pattern matches a segment list: same length, element-wise match.
pub open spec fn spec_pat_matches(pats: Seq<PatSeg>, segs: Seq<Seq<char>>) -> bool {
    pats.len() == segs.len()
        && (forall|i: int| 0 <= i < pats.len() ==> spec_seg_matches(#[trigger] pats[i], segs[i]))
}

/// The capture names a pattern declares, in order.
pub open spec fn spec_param_names(pats: Seq<PatSeg>) -> Seq<Seq<char>>
    decreases pats.len(),
{
    if pats.len() == 0 {
        Seq::empty()
    } else {
        let rest = spec_param_names(pats.drop_first());
        match pats[0] {
            PatSeg::Param(n) => seq![n@] + rest,
            PatSeg::Lit(_) => rest,
        }
    }
}

/// The name/value pairs a matching pattern extracts from a segment list.
pub open spec fn spec_captures(pats: Seq<PatSeg>, segs: Seq<Seq<char>>) -> Seq<(Seq<char>, Seq<char>)>
    decreases pats.len(),
{
    if pats.len() == 0 || segs.len() == 0 {
        Seq::empty()
    } else {
        let rest = spec_captures(pats.drop_first(), segs.drop_first());
        match pats[0] {
            PatSeg::Param(n) => seq![(n@, segs[0])] + rest,
            PatSeg::Lit(_) => rest,
        }
    }
}

/// The views of a capture list held in exec types.
pub open spec fn pairs_views(ps: Seq<(String, String)>) -> Seq<(Seq<char>, Seq<char>)> {
    ps.map_values(|p: (String, String)| (p.0@, p.1@))
}

proof fn lemma_param_names_push(p: Seq<PatSeg>, x: PatSeg)
    ensures
        spec_param_names(p.push(x)) == spec_param_names(p) + (match x {
            PatSeg::Param(n) => seq![n@],
            PatSeg::Lit(_) => Seq::<Seq<char>>::empty(),
        }),
    decreases p.len(),
{
    if p.len() == 0 {
        assert(p.push(x).len() == 1);
        assert(p.push(x)[0] == x);
        assert(p.push(x).drop_first() =~= Seq::<PatSeg>::empty());
        assert(spec_param_names(p.push(x).drop_first()) =~= Seq::<Seq<char>>::empty());
        assert(spec_param_names(p) =~= Seq::<Seq<char>>::empty());
        assert(spec_param_names(p.push(x)) =~= spec_param_names(p) + (match x {
            PatSeg::Param(n) => seq![n@],
            PatSeg::Lit(_) => Seq::<Seq<char>>::empty(),
        }));
    } else {
        assert(p.push(x)[0] == p[0]);
        assert(p.push(x).drop_first() =~= p.drop_first().push(x));
        lemma_param_names_push(p.drop_first(), x);
        assert(spec_param_names(p.push(x)) =~= spec_param_names(p) + (match x {
            PatSeg::Param(n) => seq![n@],
            PatSeg::Lit(_) => Seq::<Seq<char>>::empty(),
        }));
    }
}

proof fn lemma_captures_push(p: Seq<PatSeg>, s: Seq<Seq<char>>, x: PatSeg, y: Seq<char>)
    requires
        p.len() == s.len(),
    ensures
        spec_captures(p.push(x), s.push(y)) == spec_captures(p, s) + (match x {
            PatSeg::Param(n) => seq![(n@, y)],
            PatSeg::Lit(_) => Seq::<(Seq<char>, Seq<char>)>::empty(),
        }),
    decreases p.len(),
{
    if p.len() == 0 {
        assert(p.push(x).len() == 1);
        assert(p.push(x)[0] == x);
        assert(s.push(y)[0] == y);
        assert(p.push(x).drop_first() =~= Seq::<PatSeg>::empty());
        assert(s.push(y).drop_first() =~= Seq::<Seq<char>>::empty());
        assert(spec_captures(p.push(x).drop_first(), s.push(y).drop_first())
            =~= Seq::<(Seq<char>, Seq<char>)>::empty());
        assert(spec_captures(p, s) =~= Seq::<(Seq<char>, Seq<char>)>::empty());
        assert(spec_captures(p.push(x), s.push(y)) =~= spec_captures(p, s) + (match x {
            PatSeg::Param(n) => seq![(n@, y)],
            PatSeg::Lit(_) => Seq::<(Seq<char>, Seq<char>)>::empty(),
        }));
    } else {
        assert(p.push(x)[0] == p[0]);
        assert(s.push(y)[0] == s[0]);
        assert(p.push(x).drop_first() =~= p.drop_first().push(x));
        assert(s.push(y).drop_first() =~= s.drop_first().push(y));
        lemma_captures_push(p.drop_first(), s.drop_first(), x, y);
        assert(spec_captures(p.push(x), s.push(y)) =~= spec_captures(p, s) + (match x {
            PatSeg::Param(n) => seq![(n@, y)],
            PatSeg::Lit(_) => Seq::<(Seq<char>, Seq<char>)>::empty(),
        }));
    }
}

/// One route descriptor: method, pattern, the capture names the pattern is
/// declared to produce, and the handler to dispatch to.
pub struct Route {
    pub method: Method,
    pub pattern: Vec<PatSeg>,
    pub capture_names: Vec<String>,
    pub handler: HandlerKind,
}

/// A route is well formed when its declared capture names are exactly the
/// names its pattern produces, in order.
pub open spec fn spec_route_wf(r: Route) -> bool {
    views_of(r.capture_names@) == spec_param_names(r.pattern@)
}

/// The ordered route table, with its unconditional trailing fallback.
pub struct RouteTable {
    pub routes: Vec<Route>,
    pub fallback: HandlerKind,
}

/// Every route of the table is well formed.
pub open spec fn spec_table_wf(t: RouteTable) -> bool {
    forall|i: int| 0 <= i < t.routes@.len() ==> spec_route_wf(#[trigger] t.routes@[i])
}

/// Whether a route matches a request's method and normalized path segments.
pub open spec fn spec_route_matches(r: Route, m: Method, segs: Seq<Seq<char>>) -> bool {
    r.method == m && spec_pat_matches(r.pattern@, segs)
}

/// The index of the first route that matches, or `None`.
pub open spec fn spec_first_match(routes: Seq<Route>, m: Method, segs: Seq<Seq<char>>) -> Option<int>
    decreases routes.len(),
{
    if routes.len() == 0 {
        None
    } else if spec_route_matches(routes[0], m, segs) {
        Some(0)
    } else {
        match spec_first_match(routes.drop_first(), m, segs) {
            Some(i) => Some(i + 1),
            None => None,
        }
    }
}

/// The segments a request path is matched on: normalize, then split on `/`.
pub open spec fn spec_path_segs(path: Seq<char>) -> Seq<Seq<char>> {
    spec_split(spec_normalize_path(path), '/')
}

/// First-match-wins dispatch: a route that matches, and before which no
/// route matches, is the one dispatched to.
///
/// This is the route matcher's half of the guarantee that a request with a
/// route's exact method and a matching path reaches that route's handler.
pub proof fn lemma_first_match_here(routes: Seq<Route>, m: Method, segs: Seq<Seq<char>>, i: int)
    requires
        0 <= i < routes.len(),
        spec_route_matches(routes[i], m, segs),
        forall|j: int| 0 <= j < i ==> !spec_route_matches(#[trigger] routes[j], m, segs),
    ensures
        spec_first_match(routes, m, segs) == Some(i),
    decreases i,
{
    if i == 0 {
    } else {
        assert(!spec_route_matches(routes[0], m, segs));
        lemma_first_match_here(routes.drop_first(), m, segs, i - 1);
    }
}

/// A request no declared route matches falls through to the fallback: the
/// first-match search comes up empty.
pub proof fn lemma_first_match_none(routes: Seq<Route>, m: Method, segs: Seq<Seq<char>>)
    requires
        forall|j: int| 0 <= j < routes.len() ==> !spec_route_matches(#[trigger] routes[j], m, segs),
    ensures
        spec_first_match(routes, m, segs) is None,
    decreases routes.len(),
{
    if routes.len() > 0 {
        lemma_first_match_none(routes.drop_first(), m, segs);
    }
}

/// A path that does not end in `/` and the same path with one `/` appended
/// resolve to the same route with the same captures.
pub proof fn lemma_trailing_slash_equivalent(routes: Seq<Route>, m: Method, p: Seq<char>)
    requires
        p.len() == 0 || p.last() != '/',
    ensures
        spec_path_segs(p.push('/')) == spec_path_segs(p),
        spec_first_match(routes, m, spec_path_segs(p.push('/')))
            == spec_first_match(routes, m, spec_path_segs(p)),
{
    assert(p.push('/').last() == '/');
    assert(p.push('/').drop_last() =~= p);
    assert(spec_normalize_path(p.push('/')) == p);
    assert(spec_normalize_path(p) == p);
}

/// Whether one pattern element matches one segment.
fn seg_match(p: &PatSeg, seg: &String) -> (r: bool)
    ensures
        r == spec_seg_matches(*p, seg@),
{
    match p {
        PatSeg::Lit(l) => str_eq(l.as_str(), seg.as_str()),
        PatSeg::Param(_) => {
            let n = seg.as_str().unicode_len();
            if n == 0 {
                return false;
            }
            let mut j: usize = 0;
            while j < n
                invariant
                    n == seg@.len(),
                    n > 0,
                    j <= n,
                    *p matches PatSeg::Param(_),
                    forall|l: int| 0 <= l < j ==> is_token_char(seg@[l]),
                decreases n - j,
            {
                if !token_char(seg.as_str().get_char(j)) {
                    proof {
                        assert(!is_token_char(seg@[j as int]));
                    }
                    return false;
                }
                j += 1;
            }
            true
        },
    }
}

/// Whether a whole pattern matches a segment list.
fn pat_match(pats: &Vec<PatSeg>, segs: &Vec<String>) -> (r: bool)
    ensures
        r == spec_pat_matches(pats@, views_of(segs@)),
{
    let n = pats.len();
    if n != segs.len() {
        proof {
            assert(views_of(segs@).len() == segs@.len());
        }
        return false;
    }
    let mut i: usize = 0;
    while i < n
        invariant
            n == pats@.len() && n == segs@.len() && n == views_of(segs@).len(),
            i <= n,
            forall|l: int| 0 <= l < i ==> spec_seg_matches(#[trigger] pats@[l], views_of(segs@)[l]),
        decreases n - i,
    {
        if !seg_match(&pats[i], &segs[i]) {
            proof {
                assert(!spec_seg_matches(pats@[i as int], views_of(segs@)[i as int]));
            }
            return false;
        }
        i += 1;
    }
    true
}

/// Extract the named captures of a matching pattern from the segments.
fn extract_captures(pats: &Vec<PatSeg>, segs: &Vec<String>) -> (r: Vec<(String, String)>)
    requires
        pats@.len() == segs@.len(),
    ensures
        pairs_views(r@) == spec_captures(pats@, views_of(segs@)),
        r@.len() == spec_param_names(pats@).len(),
{
    let n = pats.len();
    let mut out: Vec<(String, String)> = Vec::new();
    let mut i: usize = 0;
    proof {
        assert(pats@.take(0) =~= Seq::<PatSeg>::empty());
        assert(views_of(segs@).take(0) =~= Seq::<Seq<char>>::empty());
        assert(pairs_views(out@) =~= spec_captures(pats@.take(0), views_of(segs@).take(0)));
        assert(spec_param_names(pats@.take(0)) =~= Seq::<Seq<char>>::empty());
    }
    while i < n
        invariant
            n == pats@.len() && n == segs@.len() && n == views_of(segs@).len(),
            i <= n,
            pairs_views(out@) =~= spec_captures(pats@.take(i as int), views_of(segs@).take(i as int)),
            out@.len() == spec_param_names(pats@.take(i as int)).len(),
        decreases n - i,
    {
        proof {
            assert(pats@.take(i + 1) =~= pats@.take(i as int).push(pats@[i as int]));
            assert(views_of(segs@).take(i + 1) =~=
                views_of(segs@).take(i as int).push(views_of(segs@)[i as int]));
            lemma_captures_push(pats@.take(i as int), views_of(segs@).take(i as int),
                pats@[i as int], views_of(segs@)[i as int]);
            lemma_param_names_push(pats@.take(i as int), pats@[i as int]);
        }
        match &pats[i] {
            PatSeg::Param(name) => {
                let pair = (name.clone(), segs[i].clone());
                out.push(pair);
                proof {
                    assert(pairs_views(out@) =~= pairs_views(out@.drop_last()) + seq![(pair.0@, pair.1@)]);
                }
            },
            PatSeg::Lit(_) => {},
        }
        i += 1;
    }
    proof {
        assert(pats@.take(n as int) =~= pats@);
        assert(views_of(segs@).take(n as int) =~= views_of(segs@));
    }
    out
}

/// Resolve a request to a handler and its captures.  Matching is
/// first-match-wins over the table's ordered routes; a request that no
/// declared route matches goes to the fallback with no captures.  A route
/// without captures yields empty captures, as its handler expects.
pub fn match_route(table: &RouteTable, method: Method, path: &str) -> (r: (HandlerKind, Caps))
    ensures
        match spec_first_match(table.routes@, method, spec_path_segs(path@)) {
            Some(i) => {
                &&& r.0 == table.routes@[i].handler
                &&& if spec_param_names(table.routes@[i].pattern@).len() == 0 {
                    r.1.spec_inner() is None
                } else {
                    r.1.spec_inner() matches Some(ps)
                        && pairs_views(ps) == spec_captures(table.routes@[i].pattern@, spec_path_segs(path@))
                }
            },
            None => r.0 == table.fallback && r.1.spec_inner() is None,
        },
{
    let normalized = normalize_path(path);
    let segs = split_char(normalized.as_str(), '/');
    proof {
        assert(views_of(segs@) == spec_path_segs(path@));
    }
    let n = table.routes.len();
    let mut i: usize = 0;
    while i < n
        invariant
            n == table.routes@.len(),
            i <= n,
            views_of(segs@) == spec_path_segs(path@),
            segs@.len() == views_of(segs@).len(),
            forall|j: int| 0 <= j < i ==>
                !spec_route_matches(#[trigger] table.routes@[j], method, spec_path_segs(path@)),
        decreases n - i,
    {
        let rt = &table.routes[i];
        if rt.method == method && pat_match(&rt.pattern, &segs) {
            proof {
                lemma_first_match_here(table.routes@, method, spec_path_segs(path@), i as int);
            }
            let caps = extract_captures(&rt.pattern, &segs);
            if caps.len() == 0 {
                proof {
                    assert(spec_param_names(rt.pattern@).len() == 0);
                }
                return (rt.handler, Caps::empty());
            }
            proof {
                assert(spec_param_names(rt.pattern@).len() != 0);
            }
            return (rt.handler, Caps::with(caps));
        }
        proof {
            assert(!spec_route_matches(table.routes@[i as int], method, spec_path_segs(path@)));
        }
        i += 1;
    }
    proof {
        lemma_first_match_none(table.routes@, method, spec_path_segs(path@));
    }
    (table.fallback, Caps::empty())
}

/// The startup check on a single route: its declared capture names must be
/// exactly what its pattern produces.  A mismatch is a configuration error,
/// never a per-request one.
pub fn validate_route(r: &Route) -> (ok: bool)
    ensures
        ok == spec_route_wf(*r),
{
    let n = r.pattern.len();
    let m = r.capture_names.len();
    let mut i: usize = 0;
    let mut k: usize = 0;
    proof {
        assert(r.pattern@.take(0) =~= Seq::<PatSeg>::empty());
        assert(spec_param_names(r.pattern@.take(0)) =~= Seq::<Seq<char>>::empty());
        assert(views_of(r.capture_names@).take(0) =~= Seq::<Seq<char>>::empty());
    }
    while i < n
        invariant
            n == r.pattern@.len(),
            m == r.capture_names@.len(),
            i <= n,
            k <= m,
            spec_param_names(r.pattern@.take(i as int)) =~= views_of(r.capture_names@).take(k as int),
        decreases n - i,
    {
        proof {
            assert(r.pattern@.take(i + 1) =~= r.pattern@.take(i as int).push(r.pattern@[i as int]));
            lemma_param_names_push(r.pattern@.take(i as int), r.pattern@[i as int]);
        }
        match &r.pattern[i] {
            PatSeg::Param(name) => {
                if k >= m || !str_eq(r.capture_names[k].as_str(), name.as_str()) {
                    proof {
                        lemma_prefix_mismatch(spec_param_names(r.pattern@),
                            views_of(r.capture_names@),
                            spec_param_names(r.pattern@.take(i as int)), k as int,
                            r.pattern@, i as int, match r.pattern@[i as int] {
                                PatSeg::Param(nm) => nm@,
                                PatSeg::Lit(_) => Seq::<char>::empty(),
                            });
                    }
                    return false;
                }
                proof {
                    assert(views_of(r.capture_names@).take(k + 1) =~=
                        views_of(r.capture_names@).take(k as int).push(r.capture_names@[k as int]@));
                }
                k += 1;
            },
            PatSeg::Lit(_) => {},
        }
        i += 1;
    }
    proof {
        assert(r.pattern@.take(n as int) =~= r.pattern@);
    }
    if k == m {
        proof {
            assert(views_of(r.capture_names@).take(m as int) =~= views_of(r.capture_names@));
        }
        true
    } else {
        proof {
            assert(views_of(r.capture_names@).len() == m);
            assert(spec_param_names(r.pattern@).len() == k);
        }
        false
    }
}

/// A sequence prefixed by `done` and continuing with a name that the other
/// sequence cannot supply at position `k` differs from that sequence.
proof fn lemma_prefix_mismatch(
    full: Seq<Seq<char>>,
    names: Seq<Seq<char>>,
    done: Seq<Seq<char>>,
    k: int,
    pats: Seq<PatSeg>,
    i: int,
    next: Seq<char>,
)
    requires
        0 <= i < pats.len(),
        0 <= k <= names.len(),
        done == spec_param_names(pats.take(i)),
        done =~= names.take(k),
        full == spec_param_names(pats),
        pats[i] matches PatSeg::Param(nm) && nm@ == next,
        k >= names.len() || names[k] != next,
    ensures
        full != names,
    decreases pats.len() - i,
{
    lemma_param_names_prefix_of(pats, i);
    assert(pats.take(i + 1) =~= pats.take(i).push(pats[i]));
    lemma_param_names_push(pats.take(i), pats[i]);
    lemma_param_names_prefix_of(pats, i + 1);
    let upto = spec_param_names(pats.take(i + 1));
    assert(upto =~= done + seq![next]);
    assert(upto.len() == k + 1);
    assert(upto[k] == next);
    // `upto` is a prefix of `full`
    if full == names {
        assert(full.len() >= k + 1);
        assert(full[k] == next);
        assert(names[k] == next);
        assert(false);
    }
}

/// `spec_param_names` of a prefix is a prefix of `spec_param_names`.
proof fn lemma_param_names_prefix_of(pats: Seq<PatSeg>, i: int)
    requires
        0 <= i <= pats.len(),
    ensures
        spec_param_names(pats.take(i)).len() <= spec_param_names(pats).len(),
        spec_param_names(pats) =~= spec_param_names(pats.take(i))
            + spec_param_names(pats.skip(i)),
    decreases pats.len() - i,
{
    if i == pats.len() {
        assert(pats.take(i) =~= pats);
        assert(pats.skip(i) =~= Seq::<PatSeg>::empty());
    } else {
        assert(pats.take(i + 1) =~= pats.take(i).push(pats[i]));
        lemma_param_names_push(pats.take(i), pats[i]);
        lemma_param_names_prefix_of(pats, i + 1);
        assert(pats.skip(i).drop_first() =~= pats.skip(i + 1));
        assert(pats.skip(i)[0] == pats[i]);
        assert(spec_param_names(pats.skip(i)) =~= (match pats[i] {
            PatSeg::Param(n) => seq![n@],
            PatSeg::Lit(_) => Seq::<Seq<char>>::empty(),
        }) + spec_param_names(pats.skip(i + 1)));
    }
}

/// A pattern element is the literal segment `v`.
pub open spec fn is_lit(p: PatSeg, v: Seq<char>) -> bool {
    p matches PatSeg::Lit(s) && s@ == v
}

/// A pattern element is a named capture called `v`.
pub open spec fn is_param(p: PatSeg, v: Seq<char>) -> bool {
    p matches PatSeg::Param(s) && s@ == v
}

proof fn lemma_names_of_lits(s: Seq<PatSeg>)
    requires
        forall|i: int| 0 <= i < s.len() ==> #[trigger] s[i] matches PatSeg::Lit(_),
    ensures
        spec_param_names(s) =~= Seq::<Seq<char>>::empty(),
    decreases s.len(),
{
    if s.len() > 0 {
        assert(s[0] matches PatSeg::Lit(_));
        assert(forall|i: int| 0 <= i < s.drop_first().len()
            ==> #[trigger] s.drop_first()[i] matches PatSeg::Lit(_));
        lemma_names_of_lits(s.drop_first());
    }
}

proof fn lemma_names_lits_then_param(s: Seq<PatSeg>, n: Seq<char>)
    requires
        s.len() > 0,
        forall|i: int| 0 <= i < s.len() - 1 ==> #[trigger] s[i] matches PatSeg::Lit(_),
        is_param(s.last(), n),
    ensures
        spec_param_names(s) =~= seq![n],
    decreases s.len(),
{
    if s.len() == 1 {
        assert(s[0] == s.last());
        assert(s.drop_first() =~= Seq::<PatSeg>::empty());
        assert(spec_param_names(Seq::<PatSeg>::empty()) =~= Seq::<Seq<char>>::empty());
        assert(spec_param_names(s) =~= seq![n]);
    } else {
        assert(s[0] matches PatSeg::Lit(_));
        assert(s.drop_first().last() == s.last());
        assert(forall|i: int| 0 <= i < s.drop_first().len() - 1
            ==> #[trigger] s.drop_first()[i] matches PatSeg::Lit(_));
        lemma_names_lits_then_param(s.drop_first(), n);
    }
}

/// The service's declared routes, in matching order (see the table in the
/// service's interface description), with the unconditional fallback.
pub fn standard_routes() -> (t: RouteTable)
    ensures
        spec_table_wf(t),
        t.fallback == HandlerKind::NotFound,
        t.routes@.len() == 6,
        ({
            let r = t.routes@[0];
            r.method == Method::Get && r.handler == HandlerKind::Track
                && r.pattern@.len() == 3
                && is_lit(r.pattern@[0], ""@) && is_lit(r.pattern@[1], "p"@)
                && is_param(r.pattern@[2], "token"@)
        }),
        ({
            let r = t.routes@[1];
            r.method == Method::Get && r.handler == HandlerKind::Status
                && r.pattern@.len() == 2
                && is_lit(r.pattern@[0], ""@) && is_lit(r.pattern@[1], "status"@)
        }),
        ({
            let r = t.routes@[2];
            r.method == Method::Get && r.handler == HandlerKind::Index
                && r.pattern@.len() == 1 && is_lit(r.pattern@[0], ""@)
        }),
        ({
            let r = t.routes@[3];
            r.method == Method::Post && r.handler == HandlerKind::Create
                && r.pattern@.len() == 2
                && is_lit(r.pattern@[0], ""@) && is_lit(r.pattern@[1], "create"@)
        }),
        ({
            let r = t.routes@[4];
            r.method == Method::Get && r.handler == HandlerKind::TrackingStats
                && r.pattern@.len() == 2
                && is_lit(r.pattern@[0], ""@) && is_lit(r.pattern@[1], "stat"@)
        }),
        ({
            let r = t.routes@[5];
            r.method == Method::Get && r.handler == HandlerKind::TrackingStats
                && r.pattern@.len() == 3
                && is_lit(r.pattern@[0], ""@) && is_lit(r.pattern@[1], "stat"@)
                && is_param(r.pattern@[2], "token"@)
        }),
{
    let track = Route {
        method: Method::Get,
        pattern: vec![
            PatSeg::Lit(String::from_str("")),
            PatSeg::Lit(String::from_str("p")),
            PatSeg::Param(String::from_str("token")),
        ],
        capture_names: vec![String::from_str("token")],
        handler: HandlerKind::Track,
    };
    let status = Route {
        method: Method::Get,
        pattern: vec![
            PatSeg::Lit(String::from_str("")),
            PatSeg::Lit(String::from_str("status")),
        ],
        capture_names: Vec::new(),
        handler: HandlerKind::Status,
    };
    let index = Route {
        method: Method::Get,
        pattern: vec![PatSeg::Lit(String::from_str(""))],
        capture_names: Vec::new(),
        handler: HandlerKind::Index,
    };
    let create = Route {
        method: Method::Post,
        pattern: vec![
            PatSeg::Lit(String::from_str("")),
            PatSeg::Lit(String::from_str("create")),
        ],
        capture_names: Vec::new(),
        handler: HandlerKind::Create,
    };
    let stat = Route {
        method: Method::Get,
        pattern: vec![
            PatSeg::Lit(String::from_str("")),
            PatSeg::Lit(String::from_str("stat")),
        ],
        capture_names: Vec::new(),
        handler: HandlerKind::TrackingStats,
    };
    let stat_token = Route {
        method: Method::Get,
        pattern: vec![
            PatSeg::Lit(String::from_str("")),
            PatSeg::Lit(String::from_str("stat")),
            PatSeg::Param(String::from_str("token")),
        ],
        capture_names: vec![String::from_str("token")],
        handler: HandlerKind::TrackingStats,
    };
    proof {
        lemma_names_lits_then_param(track.pattern@, "token"@);
        assert(views_of(track.capture_names@) =~= seq!["token"@]);
        lemma_names_of_lits(status.pattern@);
        assert(views_of(status.capture_names@) =~= Seq::<Seq<char>>::empty());
        lemma_names_of_lits(index.pattern@);
        assert(views_of(index.capture_names@) =~= Seq::<Seq<char>>::empty());
        lemma_names_of_lits(create.pattern@);
        assert(views_of(create.capture_names@) =~= Seq::<Seq<char>>::empty());
        lemma_names_of_lits(stat.pattern@);
        assert(views_of(stat.capture_names@) =~= Seq::<Seq<char>>::empty());
        lemma_names_lits_then_param(stat_token.pattern@, "token"@);
        assert(views_of(stat_token.capture_names@) =~= seq!["token"@]);
    }
    let t = RouteTable {
        routes: vec![track, status, index, create, stat, stat_token],
        fallback: HandlerKind::NotFound,
    };
    t
}

/// The startup check on the whole table.
pub fn validate_table(t: &RouteTable) -> (ok: bool)
    ensures
        ok == spec_table_wf(*t),
{
    let n = t.routes.len();
    let mut i: usize = 0;
    while i < n
        invariant
            n == t.routes@.len(),
            i <= n,
            forall|j: int| 0 <= j < i ==> spec_route_wf(#[trigger] t.routes@[j]),
        decreases n - i,
    {
        if !validate_route(&t.routes[i]) {
            return false;
        }
        i += 1;
    }
    true
}

} // verus!
