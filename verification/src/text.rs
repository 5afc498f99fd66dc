//! Verified string utilities the pipeline is built on: path normalization,
//! splitting on `/`, ASCII case folding, and substring search.

use vstd::prelude::*;
use vstd::string::*;

verus! {

/// Strip a single trailing `/` from a path, so that `/stat/` and `/stat`
/// are treated alike.
pub open spec fn spec_normalize_path(p: Seq<char>) -> Seq<char> {
    if p.len() > 0 && p.last() == '/' {
        p.drop_last()
    } else {
        p
    }
}

/// Executable path normalization: remove one trailing `/` if present.
pub fn normalize_path(p: &str) -> (r: String)
    ensures
        r@ == spec_normalize_path(p@),
{
    let n = p.unicode_len();
    if n > 0 && p.get_char(n - 1) == '/' {
        p.substring_char(0, n - 1).to_owned()
    } else {
        p.to_owned()
    }
}

/// Character-wise string equality.
pub fn str_eq(a: &str, b: &str) -> (r: bool)
    ensures
        r == (a@ == b@),
{
    let n = a.unicode_len();
    if n != b.unicode_len() {
        proof {
            assert(a@ != b@) by {
                assert(a@.len() != b@.len());
            }
        }
        return false;
    }
    let mut i: usize = 0;
    while i < n
        invariant
            n == a@.len() && n == b@.len(),
            i <= n,
            forall|j: int| 0 <= j < i ==> a@[j] == b@[j],
        decreases n - i,
    {
        if a.get_char(i) != b.get_char(i) {
            return false;
        }
        i += 1;
    }
    proof {
        assert(a@ =~= b@);
    }
    true
}

/// ASCII lower-casing of one character; everything outside `A`..`Z` is kept.
pub open spec fn spec_lower_char(c: char) -> char {
    if 'A' <= c && c <= 'Z' {
        (((c as u8) + 32) as char)
    } else {
        c
    }
}

pub fn lower_char(c: char) -> (r: char)
    ensures
        r == spec_lower_char(c),
{
    if 'A' <= c && c <= 'Z' {
        ((c as u8) + 32) as char
    } else {
        c
    }
}

/// ASCII lower-casing of a string, character by character.
pub open spec fn spec_lower(s: Seq<char>) -> Seq<char> {
    s.map_values(|c: char| spec_lower_char(c))
}

/// Whether `sub` occurs in `s` starting at position `at`.
pub open spec fn occurs_at(s: Seq<char>, sub: Seq<char>, at: int) -> bool {
    &&& 0 <= at
    &&& at + sub.len() <= s.len()
    &&& s.subrange(at, at + sub.len()) == sub
}

/// Whether `sub` occurs anywhere in `s`.
pub open spec fn contains_seq(s: Seq<char>, sub: Seq<char>) -> bool {
    exists|at: int| occurs_at(s, sub, at)
}

/// Case-insensitive substring test: does `spec_lower(s@)` contain
/// `spec_lower(sub@)`?
pub fn contains_ci(s: &str, sub: &str) -> (r: bool)
    ensures
        r == contains_seq(spec_lower(s@), spec_lower(sub@)),
{
    let n = s.unicode_len();
    let m = sub.unicode_len();
    if m > n {
        proof {
            assert(forall|at: int| !occurs_at(spec_lower(s@), spec_lower(sub@), at));
        }
        return false;
    }
    let mut at: usize = 0;
    while at <= n - m
        invariant
            m <= n,
            n == s@.len() && m == sub@.len(),
            at <= n - m + 1,
            forall|k: int| 0 <= k < at ==> !occurs_at(spec_lower(s@), spec_lower(sub@), k),
        decreases n - m + 1 - at,
    {
        let mut j: usize = 0;
        let mut all_eq: bool = true;
        while j < m
            invariant
                m <= n,
                n == s@.len() && m == sub@.len(),
                at + m <= n,
                j <= m,
                all_eq <==> (forall|l: int| 0 <= l < j ==>
                    spec_lower(s@)[at + l] == spec_lower(sub@)[l]),
            decreases m - j,
        {
            if lower_char(s.get_char(at + j)) != lower_char(sub.get_char(j)) {
                all_eq = false;
                proof {
                    assert(spec_lower(s@)[at + j] != spec_lower(sub@)[j as int]);
                }
                j = m;
            } else {
                proof {
                    assert(spec_lower(s@)[at + j] == spec_lower(sub@)[j as int]);
                }
                j += 1;
            }
        }
        if all_eq {
            proof {
                assert(spec_lower(s@).subrange(at as int, at + m) =~= spec_lower(sub@));
                assert(occurs_at(spec_lower(s@), spec_lower(sub@), at as int));
            }
            return true;
        }
        proof {
            assert(!occurs_at(spec_lower(s@), spec_lower(sub@), at as int)) by {
                if occurs_at(spec_lower(s@), spec_lower(sub@), at as int) {
                    assert(forall|l: int| 0 <= l < m ==>
                        spec_lower(s@).subrange(at as int, at + m)[l] == spec_lower(sub@)[l]);
                    assert(forall|l: int| 0 <= l < m ==>
                        spec_lower(s@)[at + l] == spec_lower(sub@)[l]);
                }
            }
        }
        at += 1;
    }
    proof {
        assert(forall|k: int| !occurs_at(spec_lower(s@), spec_lower(sub@), k)) by {
            assert(forall|k: int| k > n - m ==> !occurs_at(spec_lower(s@), spec_lower(sub@), k));
        }
    }
    false
}

/// Whether `s` starts with `prefix`.
pub open spec fn starts_with_seq(s: Seq<char>, prefix: Seq<char>) -> bool {
    prefix.len() <= s.len() && s.subrange(0, prefix.len() as int) == prefix
}

pub fn starts_with(s: &str, prefix: &str) -> (r: bool)
    ensures
        r == starts_with_seq(s@, prefix@),
{
    let n = s.unicode_len();
    let m = prefix.unicode_len();
    if m > n {
        return false;
    }
    let mut j: usize = 0;
    while j < m
        invariant
            m <= n,
            n == s@.len() && m == prefix@.len(),
            j <= m,
            forall|l: int| 0 <= l < j ==> s@[l] == prefix@[l],
        decreases m - j,
    {
        if s.get_char(j) != prefix.get_char(j) {
            proof {
                if starts_with_seq(s@, prefix@) {
                    assert(s@.subrange(0, m as int)[j as int] == prefix@[j as int]);
                }
            }
            return false;
        }
        j += 1;
    }
    proof {
        assert(s@.subrange(0, m as int) =~= prefix@);
    }
    true
}

/// Splitting a character sequence on a separator.  The result always has at
/// least one element; adjacent separators produce empty segments.
pub open spec fn spec_split(s: Seq<char>, sep: char) -> Seq<Seq<char>>
    decreases s.len(),
{
    if s.len() == 0 {
        seq![Seq::<char>::empty()]
    } else if s[0] == sep {
        seq![Seq::<char>::empty()] + spec_split(s.drop_first(), sep)
    } else {
        let rest = spec_split(s.drop_first(), sep);
        seq![seq![s[0]] + rest[0]] + rest.drop_first()
    }
}

pub proof fn lemma_split_len(s: Seq<char>, sep: char)
    ensures
        spec_split(s, sep).len() >= 1,
    decreases s.len(),
{
    if s.len() > 0 {
        lemma_split_len(s.drop_first(), sep);
    }
}

/// The views of a vector of strings.
pub open spec fn views_of(v: Seq<String>) -> Seq<Seq<char>> {
    v.map_values(|s: String| s@)
}

/// Prepend `c` to the first element of a non-empty sequence of segments.
pub open spec fn shift_first(c: Seq<char>, ss: Seq<Seq<char>>) -> Seq<Seq<char>> {
    seq![c + ss[0]] + ss.drop_first()
}

/// Split a string on a separator character.
pub fn split_char(s: &str, sep: char) -> (r: Vec<String>)
    ensures
        views_of(r@) == spec_split(s@, sep),
{
    let n = s.unicode_len();
    let mut out: Vec<String> = Vec::new();
    let mut start: usize = 0;
    let mut i: usize = 0;
    proof {
        lemma_split_len(s@, sep);
        assert(s@.skip(0) =~= s@);
        assert(s@.subrange(0, 0) =~= Seq::<char>::empty());
        assert(shift_first(s@.subrange(0, 0), spec_split(s@.skip(0), sep)) =~=
            spec_split(s@, sep));
    }
    while i < n
        invariant
            n == s@.len(),
            start <= i <= n,
            spec_split(s@, sep) =~= views_of(out@)
                + shift_first(s@.subrange(start as int, i as int), spec_split(s@.skip(i as int), sep)),
        decreases n - i,
    {
        let c = s.get_char(i);
        proof {
            lemma_split_len(s@.skip(i as int), sep);
            lemma_split_len(s@.skip(i + 1), sep);
            assert(s@.skip(i as int).len() > 0);
            assert(s@.skip(i as int)[0] == s@[i as int]);
            assert(s@.skip(i as int).drop_first() =~= s@.skip(i + 1));
        }
        if c == sep {
            proof {
                assert(spec_split(s@.skip(i as int), sep) =~=
                    seq![Seq::<char>::empty()] + spec_split(s@.skip(i + 1), sep));
                assert(shift_first(s@.subrange(start as int, i as int), spec_split(s@.skip(i as int), sep)) =~=
                    seq![s@.subrange(start as int, i as int)] + spec_split(s@.skip(i + 1), sep));
                assert(s@.subrange(i + 1, i + 1) =~= Seq::<char>::empty());
                assert(shift_first(s@.subrange(i + 1, i + 1), spec_split(s@.skip(i + 1), sep)) =~=
                    spec_split(s@.skip(i + 1), sep));
            }
            let seg = s.substring_char(start, i).to_owned();
            out.push(seg);
            proof {
                assert(views_of(out@) =~= views_of(out@.drop_last()) + seq![s@.subrange(start as int, i as int)]);
            }
            start = i + 1;
        } else {
            proof {
                let rest = spec_split(s@.skip(i + 1), sep);
                assert(spec_split(s@.skip(i as int), sep) =~=
                    seq![seq![s@[i as int]] + rest[0]] + rest.drop_first());
                assert(s@.subrange(start as int, i + 1) =~=
                    s@.subrange(start as int, i as int).push(s@[i as int]));
                assert(s@.subrange(start as int, i as int) + (seq![s@[i as int]] + rest[0]) =~=
                    s@.subrange(start as int, i + 1) + rest[0]);
                assert(shift_first(s@.subrange(start as int, i as int), spec_split(s@.skip(i as int), sep)) =~=
                    shift_first(s@.subrange(start as int, i + 1), rest));
            }
        }
        i += 1;
    }
    proof {
        assert(s@.skip(n as int) =~= Seq::<char>::empty());
        assert(spec_split(Seq::<char>::empty(), sep) =~= seq![Seq::<char>::empty()]);
        assert(shift_first(s@.subrange(start as int, n as int), spec_split(s@.skip(n as int), sep)) =~=
            seq![s@.subrange(start as int, n as int)]);
    }
    let last = s.substring_char(start, n).to_owned();
    out.push(last);
    proof {
        assert(views_of(out@) =~= views_of(out@.drop_last()) + seq![last@]);
        assert(views_of(out@) =~= spec_split(s@, sep));
    }
    out
}

} // verus!
