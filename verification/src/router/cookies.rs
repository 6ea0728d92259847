//! Lists of named values, as request headers and cookies are, and the
//! reading of a `Cookie` header.
//!
//! A list may name a thing twice; the value it was given last counts.

use vstd::prelude::*;
use vstd::slice::slice_subrange;
use crate::text::{
    chars_to_string, find_char, first_index_of, lowercase, str_chars, str_eq, to_lowercase, trim,
    trimmed,
};

verus! {

/// What a list of named values stands for.
pub open spec fn pairs(v: Seq<(String, String)>) -> Seq<(Seq<char>, Seq<char>)> {
    Seq::new(v.len(), |k: int| (v[k].0@, v[k].1@))
}

/// The value that `name` was last given in `m`, if it was given any.
pub open spec fn lookup(m: Seq<(Seq<char>, Seq<char>)>, name: Seq<char>) -> Option<Seq<char>>
    decreases m.len(),
{
    if m.len() == 0 {
        None
    } else if m.last().0 == name {
        Some(m.last().1)
    } else {
        lookup(m.drop_last(), name)
    }
}

/// The value that `name` was last given in `map`, if it was given any.
pub fn get<'a>(map: &'a Vec<(String, String)>, name: &str) -> (r: Option<&'a str>)
    ensures
        match r {
            Some(v) => lookup(pairs(map@), name@) == Some(v@),
            None => lookup(pairs(map@), name@) is None,
        },
{
    let ghost m = pairs(map@);
    let mut k = map.len();
    assert(m.take(k as int) == m);
    while k > 0
        invariant
            k <= map.len(),
            m == pairs(map@),
            lookup(m, name@) == lookup(m.take(k as int), name@),
        decreases k,
    {
        k -= 1;
        assert(m.take(k + 1).drop_last() == m.take(k as int));
        if str_eq(map[k].0.as_str(), name) {
            return Some(map[k].1.as_str());
        }
    }
    None
}

/// A copy of a list of named values.
pub fn clone_pairs(v: &Vec<(String, String)>) -> (r: Vec<(String, String)>)
    ensures
        pairs(r@) == pairs(v@),
{
    let mut r: Vec<(String, String)> = Vec::new();
    let mut k: usize = 0;
    while k < v.len()
        invariant
            k <= v.len(),
            r@.len() == k,
            forall|j: int| 0 <= j < k ==> r@[j].0@ == v@[j].0@ && r@[j].1@ == v@[j].1@,
        decreases v.len() - k,
    {
        r.push((v[k].0.clone(), v[k].1.clone()));
        k += 1;
    }
    r
}

/// The cookie that one piece of a `Cookie` header gives: the piece is
/// trimmed and split at its first `=`; what stands before, trimmed and in
/// lower case, is the name, what stands behind, trimmed, the value. A piece
/// without `=` gives none.
pub open spec fn cookie_of(piece: Seq<char>) -> Option<(Seq<char>, Seq<char>)> {
    let t = trimmed(piece);
    let e = first_index_of(t, '=');
    if e < t.len() {
        Some((lowercase(trimmed(t.take(e))), trimmed(t.skip(e + 1))))
    } else {
        None
    }
}

/// The cookies of a `Cookie` header: those of its pieces between `;`, in
/// order.
pub open spec fn cookie_pairs(s: Seq<char>) -> Seq<(Seq<char>, Seq<char>)>
    decreases s.len(),
{
    let cut = first_index_of(s, ';');
    let rest = if 0 <= cut < s.len() {
        cookie_pairs(s.skip(cut + 1))
    } else {
        Seq::empty()
    };
    match cookie_of(s.take(cut)) {
        Some(cookie) => seq![cookie] + rest,
        None => rest,
    }
}

/// Reads a `Cookie` header.
pub fn parse_cookies(cookie_header: &str) -> (cookies: Vec<(String, String)>)
    ensures
        pairs(cookies@) == cookie_pairs(cookie_header@),
{
    let chars = str_chars(cookie_header);
    let s = chars.as_slice();
    let n = s.len();
    let mut cookies: Vec<(String, String)> = Vec::new();
    let mut from: usize = 0;
    let mut done = false;
    assert(s@.skip(0) == s@);
    while !done
        invariant
            n == s.len(),
            s@ == cookie_header@,
            from <= n,
            !done ==> cookie_pairs(s@) == pairs(cookies@) + cookie_pairs(s@.skip(from as int)),
            done ==> cookie_pairs(s@) == pairs(cookies@),
        decreases n - from + if done { 0int } else { 1 },
    {
        let ghost tail = s@.skip(from as int);
        let ghost before = pairs(cookies@);
        let cut = find_char(s, from, n, ';');
        let ghost piece = tail.take(cut - from);
        assert(piece == s@.subrange(from as int, cut as int));
        let (a, b) = trim(s, from, cut);
        let ghost t = trimmed(piece);
        let e = find_char(s, a, b, '=');
        if e < b {
            let (ka, kb) = trim(s, a, e);
            let (va, vb) = trim(s, e + 1, b);
            let name = chars_to_string(slice_subrange(s, ka, kb));
            let key = to_lowercase(name.as_str());
            let value = chars_to_string(slice_subrange(s, va, vb));
            proof {
                assert(t.take(e - a) == s@.subrange(a as int, e as int));
                assert(t.skip(e - a + 1) == s@.subrange(e + 1, b as int));
            }
            cookies.push((key, value));
        }
        if cut == n {
            done = true;
        } else {
            assert(tail.skip(cut - from + 1) == s@.skip(cut + 1));
            proof {
                match cookie_of(piece) {
                    Some(cookie) => {
                        assert(before + (seq![cookie] + cookie_pairs(s@.skip(cut + 1))) == (before
                            + seq![cookie]) + cookie_pairs(s@.skip(cut + 1)));
                    },
                    None => {},
                }
            }
            from = cut + 1;
        }
    }
    cookies
}

} // verus!
