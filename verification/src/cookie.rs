//! Parsing the session cookie a server response sets.
//!
//! A set-cookie chunk reads `key=value; attributes...`: the part before
//! the first semicolon is the pair, split at its first equals sign. A
//! chunk without an equals sign before the semicolon carries no cookie.

use vstd::prelude::*;

use crate::text::find_char;
use crate::text::lemma_find_char_bounds;
use crate::text::lemma_find_char_is;
use crate::text::scan_char;

verus! {

/// The cookie a chunk carries: the part before the first `;`, split at
/// its first `=` into key and value, or nothing when it has no `=`.
pub open spec fn parse_cookie_spec(s: Seq<char>) -> Option<(Seq<char>, Seq<char>)> {
    let pair = s.take(find_char(s, ';', 0));
    let e = find_char(pair, '=', 0);
    if e >= pair.len() {
        None
    } else {
        Some((pair.take(e), pair.subrange(e + 1, pair.len() as int)))
    }
}

/// Splits one set-cookie chunk into the key and value of the cookie it
/// carries, if any.
pub fn parse_cookie(cookie: &str) -> (r: Option<(String, String)>)
    ensures
        r is Some <==> parse_cookie_spec(cookie@) is Some,
        r matches Some(kv) ==> (parse_cookie_spec(cookie@) matches Some(p) && kv.0@ == p.0
            && kv.1@ == p.1),
{
    let len: usize = cookie.unicode_len();
    let semi: usize = scan_char(cookie, ';', 0, len);
    proof {
        lemma_find_char_bounds(cookie@, ';', 0);
    }
    let ghost pair = cookie@.take(semi as int);
    let mut i: usize = 0;
    while i < semi && cookie.get_char(i) != '='
        invariant
            i <= semi <= len,
            len == cookie@.len(),
            forall|j: int| 0 <= j < i ==> cookie@[j] != '=',
        decreases semi - i,
    {
        i = i + 1;
    }
    proof {
        lemma_find_char_is(pair, '=', 0, i as int);
    }
    if i == semi {
        None
    } else {
        let key = cookie.substring_char(0, i).to_owned();
        let value = cookie.substring_char(i + 1, semi).to_owned();
        proof {
            assert(key@ =~= pair.take(i as int));
            assert(value@ =~= pair.subrange(i + 1, pair.len() as int));
        }
        Some((key, value))
    }
}

/// The first cookie any chunk of a response carries, in chunk order.
pub open spec fn parse_cookies_spec(chunks: Seq<Seq<char>>) -> Option<(Seq<char>, Seq<char>)>
    decreases chunks.len(),
{
    if chunks.len() == 0 {
        None
    } else if parse_cookie_spec(chunks[0]) is Some {
        parse_cookie_spec(chunks[0])
    } else {
        parse_cookies_spec(chunks.skip(1))
    }
}

/// Finds the first set-cookie chunk that carries a cookie pair.
pub fn parse_cookies(chunks: &Vec<String>) -> (r: Option<(String, String)>)
    ensures
        r is Some <==> parse_cookies_spec(chunks.deep_view()) is Some,
        r matches Some(kv) ==> (parse_cookies_spec(chunks.deep_view()) matches Some(p) && kv.0@
            == p.0 && kv.1@ == p.1),
{
    let mut i: usize = 0;
    proof {
        assert(chunks.deep_view().skip(0) =~= chunks.deep_view());
    }
    while i < chunks.len()
        invariant
            i <= chunks@.len(),
            parse_cookies_spec(chunks.deep_view().skip(i as int)) == parse_cookies_spec(
                chunks.deep_view(),
            ),
        decreases chunks@.len() - i,
    {
        let ghost rest = chunks.deep_view().skip(i as int);
        proof {
            assert(rest[0] == chunks@[i as int]@);
            assert(rest.skip(1) =~= chunks.deep_view().skip(i + 1));
        }
        match parse_cookie(chunks[i].as_str()) {
            Some(kv) => {
                return Some(kv);
            }
            None => {}
        }
        i = i + 1;
    }
    proof {
        assert(chunks.deep_view().skip(chunks@.len() as int) =~= Seq::<Seq<char>>::empty());
    }
    None
}

} // verus!
