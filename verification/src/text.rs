//! Character-level helpers shared by the parsers and the path logic.

use vstd::prelude::*;

verus! {

/// The first position at or after `i` holding `c`, or the length of `s`
/// when no position does.
pub open spec fn find_char(s: Seq<char>, c: char, i: int) -> int
    decreases s.len() - i,
{
    if i < s.len() {
        if s[i] == c {
            i
        } else {
            find_char(s, c, i + 1)
        }
    } else {
        i
    }
}

pub proof fn lemma_find_char_bounds(s: Seq<char>, c: char, i: int)
    requires
        0 <= i <= s.len(),
    ensures
        i <= find_char(s, c, i) <= s.len(),
        forall|j: int| i <= j < find_char(s, c, i) ==> s[j] != c,
        find_char(s, c, i) < s.len() ==> s[find_char(s, c, i)] == c,
    decreases s.len() - i,
{
    if i < s.len() && s[i] != c {
        lemma_find_char_bounds(s, c, i + 1);
    }
}

/// A position from which `c` does not occur before `k`, while `k` is an
/// occurrence or the end, is found exactly at `k`.
pub proof fn lemma_find_char_is(s: Seq<char>, c: char, i: int, k: int)
    requires
        0 <= i <= k <= s.len(),
        forall|j: int| i <= j < k ==> s[j] != c,
        k < s.len() ==> s[k] == c,
    ensures
        find_char(s, c, i) == k,
    decreases k - i,
{
    if i < k {
        lemma_find_char_is(s, c, i + 1, k);
    }
}

/// Scans `s` from `from` for the first occurrence of `c`.
pub fn scan_char(s: &str, c: char, from: usize, len: usize) -> (r: usize)
    requires
        from <= len,
        len == s@.len(),
    ensures
        r == find_char(s@, c, from as int),
    decreases len - from,
{
    if from < len {
        if s.get_char(from) == c {
            from
        } else {
            scan_char(s, c, from + 1, len)
        }
    } else {
        from
    }
}

/// Whether a path, as text, ends in a path separator.
pub open spec fn spec_ends_in_slash(s: Seq<char>) -> bool {
    s.len() > 0 && s.last() == '/'
}

pub fn ends_in_slash(path: &str) -> (r: bool)
    ensures
        r == spec_ends_in_slash(path@),
{
    let len: usize = path.unicode_len();
    len > 0 && path.get_char(len - 1) == '/'
}

/// A path under a directory: the directory, one separator, the name.
pub open spec fn path_join(dir: Seq<char>, name: Seq<char>) -> Seq<char> {
    if spec_ends_in_slash(dir) {
        dir + name
    } else {
        dir + seq!['/'] + name
    }
}

pub fn join_path(dir: &str, name: &str) -> (r: String)
    ensures
        r@ == path_join(dir@, name@),
{
    let mut out = dir.to_owned();
    if !ends_in_slash(dir) {
        proof {
            reveal_strlit("/");
            assert("/"@ =~= seq!['/']);
        }
        out.append("/");
    }
    out.append(name);
    proof {
        if !spec_ends_in_slash(dir@) {
            assert(out@ =~= path_join(dir@, name@));
        }
    }
    out
}

} // verus!
