//! Addresses and the grammar that produces them.
//!
//! An argument names either a local filesystem path or a remote address,
//! written `hwN:pattern`. The grammar:
//!
//! - `:path`          — forced local path `path`
//! - `hwN` / `hwN:`   — remote address, assignment `N`, empty pattern
//! - `hwN:pattern`    — remote address, assignment `N`, pattern `pattern`
//! - no colon at all  — local path as given
//! - anything else with a colon — a syntax error

use vstd::prelude::*;

use crate::errors::GscError;

verus! {

/// A remote address: an assignment number and a glob pattern over the file
/// names in that assignment's collection. An empty pattern stands for the
/// whole assignment.
#[derive(Debug, PartialEq, Eq)]
pub struct RemotePattern {
    pub hw: usize,
    pub pat: String,
}

impl Clone for RemotePattern {
    fn clone(&self) -> (r: Self)
        ensures
            r == *self,
    {
        RemotePattern { hw: self.hw, pat: self.pat.clone() }
    }
}

impl RemotePattern {
    /// A remote address with an empty pattern addresses every file of the
    /// assignment.
    pub fn is_whole_hw(&self) -> (r: bool)
        ensures
            r == (self.pat@.len() == 0),
    {
        self.pat.as_str().is_empty()
    }

    /// The same assignment, under another pattern.
    pub fn with_pat(&self, pat: &str) -> (r: Self)
        ensures
            r.hw == self.hw,
            r.pat@ == pat@,
    {
        RemotePattern { hw: self.hw, pat: pat.to_owned() }
    }
}

/// One source or destination argument of a copy: a local path or a remote
/// address. Exactly one destination kind is legal per transfer direction.
#[derive(Debug, PartialEq, Eq)]
pub enum CpArg {
    Local(String),
    Remote(RemotePattern),
}

impl Clone for CpArg {
    fn clone(&self) -> (r: Self)
        ensures
            r == *self,
    {
        match self {
            CpArg::Local(path) => CpArg::Local(path.clone()),
            CpArg::Remote(rpat) => CpArg::Remote(rpat.clone()),
        }
    }
}

impl CpArg {
    pub fn is_whole_hw(&self) -> (r: bool)
        ensures
            r == (self matches CpArg::Remote(rpat) && rpat.pat@.len() == 0),
    {
        match self {
            CpArg::Local(_) => false,
            CpArg::Remote(rpat) => rpat.is_whole_hw(),
        }
    }
}

/// A decimal digit.
pub open spec fn is_digit(c: char) -> bool {
    48 <= (c as u32) && (c as u32) <= 57
}

pub open spec fn digit_val(c: char) -> nat {
    ((c as u32) - 48) as nat
}

pub open spec fn all_digits(s: Seq<char>) -> bool {
    forall|i: int| 0 <= i < s.len() ==> is_digit(#[trigger] s[i])
}

/// The value of a string of decimal digits.
pub open spec fn digits_val(s: Seq<char>) -> nat
    decreases s.len(),
{
    if s.len() == 0 {
        0
    } else {
        digits_val(s.drop_last()) * 10 + digit_val(s.last())
    }
}

/// The first position at or after `i` that does not hold a digit.
pub open spec fn digits_end(s: Seq<char>, i: int) -> int
    decreases s.len() - i,
{
    if i < s.len() && is_digit(s[i]) {
        digits_end(s, i + 1)
    } else {
        i
    }
}

/// `s` begins with the letters `hw` followed by at least one digit; the
/// digits run ends at `digits_end(s, 2)`.
pub open spec fn has_hw_prefix(s: Seq<char>) -> bool {
    s.len() > 2 && s[0] == 'h' && s[1] == 'w' && is_digit(s[2])
}

/// The assignment number written after the `hw` prefix.
pub open spec fn hw_number(s: Seq<char>) -> nat {
    digits_val(s.subrange(2, digits_end(s, 2)))
}

/// Shape of a bare homework spec: `hwN` or `hwN:`, nothing after.
pub open spec fn is_hw_only(s: Seq<char>) -> bool {
    has_hw_prefix(s) && {
        let e = digits_end(s, 2);
        e == s.len() || (e == s.len() - 1 && s[e] == ':')
    }
}

/// Shape of a remote file spec: `hwN:pattern`, the pattern possibly empty.
pub open spec fn is_hw_file(s: Seq<char>) -> bool {
    has_hw_prefix(s) && {
        let e = digits_end(s, 2);
        e < s.len() && s[e] == ':'
    }
}

/// The pattern written after the colon of a `hwN:pattern` spec.
pub open spec fn hw_file_pat(s: Seq<char>) -> Seq<char> {
    s.subrange(digits_end(s, 2) + 1, s.len() as int)
}

/// The error every parser reports: what was expected, and the input.
pub open spec fn is_syntax_error(r: GscError, what: Seq<char>, input: Seq<char>) -> bool {
    &&& r matches GscError::SyntaxError(w, i)
    &&& w@ == what
    &&& i@ == input
}

proof fn lemma_digits_val_take_le(s: Seq<char>, i: int)
    requires
        0 <= i <= s.len(),
    ensures
        digits_val(s.take(i)) <= digits_val(s),
    decreases s.len() - i,
{
    if i < s.len() {
        assert(s.take(i + 1).drop_last() =~= s.take(i));
        assert(digits_val(s.take(i)) <= digits_val(s.take(i + 1)));
        lemma_digits_val_take_le(s, i + 1);
    } else {
        assert(s.take(i) =~= s);
    }
}

proof fn lemma_digits_end_bounds(s: Seq<char>, i: int)
    requires
        0 <= i <= s.len(),
    ensures
        i <= digits_end(s, i) <= s.len(),
        forall|j: int| i <= j < digits_end(s, i) ==> is_digit(#[trigger] s[j]),
        digits_end(s, i) < s.len() ==> !is_digit(s[digits_end(s, i)]),
        i < s.len() && is_digit(s[i]) ==> i < digits_end(s, i),
    decreases s.len() - i,
{
    if i < s.len() && is_digit(s[i]) {
        lemma_digits_end_bounds(s, i + 1);
    }
}

/// Parses the digits of `s` between `from` and `to` as a decimal number.
/// `None` exactly when the value does not fit in `usize`.
fn digits_to_usize(s: &str, from: usize, to: usize) -> (r: Option<usize>)
    requires
        from <= to <= s@.len(),
        all_digits(s@.subrange(from as int, to as int)),
    ensures
        r is Some <==> digits_val(s@.subrange(from as int, to as int)) <= usize::MAX,
        r matches Some(v) ==> v == digits_val(s@.subrange(from as int, to as int)),
{
    let ghost digits = s@.subrange(from as int, to as int);
    let mut acc: usize = 0;
    let mut i: usize = from;
    while i < to
        invariant
            from <= i <= to <= s@.len(),
            digits == s@.subrange(from as int, to as int),
            all_digits(digits),
            acc == digits_val(digits.take(i - from)),
        decreases to - i,
    {
        let c = s.get_char(i);
        assert(c == digits[i - from]);
        let d: usize = ((c as u32) - 48) as usize;
        proof {
            assert(digits.take(i + 1 - from).drop_last() =~= digits.take(i - from));
        }
        let step = match acc.checked_mul(10) {
            Some(m) => m.checked_add(d),
            None => None,
        };
        match step {
            Some(v) => {
                acc = v;
            }
            None => {
                proof {
                    lemma_digits_val_take_le(digits, i + 1 - from);
                }
                return None;
            }
        }
        i = i + 1;
    }
    proof {
        assert(digits.take(to - from) =~= digits);
    }
    Some(acc)
}

/// Scans forward from `from` to the end of the run of digits.
fn scan_digits_end(s: &str, from: usize, len: usize) -> (r: usize)
    requires
        from <= len,
        len == s@.len(),
    ensures
        r == digits_end(s@, from as int),
    decreases len - from,
{
    if from < len {
        let c = s.get_char(from);
        if 48 <= c as u32 && c as u32 <= 57 {
            return scan_digits_end(s, from + 1, len);
        }
    }
    from
}

/// Recognises the `hw` prefix and returns the position just after its
/// digits, whatever the number's size.
fn hw_prefix_end(s: &str, len: usize) -> (r: Option<usize>)
    requires
        len == s@.len(),
    ensures
        r is Some <==> has_hw_prefix(s@),
        r matches Some(e) ==> e == digits_end(s@, 2) && 2 < e <= s@.len(),
{
    if len <= 2 {
        return None;
    }
    if s.get_char(0) != 'h' || s.get_char(1) != 'w' {
        return None;
    }
    let c = s.get_char(2);
    if !(48 <= c as u32 && c as u32 <= 57) {
        return None;
    }
    let e: usize = scan_digits_end(s, 2, len);
    proof {
        lemma_digits_end_bounds(s@, 2);
    }
    Some(e)
}

/// Reads the `hw` prefix and the digits after it. `Ok` exactly on strings
/// with that prefix whose number fits in `usize`; returns the number and
/// the position just after its digits.
fn parse_hw_prefix(s: &str, len: usize) -> (r: Option<(usize, usize)>)
    requires
        len == s@.len(),
    ensures
        r is Some <==> has_hw_prefix(s@) && hw_number(s@) <= usize::MAX,
        r matches Some(v) ==> {
            &&& v.0 == hw_number(s@)
            &&& v.1 == digits_end(s@, 2)
            &&& 2 < v.1 <= s@.len()
        },
{
    match hw_prefix_end(s, len) {
        Some(e) => {
            proof {
                lemma_digits_end_bounds(s@, 2);
                assert(all_digits(s@.subrange(2, e as int)));
            }
            match digits_to_usize(s, 2, e) {
                Some(n) => Some((n, e)),
                None => None,
            }
        }
        None => None,
    }
}

/// Parses a bare homework spec, `hwN` or `hwN:`.
///
/// `Ok(n)` exactly when the input has that shape and `n` fits in `usize`;
/// everything else is a syntax error carrying the input.
pub fn parse_hw(spec: &str) -> (r: Result<usize, GscError>)
    ensures
        r is Ok <==> is_hw_only(spec@) && hw_number(spec@) <= usize::MAX,
        r matches Ok(n) ==> n == hw_number(spec@),
        r matches Err(e) ==> is_syntax_error(e, "homework spec"@, spec@),
{
    let len: usize = spec.unicode_len();
    match parse_hw_prefix(spec, len) {
        Some((n, e)) => {
            if e == len {
                Ok(n)
            } else if e + 1 == len && spec.get_char(e) == ':' {
                Ok(n)
            } else {
                Err(GscError::SyntaxError("homework spec".to_owned(), spec.to_owned()))
            }
        }
        None => Err(GscError::SyntaxError("homework spec".to_owned(), spec.to_owned())),
    }
}

/// Parses `hwN` or `hwN:pattern`, the pattern defaulting to empty: the
/// shape a listing command accepts.
pub fn parse_hw_opt_file(spec: &str) -> (r: Result<(usize, String), GscError>)
    ensures
        r is Ok <==> (is_hw_only(spec@) || is_hw_file(spec@)) && hw_number(spec@) <= usize::MAX,
        r matches Ok(v) ==> {
            &&& v.0 == hw_number(spec@)
            &&& v.1@ == if is_hw_file(spec@) { hw_file_pat(spec@) } else { Seq::<char>::empty() }
        },
        r matches Err(e) ==> is_syntax_error(e, "homework or file spec"@, spec@),
{
    let len: usize = spec.unicode_len();
    match parse_hw_prefix(spec, len) {
        Some((n, e)) => {
            proof {
                lemma_digits_end_bounds(spec@, 2);
            }
            if e == len {
                Ok((n, String::new()))
            } else if spec.get_char(e) == ':' {
                let pat = spec.substring_char(e + 1, len).to_owned();
                Ok((n, pat))
            } else {
                Err(GscError::SyntaxError("homework or file spec".to_owned(), spec.to_owned()))
            }
        }
        None => Err(GscError::SyntaxError("homework or file spec".to_owned(), spec.to_owned())),
    }
}

/// Parses a remote file spec, `hwN:pattern`. With `allow_bare` the pattern
/// may be empty (naming the whole assignment); without it an empty pattern
/// is a syntax error.
pub fn parse_hw_file(file_spec: &str, allow_bare: bool) -> (r: Result<RemotePattern, GscError>)
    ensures
        r is Ok <==> is_hw_file(file_spec@) && hw_number(file_spec@) <= usize::MAX
            && (allow_bare || hw_file_pat(file_spec@).len() > 0),
        r matches Ok(rp) ==> {
            &&& rp.hw == hw_number(file_spec@)
            &&& rp.pat@ == hw_file_pat(file_spec@)
        },
        r matches Err(e) ==> is_syntax_error(
            e,
            if allow_bare { "remote file or homework spec"@ } else { "remote file spec"@ },
            file_spec@,
        ),
{
    let len: usize = file_spec.unicode_len();
    match parse_hw_prefix(file_spec, len) {
        Some((n, e)) => {
            proof {
                lemma_digits_end_bounds(file_spec@, 2);
            }
            if e < len && file_spec.get_char(e) == ':' && (allow_bare || e + 1 < len) {
                let pat = file_spec.substring_char(e + 1, len).to_owned();
                return Ok(RemotePattern { hw: n, pat });
            }
        }
        None => {}
    }
    if allow_bare {
        Err(GscError::SyntaxError("remote file or homework spec".to_owned(), file_spec.to_owned()))
    } else {
        Err(GscError::SyntaxError("remote file spec".to_owned(), file_spec.to_owned()))
    }
}

/// Whether the string holds a colon anywhere.
fn contains_colon(s: &str) -> (r: bool)
    ensures
        r == exists|i: int| 0 <= i < s@.len() && s@[i] == ':',
{
    let len: usize = s.unicode_len();
    let mut i: usize = 0;
    while i < len
        invariant
            i <= len,
            len == s@.len(),
            forall|j: int| 0 <= j < i ==> s@[j] != ':',
        decreases len - i,
    {
        if s.get_char(i) == ':' {
            return true;
        }
        i = i + 1;
    }
    false
}

/// Parses one copy argument, per the address grammar.
///
/// The empty string is a syntax error. A leading colon forces the rest
/// (which must be non-empty) to be taken as a local path. `hwN` and
/// `hwN:` are the remote address of the whole assignment `N`; `hwN:pattern`
/// is a remote address with that pattern. Any other string with a colon is
/// a syntax error; any other string without one is a local path as given.
pub fn parse_cp_arg(spec: &str) -> (r: Result<CpArg, GscError>)
    ensures
        spec@.len() == 0 ==> (r matches Err(e) && is_syntax_error(e, "file name"@, spec@)),
        spec@.len() >= 2 && spec@[0] == ':' ==> (r matches Ok(a) && a matches CpArg::Local(p)
            && p@ == spec@.skip(1)),
        (spec@.len() >= 1 && !(spec@.len() >= 2 && spec@[0] == ':')
            && (is_hw_only(spec@) || is_hw_file(spec@))) ==> {
            &&& (r is Ok <==> hw_number(spec@) <= usize::MAX)
            &&& (r matches Ok(a) ==> (a matches CpArg::Remote(rp) && rp.hw == hw_number(spec@)
                && rp.pat@ == (if is_hw_file(spec@) {
                    hw_file_pat(spec@)
                } else {
                    Seq::<char>::empty()
                })))
            &&& (r matches Err(e) ==> is_syntax_error(e, "file name"@, spec@))
        },
        (spec@.len() >= 1 && !(spec@.len() >= 2 && spec@[0] == ':')
            && !(is_hw_only(spec@) || is_hw_file(spec@))
            && !(exists|i: int| 0 <= i < spec@.len() && spec@[i] == ':')) ==> (r matches Ok(a)
            && a matches CpArg::Local(p) && p@ == spec@),
        (spec@.len() >= 1 && !(spec@.len() >= 2 && spec@[0] == ':')
            && !(is_hw_only(spec@) || is_hw_file(spec@))
            && (exists|i: int| 0 <= i < spec@.len() && spec@[i] == ':')) ==> (r matches Err(e)
            && is_syntax_error(e, "file name"@, spec@)),
{
    let len: usize = spec.unicode_len();
    if len == 0 {
        return Err(GscError::SyntaxError("file name".to_owned(), spec.to_owned()));
    }
    if len >= 2 && spec.get_char(0) == ':' {
        let path = spec.substring_char(1, len).to_owned();
        return Ok(CpArg::Local(path));
    }
    match hw_prefix_end(spec, len) {
        Some(e) => {
            if e == len || spec.get_char(e) == ':' {
                proof {
                    lemma_digits_end_bounds(spec@, 2);
                    assert(all_digits(spec@.subrange(2, e as int)));
                }
                match digits_to_usize(spec, 2, e) {
                    Some(n) => {
                        let pat = if e == len {
                            String::new()
                        } else {
                            spec.substring_char(e + 1, len).to_owned()
                        };
                        return Ok(CpArg::Remote(RemotePattern { hw: n, pat }));
                    }
                    None => {
                        return Err(
                            GscError::SyntaxError("file name".to_owned(), spec.to_owned()),
                        );
                    }
                }
            }
        }
        None => {}
    }
    if contains_colon(spec) {
        Err(GscError::SyntaxError("file name".to_owned(), spec.to_owned()))
    } else {
        Ok(CpArg::Local(spec.to_owned()))
    }
}

} // verus!
