//! The client configuration and the on-disk credential record behind it.
//!
//! The record — the dotfile — holds at most one username and one session
//! cookie, with the endpoint, in a key=value-per-line text form. An
//! absent file or absent fields mean "not authenticated". The unverified
//! shell reads and writes the file under an exclusive lock; what it reads
//! and writes is produced and consumed here, so a reader of a completely
//! written record sees exactly the record that was written (see
//! `lemma_dotfile_roundtrip`).

use vstd::prelude::*;

use crate::cookie::parse_cookie;
use crate::cookie::parse_cookie_spec;
use crate::errors::GscError;
use crate::text::find_char;
use crate::text::lemma_find_char_bounds;
use crate::text::lemma_find_char_is;
use crate::text::scan_char;

verus! {

/// The parsed form of the credential record: raw text fields, empty when
/// absent.
#[derive(Debug, PartialEq, Eq)]
pub struct Dotfile {
    pub username: String,
    /// The cookie as one `key=value` string, or empty.
    pub cookie: String,
    pub endpoint: String,
}

/// The mathematical value of a credential record.
#[verifier::ext_equal]
pub ghost struct DotfileView {
    pub username: Seq<char>,
    pub cookie: Seq<char>,
    pub endpoint: Seq<char>,
}

impl View for Dotfile {
    type V = DotfileView;

    open spec fn view(&self) -> DotfileView {
        DotfileView { username: self.username@, cookie: self.cookie@, endpoint: self.endpoint@ }
    }
}

impl Clone for Dotfile {
    fn clone(&self) -> (r: Self)
        ensures
            r == *self,
    {
        Dotfile {
            username: self.username.clone(),
            cookie: self.cookie.clone(),
            endpoint: self.endpoint.clone(),
        }
    }
}

/// A record with every field absent.
pub open spec fn empty_dotfile() -> DotfileView {
    DotfileView { username: Seq::empty(), cookie: Seq::empty(), endpoint: Seq::empty() }
}

/// The lines of a record text: separated by `\n`, the final line with or
/// without a terminator.
pub open spec fn dotfile_lines(s: Seq<char>) -> Seq<Seq<char>>
    decreases s.len(),
{
    if s.len() == 0 {
        Seq::empty()
    } else {
        let e = find_char(s, '\n', 0);
        if 0 <= e < s.len() {
            seq![s.take(e)] + dotfile_lines(s.skip(e + 1))
        } else {
            seq![s]
        }
    }
}

/// One line applied to a record: an empty line changes nothing; a
/// `key=value` line sets the named field — `username`, `cookie` or
/// `endpoint` — to everything after its first `=`; any other line is a
/// parse error.
pub open spec fn apply_line(d: DotfileView, l: Seq<char>) -> Option<DotfileView> {
    if l.len() == 0 {
        Some(d)
    } else {
        let e = find_char(l, '=', 0);
        if e >= l.len() {
            None
        } else {
            let key = l.take(e);
            let value = l.subrange(e + 1, l.len() as int);
            if key == "username"@ {
                Some(DotfileView { username: value, ..d })
            } else if key == "cookie"@ {
                Some(DotfileView { cookie: value, ..d })
            } else if key == "endpoint"@ {
                Some(DotfileView { endpoint: value, ..d })
            } else {
                None
            }
        }
    }
}

pub open spec fn apply_lines(d: DotfileView, lines: Seq<Seq<char>>) -> Option<DotfileView>
    decreases lines.len(),
{
    if lines.len() == 0 {
        Some(d)
    } else {
        match apply_line(d, lines[0]) {
            Some(d2) => apply_lines(d2, lines.skip(1)),
            None => None,
        }
    }
}

/// The record a text denotes: its lines applied, in order, to the empty
/// record — a later line for the same field wins.
pub open spec fn parse_dotfile_spec(s: Seq<char>) -> Option<DotfileView> {
    apply_lines(empty_dotfile(), dotfile_lines(s))
}

/// Splits a record text into its lines.
fn split_lines(text: &str) -> (r: Vec<String>)
    ensures
        r.deep_view() == dotfile_lines(text@),
{
    let len: usize = text.unicode_len();
    let mut out: Vec<String> = Vec::new();
    let mut pos: usize = 0;
    proof {
        assert(text@.skip(0) =~= text@);
        assert(out.deep_view() + dotfile_lines(text@) =~= dotfile_lines(text@));
    }
    while pos < len
        invariant
            pos <= len,
            len == text@.len(),
            out.deep_view() + dotfile_lines(text@.skip(pos as int)) == dotfile_lines(text@),
        decreases len - pos,
    {
        let e: usize = scan_char(text, '\n', pos, len);
        proof {
            lemma_find_char_bounds(text@, '\n', pos as int);
        }
        let ghost suffix = text@.skip(pos as int);
        proof {
            lemma_find_char_is(suffix, '\n', 0, e - pos);
        }
        let line = text.substring_char(pos, e).to_owned();
        let ghost before = out.deep_view();
        out.push(line);
        proof {
            assert(out.deep_view() =~= before.push(text@.subrange(pos as int, e as int)));
        }
        if e < len {
            proof {
                assert(suffix.take(e - pos) =~= text@.subrange(pos as int, e as int));
                assert(suffix.skip(e - pos + 1) =~= text@.skip(e + 1));
                assert(dotfile_lines(suffix) =~= seq![text@.subrange(pos as int, e as int)]
                    + dotfile_lines(text@.skip(e + 1)));
                assert(out.deep_view() + dotfile_lines(text@.skip(e + 1)) =~= dotfile_lines(
                    text@,
                ));
            }
            pos = e + 1;
        } else {
            proof {
                assert(suffix.take(e - pos) =~= suffix);
                assert(dotfile_lines(suffix) =~= seq![suffix]);
                assert(text@.skip(len as int) =~= Seq::<char>::empty());
                assert(out.deep_view() + dotfile_lines(text@.skip(len as int)) =~= dotfile_lines(
                    text@,
                ));
            }
            pos = len;
        }
    }
    proof {
        assert(text@.skip(len as int) =~= Seq::<char>::empty());
        assert(out.deep_view() =~= out.deep_view() + dotfile_lines(Seq::<char>::empty()));
    }
    out
}

/// Parses a credential record text. Missing fields stay empty; a line
/// that is neither empty nor `username=…`, `cookie=…` or `endpoint=…` is
/// a parse error naming that line.
pub fn parse_dotfile(text: &str) -> (r: Result<Dotfile, GscError>)
    ensures
        r is Ok <==> parse_dotfile_spec(text@) is Some,
        r matches Ok(d) ==> parse_dotfile_spec(text@) == Some(d@),
        r matches Err(e) ==> (e matches GscError::SyntaxError(w, l) && w@ == "dotfile"@
            && exists|i: int|
                0 <= i < dotfile_lines(text@).len() && l@ == #[trigger] dotfile_lines(text@)[i]),
{
    let lines = split_lines(text);
    let mut d = Dotfile { username: String::new(), cookie: String::new(), endpoint: String::new() };
    let mut i: usize = 0;
    proof {
        assert(lines.deep_view().skip(0) =~= lines.deep_view());
        assert(d@ =~= empty_dotfile());
    }
    while i < lines.len()
        invariant
            i <= lines@.len(),
            lines.deep_view() == dotfile_lines(text@),
            apply_lines(d@, lines.deep_view().skip(i as int)) == parse_dotfile_spec(text@),
        decreases lines@.len() - i,
    {
        let ghost rest = lines.deep_view().skip(i as int);
        proof {
            assert(rest[0] == lines@[i as int]@);
            assert(rest.skip(1) =~= lines.deep_view().skip(i + 1));
        }
        let line = &lines[i];
        let llen: usize = line.as_str().unicode_len();
        if llen > 0 {
            let mut k: usize = 0;
            while k < llen && line.as_str().get_char(k) != '='
                invariant
                    k <= llen,
                    llen == line@.len(),
                    forall|j: int| 0 <= j < k ==> line@[j] != '=',
                decreases llen - k,
            {
                k = k + 1;
            }
            proof {
                lemma_find_char_is(line@, '=', 0, k as int);
            }
            if k == llen {
                return Err(GscError::SyntaxError("dotfile".to_owned(), line.clone()));
            }
            let key = line.as_str().substring_char(0, k).to_owned();
            let value = line.as_str().substring_char(k + 1, llen).to_owned();
            proof {
                assert(key@ =~= line@.take(k as int));
                assert(value@ =~= line@.subrange(k + 1, line@.len() as int));
            }
            if key.eq(&"username".to_owned()) {
                d.username = value;
            } else if key.eq(&"cookie".to_owned()) {
                d.cookie = value;
            } else if key.eq(&"endpoint".to_owned()) {
                d.endpoint = value;
            } else {
                return Err(GscError::SyntaxError("dotfile".to_owned(), line.clone()));
            }
        }
        i = i + 1;
    }
    proof {
        assert(lines.deep_view().skip(lines@.len() as int) =~= Seq::<Seq<char>>::empty());
    }
    Ok(d)
}

/// One rendered line of the record: nothing for an absent field.
pub open spec fn field_line(key: Seq<char>, v: Seq<char>) -> Seq<char> {
    if v.len() == 0 {
        Seq::empty()
    } else {
        key + seq!['='] + v + seq!['\n']
    }
}

/// The text a record is written as: one `key=value` line per non-empty
/// field.
pub open spec fn render_dotfile_spec(d: DotfileView) -> Seq<char> {
    field_line("username"@, d.username) + field_line("cookie"@, d.cookie) + field_line(
        "endpoint"@,
        d.endpoint,
    )
}

/// Renders a credential record as the text to persist. The line-based
/// format cannot represent a newline inside a field, so only a clean
/// record (see `dotfile_is_clean`) may be written: rendering anything
/// else would produce a text that does not parse back.
pub fn render_dotfile(d: &Dotfile) -> (r: String)
    requires
        dotfile_clean(d@),
    ensures
        r@ == render_dotfile_spec(d@),
{
    proof {
        reveal_strlit("username=");
        reveal_strlit("username");
        reveal_strlit("cookie=");
        reveal_strlit("cookie");
        reveal_strlit("endpoint=");
        reveal_strlit("endpoint");
        reveal_strlit("\n");
        assert("username="@ =~= "username"@ + seq!['=']);
        assert("cookie="@ =~= "cookie"@ + seq!['=']);
        assert("endpoint="@ =~= "endpoint"@ + seq!['=']);
        assert("\n"@ =~= seq!['\n']);
    }
    let mut out = String::new();
    if !d.username.as_str().is_empty() {
        out.append("username=");
        out.append(d.username.as_str());
        out.append("\n");
    }
    if !d.cookie.as_str().is_empty() {
        out.append("cookie=");
        out.append(d.cookie.as_str());
        out.append("\n");
    }
    if !d.endpoint.as_str().is_empty() {
        out.append("endpoint=");
        out.append(d.endpoint.as_str());
        out.append("\n");
    }
    proof {
        assert(out@ =~= render_dotfile_spec(d@));
    }
    out
}

/// A text with no newline anywhere.
pub open spec fn newline_free(s: Seq<char>) -> bool {
    forall|i: int| 0 <= i < s.len() ==> s[i] != '\n'
}

/// No newline anywhere in a record's fields: the condition under which
/// the record can be written as one line per field.
pub open spec fn dotfile_clean(d: DotfileView) -> bool {
    &&& newline_free(d.username)
    &&& newline_free(d.cookie)
    &&& newline_free(d.endpoint)
}

/// Whether the string is free of newlines.
fn no_newline(s: &String) -> (r: bool)
    ensures
        r == newline_free(s@),
{
    let text = s.as_str();
    let len: usize = text.unicode_len();
    let pos: usize = scan_char(text, '\n', 0, len);
    proof {
        lemma_find_char_bounds(s@, '\n', 0);
        if pos < len {
            assert(s@[pos as int] == '\n');
        }
    }
    pos == len
}

/// Whether a record is representable in the line-based format: no field
/// holds a newline. A caller tests this before rendering a record for
/// persistence; a record that fails it must be refused, not written.
pub fn dotfile_is_clean(d: &Dotfile) -> (r: bool)
    ensures
        r == dotfile_clean(d@),
{
    let u = no_newline(&d.username);
    let c = no_newline(&d.cookie);
    let e = no_newline(&d.endpoint);
    u && c && e
}

/// The lines of one rendered field followed by anything: the field's own
/// line, then the rest.
proof fn lemma_lines_of_line(l: Seq<char>, rest: Seq<char>)
    requires
        forall|i: int| 0 <= i < l.len() ==> l[i] != '\n',
    ensures
        dotfile_lines(l + seq!['\n'] + rest) == seq![l] + dotfile_lines(rest),
{
    let s = l + seq!['\n'] + rest;
    assert(s[l.len() as int] == '\n');
    lemma_find_char_is(s, '\n', 0, l.len() as int);
    assert(s.take(l.len() as int) =~= l);
    assert(s.skip(l.len() as int + 1) =~= rest);
    assert(dotfile_lines(s) =~= seq![l] + dotfile_lines(rest));
}

/// A parsed field line sets exactly that field.
proof fn lemma_apply_field_line(d: DotfileView, key: Seq<char>, v: Seq<char>)
    requires
        key == "username"@ || key == "cookie"@ || key == "endpoint"@,
        forall|i: int| 0 <= i < key.len() ==> key[i] != '=',
    ensures
        key == "username"@ ==> apply_line(d, key + seq!['='] + v) == Some(
            DotfileView { username: v, ..d },
        ),
        key == "cookie"@ ==> apply_line(d, key + seq!['='] + v) == Some(
            DotfileView { cookie: v, ..d },
        ),
        key == "endpoint"@ ==> apply_line(d, key + seq!['='] + v) == Some(
            DotfileView { endpoint: v, ..d },
        ),
{
    let l = key + seq!['='] + v;
    assert(l[key.len() as int] == '=');
    lemma_find_char_is(l, '=', 0, key.len() as int);
    assert(l.take(key.len() as int) =~= key);
    assert(l.subrange(key.len() as int + 1, l.len() as int) =~= v);
    reveal_strlit("username");
    reveal_strlit("cookie");
    reveal_strlit("endpoint");
}

/// Writing a record and reading it back yields the record that was
/// written: a reader of a completely written credential file sees exactly
/// the state the writer put there, never a mixture.
pub proof fn lemma_dotfile_roundtrip(d: DotfileView)
    requires
        dotfile_clean(d),
    ensures
        parse_dotfile_spec(render_dotfile_spec(d)) == Some(d),
{
    reveal_strlit("username");
    reveal_strlit("cookie");
    reveal_strlit("endpoint");
    let lu = "username"@ + seq!['='] + d.username;
    let lc = "cookie"@ + seq!['='] + d.cookie;
    let le = "endpoint"@ + seq!['='] + d.endpoint;
    let ru = field_line("username"@, d.username);
    let rc = field_line("cookie"@, d.cookie);
    let re = field_line("endpoint"@, d.endpoint);
    let s = render_dotfile_spec(d);

    let lines_e: Seq<Seq<char>> = if d.endpoint.len() == 0 {
        seq![]
    } else {
        seq![le]
    };
    if d.endpoint.len() == 0 {
        assert(re =~= Seq::<char>::empty());
        assert(dotfile_lines(re) =~= Seq::<Seq<char>>::empty());
    } else {
        assert(re =~= le + seq!['\n'] + Seq::<char>::empty());
        lemma_lines_of_line(le, Seq::empty());
        assert(dotfile_lines(re) =~= seq![le]);
    }
    assert(dotfile_lines(re) == lines_e);

    let lines_ce: Seq<Seq<char>> = if d.cookie.len() == 0 {
        lines_e
    } else {
        seq![lc] + lines_e
    };
    if d.cookie.len() == 0 {
        assert(rc + re =~= re);
    } else {
        assert(rc + re =~= lc + seq!['\n'] + re);
        lemma_lines_of_line(lc, re);
    }
    assert(dotfile_lines(rc + re) == lines_ce);

    let lines_all: Seq<Seq<char>> = if d.username.len() == 0 {
        lines_ce
    } else {
        seq![lu] + lines_ce
    };
    if d.username.len() == 0 {
        assert(ru + (rc + re) =~= rc + re);
    } else {
        assert(ru + (rc + re) =~= lu + seq!['\n'] + (rc + re));
        lemma_lines_of_line(lu, rc + re);
    }
    assert(dotfile_lines(ru + (rc + re)) == lines_all);
    assert(s =~= ru + (rc + re));

    let d0 = empty_dotfile();
    let d1 = if d.username.len() == 0 {
        d0
    } else {
        DotfileView { username: d.username, ..d0 }
    };
    let d2 = if d.cookie.len() == 0 {
        d1
    } else {
        DotfileView { cookie: d.cookie, ..d1 }
    };
    let d3 = if d.endpoint.len() == 0 {
        d2
    } else {
        DotfileView { endpoint: d.endpoint, ..d2 }
    };
    if d.endpoint.len() == 0 {
        assert(apply_lines(d2, lines_e) == Some(d3));
    } else {
        lemma_apply_field_line(d2, "endpoint"@, d.endpoint);
        assert(lines_e[0] == le);
        assert(lines_e.skip(1) =~= Seq::<Seq<char>>::empty());
        assert(apply_lines(d3, lines_e.skip(1)) == Some(d3));
        assert(apply_lines(d2, lines_e) == Some(d3));
    }
    if d.cookie.len() == 0 {
        assert(lines_ce == lines_e);
        assert(apply_lines(d1, lines_ce) == Some(d3));
    } else {
        lemma_apply_field_line(d1, "cookie"@, d.cookie);
        assert(lines_ce[0] == lc);
        assert(lines_ce.skip(1) =~= lines_e);
        assert(apply_lines(d1, lines_ce) == Some(d3));
    }
    if d.username.len() == 0 {
        assert(apply_lines(d0, lines_all) == Some(d3));
    } else {
        lemma_apply_field_line(d0, "username"@, d.username);
        assert(lines_all[0] == lu);
        assert(lines_all.skip(1) =~= lines_ce);
        assert(apply_lines(d0, lines_all) == Some(d3));
    }
    assert(d3 =~= d);
}

/// The client configuration: where the credential record lives, and the
/// credential and endpoint currently in force.
#[derive(Debug, PartialEq, Eq)]
pub struct Config {
    /// The path of the credential record, when one is configured.
    pub dotfile: Option<String>,
    pub username: String,
    /// The session cookie as a key and a value, when authenticated.
    pub cookie: Option<(String, String)>,
    pub endpoint: String,
}

impl Config {
    /// A fresh configuration: no username, no cookie, the given record
    /// path, and the given default endpoint.
    pub fn new(dotfile: Option<String>, default_endpoint: &str) -> (r: Config)
        ensures
            r.dotfile == dotfile,
            r.username@ == Seq::<char>::empty(),
            r.cookie is None,
            r.endpoint@ == default_endpoint@,
    {
        Config {
            dotfile,
            username: String::new(),
            cookie: None,
            endpoint: default_endpoint.to_owned(),
        }
    }

    pub fn get_endpoint(&self) -> (r: &str)
        ensures
            r@ == self.endpoint@,
    {
        self.endpoint.as_str()
    }

    pub fn get_username(&self) -> (r: &str)
        ensures
            r@ == self.username@,
    {
        self.username.as_str()
    }

    pub fn set_username(&mut self, username: String)
        ensures
            final(self).username == username,
            final(self).dotfile == old(self).dotfile,
            final(self).cookie == old(self).cookie,
            final(self).endpoint == old(self).endpoint,
    {
        self.username = username;
    }

    /// The stored cookie, or the not-authenticated error.
    pub fn get_cookie(&self) -> (r: Result<(String, String), GscError>)
        ensures
            r is Ok <==> self.cookie is Some,
            r matches Ok(kv) ==> (self.cookie matches Some(c) && kv.0@ == c.0@ && kv.1@ == c.1@),
            r matches Err(e) ==> e == GscError::LoginPlease,
    {
        match &self.cookie {
            Some(kv) => Ok((kv.0.clone(), kv.1.clone())),
            None => Err(GscError::LoginPlease),
        }
    }

    /// Replaces the stored cookie. The caller persists the change by
    /// rendering the record (`to_dotfile`, `render_dotfile`) and writing
    /// it under the record lock.
    pub fn set_cookie(&mut self, cookie: Option<(String, String)>)
        ensures
            final(self).cookie == cookie,
            final(self).dotfile == old(self).dotfile,
            final(self).username == old(self).username,
            final(self).endpoint == old(self).endpoint,
    {
        self.cookie = cookie;
    }

    /// The stored cookie as one `key=value` header value, or the
    /// not-authenticated error.
    pub fn get_cookie_header(&self) -> (r: Result<String, GscError>)
        ensures
            r is Ok <==> self.cookie is Some,
            r matches Ok(h) ==> (self.cookie matches Some(c) && h@ == c.0@ + seq!['='] + c.1@),
            r matches Err(e) ==> e == GscError::LoginPlease,
    {
        match &self.cookie {
            Some(kv) => {
                let mut h = kv.0.clone();
                proof {
                    reveal_strlit("=");
                    assert("="@ =~= seq!['=']);
                }
                h.append("=");
                h.append(kv.1.as_str());
                proof {
                    assert(h@ =~= kv.0@ + seq!['='] + kv.1@);
                }
                Ok(h)
            }
            None => Err(GscError::LoginPlease),
        }
    }

    /// The path of the credential record, or the error that none is
    /// configured.
    pub fn get_dotfile(&self) -> (r: Result<&String, GscError>)
        ensures
            r is Ok <==> self.dotfile is Some,
            r matches Ok(p) ==> (self.dotfile matches Some(q) && p == q),
            r matches Err(e) ==> e == GscError::NoDotfileGiven,
    {
        match &self.dotfile {
            Some(p) => Ok(p),
            None => Err(GscError::NoDotfileGiven),
        }
    }

    /// Takes a loaded credential record into force: each non-empty field
    /// of the record overrides the configuration; the record's cookie
    /// text is parsed, and an unparseable one leaves no cookie in force.
    pub fn apply_dotfile(&mut self, d: &Dotfile)
        ensures
            final(self).dotfile == old(self).dotfile,
            final(self).username@ == if d.username@.len() > 0 {
                d.username@
            } else {
                old(self).username@
            },
            final(self).endpoint@ == if d.endpoint@.len() > 0 {
                d.endpoint@
            } else {
                old(self).endpoint@
            },
            d.cookie@.len() == 0 ==> final(self).cookie == old(self).cookie,
            d.cookie@.len() > 0 ==> {
                &&& (final(self).cookie is Some <==> parse_cookie_spec(d.cookie@) is Some)
                &&& (final(self).cookie matches Some(kv) ==> (parse_cookie_spec(d.cookie@)
                    matches Some(p) && kv.0@ == p.0 && kv.1@ == p.1))
            },
    {
        if !d.username.as_str().is_empty() {
            self.username = d.username.clone();
        }
        if !d.cookie.as_str().is_empty() {
            self.cookie = parse_cookie(d.cookie.as_str());
        }
        if !d.endpoint.as_str().is_empty() {
            self.endpoint = d.endpoint.clone();
        }
    }

    /// The credential record this configuration persists as: the
    /// username, the cookie as one `key=value` string (empty when not
    /// authenticated), and the endpoint.
    pub fn to_dotfile(&self) -> (r: Dotfile)
        ensures
            r.username@ == self.username@,
            r.endpoint@ == self.endpoint@,
            self.cookie matches Some(c) ==> r.cookie@ == c.0@ + seq!['='] + c.1@,
            self.cookie is None ==> r.cookie@ == Seq::<char>::empty(),
    {
        let cookie = match self.get_cookie_header() {
            Ok(h) => h,
            Err(_) => String::new(),
        };
        Dotfile { username: self.username.clone(), cookie, endpoint: self.endpoint.clone() }
    }

    /// Clears the credential: the state after deauthentication. The
    /// caller persists the cleared record.
    pub fn clear_credentials(&mut self)
        ensures
            final(self).username@ == Seq::<char>::empty(),
            final(self).cookie is None,
            final(self).dotfile == old(self).dotfile,
            final(self).endpoint == old(self).endpoint,
    {
        self.username = String::new();
        self.cookie = None;
    }
}

} // verus!
