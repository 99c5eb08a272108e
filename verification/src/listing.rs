//! Client-side filtering of one assignment's authoritative file list by a
//! glob pattern, the way the remote listing service presents files.
//!
//! The glob semantics themselves come from the `globset` crate; the
//! filtering around them is verified.

use vstd::prelude::*;

use crate::addr::RemotePattern;
use crate::errors::GscError;
use crate::messages::FileMeta;

verus! {

/// Whether `globset` accepts `pat` as a well-formed glob pattern (with
/// the default options) and can compile it.
pub uninterp spec fn glob_ok(pat: Seq<char>) -> bool;

/// Whether the compiled glob `pat` matches the flat name `name`, as
/// `globset` decides it.
pub uninterp spec fn glob_match(pat: Seq<char>, name: Seq<char>) -> bool;

#[verifier::external_type_specification]
#[verifier::external_body]
pub struct ExGlobsetError(globset::Error);

/// Relies on globset::Glob::new, GlobSetBuilder::build and
/// GlobSet::is_match: whether a pattern compiles (under the default
/// options; the set builder reports even an oversized compiled pattern as
/// an error rather than failing), and which names the compiled pattern
/// then accepts, depend on the pattern and the name alone.
#[verifier::external_body]
fn glob_match_name(pat: &str, name: &str) -> (r: Result<bool, globset::Error>)
    ensures
        r is Ok <==> glob_ok(pat@),
        r matches Ok(m) ==> m == glob_match(pat@, name@),
{
    let glob = match globset::Glob::new(pat) {
        Ok(glob) => glob,
        Err(e) => return Err(e),
    };
    match globset::GlobSetBuilder::new().add(glob).build() {
        Ok(set) => Ok(set.is_match(name)),
        Err(e) => Err(e),
    }
}

/// A listing pattern is acceptable when it is empty (the whole assignment)
/// or compiles as a glob.
pub open spec fn pat_ok(pat: Seq<char>) -> bool {
    pat.len() == 0 || glob_ok(pat)
}

/// A name matches a listing pattern when the pattern is empty — the
/// whole-assignment sentinel matches every file — or the glob matches it.
pub open spec fn pat_matches(pat: Seq<char>, name: Seq<char>) -> bool {
    pat.len() == 0 || glob_match(pat, name)
}

/// Keeps exactly the files whose name matches the pattern, in order: the
/// client-side half of listing a remote address. An empty pattern keeps
/// every file; a pattern that does not compile is rejected.
pub fn filter_files(files: Vec<FileMeta>, pat: &str) -> (r: Result<Vec<FileMeta>, GscError>)
    ensures
        r is Ok <==> pat_ok(pat@),
        r matches Ok(v) ==> v@ == files@.filter(|f: FileMeta| pat_matches(pat@, f.name@)),
        r matches Err(e) ==> (e matches GscError::InvalidGlob(p) && p@ == pat@),
{
    let whole = pat.is_empty();
    if !whole {
        match glob_match_name(pat, "") {
            Ok(_) => {}
            Err(_) => {
                return Err(GscError::InvalidGlob(pat.to_owned()));
            }
        }
    }
    let mut out: Vec<FileMeta> = Vec::new();
    let mut i: usize = 0;
    while i < files.len()
        invariant
            i <= files@.len(),
            pat_ok(pat@),
            whole == (pat@.len() == 0),
            out@ == files@.take(i as int).filter(|f: FileMeta| pat_matches(pat@, f.name@)),
        decreases files@.len() - i,
    {
        let keep: bool = if whole {
            true
        } else {
            match glob_match_name(pat, files[i].name.as_str()) {
                Ok(m) => m,
                Err(_) => {
                    proof {
                        assert(false);
                    }
                    false
                }
            }
        };
        proof {
            let ghost prefix = files@.take(i as int);
            let ghost one = seq![files@[i as int]];
            assert(files@.take(i + 1) =~= prefix + one);
            Seq::<FileMeta>::filter_distributes_over_add(
                prefix,
                one,
                |f: FileMeta| pat_matches(pat@, f.name@),
            );
            reveal_with_fuel(Seq::filter, 2);
            assert(one.drop_last() =~= Seq::<FileMeta>::empty());
        }
        if keep {
            out.push(files[i].clone());
        }
        i = i + 1;
    }
    proof {
        assert(files@.take(files@.len() as int) =~= files@);
    }
    Ok(out)
}

/// An empty pattern keeps the full set: filtering a listing by the
/// whole-assignment sentinel returns every file, in order.
pub proof fn lemma_empty_pattern_keeps_all(files: Seq<FileMeta>)
    ensures
        files.filter(|f: FileMeta| pat_matches(Seq::empty(), f.name@)) == files,
    decreases files.len(),
{
    reveal(Seq::filter);
    if files.len() > 0 {
        lemma_empty_pattern_keeps_all(files.drop_last());
        assert(files.drop_last().push(files.last()) =~= files);
    }
}

/// Whether a listing named at least one file. An empty match set is
/// always the same recovered condition, whatever the command: the caller
/// reports the error as a warning, marks the run as degraded, and goes on
/// with its remaining patterns.
pub fn check_listing_nonempty(files: &Vec<FileMeta>, rpat: &RemotePattern) -> (r: Result<
    (),
    GscError,
>)
    ensures
        r is Ok <==> files@.len() > 0,
        r matches Err(e) ==> (e matches GscError::NoSuchRemoteFile(rp) && rp == *rpat),
{
    if files.len() > 0 {
        Ok(())
    } else {
        Err(GscError::NoSuchRemoteFile(rpat.clone()))
    }
}

} // verus!
