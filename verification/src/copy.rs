//! The copy engine: the planning half of `cp`.
//!
//! Direction is decided by the destination's kind: a local destination is
//! a download, a remote destination an upload. These functions reconcile
//! the sources against the destination the way a general-purpose `cp`
//! does — file to file, file to directory, many to directory — and either
//! name the error or produce the exact sequence of transfers to perform.
//! The unverified shell resolves remote addresses into file lists, probes
//! the local filesystem for the destination's type, and then performs the
//! planned transfers one at a time, in order.

use vstd::prelude::*;

use crate::addr::CpArg;
use crate::addr::RemotePattern;
use crate::errors::GscError;
use crate::messages::purpose_dir;
use crate::messages::FileMeta;
use crate::text::path_join;
use crate::text::spec_ends_in_slash;
use crate::text::ends_in_slash;
use crate::text::join_path;

verus! {

/// What the local filesystem says a download destination is.
#[derive(Clone, Copy, Debug, PartialEq, Eq, Structural)]
pub enum DstType {
    Dir,
    File,
    DoesNotExist,
}

/// One remote file a source address resolved to: the file, the assignment
/// it came from, and whether the address named the whole assignment.
#[derive(Debug, PartialEq, Eq)]
pub struct ResolvedFile {
    pub meta: FileMeta,
    pub hw: usize,
    pub whole_hw: bool,
}

impl Clone for ResolvedFile {
    fn clone(&self) -> (r: Self)
        ensures
            r == *self,
    {
        ResolvedFile { meta: self.meta.clone(), hw: self.hw, whole_hw: self.whole_hw }
    }
}

/// One download to perform: fetch `rel_uri` (a file of assignment `hw`
/// named `name`) and write it to the local path `dest`, first creating
/// `ensure_dir` when the file came from a whole-assignment source.
#[derive(Debug, PartialEq, Eq)]
pub struct DownloadStep {
    pub hw: usize,
    pub name: String,
    pub rel_uri: String,
    pub ensure_dir: Option<String>,
    pub dest: String,
}

/// The transfers of one download command, in source order. When
/// `create_dst_dir` is set the destination directory is created first
/// (idempotently: that it already exists is not an error).
#[derive(Debug, PartialEq, Eq)]
pub struct DownloadPlan {
    pub create_dst_dir: bool,
    pub steps: Vec<DownloadStep>,
}

/// The outcome class of the download case table.
#[derive(Clone, Copy, Debug, PartialEq, Eq, Structural)]
pub enum DownloadCase {
    /// One resolved file, not whole-assignment, onto an existing file:
    /// overwrite it.
    OneToFile,
    /// A whole-assignment source onto an existing file: an error.
    WholeToFile,
    /// Not exactly one resolved file onto an existing file: an error.
    ManyToFile,
    /// One resolved file, not whole-assignment, onto a path that does not
    /// exist and does not end in a separator: create that file.
    OneToNewFile,
    /// Everything else: treat the destination as a directory.
    ToDirectory,
}

/// The download case table: total and deterministic over the destination
/// type, the number of resolved files, the whole-assignment tag and the
/// shape of the destination path.
pub open spec fn download_case(
    dst_type: DstType,
    files: Seq<ResolvedFile>,
    ends_slash: bool,
) -> DownloadCase {
    match dst_type {
        DstType::File => if files.len() == 1 {
            if files[0].whole_hw {
                DownloadCase::WholeToFile
            } else {
                DownloadCase::OneToFile
            }
        } else {
            DownloadCase::ManyToFile
        },
        DstType::DoesNotExist => if files.len() == 1 && !files[0].whole_hw && !ends_slash {
            DownloadCase::OneToNewFile
        } else {
            DownloadCase::ToDirectory
        },
        DstType::Dir => DownloadCase::ToDirectory,
    }
}

/// Every combination of destination type, file count, whole-assignment tag
/// and path shape falls in exactly one class of the case table, and each
/// class comes from exactly the combinations listed here.
pub proof fn lemma_download_case_total(
    dst_type: DstType,
    files: Seq<ResolvedFile>,
    ends_slash: bool,
)
    ensures
        download_case(dst_type, files, ends_slash) == DownloadCase::OneToFile <==> (dst_type
            == DstType::File && files.len() == 1 && !files[0].whole_hw),
        download_case(dst_type, files, ends_slash) == DownloadCase::WholeToFile <==> (dst_type
            == DstType::File && files.len() == 1 && files[0].whole_hw),
        download_case(dst_type, files, ends_slash) == DownloadCase::ManyToFile <==> (dst_type
            == DstType::File && files.len() != 1),
        download_case(dst_type, files, ends_slash) == DownloadCase::OneToNewFile <==> (dst_type
            == DstType::DoesNotExist && files.len() == 1 && !files[0].whole_hw && !ends_slash),
        download_case(dst_type, files, ends_slash) == DownloadCase::ToDirectory <==> (dst_type
            == DstType::Dir || (dst_type == DstType::DoesNotExist && (files.len() != 1
            || files[0].whole_hw || ends_slash))),
{
}

/// Splits a download's sources: every source must be a remote address.
/// A local source makes the whole command a wrong-direction error.
pub fn download_sources(srcs: &Vec<CpArg>, dst: &str) -> (r: Result<Vec<RemotePattern>, GscError>)
    ensures
        r is Ok <==> (forall|i: int| 0 <= i < srcs@.len() ==> #[trigger] srcs@[i] is Remote),
        r matches Ok(v) ==> (v@.len() == srcs@.len() && forall|i: int|
            0 <= i < srcs@.len() ==> #[trigger] v@[i] == srcs@[i]->Remote_0),
        r matches Err(e) ==> (e matches GscError::CannotCopyLocalToLocal(p, d) && d@ == dst@
            && exists|i: int| 0 <= i < srcs@.len() && ((#[trigger] srcs@[i]) matches CpArg::Local(q)
            && q@ == p@ && (forall|j: int| 0 <= j < i ==> srcs@[j] is Remote))),
{
    let mut out: Vec<RemotePattern> = Vec::new();
    let mut i: usize = 0;
    while i < srcs.len()
        invariant
            i <= srcs@.len(),
            out@.len() == i,
            forall|j: int| 0 <= j < i ==> #[trigger] srcs@[j] is Remote,
            forall|j: int| 0 <= j < i ==> #[trigger] out@[j] == srcs@[j]->Remote_0,
        decreases srcs@.len() - i,
    {
        match &srcs[i] {
            CpArg::Local(path) => {
                return Err(GscError::CannotCopyLocalToLocal(path.clone(), dst.to_owned()));
            }
            CpArg::Remote(rpat) => {
                out.push(rpat.clone());
            }
        }
        i = i + 1;
    }
    Ok(out)
}

/// Tags each file of one resolved listing with the assignment it came
/// from and whether the source address named the whole assignment.
pub fn tag_resolved(files: Vec<FileMeta>, rpat: &RemotePattern) -> (r: Vec<ResolvedFile>)
    ensures
        r@.len() == files@.len(),
        forall|i: int| 0 <= i < files@.len() ==> {
            &&& (#[trigger] r@[i]).meta == files@[i]
            &&& r@[i].hw == rpat.hw
            &&& r@[i].whole_hw == (rpat.pat@.len() == 0)
        },
{
    let whole = rpat.is_whole_hw();
    let mut out: Vec<ResolvedFile> = Vec::new();
    let mut i: usize = 0;
    while i < files.len()
        invariant
            i <= files@.len(),
            out@.len() == i,
            whole == (rpat.pat@.len() == 0),
            forall|j: int| 0 <= j < i ==> {
                &&& (#[trigger] out@[j]).meta == files@[j]
                &&& out@[j].hw == rpat.hw
                &&& out@[j].whole_hw == (rpat.pat@.len() == 0)
            },
        decreases files@.len() - i,
    {
        out.push(ResolvedFile { meta: files[i].clone(), hw: rpat.hw, whole_hw: whole });
        i = i + 1;
    }
    out
}

/// Appends one source address's resolved listing to the download's
/// combined source list, keeping source order: what comes before stays,
/// the new files follow, each tagged for its address.
pub fn extend_resolved(acc: &mut Vec<ResolvedFile>, files: Vec<FileMeta>, rpat: &RemotePattern)
    ensures
        final(acc)@.len() == old(acc)@.len() + files@.len(),
        forall|i: int| 0 <= i < old(acc)@.len() ==> final(acc)@[i] == old(acc)@[i],
        forall|i: int| 0 <= i < files@.len() ==> {
            &&& (#[trigger] final(acc)@[old(acc)@.len() + i]).meta == files@[i]
            &&& final(acc)@[old(acc)@.len() + i].hw == rpat.hw
            &&& final(acc)@[old(acc)@.len() + i].whole_hw == (rpat.pat@.len() == 0)
        },
{
    let mut tagged = tag_resolved(files, rpat);
    acc.append(&mut tagged);
}

/// The step a direct (file-onto-file) download performs: straight to the
/// given destination path, no directory work.
pub open spec fn direct_step(dst: Seq<char>, f: ResolvedFile, s: DownloadStep) -> bool {
    &&& s.hw == f.hw
    &&& s.name@ == f.meta.name@
    &&& s.rel_uri@ == f.meta.uri@
    &&& s.ensure_dir is None
    &&& s.dest@ == dst
}

/// The step a directory-destination download performs for one resolved
/// file: a file of a whole-assignment source lands in a subdirectory named
/// after its purpose category; any other file lands directly under the
/// destination, under its own name.
pub open spec fn dir_step(dst: Seq<char>, f: ResolvedFile, s: DownloadStep) -> bool {
    &&& s.hw == f.hw
    &&& s.name@ == f.meta.name@
    &&& s.rel_uri@ == f.meta.uri@
    &&& f.whole_hw ==> (s.ensure_dir matches Some(d) && d@ == path_join(
        dst,
        purpose_dir(f.meta.purpose),
    ) && s.dest@ == path_join(path_join(dst, purpose_dir(f.meta.purpose)), f.meta.name@))
    &&& !f.whole_hw ==> (s.ensure_dir is None && s.dest@ == path_join(dst, f.meta.name@))
}

/// Plans one download command over the already-resolved sources, per the
/// case table: each combination of destination type, file count and
/// whole-assignment tag maps to exactly one outcome.
pub fn plan_download(all: bool, files: &Vec<ResolvedFile>, dst: &str, dst_type: DstType) -> (r:
    Result<DownloadPlan, GscError>)
    ensures
        ({
            let c = download_case(dst_type, files@, spec_ends_in_slash(dst@));
            &&& (r is Ok <==> (c != DownloadCase::WholeToFile && c != DownloadCase::ManyToFile))
            &&& (r matches Err(e) ==> match c {
                DownloadCase::WholeToFile => (e matches GscError::SourceDirToDestinationFile(hw, d)
                    && hw == files@[0].hw && d@ == dst@),
                DownloadCase::ManyToFile => (e matches GscError::MultipleSourcesOneDestination(a)
                    && a matches CpArg::Local(d) && d@ == dst@),
                _ => false,
            })
            &&& (r matches Ok(p) ==> {
                &&& p.create_dst_dir == (all && c == DownloadCase::ToDirectory)
                &&& ((c == DownloadCase::OneToFile || c == DownloadCase::OneToNewFile) ==> (
                p.steps@.len() == 1 && direct_step(dst@, files@[0], p.steps@[0])))
                &&& (c == DownloadCase::ToDirectory ==> (p.steps@.len() == files@.len() && forall|
                    i: int,
                |
                    0 <= i < files@.len() ==> dir_step(dst@, files@[i], #[trigger] p.steps@[i])))
            })
        }),
{
    let n: usize = files.len();
    let direct: bool = match dst_type {
        DstType::File => {
            if n == 1 {
                if files[0].whole_hw {
                    return Err(
                        GscError::SourceDirToDestinationFile(files[0].hw, dst.to_owned()),
                    );
                }
                true
            } else {
                return Err(
                    GscError::MultipleSourcesOneDestination(CpArg::Local(dst.to_owned())),
                );
            }
        }
        DstType::DoesNotExist => n == 1 && !files[0].whole_hw && !ends_in_slash(dst),
        DstType::Dir => false,
    };
    if direct {
        let step = DownloadStep {
            hw: files[0].hw,
            name: files[0].meta.name.clone(),
            rel_uri: files[0].meta.uri.clone(),
            ensure_dir: None,
            dest: dst.to_owned(),
        };
        let mut steps: Vec<DownloadStep> = Vec::new();
        steps.push(step);
        return Ok(DownloadPlan { create_dst_dir: false, steps });
    }
    let mut steps: Vec<DownloadStep> = Vec::new();
    let mut i: usize = 0;
    while i < files.len()
        invariant
            i <= files@.len(),
            steps@.len() == i,
            forall|j: int| 0 <= j < i ==> dir_step(dst@, files@[j], #[trigger] steps@[j]),
        decreases files@.len() - i,
    {
        let f = &files[i];
        let step = if f.whole_hw {
            let sub = join_path(dst, f.meta.purpose.to_dir());
            let dest = join_path(sub.as_str(), f.meta.name.as_str());
            DownloadStep {
                hw: f.hw,
                name: f.meta.name.clone(),
                rel_uri: f.meta.uri.clone(),
                ensure_dir: Some(sub),
                dest,
            }
        } else {
            DownloadStep {
                hw: f.hw,
                name: f.meta.name.clone(),
                rel_uri: f.meta.uri.clone(),
                ensure_dir: None,
                dest: join_path(dst, f.meta.name.as_str()),
            }
        };
        steps.push(step);
        i = i + 1;
    }
    Ok(DownloadPlan { create_dst_dir: all, steps })
}

/// Splits an upload's sources: every source must be a local path. A
/// remote source makes the whole command a wrong-direction error.
pub fn upload_sources(srcs: &Vec<CpArg>, dst: &RemotePattern) -> (r: Result<Vec<String>, GscError>)
    ensures
        r is Ok <==> (forall|i: int| 0 <= i < srcs@.len() ==> #[trigger] srcs@[i] is Local),
        r matches Ok(v) ==> (v@.len() == srcs@.len() && forall|i: int|
            0 <= i < srcs@.len() ==> (#[trigger] v@[i])@ == srcs@[i]->Local_0@),
        r matches Err(e) ==> (e matches GscError::CannotCopyRemoteToRemote(s, d) && d == *dst
            && exists|i: int| 0 <= i < srcs@.len() && ((#[trigger] srcs@[i]) matches CpArg::Remote(
            rp,
        ) && rp == s && (forall|j: int| 0 <= j < i ==> srcs@[j] is Local))),
{
    let mut out: Vec<String> = Vec::new();
    let mut i: usize = 0;
    while i < srcs.len()
        invariant
            i <= srcs@.len(),
            out@.len() == i,
            forall|j: int| 0 <= j < i ==> #[trigger] srcs@[j] is Local,
            forall|j: int| 0 <= j < i ==> (#[trigger] out@[j])@ == srcs@[j]->Local_0@,
        decreases srcs@.len() - i,
    {
        match &srcs[i] {
            CpArg::Local(path) => {
                out.push(path.clone());
            }
            CpArg::Remote(rpat) => {
                return Err(GscError::CannotCopyRemoteToRemote(rpat.clone(), dst.clone()));
            }
        }
        i = i + 1;
    }
    Ok(out)
}

/// The start of a path's base name: the position just after the last
/// separator, or the start of the path when it has no separator.
pub open spec fn base_start(s: Seq<char>) -> int
    decreases s.len(),
{
    if s.len() == 0 {
        0
    } else if s.last() == '/' {
        s.len() as int
    } else {
        base_start(s.drop_last())
    }
}

/// A path with its trailing separator runs and trailing `.` (current
/// directory) components removed, the way the standard library reads a
/// path's file name: `x/`, `x//` and `x/.` all name `x`.
pub open spec fn trim_path(s: Seq<char>) -> Seq<char>
    decreases s.len(),
{
    if s.len() == 0 {
        s
    } else if s.last() == '/' {
        trim_path(s.drop_last())
    } else if s.last() == '.' && (s.len() == 1 || s[s.len() - 2] == '/') {
        trim_path(s.drop_last())
    } else {
        s
    }
}

/// The base name of a path: the last component, once trailing separators
/// and trailing `.` components are dropped.
pub open spec fn base_name(s: Seq<char>) -> Seq<char> {
    let t = trim_path(s);
    t.subrange(base_start(t), t.len() as int)
}

/// Whether a filename can be derived from a path: its base name must be
/// non-empty and must name a file, not the parent directory.
pub open spec fn has_base_name(s: Seq<char>) -> bool {
    let b = base_name(s);
    &&& b.len() > 0
    &&& !(b.len() == 1 && b[0] == '.')
    &&& !(b.len() == 2 && b[0] == '.' && b[1] == '.')
}

/// The position after the last separator is exactly the position from
/// which no separator follows, while a separator (or the path's start)
/// stands just before it.
proof fn lemma_base_start_char(s: Seq<char>, k: int)
    requires
        0 <= k <= s.len(),
        forall|j: int| k <= j < s.len() ==> s[j] != '/',
        k == 0 || s[k - 1] == '/',
    ensures
        base_start(s) == k,
    decreases s.len(),
{
    if s.len() == 0 {
    } else if s.last() == '/' {
        assert(k == s.len());
    } else {
        assert(k < s.len() || s[k - 1] != '/');
        lemma_base_start_char(s.drop_last(), k);
    }
}

/// Drops trailing separators and trailing `.` components: the position
/// where the path's last real component ends.
fn trim_end(path: &str, end: usize) -> (r: usize)
    requires
        end <= path@.len(),
    ensures
        r <= end,
        path@.take(r as int) == trim_path(path@.take(end as int)),
        trim_path(path@.take(r as int)) == path@.take(r as int),
    decreases end,
{
    if end > 0 {
        let c = path.get_char(end - 1);
        if c == '/' {
            proof {
                assert(path@.take(end as int).drop_last() =~= path@.take(end - 1));
            }
            return trim_end(path, end - 1);
        }
        if c == '.' && (end == 1 || path.get_char(end - 2) == '/') {
            proof {
                assert(path@.take(end as int).drop_last() =~= path@.take(end - 1));
            }
            return trim_end(path, end - 1);
        }
    }
    proof {
        assert(path@.take(end as int) == trim_path(path@.take(end as int)));
    }
    end
}

/// Derives the destination filename for one local source of a
/// whole-assignment upload: the source's own base name. A path with no
/// usable base name is a per-file error the caller records as a warning.
pub fn get_base_filename(path: &str) -> (r: Result<String, GscError>)
    ensures
        r is Ok <==> has_base_name(path@),
        r matches Ok(s) ==> s@ == base_name(path@),
        r matches Err(e) ==> (e matches GscError::BadLocalPath(p) && p@ == path@),
{
    let len: usize = path.unicode_len();
    let end: usize = trim_end(path, len);
    proof {
        assert(path@.take(len as int) =~= path@);
    }
    let mut i: usize = end;
    while i > 0 && path.get_char(i - 1) != '/'
        invariant
            i <= end,
            end <= len,
            len == path@.len(),
            forall|j: int| i <= j < end ==> path@[j] != '/',
        decreases i,
    {
        i = i - 1;
    }
    proof {
        lemma_base_start_char(path@.take(end as int), i as int);
    }
    let blen: usize = end - i;
    if blen == 0 {
        return Err(GscError::BadLocalPath(path.to_owned()));
    }
    if blen == 1 && path.get_char(i) == '.' {
        return Err(GscError::BadLocalPath(path.to_owned()));
    }
    if blen == 2 && path.get_char(i) == '.' && path.get_char(i + 1) == '.' {
        return Err(GscError::BadLocalPath(path.to_owned()));
    }
    let name = path.substring_char(i, end).to_owned();
    proof {
        assert(name@ =~= base_name(path@));
    }
    Ok(name)
}

/// One upload to perform: send the local file `src` under the remote name
/// `name`.
#[derive(Debug, PartialEq, Eq)]
pub struct UploadStep {
    pub src: String,
    pub name: String,
}

/// The uploads of a whole-assignment destination, in source order, and
/// the sources that were skipped because no filename could be derived
/// from them. Each skipped source is a warning, not a failure: the
/// remaining uploads still run.
#[derive(Debug, PartialEq, Eq)]
pub struct WholeUploadPlan {
    pub steps: Vec<UploadStep>,
    pub skipped: Vec<String>,
}

/// The uploads a whole-assignment destination performs: each source with
/// a derivable base name, under that name, in order.
pub open spec fn whole_steps(paths: Seq<Seq<char>>) -> Seq<(Seq<char>, Seq<char>)>
    decreases paths.len(),
{
    if paths.len() == 0 {
        Seq::empty()
    } else {
        let rest = whole_steps(paths.drop_last());
        let p = paths.last();
        if has_base_name(p) {
            rest.push((p, base_name(p)))
        } else {
            rest
        }
    }
}

/// The sources a whole-assignment destination skips with a warning: those
/// with no derivable base name, in order.
pub open spec fn whole_skipped(paths: Seq<Seq<char>>) -> Seq<Seq<char>>
    decreases paths.len(),
{
    if paths.len() == 0 {
        Seq::empty()
    } else {
        let rest = whole_skipped(paths.drop_last());
        let p = paths.last();
        if has_base_name(p) {
            rest
        } else {
            rest.push(p)
        }
    }
}

/// What an upload command does next, once its sources are known to be
/// local.
#[derive(Debug, PartialEq, Eq)]
pub enum UploadPlan {
    /// Empty destination pattern: upload each source under its own base
    /// name; the skipped list is warnings.
    Whole(WholeUploadPlan),
    /// Non-empty destination pattern and a single source: the remote
    /// listing for the destination must be consulted to pick the target
    /// name (see `choose_upload_name`).
    NeedListing(String),
}

/// Plans one upload command. An empty destination pattern uploads every
/// source under its derived name, skipping (with a warning) sources with
/// no derivable name. A non-empty pattern admits exactly one source, and
/// the caller must first list the destination's matches to pick the
/// target name — so a many-source mistake is caught before any network
/// work.
pub fn plan_upload(srcs: &Vec<String>, dst: &RemotePattern) -> (r: Result<UploadPlan, GscError>)
    ensures
        dst.pat@.len() == 0 ==> (r matches Ok(u) && u matches UploadPlan::Whole(w)
            && w.steps@.map_values(|s: UploadStep| (s.src@, s.name@)) == whole_steps(
            srcs.deep_view(),
        ) && w.skipped.deep_view() == whole_skipped(srcs.deep_view())),
        dst.pat@.len() > 0 ==> {
            &&& (r is Ok <==> srcs@.len() == 1)
            &&& (r matches Ok(u) ==> (u matches UploadPlan::NeedListing(p) && p@ == srcs@[0]@))
            &&& (r matches Err(e) ==> (e matches GscError::MultipleSourcesOneDestination(a)
                && a matches CpArg::Remote(rp) && rp == *dst))
        },
{
    if !dst.is_whole_hw() {
        if srcs.len() == 1 {
            return Ok(UploadPlan::NeedListing(srcs[0].clone()));
        } else {
            return Err(
                GscError::MultipleSourcesOneDestination(CpArg::Remote(dst.clone())),
            );
        }
    }
    let ghost step_view = |s: UploadStep| (s.src@, s.name@);
    let mut steps: Vec<UploadStep> = Vec::new();
    let mut skipped: Vec<String> = Vec::new();
    let mut i: usize = 0;
    while i < srcs.len()
        invariant
            i <= srcs@.len(),
            steps@.map_values(|s: UploadStep| (s.src@, s.name@)) == whole_steps(
                srcs.deep_view().take(i as int),
            ),
            skipped.deep_view() == whole_skipped(srcs.deep_view().take(i as int)),
        decreases srcs@.len() - i,
    {
        let ghost prefix = srcs.deep_view().take(i as int);
        let ghost next = srcs.deep_view().take(i + 1);
        proof {
            assert(next.drop_last() =~= prefix);
            assert(next.last() == srcs@[i as int]@);
        }
        match get_base_filename(srcs[i].as_str()) {
            Ok(name) => {
                steps.push(UploadStep { src: srcs[i].clone(), name });
                proof {
                    assert(steps@.map_values(|s: UploadStep| (s.src@, s.name@)) =~= whole_steps(
                        next,
                    ));
                }
            }
            Err(_) => {
                skipped.push(srcs[i].clone());
                proof {
                    assert(skipped.deep_view() =~= whole_skipped(next));
                }
            }
        }
        i = i + 1;
    }
    proof {
        assert(srcs.deep_view().take(srcs@.len() as int) =~= srcs.deep_view());
    }
    Ok(UploadPlan::Whole(WholeUploadPlan { steps, skipped }))
}

/// Picks the remote name a single-source upload writes to, from the
/// files its non-empty destination pattern matches on the server: zero
/// matches use the pattern itself as the new name; one match overwrites
/// exactly that file; two or more are ambiguous, and the upload fails
/// before any transfer, naming the matches.
pub fn choose_upload_name(dst: &RemotePattern, matches: &Vec<FileMeta>) -> (r: Result<
    String,
    GscError,
>)
    requires
        dst.pat@.len() > 0,
    ensures
        r is Ok <==> matches@.len() <= 1,
        matches@.len() == 0 ==> (r matches Ok(n) && n@ == dst.pat@),
        matches@.len() == 1 ==> (r matches Ok(n) && n@ == matches@[0].name@),
        r matches Err(e) ==> (e matches GscError::AmbiguousDestination(rp, names) && rp == *dst
            && names.deep_view() == matches@.map_values(|f: FileMeta| f.name@)),
{
    if matches.len() == 0 {
        Ok(dst.pat.clone())
    } else if matches.len() == 1 {
        Ok(matches[0].name.clone())
    } else {
        let mut names: Vec<String> = Vec::new();
        let mut i: usize = 0;
        while i < matches.len()
            invariant
                i <= matches@.len(),
                names@.len() == i,
                forall|j: int| 0 <= j < i ==> (#[trigger] names@[j])@ == matches@[j].name@,
            decreases matches@.len() - i,
        {
            names.push(matches[i].name.clone());
            i = i + 1;
        }
        proof {
            assert(names.deep_view() =~= matches@.map_values(|f: FileMeta| f.name@));
        }
        Err(GscError::AmbiguousDestination(dst.clone(), names))
    }
}

/// What an upload's destination name becomes inside the request address.
pub uninterp spec fn percent_encoded(s: Seq<char>) -> Seq<char>;

/// Relies on percent_encoding::utf8_percent_encode with the
/// NON_ALPHANUMERIC set: the encoding of a name depends on its characters
/// alone; every byte outside the ASCII alphanumerics — in particular
/// every character reserved inside a URI path segment — is escaped.
#[verifier::external_body]
fn percent_encode_str(s: &str) -> (r: String)
    ensures
        r@ == percent_encoded(s@),
{
    percent_encoding::utf8_percent_encode(s, percent_encoding::NON_ALPHANUMERIC).to_string()
}

/// The address one upload PUTs to: the assignment's file-collection
/// address, a separator, and the percent-encoded destination name.
pub fn upload_uri(files_uri: &str, name: &str) -> (r: String)
    ensures
        r@ == files_uri@ + seq!['/'] + percent_encoded(name@),
{
    let mut out = files_uri.to_owned();
    proof {
        reveal_strlit("/");
        assert("/"@ =~= seq!['/']);
    }
    out.append("/");
    let enc = percent_encode_str(name);
    out.append(enc.as_str());
    proof {
        assert(out@ =~= files_uri@ + seq!['/'] + percent_encoded(name@));
    }
    out
}

} // verus!
