//! Client-side core of a per-user, per-assignment file-submission service:
//! the copy/transfer planning engine, the submission-URI cache, the
//! credential record and its on-disk codec, remote-listing glob filtering,
//! and the address grammar. Network and filesystem work is driven by a
//! thin unverified shell that feeds results back into these functions.

use vstd::prelude::*;

pub mod addr;
pub mod cache;
pub mod config;
pub mod cookie;
pub mod copy;
pub mod errors;
pub mod listing;
pub mod messages;
pub mod text;

pub use addr::CpArg;
pub use addr::RemotePattern;
pub use cookie::parse_cookie;

verus! {

/// One run's client context: the configuration in force, the submission
/// address cache — filled at most once per username and read for the rest
/// of the run — and the had-warning state, set by recovered per-item
/// failures and consumed by the command's exit status.
pub struct GscClient {
    pub config: config::Config,
    pub submission_uris: cache::UriCache,
    pub had_warning: bool,
}

impl GscClient {
    /// A fresh context for one run: the given configuration, an empty
    /// cache, and no warning yet.
    pub fn new(config: config::Config) -> (r: Self)
        ensures
            r.config == config,
            r.submission_uris@ == Map::<Seq<char>, Seq<Option<Seq<char>>>>::empty(),
            r.submission_uris.wf(),
            r.had_warning == false,
    {
        GscClient { config, submission_uris: cache::UriCache::new(), had_warning: false }
    }

    pub fn config(&self) -> (r: &config::Config)
        ensures
            *r == self.config,
    {
        &self.config
    }

    pub fn config_mut(&mut self) -> (r: &mut config::Config)
        ensures
            *r == old(self).config,
            final(self).config == *final(r),
            final(self).submission_uris == old(self).submission_uris,
            final(self).had_warning == old(self).had_warning,
    {
        &mut self.config
    }

    /// Whether any recovered per-item failure occurred in this run: the
    /// command then completes with a degraded exit status.
    pub fn had_warning(&self) -> (r: bool)
        ensures
            r == self.had_warning,
    {
        self.had_warning
    }

    /// Records one recovered per-item failure without aborting the run.
    pub fn note_warning(&mut self)
        ensures
            final(self).had_warning == true,
            final(self).config == old(self).config,
            final(self).submission_uris == old(self).submission_uris,
    {
        self.had_warning = true;
    }
}

/// The per-user resource address on the server.
pub fn user_uri(endpoint: &str, user: &str) -> (r: String)
    ensures
        r@ == endpoint@ + "/api/users/"@ + user@,
{
    let mut out = endpoint.to_owned();
    out.append("/api/users/");
    out.append(user);
    proof {
        assert(out@ =~= endpoint@ + "/api/users/"@ + user@);
    }
    out
}

/// The submissions list of a user: the address a username's table is
/// fetched from, once per run.
pub fn user_submissions_uri(endpoint: &str, user: &str) -> (r: String)
    ensures
        r@ == endpoint@ + "/api/users/"@ + user@ + "/submissions"@,
{
    let mut out = user_uri(endpoint, user);
    out.append("/submissions");
    proof {
        assert(out@ =~= endpoint@ + "/api/users/"@ + user@ + "/submissions"@);
    }
    out
}

/// The file collection of a resolved submission: where its files are
/// listed and appended.
pub fn submission_files_uri(submission_uri: &str) -> (r: String)
    ensures
        r@ == submission_uri@ + "/files"@,
{
    let mut out = submission_uri.to_owned();
    out.append("/files");
    out
}

} // verus!
