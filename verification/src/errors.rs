//! The error kinds that the client's operations report, and small
//! classifiers over server responses that the command drivers share.

use vstd::prelude::*;

use crate::addr::RemotePattern;

verus! {

/// The format of error bodies produced by the server.
#[derive(Debug, PartialEq, Eq)]
pub struct JsonError {
    pub status: u16,
    pub title: String,
    pub message: String,
}

impl Clone for JsonError {
    fn clone(&self) -> (r: Self)
        ensures
            r == *self,
    {
        JsonError { status: self.status, title: self.title.clone(), message: self.message.clone() }
    }
}

/// Every failure one of the client's operations can report. Syntax,
/// ambiguity, wrong-direction and server errors abort the current command;
/// a missing remote file and a filename that cannot be derived are
/// recovered per item, as warnings.
#[derive(Debug, PartialEq, Eq)]
pub enum GscError {
    /// A non-success response, with the server's structured body.
    ServerError(JsonError),
    /// The assignment number has no submission for the addressed user.
    UnknownHomework(usize),
    /// An argument did not parse: what was expected, and the input.
    SyntaxError(String, String),
    NoCommandGiven,
    /// No credential is stored: the user must authenticate first.
    LoginPlease,
    NoDotfileGiven,
    PasswordMismatch,
    /// Copying local to local is out of scope: the local source, the
    /// local destination.
    CannotCopyLocalToLocal(String, String),
    /// Copying remote to remote is out of scope: the remote source, the
    /// remote destination.
    CannotCopyRemoteToRemote(RemotePattern, RemotePattern),
    /// A whole-assignment source cannot land on a single existing file:
    /// the assignment, the destination path.
    SourceDirToDestinationFile(usize, String),
    /// Several source files aimed at one non-directory destination.
    MultipleSourcesOneDestination(crate::addr::CpArg),
    /// A non-empty upload destination pattern matched two or more remote
    /// files: the destination, and the names it matched.
    AmbiguousDestination(RemotePattern, Vec<String>),
    /// A listing that had to name at least one file matched none.
    NoSuchRemoteFile(RemotePattern),
    /// No base filename can be derived from this local path.
    BadLocalPath(String),
    /// The glob pattern does not compile.
    InvalidGlob(String),
}

/// The outcome of one response: success exactly on a 2xx status, or the
/// server's error body.
pub fn response_outcome(status: u16, body: JsonError) -> (r: Result<(), GscError>)
    ensures
        r is Ok <==> 200 <= status < 300,
        r matches Err(e) ==> e == GscError::ServerError(body),
{
    if 200 <= status && status < 300 {
        Ok(())
    } else {
        Err(GscError::ServerError(body))
    }
}

/// Whether a failed authentication attempt should be retried with a fresh
/// password prompt: exactly on a server rejection with status 401.
pub fn auth_should_retry(e: &GscError) -> (r: bool)
    ensures
        r == (e matches GscError::ServerError(j) && j.status == 401),
{
    match e {
        GscError::ServerError(j) => j.status == 401,
        _ => false,
    }
}

/// How one deauthentication attempt ended.
#[derive(Clone, Copy, Debug, PartialEq, Eq, Structural)]
pub enum DeauthOutcome {
    /// The server confirmed it ended the session: plain success.
    ServerOk,
    /// The server answered but declined: the local credentials are still
    /// deleted, with a warning.
    ServerRefused,
    /// No credential was stored, so there was no session to end: a
    /// message, not a warning.
    NotAuthenticated,
    /// Any other failure: the local credentials are still deleted, with a
    /// warning.
    OtherFailure,
}

/// Classifies the server's reply to a deauthentication request: each
/// reply falls in exactly one class, and only a refusal or an unexpected
/// failure degrades the run.
pub fn classify_deauth(r: &Result<bool, GscError>) -> (o: DeauthOutcome)
    ensures
        (o == DeauthOutcome::ServerOk <==> r matches Ok(true)),
        (o == DeauthOutcome::ServerRefused <==> r matches Ok(false)),
        (o == DeauthOutcome::NotAuthenticated <==> (r matches Err(e)
            && e == GscError::LoginPlease)),
        (o == DeauthOutcome::OtherFailure <==> (r matches Err(e) && e
            != GscError::LoginPlease)),
{
    match r {
        Ok(confirmed) => {
            if *confirmed {
                DeauthOutcome::ServerOk
            } else {
                DeauthOutcome::ServerRefused
            }
        }
        Err(e) => match e {
            GscError::LoginPlease => DeauthOutcome::NotAuthenticated,
            _ => DeauthOutcome::OtherFailure,
        },
    }
}

/// Two password prompts must agree before the pair is sent to the server.
pub fn check_matching_passwords(password1: String, password2: &String) -> (r: Result<
    String,
    GscError,
>)
    ensures
        r is Ok <==> password1@ == password2@,
        r matches Ok(p) ==> p@ == password1@,
        r matches Err(e) ==> e == GscError::PasswordMismatch,
{
    if password1.eq(password2) {
        Ok(password1)
    } else {
        Err(GscError::PasswordMismatch)
    }
}

} // verus!
