//! The server's data about remote files and submissions, as the client
//! models it: plain values the verified logic can read.

use vstd::prelude::*;

verus! {

/// The category the server assigns a file within a submission. When a
/// whole assignment is downloaded, each file lands in a subdirectory
/// named after its category.
#[derive(Clone, Copy, Debug, PartialEq, Eq, Structural)]
pub enum FilePurpose {
    Source,
    Test,
    Config,
    Log,
}

/// The directory name a whole-assignment download uses for files of this
/// category.
pub open spec fn purpose_dir(p: FilePurpose) -> Seq<char> {
    match p {
        FilePurpose::Source => "src"@,
        FilePurpose::Test => "test"@,
        FilePurpose::Config => "config"@,
        FilePurpose::Log => "log"@,
    }
}

/// The one-character tag a listing shows for files of this category.
pub open spec fn purpose_char(p: FilePurpose) -> char {
    match p {
        FilePurpose::Source => 's',
        FilePurpose::Test => 't',
        FilePurpose::Config => 'c',
        FilePurpose::Log => 'l',
    }
}

impl FilePurpose {
    pub fn to_dir(&self) -> (r: &'static str)
        ensures
            r@ == purpose_dir(*self),
    {
        match self {
            FilePurpose::Source => "src",
            FilePurpose::Test => "test",
            FilePurpose::Config => "config",
            FilePurpose::Log => "log",
        }
    }

    pub fn to_char(&self) -> (r: char)
        ensures
            r == purpose_char(*self),
    {
        match self {
            FilePurpose::Source => 's',
            FilePurpose::Test => 't',
            FilePurpose::Config => 'c',
            FilePurpose::Log => 'l',
        }
    }
}

/// One remote file of an assignment, as the server lists it. Immutable
/// once fetched.
#[derive(Debug, PartialEq, Eq)]
pub struct FileMeta {
    /// The file's flat name within its assignment.
    pub name: String,
    /// The relative resource address of the file's bytes.
    pub uri: String,
    pub byte_count: u64,
    pub upload_time: String,
    pub purpose: FilePurpose,
}

impl Clone for FileMeta {
    fn clone(&self) -> (r: Self)
        ensures
            r == *self,
    {
        FileMeta {
            name: self.name.clone(),
            uri: self.uri.clone(),
            byte_count: self.byte_count,
            upload_time: self.upload_time.clone(),
            purpose: self.purpose,
        }
    }
}

/// One entry of a user's submission list: which assignment it is, and the
/// relative resource address of the submission.
#[derive(Debug, PartialEq, Eq)]
pub struct SubmissionRecord {
    pub assignment_number: usize,
    pub uri: String,
}

impl Clone for SubmissionRecord {
    fn clone(&self) -> (r: Self)
        ensures
            r == *self,
    {
        SubmissionRecord { assignment_number: self.assignment_number, uri: self.uri.clone() }
    }
}

} // verus!
