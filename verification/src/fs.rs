//! The boundary to the file system.
//!
//! The library never touches a disk. An operation says what it needs as an
//! [`FsRequest`]; whoever owns the disk carries the request out and answers
//! with an [`FsReply`]; the operation then says what it needs next, or that
//! it is done.

use vstd::prelude::*;
use crate::error::error_of;
use crate::error::AppError;
use crate::error::ErrorKind;
use crate::error::ErrorView;
use crate::error::IoFailure;
use crate::explorer::FileMeta;
use crate::explorer::WalkEntry;
use crate::types::DirectoryPage;
use crate::types::FileNode;

verus! {

/// One thing to do on the file system.
#[derive(Debug)]
pub enum FsRequest {
    /// Read the metadata of `path`, following links.
    Metadata { path: String },
    /// Say whether `path` exists and is a directory.
    IsDir { path: String },
    /// Say whether `path` exists.
    Exists { path: String },
    /// Read the whole file as text.
    ReadText { path: String },
    /// Create or empty the file, write all of `data` to it, and make sure it
    /// has reached the disk.
    WriteFile { path: String, data: Vec<u8> },
    /// Rename `from` to `to`, replacing `to` where it exists.
    Rename { from: String, to: String },
    /// Remove the file.
    RemoveFile { path: String },
    /// Remove the directory and everything in it.
    RemoveDirAll { path: String },
    /// Create an empty file; fail where `path` exists already.
    CreateFile { path: String },
    /// Create a directory; fail where `path` exists already.
    CreateDir { path: String },
    /// Create a directory and the missing directories above it.
    CreateDirAll { path: String },
    /// Copy the contents of the file `from` to the file `to`.
    CopyFile { from: String, to: String },
    /// List the names of the entries of the directory.
    ListDir { path: String },
    /// Walk the directory `root` down to `max_depth` levels, leaving hidden
    /// entries out where `skip_hidden` is set, and report each entry found
    /// with its metadata.
    Walk { root: String, max_depth: usize, skip_hidden: bool },
}

/// The answer to an [`FsRequest`].
#[derive(Debug)]
pub enum FsReply {
    /// The request was carried out; there is nothing to hand back.
    Done,
    /// The metadata that was read.
    Metadata(FileMeta),
    /// Whether the path is a directory.
    IsDir(bool),
    /// Whether the path exists.
    Exists(bool),
    /// The text that was read.
    Text(String),
    /// The names that were listed.
    Names(Vec<String>),
    /// The entries that the walk found.
    Entries(Vec<WalkEntry>),
    /// The request failed.
    Failed(IoFailure),
}

/// What an operation hands to its caller when it succeeds.
#[derive(Debug)]
pub enum Outcome {
    /// Nothing but the success.
    Unit,
    /// The text of a file.
    Text(String),
    /// One node.
    Node(FileNode),
    /// A listing.
    Listing(Vec<FileNode>),
    /// A page of a listing.
    Page(DirectoryPage),
    /// A number of entries.
    Count(usize),
}

/// What an operation wants next.
#[derive(Debug)]
pub enum Step {
    /// The request is to be carried out, and its reply handed to the
    /// operation.
    Ask(FsRequest),
    /// The operation is done, with this result.
    Done(Result<Outcome, AppError>),
}

/// The error with which an operation ends when the reply does not answer
/// what it asked.
pub open spec fn unexpected_reply() -> ErrorView {
    ErrorView { kind: ErrorKind::IoError, message: "Unexpected reply from the file system"@ }
}

impl Step {
    /// Whether the step ends the operation with an error of the given
    /// content.
    pub open spec fn fails_with(self, error: ErrorView) -> bool {
        self matches Step::Done(Err(e)) && e@ == error
    }

    /// Whether the step ends the operation with the error that stands for
    /// the failed request.
    pub open spec fn fails_as(self, failure: IoFailure) -> bool {
        self == Step::Done(Err(error_of(failure)))
    }

    /// Whether the step ends the operation with plain success.
    pub open spec fn succeeds(self) -> bool {
        self == Step::Done(Ok(Outcome::Unit))
    }
}

/// The step that ends an operation because the reply does not answer what
/// it asked.
pub(crate) fn reject_reply() -> (step: Step)
    ensures
        step.fails_with(unexpected_reply()),
{
    Step::Done(Err(AppError::IoError("Unexpected reply from the file system".to_owned())))
}

/// The step that ends an operation because a request failed.
pub(crate) fn fail(failure: IoFailure) -> (step: Step)
    ensures
        step.fails_as(failure),
{
    Step::Done(Err(AppError::of_failure(failure)))
}

} // verus!
