//! The error type shared by every operation, and the plain description of an
//! operating-system failure that it is built from.

use vstd::prelude::*;
use vstd::string::*;
use vstd::std_specs::convert::FromSpecImpl;
use crate::text::concat;

verus! {

/// What went wrong, surfaced to the caller of an operation.
#[derive(Debug, Clone)]
pub enum AppError {
    /// Permission denied when accessing a file or directory.
    PermissionDenied(String),
    /// Invalid or malformed path.
    InvalidPath(String),
    /// File or directory not found.
    FileNotFound(String),
    /// An attempt to leave the workspace was detected.
    PathTraversal(String),
    /// Any other failure of the underlying storage.
    IoError(String),
    /// File too large to read.
    FileTooLarge(String),
}

/// The kind of an [`AppError`], without its message.
#[derive(Debug, Clone, Copy, PartialEq, Eq, Structural)]
pub enum ErrorKind {
    PermissionDenied,
    InvalidPath,
    FileNotFound,
    PathTraversal,
    IoError,
    FileTooLarge,
}

/// The mathematical content of an [`AppError`]: its kind and its message.
pub struct ErrorView {
    pub kind: ErrorKind,
    pub message: Seq<char>,
}

impl View for AppError {
    type V = ErrorView;

    open spec fn view(&self) -> ErrorView {
        match self {
            AppError::PermissionDenied(m) => ErrorView { kind: ErrorKind::PermissionDenied, message: m@ },
            AppError::InvalidPath(m) => ErrorView { kind: ErrorKind::InvalidPath, message: m@ },
            AppError::FileNotFound(m) => ErrorView { kind: ErrorKind::FileNotFound, message: m@ },
            AppError::PathTraversal(m) => ErrorView { kind: ErrorKind::PathTraversal, message: m@ },
            AppError::IoError(m) => ErrorView { kind: ErrorKind::IoError, message: m@ },
            AppError::FileTooLarge(m) => ErrorView { kind: ErrorKind::FileTooLarge, message: m@ },
        }
    }
}

/// The words that introduce an error of the given kind when it is shown.
pub open spec fn kind_prefix(kind: ErrorKind) -> Seq<char> {
    match kind {
        ErrorKind::PermissionDenied => "Permission denied: "@,
        ErrorKind::InvalidPath => "Invalid path: "@,
        ErrorKind::FileNotFound => "File not found: "@,
        ErrorKind::PathTraversal => "Path traversal detected: "@,
        ErrorKind::IoError => "I/O error: "@,
        ErrorKind::FileTooLarge => "File too large: "@,
    }
}

/// The text by which an error is shown: the words for its kind, then its message.
pub open spec fn error_text(e: ErrorView) -> Seq<char> {
    kind_prefix(e.kind) + e.message
}

impl AppError {
    /// The kind of this error.
    pub fn kind(&self) -> (k: ErrorKind)
        ensures
            k == self@.kind,
    {
        match self {
            AppError::PermissionDenied(_) => ErrorKind::PermissionDenied,
            AppError::InvalidPath(_) => ErrorKind::InvalidPath,
            AppError::FileNotFound(_) => ErrorKind::FileNotFound,
            AppError::PathTraversal(_) => ErrorKind::PathTraversal,
            AppError::IoError(_) => ErrorKind::IoError,
            AppError::FileTooLarge(_) => ErrorKind::FileTooLarge,
        }
    }

    /// The message carried by this error.
    pub fn message(&self) -> (m: &str)
        ensures
            m@ == self@.message,
    {
        match self {
            AppError::PermissionDenied(m) => m.as_str(),
            AppError::InvalidPath(m) => m.as_str(),
            AppError::FileNotFound(m) => m.as_str(),
            AppError::PathTraversal(m) => m.as_str(),
            AppError::IoError(m) => m.as_str(),
            AppError::FileTooLarge(m) => m.as_str(),
        }
    }

    /// The text shown for this error.
    pub fn to_string(&self) -> (out: String)
        ensures
            out@ == error_text(self@),
    {
        match self {
            AppError::PermissionDenied(m) => concat("Permission denied: ", m.as_str()),
            AppError::InvalidPath(m) => concat("Invalid path: ", m.as_str()),
            AppError::FileNotFound(m) => concat("File not found: ", m.as_str()),
            AppError::PathTraversal(m) => concat("Path traversal detected: ", m.as_str()),
            AppError::IoError(m) => concat("I/O error: ", m.as_str()),
            AppError::FileTooLarge(m) => concat("File too large: ", m.as_str()),
        }
    }
}

/// How the operating system classified a failed request.
#[derive(Debug, Clone, Copy, PartialEq, Eq, Structural)]
pub enum IoFailureKind {
    /// The entity was not found.
    NotFound,
    /// The operation lacked the necessary privileges.
    PermissionDenied,
    /// A parameter was incorrect.
    InvalidInput,
    /// Any other classification.
    Other,
}

/// A failed request to the file system, as plain values.
#[derive(Debug, Clone)]
pub struct IoFailure {
    /// The classification of the failure.
    pub kind: IoFailureKind,
    /// The operating system's description of the failure.
    pub message: String,
    /// The raw error number, where the operating system gave one.
    pub os_code: Option<i32>,
}

/// The error number with which a rename across storage volumes fails.
pub const CROSS_DEVICE_CODE: i32 = 18;

impl IoFailure {
    /// Whether the failure says that source and destination lie on different
    /// storage volumes.
    pub open spec fn spec_is_cross_device(&self) -> bool {
        self.os_code == Some(CROSS_DEVICE_CODE)
    }

    /// Whether the failure says that source and destination lie on different
    /// storage volumes.
    #[verifier::when_used_as_spec(spec_is_cross_device)]
    pub fn is_cross_device(&self) -> (b: bool)
        ensures
            b == self.spec_is_cross_device(),
    {
        match self.os_code {
            Some(code) => code == CROSS_DEVICE_CODE,
            None => false,
        }
    }
}

/// The error that stands for a failed request: a missing entity is a file
/// not found, a lack of privileges is a permission denied, an incorrect
/// parameter is an invalid path, and anything else is an I/O error; the
/// message is that of the failure.
pub open spec fn error_of(failure: IoFailure) -> AppError {
    match failure.kind {
        IoFailureKind::NotFound => AppError::FileNotFound(failure.message),
        IoFailureKind::PermissionDenied => AppError::PermissionDenied(failure.message),
        IoFailureKind::InvalidInput => AppError::InvalidPath(failure.message),
        IoFailureKind::Other => AppError::IoError(failure.message),
    }
}

impl AppError {
    /// The error that stands for a failed request.
    pub fn of_failure(failure: IoFailure) -> (out: AppError)
        ensures
            out == error_of(failure),
    {
        match failure.kind {
            IoFailureKind::NotFound => AppError::FileNotFound(failure.message),
            IoFailureKind::PermissionDenied => AppError::PermissionDenied(failure.message),
            IoFailureKind::InvalidInput => AppError::InvalidPath(failure.message),
            IoFailureKind::Other => AppError::IoError(failure.message),
        }
    }
}

impl From<IoFailure> for AppError {
    fn from(err: IoFailure) -> (out: AppError) {
        AppError::of_failure(err)
    }
}

impl FromSpecImpl<IoFailure> for AppError {
    open spec fn obeys_from_spec() -> bool {
        true
    }

    open spec fn from_spec(err: IoFailure) -> AppError {
        error_of(err)
    }
}

} // verus!
