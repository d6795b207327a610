//! The errors that the file system reports to its callers.

use vstd::prelude::*;

verus! {

/// What sort of failure an error stands for.
#[derive(Clone, Copy, Debug, PartialEq, Eq, Structural)]
pub enum ErrorKind {
    NotFound,
    PermissionDenied,
    AlreadyExists,
    InvalidInput,
    NotADirectory,
    IsADirectory,
    DirectoryNotEmpty,
    ResourceBusy,
    Unsupported,
    Other,
    /// A code of the operating system that has no name of its own here.
    Uncategorized,
}

/// An error: either one that the file system words itself or a bare code of
/// the operating system.
#[derive(Debug)]
pub enum Error {
    Message { kind: ErrorKind, message: String },
    Os { code: i32 },
}

/// The mathematical content of an [`Error`].
pub enum ErrorView {
    Message { kind: ErrorKind, message: Seq<char> },
    Os { code: i32 },
}

impl View for Error {
    type V = ErrorView;

    open spec fn view(&self) -> ErrorView {
        match *self {
            Error::Message { kind, message } => ErrorView::Message { kind, message: message@ },
            Error::Os { code } => ErrorView::Os { code },
        }
    }
}

/// No such file or directory.
pub const ENOENT: i32 = 2;

/// Device or resource busy.
pub const EBUSY: i32 = 16;

/// File exists.
pub const EEXIST: i32 = 17;

/// Numerical result out of range.
pub const ERANGE: i32 = 34;

/// Function not implemented.
pub const ENOSYS: i32 = 38;

/// No data available.
pub const ENODATA: i32 = 61;

/// The kind that the operating system's code stands for.
pub open spec fn os_kind(code: i32) -> ErrorKind {
    if code == ENOENT {
        ErrorKind::NotFound
    } else if code == EBUSY {
        ErrorKind::ResourceBusy
    } else if code == EEXIST {
        ErrorKind::AlreadyExists
    } else if code == ENOSYS {
        ErrorKind::Unsupported
    } else {
        ErrorKind::Uncategorized
    }
}

impl ErrorView {
    /// The kind of the error.
    pub open spec fn kind(self) -> ErrorKind {
        match self {
            ErrorView::Message { kind, .. } => kind,
            ErrorView::Os { code } => os_kind(code),
        }
    }
}

/// The error with this kind and these words.
pub open spec fn message(kind: ErrorKind, text: &str) -> ErrorView {
    ErrorView::Message { kind, message: text@ }
}

/// The error that an invalid argument gives, with these words.
pub open spec fn invalid(text: &str) -> ErrorView {
    message(ErrorKind::InvalidInput, text)
}

/// The error with this code of the operating system.
pub open spec fn os(code: i32) -> ErrorView {
    ErrorView::Os { code }
}

impl Error {
    /// An error with this kind and these words.
    pub fn new(kind: ErrorKind, text: &str) -> (r: Error)
        ensures
            r@ == message(kind, text),
    {
        Error::Message { kind, message: text.to_string() }
    }

    /// The error with this code of the operating system.
    pub fn from_raw_os_error(code: i32) -> (r: Error)
        ensures
            r@ == os(code),
    {
        Error::Os { code }
    }

    /// The kind of the error.
    pub fn kind(&self) -> (r: ErrorKind)
        ensures
            r == self@.kind(),
    {
        match self {
            Error::Message { kind, .. } => *kind,
            Error::Os { code } => {
                if *code == ENOENT {
                    ErrorKind::NotFound
                } else if *code == EBUSY {
                    ErrorKind::ResourceBusy
                } else if *code == EEXIST {
                    ErrorKind::AlreadyExists
                } else if *code == ENOSYS {
                    ErrorKind::Unsupported
                } else {
                    ErrorKind::Uncategorized
                }
            },
        }
    }
}

} // verus!
