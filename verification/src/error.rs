//! Failure kinds, their numeric wire codes, and how the outcome of a host
//! file operation is folded into them.

use axerrno::AxError;
use vstd::prelude::*;

verus! {

/// The failures that a response can carry. Each travels as its numeric code.
#[derive(Clone, Copy, Debug, PartialEq, Eq, Structural)]
pub enum ErrorKind {
    NotFound,
    PermissionDenied,
    ConnectionRefused,
    ConnectionReset,
    NotConnected,
    AddrInUse,
    AlreadyExists,
    WouldBlock,
    InvalidInput,
    InvalidData,
    WriteZero,
    Unsupported,
    UnexpectedEof,
    Io,
    BadState,
}

/// What the host operating system reports when a file operation fails.
#[derive(Clone, Copy, Debug, PartialEq, Eq, Structural)]
pub enum IoErrorKind {
    NotFound,
    PermissionDenied,
    ConnectionRefused,
    ConnectionReset,
    NotConnected,
    AddrInUse,
    AlreadyExists,
    WouldBlock,
    InvalidInput,
    InvalidData,
    WriteZero,
    Unsupported,
    UnexpectedEof,
    /// Any failure that has no kind of its own on the wire.
    Other,
}

/// The kind of a directory entry as the host file system reports it.
#[derive(Clone, Copy, Debug, PartialEq, Eq, Structural)]
pub enum FileKind {
    Fifo,
    CharDevice,
    Dir,
    BlockDevice,
    File,
    Symlink,
    Socket,
    Unknown,
}

/// Wire value of a directory.
pub const TYPE_DIR: u8 = 4;

/// Wire value of a regular file.
pub const TYPE_FILE: u8 = 8;

impl ErrorKind {
    /// The numeric code under which this kind travels.
    pub open spec fn wire_code(self) -> i32 {
        match self {
            ErrorKind::AddrInUse => 1,
            ErrorKind::AlreadyExists => 3,
            ErrorKind::BadState => 7,
            ErrorKind::ConnectionRefused => 9,
            ErrorKind::ConnectionReset => 10,
            ErrorKind::InvalidData => 17,
            ErrorKind::InvalidInput => 19,
            ErrorKind::Io => 20,
            ErrorKind::NotConnected => 29,
            ErrorKind::NotFound => 30,
            ErrorKind::PermissionDenied => 34,
            ErrorKind::UnexpectedEof => 40,
            ErrorKind::Unsupported => 41,
            ErrorKind::WouldBlock => 42,
            ErrorKind::WriteZero => 43,
        }
    }

    /// The kind that travels under `code`, if there is one.
    pub open spec fn of_wire_code(code: i32) -> Option<ErrorKind> {
        if code == 1 {
            Some(ErrorKind::AddrInUse)
        } else if code == 3 {
            Some(ErrorKind::AlreadyExists)
        } else if code == 7 {
            Some(ErrorKind::BadState)
        } else if code == 9 {
            Some(ErrorKind::ConnectionRefused)
        } else if code == 10 {
            Some(ErrorKind::ConnectionReset)
        } else if code == 17 {
            Some(ErrorKind::InvalidData)
        } else if code == 19 {
            Some(ErrorKind::InvalidInput)
        } else if code == 20 {
            Some(ErrorKind::Io)
        } else if code == 29 {
            Some(ErrorKind::NotConnected)
        } else if code == 30 {
            Some(ErrorKind::NotFound)
        } else if code == 34 {
            Some(ErrorKind::PermissionDenied)
        } else if code == 40 {
            Some(ErrorKind::UnexpectedEof)
        } else if code == 41 {
            Some(ErrorKind::Unsupported)
        } else if code == 42 {
            Some(ErrorKind::WouldBlock)
        } else if code == 43 {
            Some(ErrorKind::WriteZero)
        } else {
            None
        }
    }

    /// The numeric code under which this kind travels.
    pub fn code(self) -> (code: i32)
        ensures
            code == self.wire_code(),
            0 < code <= 43,
    {
        ax_code(self)
    }

    /// The kind that a received code stands for; `None` for a code that no
    /// kind of this protocol uses.
    pub fn from_code(code: i32) -> (kind: Option<ErrorKind>)
        ensures
            kind == ErrorKind::of_wire_code(code),
            kind matches Some(k) ==> k.wire_code() == code,
    {
        if code == 1 {
            Some(ErrorKind::AddrInUse)
        } else if code == 3 {
            Some(ErrorKind::AlreadyExists)
        } else if code == 7 {
            Some(ErrorKind::BadState)
        } else if code == 9 {
            Some(ErrorKind::ConnectionRefused)
        } else if code == 10 {
            Some(ErrorKind::ConnectionReset)
        } else if code == 17 {
            Some(ErrorKind::InvalidData)
        } else if code == 19 {
            Some(ErrorKind::InvalidInput)
        } else if code == 20 {
            Some(ErrorKind::Io)
        } else if code == 29 {
            Some(ErrorKind::NotConnected)
        } else if code == 30 {
            Some(ErrorKind::NotFound)
        } else if code == 34 {
            Some(ErrorKind::PermissionDenied)
        } else if code == 40 {
            Some(ErrorKind::UnexpectedEof)
        } else if code == 41 {
            Some(ErrorKind::Unsupported)
        } else if code == 42 {
            Some(ErrorKind::WouldBlock)
        } else if code == 43 {
            Some(ErrorKind::WriteZero)
        } else {
            None
        }
    }
}

/// Calls `axerrno::AxError::code` on the constant of `AxError` that bears the
/// name of `kind`. The contract states the value that the discriminants of
/// `axerrno::AxErrorKind` give to that name.
#[verifier::external_body]
fn ax_code(kind: ErrorKind) -> (code: i32)
    ensures
        code == kind.wire_code(),
{
    let e = match kind {
        ErrorKind::NotFound => AxError::NotFound, ErrorKind::Io => AxError::Io,
        ErrorKind::PermissionDenied => AxError::PermissionDenied,
        ErrorKind::ConnectionRefused => AxError::ConnectionRefused,
        ErrorKind::ConnectionReset => AxError::ConnectionReset,
        ErrorKind::NotConnected => AxError::NotConnected,
        ErrorKind::AddrInUse => AxError::AddrInUse, ErrorKind::BadState => AxError::BadState,
        ErrorKind::AlreadyExists => AxError::AlreadyExists,
        ErrorKind::WouldBlock => AxError::WouldBlock,
        ErrorKind::InvalidInput => AxError::InvalidInput,
        ErrorKind::InvalidData => AxError::InvalidData, ErrorKind::WriteZero => AxError::WriteZero,
        ErrorKind::Unsupported => AxError::Unsupported,
        ErrorKind::UnexpectedEof => AxError::UnexpectedEof,
    };
    e.code()
}

/// The wire kind of a failed host file operation. A failure without a kind of
/// its own is reported as `Unsupported`.
pub open spec fn io_kind_to_wire(kind: IoErrorKind) -> ErrorKind {
    match kind {
        IoErrorKind::NotFound => ErrorKind::NotFound,
        IoErrorKind::PermissionDenied => ErrorKind::PermissionDenied,
        IoErrorKind::ConnectionRefused => ErrorKind::ConnectionRefused,
        IoErrorKind::ConnectionReset => ErrorKind::ConnectionReset,
        IoErrorKind::NotConnected => ErrorKind::NotConnected,
        IoErrorKind::AddrInUse => ErrorKind::AddrInUse,
        IoErrorKind::AlreadyExists => ErrorKind::AlreadyExists,
        IoErrorKind::WouldBlock => ErrorKind::WouldBlock,
        IoErrorKind::InvalidInput => ErrorKind::InvalidInput,
        IoErrorKind::InvalidData => ErrorKind::InvalidData,
        IoErrorKind::WriteZero => ErrorKind::WriteZero,
        IoErrorKind::Unsupported => ErrorKind::Unsupported,
        IoErrorKind::UnexpectedEof => ErrorKind::UnexpectedEof,
        IoErrorKind::Other => ErrorKind::Unsupported,
    }
}

/// Folds the failure of a host file operation into its wire kind.
pub fn io_err_to_axerr(kind: IoErrorKind) -> (wire: ErrorKind)
    ensures
        wire == io_kind_to_wire(kind),
{
    match kind {
        IoErrorKind::NotFound => ErrorKind::NotFound,
        IoErrorKind::PermissionDenied => ErrorKind::PermissionDenied,
        IoErrorKind::ConnectionRefused => ErrorKind::ConnectionRefused,
        IoErrorKind::ConnectionReset => ErrorKind::ConnectionReset,
        IoErrorKind::NotConnected => ErrorKind::NotConnected,
        IoErrorKind::AddrInUse => ErrorKind::AddrInUse,
        IoErrorKind::AlreadyExists => ErrorKind::AlreadyExists,
        IoErrorKind::WouldBlock => ErrorKind::WouldBlock,
        IoErrorKind::InvalidInput => ErrorKind::InvalidInput,
        IoErrorKind::InvalidData => ErrorKind::InvalidData,
        IoErrorKind::WriteZero => ErrorKind::WriteZero,
        IoErrorKind::Unsupported => ErrorKind::Unsupported,
        IoErrorKind::UnexpectedEof => ErrorKind::UnexpectedEof,
        IoErrorKind::Other => ErrorKind::Unsupported,
    }
}

/// The stable wire value of a file kind.
pub open spec fn file_kind_code(kind: FileKind) -> u8 {
    match kind {
        FileKind::Fifo => 1,
        FileKind::CharDevice => 2,
        FileKind::Dir => 4,
        FileKind::BlockDevice => 6,
        FileKind::File => 8,
        FileKind::Symlink => 10,
        FileKind::Socket => 12,
        FileKind::Unknown => 0,
    }
}

/// Maps the kind of a host file to its stable wire value.
pub fn unix_ty_to_axty(kind: FileKind) -> (ty: u8)
    ensures
        ty == file_kind_code(kind),
{
    match kind {
        FileKind::Fifo => 1,
        FileKind::CharDevice => 2,
        FileKind::Dir => 4,
        FileKind::BlockDevice => 6,
        FileKind::File => 8,
        FileKind::Symlink => 10,
        FileKind::Socket => 12,
        FileKind::Unknown => 0,
    }
}

/// A code and the kind it travels for determine each other.
pub proof fn lemma_code_roundtrip(kind: ErrorKind)
    ensures
        ErrorKind::of_wire_code(kind.wire_code()) == Some(kind),
{
}

} // verus!
