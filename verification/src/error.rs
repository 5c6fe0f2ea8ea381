//! Machine-readable codes of the errors this library reports.

use crate::source;
use vstd::prelude::*;

verus! {

/// Error trait implemented by the error types of this library.
pub trait Error {
    /// Machine-readable error code.
    fn code(&self) -> &'static str;

    /// The kind of the I/O error this is, if it is one; by default, an
    /// error is no I/O error.
    fn as_io_error(&self) -> (r: Option<IoErrorKind>)
        default_ensures
            r is None,
    {
        None
    }
}

impl Error for source::Error<crate::project::parser::Class> {
    /// `PP01` where the configuration text ended too early, `PP02` where an
    /// unexpected token was found.
    fn code(&self) -> (r: &'static str)
        ensures
            r@ == (if self.actual is None { "PP01"@ } else { "PP02"@ }),
    {
        match self.actual {
            None => "PP01",
            Some(_) => "PP02",
        }
    }
}

impl Error for source::Error<crate::spec::parser::Class> {
    /// `PS01` where the specification text ended too early, `PS02` where an
    /// unexpected token was found.
    fn code(&self) -> (r: &'static str)
        ensures
            r@ == (if self.actual is None { "PS01"@ } else { "PS02"@ }),
    {
        match self.actual {
            None => "PS01",
            Some(_) => "PS02",
        }
    }
}

/// A failure to format text.
#[derive(Copy, Clone, Debug, PartialEq, Eq, Structural)]
pub struct FormatError;

impl Error for FormatError {
    fn code(&self) -> (r: &'static str)
        ensures
            r@ == "FMT1"@,
    {
        "FMT1"
    }
}

/// The kinds of I/O errors that have codes of their own; the others are
/// `Other`.
#[derive(Copy, Clone, Debug, PartialEq, Eq, Structural)]
pub enum IoErrorKind {
    NotFound,
    PermissionDenied,
    ConnectionRefused,
    ConnectionReset,
    ConnectionAborted,
    NotConnected,
    AddrInUse,
    AddrNotAvailable,
    BrokenPipe,
    AlreadyExists,
    WouldBlock,
    InvalidInput,
    InvalidData,
    TimedOut,
    WriteZero,
    Interrupted,
    UnexpectedEof,
    Other,
}

/// The code of I/O error kind `k`.
pub open spec fn io_error_code(k: IoErrorKind) -> Seq<char> {
    match k {
        IoErrorKind::NotFound => "F001"@,
        IoErrorKind::PermissionDenied => "F002"@,
        IoErrorKind::ConnectionRefused => "F003"@,
        IoErrorKind::ConnectionReset => "F004"@,
        IoErrorKind::ConnectionAborted => "F005"@,
        IoErrorKind::NotConnected => "F006"@,
        IoErrorKind::AddrInUse => "F007"@,
        IoErrorKind::AddrNotAvailable => "F008"@,
        IoErrorKind::BrokenPipe => "F009"@,
        IoErrorKind::AlreadyExists => "F010"@,
        IoErrorKind::WouldBlock => "F011"@,
        IoErrorKind::InvalidInput => "F012"@,
        IoErrorKind::InvalidData => "F013"@,
        IoErrorKind::TimedOut => "F014"@,
        IoErrorKind::WriteZero => "F015"@,
        IoErrorKind::Interrupted => "F016"@,
        IoErrorKind::UnexpectedEof => "F017"@,
        IoErrorKind::Other => "F0XX"@,
    }
}

impl Error for IoErrorKind {
    fn code(&self) -> (r: &'static str)
        ensures
            r@ == io_error_code(*self),
    {
        match *self {
            IoErrorKind::NotFound => "F001",
            IoErrorKind::PermissionDenied => "F002",
            IoErrorKind::ConnectionRefused => "F003",
            IoErrorKind::ConnectionReset => "F004",
            IoErrorKind::ConnectionAborted => "F005",
            IoErrorKind::NotConnected => "F006",
            IoErrorKind::AddrInUse => "F007",
            IoErrorKind::AddrNotAvailable => "F008",
            IoErrorKind::BrokenPipe => "F009",
            IoErrorKind::AlreadyExists => "F010",
            IoErrorKind::WouldBlock => "F011",
            IoErrorKind::InvalidInput => "F012",
            IoErrorKind::InvalidData => "F013",
            IoErrorKind::TimedOut => "F014",
            IoErrorKind::WriteZero => "F015",
            IoErrorKind::Interrupted => "F016",
            IoErrorKind::UnexpectedEof => "F017",
            IoErrorKind::Other => "F0XX",
        }
    }

    fn as_io_error(&self) -> (r: Option<IoErrorKind>)
        ensures
            r == Some(*self),
    {
        Some(*self)
    }
}

} // verus!
