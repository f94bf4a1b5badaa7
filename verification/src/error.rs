//! The errors that the library reports.

use crate::ser::ReadError;
use vstd::prelude::*;
use vstd::string::StringExecFns;

verus! {

/// Kinds of errors that can occur.
#[derive(Debug, PartialEq, Eq)]
pub enum ErrorKind {
    /// DataError Error
    DataError(String),
    /// LibRustlet Error
    LibRustletError(String),
    /// IO Error
    IOError(String),
    /// Not found Error
    NotFoundErr(String),
    /// File Error
    FileErr(String),
    /// LMDB Error
    LMDBError(String),
    /// UTF8 Error
    Utf8Error(String),
    /// CorruptedData Error
    CorruptedData(String),
    /// Too large read error
    TooLargeReadErr(String),
    /// Count Error
    CountError(String),
    /// Unexpected Data
    UnexpectedData(String),
    /// Unexpected Eof
    UnexpectedEof(String),
    /// Sort Error
    SortError(String),
    /// Duplicate Error
    DuplicateError(String),
    /// HexError
    HexError(String),
    /// DecodeError
    DecodeError(String),
    /// From Utf8 Error
    FromUtf8Error(String),
    /// ParseIntError
    ParseIntError(String),
    /// TryFromSliceError
    TryFromSliceError(String),
    /// SystemTimeError
    SystemTimeError(String),
    /// Not Authorized
    NotAuthorized(String),
    /// Infallible
    InfallibleError(String),
    /// Base58DecodeError
    Base58DecodeError(String),
    /// Lock error
    LockError(String),
    /// ListenerNotFound
    ListenerNotFound(String),
    /// TorError
    TorError(String),
    /// SerdeJsonError
    SerdeJsonError(String),
    /// A key that ed25519 does not accept.
    DalekError(String),
    /// A value read from the wire that names nothing.
    SerializationError(String),
    /// An error raised by a request handler.
    ApplicationError(String),
}

impl ErrorKind {
    /// A copy of this kind.
    pub fn duplicate(&self) -> (k: ErrorKind)
        ensures
            k == *self,
    {
        match self {
            ErrorKind::DataError(m) => ErrorKind::DataError(m.clone()),
            ErrorKind::LibRustletError(m) => ErrorKind::LibRustletError(m.clone()),
            ErrorKind::IOError(m) => ErrorKind::IOError(m.clone()),
            ErrorKind::NotFoundErr(m) => ErrorKind::NotFoundErr(m.clone()),
            ErrorKind::FileErr(m) => ErrorKind::FileErr(m.clone()),
            ErrorKind::LMDBError(m) => ErrorKind::LMDBError(m.clone()),
            ErrorKind::Utf8Error(m) => ErrorKind::Utf8Error(m.clone()),
            ErrorKind::CorruptedData(m) => ErrorKind::CorruptedData(m.clone()),
            ErrorKind::TooLargeReadErr(m) => ErrorKind::TooLargeReadErr(m.clone()),
            ErrorKind::CountError(m) => ErrorKind::CountError(m.clone()),
            ErrorKind::UnexpectedData(m) => ErrorKind::UnexpectedData(m.clone()),
            ErrorKind::UnexpectedEof(m) => ErrorKind::UnexpectedEof(m.clone()),
            ErrorKind::SortError(m) => ErrorKind::SortError(m.clone()),
            ErrorKind::DuplicateError(m) => ErrorKind::DuplicateError(m.clone()),
            ErrorKind::HexError(m) => ErrorKind::HexError(m.clone()),
            ErrorKind::DecodeError(m) => ErrorKind::DecodeError(m.clone()),
            ErrorKind::FromUtf8Error(m) => ErrorKind::FromUtf8Error(m.clone()),
            ErrorKind::ParseIntError(m) => ErrorKind::ParseIntError(m.clone()),
            ErrorKind::TryFromSliceError(m) => ErrorKind::TryFromSliceError(m.clone()),
            ErrorKind::SystemTimeError(m) => ErrorKind::SystemTimeError(m.clone()),
            ErrorKind::NotAuthorized(m) => ErrorKind::NotAuthorized(m.clone()),
            ErrorKind::InfallibleError(m) => ErrorKind::InfallibleError(m.clone()),
            ErrorKind::Base58DecodeError(m) => ErrorKind::Base58DecodeError(m.clone()),
            ErrorKind::LockError(m) => ErrorKind::LockError(m.clone()),
            ErrorKind::ListenerNotFound(m) => ErrorKind::ListenerNotFound(m.clone()),
            ErrorKind::TorError(m) => ErrorKind::TorError(m.clone()),
            ErrorKind::SerdeJsonError(m) => ErrorKind::SerdeJsonError(m.clone()),
            ErrorKind::DalekError(m) => ErrorKind::DalekError(m.clone()),
            ErrorKind::SerializationError(m) => ErrorKind::SerializationError(m.clone()),
            ErrorKind::ApplicationError(m) => ErrorKind::ApplicationError(m.clone()),
        }
    }
}

/// The text an error of kind `k` is shown as: what went wrong, then its
/// message.
pub open spec fn kind_text(k: ErrorKind) -> Seq<char> {
    match k {
        ErrorKind::DataError(m) => "DataError Error: "@ + m@,
        ErrorKind::LibRustletError(m) => "LibRustletError Error: "@ + m@,
        ErrorKind::IOError(m) => "IO Error: "@ + m@,
        ErrorKind::NotFoundErr(m) => "Not found: "@ + m@,
        ErrorKind::FileErr(m) => "File err: "@ + m@,
        ErrorKind::LMDBError(m) => "LMDB err: "@ + m@,
        ErrorKind::Utf8Error(m) => "UTF8 err: "@ + m@,
        ErrorKind::CorruptedData(m) => "Corrupted Data Error: "@ + m@,
        ErrorKind::TooLargeReadErr(m) => "Too large read Error: "@ + m@,
        ErrorKind::CountError(m) => "Count Error: "@ + m@,
        ErrorKind::UnexpectedData(m) => "Unexpected Data Error: "@ + m@,
        ErrorKind::UnexpectedEof(m) => "Unexpected Eof Error: "@ + m@,
        ErrorKind::SortError(m) => "Sort Error: "@ + m@,
        ErrorKind::DuplicateError(m) => "Duplicate Error: "@ + m@,
        ErrorKind::HexError(m) => "Hex Error: "@ + m@,
        ErrorKind::DecodeError(m) => "Decode Error: "@ + m@,
        ErrorKind::FromUtf8Error(m) => "FromUtf8Error: "@ + m@,
        ErrorKind::ParseIntError(m) => "ParseIntError: "@ + m@,
        ErrorKind::TryFromSliceError(m) => "TryFromSliceError: "@ + m@,
        ErrorKind::SystemTimeError(m) => "SystemTimeError: "@ + m@,
        ErrorKind::NotAuthorized(m) => "Not Auth Error: "@ + m@,
        ErrorKind::InfallibleError(m) => "Infallible Error: "@ + m@,
        ErrorKind::Base58DecodeError(m) => "Base58DecodeError: "@ + m@,
        ErrorKind::LockError(m) => "LockError: "@ + m@,
        ErrorKind::ListenerNotFound(m) => "ListenerNotFound: "@ + m@,
        ErrorKind::TorError(m) => "TorError: "@ + m@,
        ErrorKind::SerdeJsonError(m) => "SerdeJsonError: "@ + m@,
        ErrorKind::DalekError(m) => "Dalek Error: "@ + m@,
        ErrorKind::SerializationError(m) => "Serialization Error: "@ + m@,
        ErrorKind::ApplicationError(m) => "Application Error: "@ + m@,
    }
}

impl ErrorKind {
    /// The text this error is shown as; see [`kind_text`].
    pub fn to_string(&self) -> (s: String)
        ensures
            s@ == kind_text(*self),
    {
        let (prefix, m) = match self {
            ErrorKind::DataError(m) => ("DataError Error: ", m),
            ErrorKind::LibRustletError(m) => ("LibRustletError Error: ", m),
            ErrorKind::IOError(m) => ("IO Error: ", m),
            ErrorKind::NotFoundErr(m) => ("Not found: ", m),
            ErrorKind::FileErr(m) => ("File err: ", m),
            ErrorKind::LMDBError(m) => ("LMDB err: ", m),
            ErrorKind::Utf8Error(m) => ("UTF8 err: ", m),
            ErrorKind::CorruptedData(m) => ("Corrupted Data Error: ", m),
            ErrorKind::TooLargeReadErr(m) => ("Too large read Error: ", m),
            ErrorKind::CountError(m) => ("Count Error: ", m),
            ErrorKind::UnexpectedData(m) => ("Unexpected Data Error: ", m),
            ErrorKind::UnexpectedEof(m) => ("Unexpected Eof Error: ", m),
            ErrorKind::SortError(m) => ("Sort Error: ", m),
            ErrorKind::DuplicateError(m) => ("Duplicate Error: ", m),
            ErrorKind::HexError(m) => ("Hex Error: ", m),
            ErrorKind::DecodeError(m) => ("Decode Error: ", m),
            ErrorKind::FromUtf8Error(m) => ("FromUtf8Error: ", m),
            ErrorKind::ParseIntError(m) => ("ParseIntError: ", m),
            ErrorKind::TryFromSliceError(m) => ("TryFromSliceError: ", m),
            ErrorKind::SystemTimeError(m) => ("SystemTimeError: ", m),
            ErrorKind::NotAuthorized(m) => ("Not Auth Error: ", m),
            ErrorKind::InfallibleError(m) => ("Infallible Error: ", m),
            ErrorKind::Base58DecodeError(m) => ("Base58DecodeError: ", m),
            ErrorKind::LockError(m) => ("LockError: ", m),
            ErrorKind::ListenerNotFound(m) => ("ListenerNotFound: ", m),
            ErrorKind::TorError(m) => ("TorError: ", m),
            ErrorKind::SerdeJsonError(m) => ("SerdeJsonError: ", m),
            ErrorKind::DalekError(m) => ("Dalek Error: ", m),
            ErrorKind::SerializationError(m) => ("Serialization Error: ", m),
            ErrorKind::ApplicationError(m) => ("Application Error: ", m),
        };
        let mut s = prefix.to_owned();
        s.append(m.as_str());
        s
    }
}

/// Base error which is used throughout this crate.
#[derive(Debug)]
pub struct Error {
    pub inner: ErrorKind,
}

impl Error {
    /// The kind of this error.
    pub open spec fn spec_kind(&self) -> ErrorKind {
        self.inner
    }

    /// The kind of this error.
    pub fn kind(&self) -> (k: ErrorKind)
        ensures
            k == self.spec_kind(),
    {
        self.inner.duplicate()
    }

    /// An error of the given kind.
    pub fn new(kind: ErrorKind) -> (e: Error)
        ensures
            e.spec_kind() == kind,
    {
        Error { inner: kind }
    }
}

impl From<ErrorKind> for Error {
    fn from(kind: ErrorKind) -> (e: Error) {
        Error { inner: kind }
    }
}

impl vstd::std_specs::convert::FromSpecImpl<ErrorKind> for Error {
    open spec fn obeys_from_spec() -> bool {
        true
    }

    open spec fn from_spec(kind: ErrorKind) -> Error {
        Error { inner: kind }
    }
}

/// The kind of error that a value that could not be read becomes.
pub open spec fn is_read_error(e: ReadError, k: ErrorKind) -> bool {
    match e {
        ReadError::UnexpectedEof => k is UnexpectedEof,
        ReadError::InvalidUtf8 => k is Utf8Error,
        ReadError::UnknownEventType => k is CorruptedData,
        ReadError::UnknownOnlineStatus => k is SerializationError,
    }
}

/// The message an error reported for a value that could not be read
/// carries.
pub open spec fn read_error_message(e: ReadError) -> Seq<char> {
    match e {
        ReadError::UnexpectedEof => "unexpected end of data"@,
        ReadError::InvalidUtf8 => "invalid utf-8 data"@,
        ReadError::UnknownEventType => "corrupted data in EventBody"@,
        ReadError::UnknownOnlineStatus => "invalid online_status, unknown online_status type"@,
    }
}

/// The message of an error of one of the kinds that reading reports.
pub open spec fn read_kind_message(k: ErrorKind) -> Seq<char> {
    match k {
        ErrorKind::UnexpectedEof(m) => m@,
        ErrorKind::Utf8Error(m) => m@,
        ErrorKind::CorruptedData(m) => m@,
        ErrorKind::SerializationError(m) => m@,
        _ => Seq::empty(),
    }
}

/// The error reported for a value that could not be read: its kind, and
/// its message.
pub fn read_error(e: ReadError) -> (r: Error)
    ensures
        is_read_error(e, r.inner),
        read_kind_message(r.inner) == read_error_message(e),
{
    let inner = match e {
        ReadError::UnexpectedEof => ErrorKind::UnexpectedEof("unexpected end of data".to_owned()),
        ReadError::InvalidUtf8 => ErrorKind::Utf8Error("invalid utf-8 data".to_owned()),
        ReadError::UnknownEventType => ErrorKind::CorruptedData("corrupted data in EventBody".to_owned()),
        ReadError::UnknownOnlineStatus => ErrorKind::SerializationError(
            "invalid online_status, unknown online_status type".to_owned(),
        ),
    };
    Error { inner }
}

} // verus!
