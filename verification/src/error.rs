//! The errors that operations and drivers report.
use vstd::prelude::*;

verus! {

/// The category of an [`IoError`], as far as the drivers and the runtime look at it.
#[derive(Clone, Copy, Debug, PartialEq, Eq, Structural)]
pub enum ErrorKind {
    /// The call was interrupted by a signal.
    Interrupted,
    /// An argument was not valid.
    InvalidInput,
    /// The call did not finish in time.
    TimedOut,
    /// The platform lacks the requested call.
    Unsupported,
    /// Anything else.
    Other,
}

/// Why an operation or a call failed.
#[derive(Clone, Copy, Debug, PartialEq, Eq, Structural)]
pub enum IoError {
    /// The operating system reported this error code.
    Os(i32),
    /// A close was asked for on a value that holds no file descriptor any more.
    AlreadyClosed,
    /// The system library does not offer this entry point.
    MissingExtension(Extension),
    /// The operation was cancelled before it could complete.
    Cancelled,
}

/// Entry points that have to be looked up at run time.
#[derive(Clone, Copy, Debug, PartialEq, Eq, Structural)]
pub enum Extension {
    /// `ConnectEx`
    ConnectEx,
    /// `AcceptEx`
    AcceptEx,
    /// `GetAcceptExSockAddrs`
    GetAcceptExSockAddrs,
}

/// The result of an operation: how much was transferred, or why it failed.
pub type IoResult<T> = Result<T, IoError>;

/// A failed system call: the error it left behind and the category the platform files that error under.
#[derive(Clone, Copy, Debug, PartialEq, Eq, Structural)]
pub struct CallError {
    /// The error code.
    pub code: i32,
    /// What the platform takes the code for.
    pub kind: ErrorKind,
}

impl IoError {
    /// The code of the operating system, where the error came from there.
    pub fn raw_os_error(&self) -> (code: Option<i32>)
        ensures
            code == (match *self {
                IoError::Os(c) => Some(c),
                _ => None,
            }),
    {
        match *self {
            IoError::Os(c) => Some(c),
            _ => None,
        }
    }

    /// What the error says to a reader, where it did not come from the operating system.
    pub fn message(&self) -> (text: Option<&'static str>)
        ensures
            match *self {
                IoError::Os(_) => text is None,
                IoError::AlreadyClosed => text is Some && text->0@
                    == "Value is None. File descriptor is already closed?"@,
                IoError::MissingExtension(Extension::ConnectEx) => text is Some && text->0@
                    == "cannot retrieve ConnectEx"@,
                IoError::MissingExtension(Extension::AcceptEx) => text is Some && text->0@
                    == "cannot retrieve AcceptEx"@,
                IoError::MissingExtension(Extension::GetAcceptExSockAddrs) => text is Some && text->0@
                    == "cannot retrieve GetAcceptExSockAddrs"@,
                IoError::Cancelled => text is Some && text->0@ == "operation was cancelled"@,
            },
    {
        match *self {
            IoError::Os(_) => None,
            IoError::AlreadyClosed => Some("Value is None. File descriptor is already closed?"),
            IoError::MissingExtension(Extension::ConnectEx) => Some("cannot retrieve ConnectEx"),
            IoError::MissingExtension(Extension::AcceptEx) => Some("cannot retrieve AcceptEx"),
            IoError::MissingExtension(Extension::GetAcceptExSockAddrs) => Some(
                "cannot retrieve GetAcceptExSockAddrs",
            ),
            IoError::Cancelled => Some("operation was cancelled"),
        }
    }

    /// The category of an error that did not come from the operating system.
    pub fn kind(&self) -> (kind: Option<ErrorKind>)
        ensures
            kind == (match *self {
                IoError::Os(_) => None,
                IoError::AlreadyClosed => Some(ErrorKind::InvalidInput),
                IoError::MissingExtension(_) => Some(ErrorKind::Unsupported),
                IoError::Cancelled => Some(ErrorKind::Other),
            }),
    {
        match *self {
            IoError::Os(_) => None,
            IoError::AlreadyClosed => Some(ErrorKind::InvalidInput),
            IoError::MissingExtension(_) => Some(ErrorKind::Unsupported),
            IoError::Cancelled => Some(ErrorKind::Other),
        }
    }
}

/// An error either came from the operating system, and has its code, or it has a text and a category of its own. An
/// operation on what is closed is an invalid input, and a missing entry point is not supported.
pub proof fn law_errors_say_where_they_came_from(
    error: IoError,
    code: Option<i32>,
    text: Option<&'static str>,
    kind: Option<ErrorKind>,
)
    requires
        call_ensures(IoError::raw_os_error, (&error,), code),
        call_ensures(IoError::message, (&error,), text),
        call_ensures(IoError::kind, (&error,), kind),
    ensures
        code is Some <==> error is Os,
        code is Some ==> error == IoError::Os(code->0),
        text is Some <==> code is None,
        kind is Some <==> code is None,
        kind is Some ==> {
            &&& kind->0 is InvalidInput <==> error is AlreadyClosed
            &&& kind->0 is Unsupported <==> error is MissingExtension
            &&& kind->0 is Other <==> error is Cancelled
        },
        error is AlreadyClosed ==> text->0@ == "Value is None. File descriptor is already closed?"@,
        error is Cancelled ==> text->0@ == "operation was cancelled"@,
        error matches IoError::MissingExtension(extension) ==> {
            &&& extension is ConnectEx ==> text->0@ == "cannot retrieve ConnectEx"@
            &&& extension is AcceptEx ==> text->0@ == "cannot retrieve AcceptEx"@
            &&& extension is GetAcceptExSockAddrs ==> text->0@ == "cannot retrieve GetAcceptExSockAddrs"@
        },
{
}

} // verus!
