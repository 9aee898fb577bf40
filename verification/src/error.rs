//! What can go wrong, and how an input or output failure is told apart.

use vstd::prelude::*;

verus! {

/// The kinds of input and output failures that decisions depend on.
#[derive(Clone, Copy, Debug, PartialEq, Eq, Structural)]
pub enum ErrorKind {
    /// The operation was interrupted and can be tried again.
    Interrupted,
    /// The operation would have to wait.
    WouldBlock,
    /// Nothing was written although there was something to write.
    WriteZero,
    /// A deadline has passed.
    TimedOut,
    /// Any other failure.
    Other,
}

/// A failure of an input or output operation, with the error that reported it.
#[derive(Clone, Copy, Debug, PartialEq, Eq)]
pub struct Failure<E> {
    pub kind: ErrorKind,
    pub error: E,
}

/// Why reading events or writing a query failed.
#[derive(Clone, Copy, Debug, PartialEq, Eq)]
pub enum Error<E> {
    /// There is no event source to read from.
    ReaderUnavailable,
    /// The wait was ended by a waker.
    WokenUp,
    /// The descriptors could not be polled, for a reason other than a failed call.
    UnexpectedPoll(E),
    /// The terminal accepted no byte of the startup query.
    QueryWriteZero,
    /// The deadline passed before the startup query was written.
    QueryWriteTimeout,
    /// An input or output operation failed.
    Io(Failure<E>),
}

impl<E> Error<E> {
    /// The kind of failure that an error reports.
    pub open spec fn spec_kind(self) -> ErrorKind {
        match self {
            Error::ReaderUnavailable => ErrorKind::Other,
            Error::WokenUp => ErrorKind::Interrupted,
            Error::UnexpectedPoll(_) => ErrorKind::Other,
            Error::QueryWriteZero => ErrorKind::WriteZero,
            Error::QueryWriteTimeout => ErrorKind::TimedOut,
            Error::Io(failure) => failure.kind,
        }
    }

    /// The kind of failure that this error reports.
    pub fn kind(&self) -> (kind: ErrorKind)
        ensures
            kind == self.spec_kind(),
    {
        match self {
            Error::ReaderUnavailable => ErrorKind::Other,
            Error::WokenUp => ErrorKind::Interrupted,
            Error::UnexpectedPoll(_) => ErrorKind::Other,
            Error::QueryWriteZero => ErrorKind::WriteZero,
            Error::QueryWriteTimeout => ErrorKind::TimedOut,
            Error::Io(failure) => failure.kind,
        }
    }

    /// The text of this error; an error handed in from outside brings its own.
    pub fn message(&self) -> (message: Option<&'static str>)
        ensures
            match *self {
                Error::ReaderUnavailable => message == Some("Failed to initialize input reader"),
                Error::WokenUp => message == Some("Poll operation was woken up by `Waker::wake`"),
                Error::UnexpectedPoll(_) => message == Some("got unexpected error while polling"),
                Error::QueryWriteZero => message == Some(
                    "failed to write the terminal startup query",
                ),
                Error::QueryWriteTimeout => message == Some(
                    "timed out while writing the terminal startup query",
                ),
                Error::Io(_) => message is None,
            },
    {
        match self {
            Error::ReaderUnavailable => Some("Failed to initialize input reader"),
            Error::WokenUp => Some("Poll operation was woken up by `Waker::wake`"),
            Error::UnexpectedPoll(_) => Some("got unexpected error while polling"),
            Error::QueryWriteZero => Some("failed to write the terminal startup query"),
            Error::QueryWriteTimeout => Some("timed out while writing the terminal startup query"),
            Error::Io(_) => None,
        }
    }
}

/// An error from outside keeps its kind, whatever it is. A wake counts as an interruption, a
/// passed deadline as a timeout, and a write that took nothing as such; other errors of the
/// library are of no particular kind.
pub proof fn law_kinds_of_errors<E>(failure: Failure<E>, error: E)
    ensures
        Error::Io(failure).spec_kind() == failure.kind,
        Error::<E>::WokenUp.spec_kind() == ErrorKind::Interrupted,
        Error::<E>::QueryWriteTimeout.spec_kind() == ErrorKind::TimedOut,
        Error::<E>::QueryWriteZero.spec_kind() == ErrorKind::WriteZero,
        Error::<E>::ReaderUnavailable.spec_kind() == ErrorKind::Other,
        Error::UnexpectedPoll(error).spec_kind() == ErrorKind::Other,
{
}

} // verus!
