//! The errors that the library returns.

use crate::dialog_id::{DialogId, DialogIdView};
use vstd::prelude::*;

verus! {

/// Why an operation of the library failed.
#[derive(Clone, Debug, PartialEq, Eq)]
pub enum Error {
    /// A protocol rule was broken on the dialog with the given identifier.
    DialogError(String, DialogId),
    /// The transaction ended before it produced a result.
    TransactionTerminated,
    /// The connection failed.
    TransportError(String),
    /// A message or one of its headers could not be read.
    ParseError(String),
    /// An authentication challenge could not be answered.
    AuthError(String),
}

/// What an [`Error`] is in contracts.
pub enum ErrorView {
    DialogError(Seq<char>, DialogIdView),
    TransactionTerminated,
    TransportError(Seq<char>),
    ParseError(Seq<char>),
    AuthError(Seq<char>),
}

impl View for Error {
    type V = ErrorView;

    open spec fn view(&self) -> ErrorView {
        match self {
            Error::DialogError(m, id) => ErrorView::DialogError(m@, id@),
            Error::TransactionTerminated => ErrorView::TransactionTerminated,
            Error::TransportError(m) => ErrorView::TransportError(m@),
            Error::ParseError(m) => ErrorView::ParseError(m@),
            Error::AuthError(m) => ErrorView::AuthError(m@),
        }
    }
}

impl Error {
    /// A dialog error with the given message.
    pub fn dialog(message: &str, id: DialogId) -> (e: Error)
        ensures
            e@ == ErrorView::DialogError(message@, id@),
    {
        Error::DialogError(message.to_owned(), id)
    }

    /// A parse error with the given message.
    pub fn parse(message: &str) -> (e: Error)
        ensures
            e@ == ErrorView::ParseError(message@),
    {
        Error::ParseError(message.to_owned())
    }

    /// The error as one line of text: the kind, then the message.
    pub fn message(&self) -> (s: String)
        ensures
            s@ == error_text(self@),
    {
        match self {
            Error::DialogError(m, _) => String::from_str("dialog error: ").concat(m.as_str()),
            Error::TransactionTerminated => String::from_str("transaction terminated"),
            Error::TransportError(m) => String::from_str("transport error: ").concat(m.as_str()),
            Error::ParseError(m) => String::from_str("parse error: ").concat(m.as_str()),
            Error::AuthError(m) => String::from_str("auth error: ").concat(m.as_str()),
        }
    }
}

/// The text of an error: its kind, then its message.
pub open spec fn error_text(e: ErrorView) -> Seq<char> {
    match e {
        ErrorView::DialogError(m, _) => "dialog error: "@ + m,
        ErrorView::TransactionTerminated => "transaction terminated"@,
        ErrorView::TransportError(m) => "transport error: "@ + m,
        ErrorView::ParseError(m) => "parse error: "@ + m,
        ErrorView::AuthError(m) => "auth error: "@ + m,
    }
}

} // verus!
