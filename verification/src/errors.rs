//! The errors of the crate. Every fallible operation returns one of these;
//! none of them panics.

use vstd::prelude::*;

verus! {

/// Why an operation failed.
#[derive(Debug)]
pub enum Error {
    /// A text did not match the grammar it was parsed with. `input` is the
    /// text as it was handed to the grammar, `message` says what went wrong.
    Parse { input: String, message: String },
    /// A key could not be taken apart into path segments.
    Key { key: String, message: String },
    /// An unsigned number does not fit the signed 64-bit range of
    /// `Value::Integer`.
    OutOfRange(u64),
    /// A map key did not serialize to a string.
    NonStringKey,
    /// A map value was supplied while no key was pending.
    MissingKey,
    /// A failure reported by the data that was being serialized.
    Custom(String),
}

/// The mathematical model of an [`Error`].
pub enum ErrorView {
    Parse { input: Seq<char>, message: Seq<char> },
    Key { key: Seq<char>, message: Seq<char> },
    OutOfRange(u64),
    NonStringKey,
    MissingKey,
    Custom(Seq<char>),
}

impl View for Error {
    type V = ErrorView;

    open spec fn view(&self) -> ErrorView {
        match self {
            Error::Parse { input, message } => ErrorView::Parse {
                input: input@,
                message: message@,
            },
            Error::Key { key, message } => ErrorView::Key { key: key@, message: message@ },
            Error::OutOfRange(n) => ErrorView::OutOfRange(*n),
            Error::NonStringKey => ErrorView::NonStringKey,
            Error::MissingKey => ErrorView::MissingKey,
            Error::Custom(message) => ErrorView::Custom(message@),
        }
    }
}

impl ErrorView {
    /// The human-readable cause of the error.
    pub open spec fn message(self) -> Seq<char> {
        match self {
            ErrorView::Parse { input, message } => message,
            ErrorView::Key { key, message } => message,
            ErrorView::OutOfRange(_) => "u64 value convert failed"@,
            ErrorView::NonStringKey => "Only string keys are supported"@,
            ErrorView::MissingKey => "No current key"@,
            ErrorView::Custom(message) => message,
        }
    }
}

impl Error {
    /// A parse error for the text `input`.
    pub fn new_parse_error(input: String, message: String) -> (e: Error)
        ensures
            e@ == (ErrorView::Parse { input: input@, message: message@ }),
    {
        Error::Parse { input, message }
    }

    /// The human-readable cause of the error.
    pub fn message(&self) -> (text: String)
        ensures
            text@ == self@.message(),
    {
        match self {
            Error::Parse { input, message } => message.clone(),
            Error::Key { key, message } => message.clone(),
            Error::OutOfRange(_) => "u64 value convert failed".to_owned(),
            Error::NonStringKey => "Only string keys are supported".to_owned(),
            Error::MissingKey => "No current key".to_owned(),
            Error::Custom(message) => message.clone(),
        }
    }
}

impl Clone for Error {
    fn clone(&self) -> (e: Error)
        ensures
            e@ == self@,
    {
        match self {
            Error::Parse { input, message } => Error::Parse {
                input: input.clone(),
                message: message.clone(),
            },
            Error::Key { key, message } => Error::Key { key: key.clone(), message: message.clone() },
            Error::OutOfRange(n) => Error::OutOfRange(*n),
            Error::NonStringKey => Error::NonStringKey,
            Error::MissingKey => Error::MissingKey,
            Error::Custom(message) => Error::Custom(message.clone()),
        }
    }
}

} // verus!
