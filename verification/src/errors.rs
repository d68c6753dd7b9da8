//! The ways in which a render can fail.

use vstd::prelude::*;
use crate::value::ValueKind;

verus! {

/// The first failure met while a template is rendered; it ends the render.
#[derive(Debug, PartialEq, Eq)]
pub enum Error {
    /// A root name is bound in no visible frame and not in the context.
    Undefined(String),
    /// An accessor was applied to a value of a kind that has no parts, or a
    /// sequence was asked for something other than a position.
    NotIndexable(ValueKind),
    /// A sequence has no item at the position asked for.
    IndexOutOfRange,
    /// A mapping has no entry under the key asked for.
    KeyNotFound,
    /// The source of a loop is neither a sequence nor a mapping, or a sequence
    /// was to be walked by key and value.
    NotIterable(ValueKind),
    /// A macro call leaves out a parameter that has no default.
    MissingArgument(String),
    /// No filter, function or macro of this name is known.
    UnknownCallable(String),
    /// A filter or function reported a failure of its own.
    CallableFailed { name: String, cause: String },
    /// Macro calls are nested deeper than the renderer allows.
    RecursionExhausted,
    /// What the output was written to reported a failure.
    Io,
}

/// What an `Error` denotes.
pub enum ErrorModel {
    Undefined(Seq<char>),
    NotIndexable(ValueKind),
    IndexOutOfRange,
    KeyNotFound,
    NotIterable(ValueKind),
    MissingArgument(Seq<char>),
    UnknownCallable(Seq<char>),
    CallableFailed { name: Seq<char>, cause: Seq<char> },
    RecursionExhausted,
    Io,
}

impl View for Error {
    type V = ErrorModel;

    open spec fn view(&self) -> ErrorModel {
        match self {
            Error::Undefined(name) => ErrorModel::Undefined(name@),
            Error::NotIndexable(kind) => ErrorModel::NotIndexable(*kind),
            Error::IndexOutOfRange => ErrorModel::IndexOutOfRange,
            Error::KeyNotFound => ErrorModel::KeyNotFound,
            Error::NotIterable(kind) => ErrorModel::NotIterable(*kind),
            Error::MissingArgument(name) => ErrorModel::MissingArgument(name@),
            Error::UnknownCallable(name) => ErrorModel::UnknownCallable(name@),
            Error::CallableFailed { name, cause } => ErrorModel::CallableFailed {
                name: name@,
                cause: cause@,
            },
            Error::RecursionExhausted => ErrorModel::RecursionExhausted,
            Error::Io => ErrorModel::Io,
        }
    }
}

/// The error type of std's readers and writers. Nothing is known of a value of
/// it but that it is one.
#[verifier::external_type_specification]
#[verifier::external_body]
pub struct ExIoError(std::io::Error);

impl From<std::io::Error> for Error {
    /// Every failure of a reader or writer becomes `Error::Io`.
    fn from(error: std::io::Error) -> (r: Error) {
        Error::Io
    }
}

impl vstd::std_specs::convert::FromSpecImpl<std::io::Error> for Error {
    open spec fn obeys_from_spec() -> bool {
        true
    }

    open spec fn from_spec(error: std::io::Error) -> Error {
        Error::Io
    }
}

} // verus!
