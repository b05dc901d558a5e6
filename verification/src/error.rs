//! How a call fails.
use vstd::prelude::*;

verus! {

/// Why a call was refused or failed.
#[derive(Debug, PartialEq, Eq)]
pub enum Error {
    /// A required argument, named here, was not given.
    MissingArgument(String),
    /// An argument was given and cannot be used.
    InvalidArgument { name: String, detail: String },
    /// The endpoint could not do its work.
    Endpoint(String),
    /// The caller, or the key, has no right to what was asked for.
    Denied(String),
}

/// What an [`Error`] says.
pub enum ErrorView {
    MissingArgument(Seq<char>),
    InvalidArgument { name: Seq<char>, detail: Seq<char> },
    Endpoint(Seq<char>),
    Denied(Seq<char>),
}

impl View for Error {
    type V = ErrorView;

    open spec fn view(&self) -> ErrorView {
        match *self {
            Error::MissingArgument(name) => ErrorView::MissingArgument(name@),
            Error::InvalidArgument { name, detail } => ErrorView::InvalidArgument {
                name: name@,
                detail: detail@,
            },
            Error::Endpoint(message) => ErrorView::Endpoint(message@),
            Error::Denied(message) => ErrorView::Denied(message@),
        }
    }
}

/// The message is `prefix` and then the text that `error` displays.
pub open spec fn shown<E: core::fmt::Display>(
    prefix: Seq<char>,
    error: &E,
    message: Seq<char>,
) -> bool {
    exists|text: String|
        #[trigger] vstd::string::to_string_from_display_ensures::<E>(error, text) && message
            == prefix + text@
}

/// The message is `prefix` and then one of `texts`.
pub open spec fn worded(prefix: Seq<char>, texts: Set<Seq<char>>, message: Seq<char>) -> bool {
    exists|text: Seq<char>| #[trigger] texts.contains(text) && message == prefix + text
}

/// Shows an error behind `prefix`.
pub(crate) fn show<E: core::fmt::Display>(prefix: &str, error: E) -> (message: String)
    ensures
        shown(prefix@, &error, message@),
{
    let text = error.to_string();
    prefix.to_string().concat(text.as_str())
}

} // verus!
