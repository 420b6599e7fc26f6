//! The error of the argument parser.

use vstd::prelude::*;
use vstd::string::{StrSliceExecFns, StringExecFns};
use crate::low::text::Text;

verus! {

/// An error as text: the option that it is about, and the message.
pub struct ErrorView {
    pub option: Seq<char>,
    pub message: Seq<char>,
}

/// The error type of the argument parser: a message, and the option that
/// the message is about, which is empty as long as none is known.
#[derive(Clone, Debug, PartialEq, Eq, PartialOrd, Ord, Hash)]
pub struct Error {
    option: String,
    message: String,
}

impl View for Error {
    type V = ErrorView;

    closed spec fn view(&self) -> ErrorView {
        ErrorView { option: self.option@, message: self.message@ }
    }
}

/// An error as it is shown: the message, and before it the option, where
/// one is known.
pub open spec fn error_text(error: ErrorView) -> Seq<char> {
    if error.option.len() > 0 {
        "option "@ + error.option + ": "@ + error.message
    } else {
        error.message
    }
}

impl Error {
    /// An error with the message that `e` is shown as, about no option yet.
    pub fn from_string<S: core::fmt::Display + ?Sized>(e: &S) -> (error: Self)
        ensures
            error@.option == Seq::<char>::empty(),
            vstd::string::to_string_from_display_ensures::<S>(e, error.message()),
    {
        Error { option: String::new(), message: e.to_string() }
    }

    /// An error with the message `message`, about no option yet.
    pub fn from_message(message: &str) -> (error: Self)
        ensures
            error@ == (ErrorView { option: Seq::empty(), message: message@ }),
    {
        Error { option: String::new(), message: String::from_str(message) }
    }

    /// The message, as the string that holds it.
    pub closed spec fn message(&self) -> String {
        self.message
    }

    /// Sets the option that the error is about.
    pub fn with_option<S: Text>(self, option: S) -> (error: Self)
        ensures
            error@ == (ErrorView { option: option.text(), message: self@.message }),
    {
        Error { option: String::from_str(option.as_text()), message: self.message }
    }

    /// The error as it is shown.
    pub fn to_string(&self) -> (s: String)
        ensures
            s@ == error_text(self@),
    {
        if self.option.as_str().unicode_len() > 0 {
            let mut out = String::from_str("option ");
            out.append(self.option.as_str());
            out.append(": ");
            out.append(self.message.as_str());
            out
        } else {
            self.message.clone()
        }
    }
}

} // verus!
