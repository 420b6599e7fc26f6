//! What can be wrong with an option.

use vstd::prelude::*;
use vstd::string::StringExecFns;
use crate::low::flag::{flag_text, Flag};
use crate::low::model::ErrorKindView;

verus! {

/// What is wrong with an option. The texts are borrowed from the arguments.
#[derive(Clone, Copy, Debug, PartialEq, Eq)]
pub enum ErrorKind<'a> {
    /// The flag is not registered.
    UnknownFlag(Flag<&'a str>),
    /// The flag always takes a parameter, and the arguments ended.
    MissingParam(Flag<&'a str>),
    /// The long flag never takes a parameter, and one was attached with `=`.
    UnexpectedParam(Flag<&'a str>, &'a str),
}

impl<'a> View for ErrorKind<'a> {
    type V = ErrorKindView;

    open spec fn view(&self) -> ErrorKindView {
        match *self {
            ErrorKind::UnknownFlag(flag) => ErrorKindView::UnknownFlag(flag@),
            ErrorKind::MissingParam(flag) => ErrorKindView::MissingParam(flag@),
            ErrorKind::UnexpectedParam(flag, param) => ErrorKindView::UnexpectedParam(
                flag@,
                param@,
            ),
        }
    }
}

/// The message for an error.
pub open spec fn error_text(kind: ErrorKindView) -> Seq<char> {
    match kind {
        ErrorKindView::UnknownFlag(flag) => "unknown flag: "@ + flag_text(flag),
        ErrorKindView::MissingParam(flag) => "missing parameter for: "@ + flag_text(flag),
        ErrorKindView::UnexpectedParam(flag, param) => "unexpected parameter ‘"@ + param
            + "’ for: "@ + flag_text(flag),
    }
}

impl<'a> ErrorKind<'a> {
    /// The message for the error.
    pub fn to_string(&self) -> (s: String)
        ensures
            s@ == error_text(self@),
    {
        match self {
            ErrorKind::UnknownFlag(flag) => {
                let mut out = String::from_str("unknown flag: ");
                out.append(flag.to_string().as_str());
                out
            },
            ErrorKind::MissingParam(flag) => {
                let mut out = String::from_str("missing parameter for: ");
                out.append(flag.to_string().as_str());
                out
            },
            ErrorKind::UnexpectedParam(flag, param) => {
                let mut out = String::from_str("unexpected parameter ‘");
                out.append(param);
                out.append("’ for: ");
                out.append(flag.to_string().as_str());
                out
            },
        }
    }
}

} // verus!
