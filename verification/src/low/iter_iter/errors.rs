//! What can be wrong with an option, and the option that it is wrong with.

use vstd::prelude::*;
use super::item::Opt;
use crate::low::model::ErrorKindView;
use crate::low::text::Text;

verus! {

/// What is wrong with an option.
#[derive(Clone, Copy, Debug, PartialEq, Eq, Structural)]
pub enum ErrorKind {
    /// The flag is not registered.
    UnknownFlag,
    /// The flag always takes a parameter, and the arguments ended.
    MissingParam,
    /// The long flag never takes a parameter, and one was attached with `=`.
    UnexpectedParam,
}

/// A malformed option: what is wrong, and the option as it was read.
#[derive(Debug)]
pub struct Error<S: Text> {
    pub kind: ErrorKind,
    pub option: Opt<S>,
}

/// Two errors are equal when they are of one kind and about equal options.
impl<S: Text> PartialEq for Error<S> {
    fn eq(&self, other: &Self) -> (b: bool) {
        self.kind == other.kind && self.option.same(&other.option)
    }
}

impl<S: Text> vstd::std_specs::cmp::PartialEqSpecImpl for Error<S> {
    open spec fn obeys_eq_spec() -> bool {
        true
    }

    open spec fn eq_spec(&self, other: &Self) -> bool {
        self.kind == other.kind && self.option.same_as(&other.option)
    }
}

impl<S: Text> Eq for Error<S> {

}

impl<S: Text> View for Error<S> {
    type V = ErrorKindView;

    /// The error with its flag and, for an unexpected parameter, that
    /// parameter (the empty text where the option holds none).
    open spec fn view(&self) -> ErrorKindView {
        match self.kind {
            ErrorKind::UnknownFlag => ErrorKindView::UnknownFlag(self.option.flag_view()),
            ErrorKind::MissingParam => ErrorKindView::MissingParam(self.option.flag_view()),
            ErrorKind::UnexpectedParam => ErrorKindView::UnexpectedParam(
                self.option.flag_view(),
                match self.option.param_view() {
                    Some(param) => param,
                    None => Seq::empty(),
                },
            ),
        }
    }
}

} // verus!
