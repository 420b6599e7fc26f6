//! What the tokenizer yields.

use vstd::prelude::*;
use vstd::string::StringExecFns;
use super::errors::{error_text, ErrorKind};
use crate::low::flag::{flag_text, Flag};
use crate::low::model::ItemView;

verus! {

/// One classified unit of the command line. The texts are borrowed from the
/// arguments.
#[derive(Clone, Copy, Debug, PartialEq, Eq)]
pub enum Item<'a, T> {
    /// A registered option, its parameter if it has one, and its token.
    Opt(Flag<&'a str>, Option<&'a str>, T),
    /// An argument that is no option.
    Positional(&'a str),
    /// A malformed option.
    Error(ErrorKind<'a>),
}

impl<'a, T> View for Item<'a, T> {
    type V = ItemView<T>;

    open spec fn view(&self) -> ItemView<T> {
        match *self {
            Item::Opt(flag, Some(param), token) => ItemView::Opt(flag@, Some(param@), token),
            Item::Opt(flag, None, token) => ItemView::Opt(flag@, None, token),
            Item::Positional(arg) => ItemView::Positional(arg@),
            Item::Error(kind) => ItemView::Error(kind@),
        }
    }
}

/// An item as it could be written on the command line: a flag with an
/// attached parameter, or a positional argument as it stands. An error is
/// shown as its message in angle brackets.
pub open spec fn item_text<T>(item: ItemView<T>) -> Seq<char> {
    match item {
        ItemView::Opt(flag, None, _) => flag_text(flag),
        ItemView::Opt(Flag::Short(c), Some(param), _) => flag_text(Flag::Short(c)) + param,
        ItemView::Opt(Flag::Long(name), Some(param), _) => flag_text(Flag::Long(name)) + "="@
            + param,
        ItemView::Positional(arg) => arg,
        ItemView::Error(kind) => "<error: "@ + error_text(kind) + ">"@,
    }
}

impl<'a, T> Item<'a, T> {
    /// Is this a positional argument?
    pub fn is_positional(&self) -> (b: bool)
        ensures
            b == (*self is Positional),
    {
        match *self {
            Item::Positional(_) => true,
            _ => false,
        }
    }

    /// Writes the item as it could stand on the command line.
    pub fn to_string(&self) -> (s: String)
        ensures
            s@ == item_text(self@),
    {
        match self {
            Item::Opt(flag, None, _) => flag.to_string(),
            Item::Opt(flag, Some(param), _) => {
                let mut out = flag.to_string();
                if flag.is_long() {
                    out.append("=");
                }
                out.append(param);
                out
            },
            Item::Positional(arg) => String::from_str(arg),
            Item::Error(kind) => {
                let mut out = String::from_str("<error: ");
                out.append(kind.to_string().as_str());
                out.append(">");
                out
            },
        }
    }
}

} // verus!
