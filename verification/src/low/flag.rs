//! The identity of an option: a short character or a long name.

use vstd::prelude::*;
use vstd::string::StringExecFns;
use super::text::{push_char, same_text, Text};

verus! {

/// Names an option, either by a single character (`-c`) or by a long
/// name (`--name`).
///
/// `L` is the type that holds a long name: `&str`, `String`, or, in
/// specifications, `Seq<char>`.
#[derive(Clone, Copy, Debug, PartialEq, Eq, PartialOrd, Ord, Hash)]
pub enum Flag<L> {
    Short(char),
    Long(L),
}

impl<L> Flag<L> {
    /// Is this a short flag?
    pub fn is_short(&self) -> (b: bool)
        ensures
            b == (*self is Short),
    {
        match *self {
            Flag::Short(_) => true,
            Flag::Long(_) => false,
        }
    }

    /// Is this a long flag?
    pub fn is_long(&self) -> (b: bool)
        ensures
            b == (*self is Long),
    {
        !self.is_short()
    }
}

impl<L: Text> View for Flag<L> {
    type V = Flag<Seq<char>>;

    /// The flag with its long name as a character sequence.
    open spec fn view(&self) -> Flag<Seq<char>> {
        match *self {
            Flag::Short(c) => Flag::Short(c),
            Flag::Long(s) => Flag::Long(s.text()),
        }
    }
}

/// The text by which a flag is written on the command line: `-c` for a
/// short flag, `--name` for a long one.
pub open spec fn flag_text(flag: Flag<Seq<char>>) -> Seq<char> {
    match flag {
        Flag::Short(c) => seq!['-', c],
        Flag::Long(s) => seq!['-', '-'] + s,
    }
}

impl<L: Text> Flag<L> {
    /// Does this flag name the same option as `other`? Long names are
    /// compared as text, whatever types hold them.
    pub fn is<'a, F>(&self, other: F) -> (b: bool) where F: IntoFlag<&'a str>
        ensures
            b == (self@ == other.flag()@),
    {
        match (self, other.into_flag()) {
            (Flag::Short(c1), Flag::Short(c2)) => *c1 == c2,
            (Flag::Long(s1), Flag::Long(s2)) => same_text(s1.as_text(), s2),
            _ => false,
        }
    }

    /// The flag with its long name borrowed.
    pub fn as_ref(&self) -> (f: Flag<&str>)
        ensures
            f@ == self@,
    {
        match self {
            Flag::Short(c) => Flag::Short(*c),
            Flag::Long(s) => Flag::Long(s.as_text()),
        }
    }

    /// Writes the flag as it appears on the command line.
    pub fn to_string(&self) -> (s: String)
        ensures
            s@ == flag_text(self@),
    {
        match self {
            Flag::Short(c) => {
                let mut out = String::new();
                push_char(&mut out, '-');
                push_char(&mut out, *c);
                assert(out@ =~= flag_text(self@));
                out
            },
            Flag::Long(name) => {
                let mut out = String::new();
                push_char(&mut out, '-');
                push_char(&mut out, '-');
                out.append(name.as_text());
                assert(out@ =~= flag_text(self@));
                out
            },
        }
    }
}

/// A value that names a flag: a character for a short flag, a string-like
/// value for a long one, or a flag itself.
pub trait IntoFlag<L>: Sized {
    /// The flag that the value names.
    spec fn flag(self) -> Flag<L>;

    /// Converts the value into the flag that it names.
    fn into_flag(self) -> (f: Flag<L>)
        ensures
            f == self.flag(),
    ;
}

impl<L> IntoFlag<L> for Flag<L> {
    open spec fn flag(self) -> Flag<L> {
        self
    }

    fn into_flag(self) -> (f: Flag<L>) {
        self
    }
}

impl<L> IntoFlag<L> for char {
    open spec fn flag(self) -> Flag<L> {
        Flag::Short(self)
    }

    fn into_flag(self) -> (f: Flag<L>) {
        Flag::Short(self)
    }
}

impl<'a> IntoFlag<&'a str> for &'a str {
    open spec fn flag(self) -> Flag<&'a str> {
        Flag::Long(self)
    }

    fn into_flag(self) -> (f: Flag<&'a str>) {
        Flag::Long(self)
    }
}

impl IntoFlag<String> for String {
    open spec fn flag(self) -> Flag<String> {
        Flag::Long(self)
    }

    fn into_flag(self) -> (f: Flag<String>) {
        Flag::Long(self)
    }
}

impl<L> From<char> for Flag<L> {
    fn from(short: char) -> (f: Flag<L>) {
        Flag::Short(short)
    }
}

impl<L> vstd::std_specs::convert::FromSpecImpl<char> for Flag<L> {
    open spec fn obeys_from_spec() -> bool {
        true
    }

    open spec fn from_spec(short: char) -> Flag<L> {
        Flag::Short(short)
    }
}

impl<'a> From<&'a str> for Flag<&'a str> {
    fn from(long: &'a str) -> (f: Flag<&'a str>) {
        Flag::Long(long)
    }
}

impl<'a> vstd::std_specs::convert::FromSpecImpl<&'a str> for Flag<&'a str> {
    open spec fn obeys_from_spec() -> bool {
        true
    }

    open spec fn from_spec(long: &'a str) -> Flag<&'a str> {
        Flag::Long(long)
    }
}

impl From<String> for Flag<String> {
    fn from(long: String) -> (f: Flag<String>) {
        Flag::Long(long)
    }
}

impl vstd::std_specs::convert::FromSpecImpl<String> for Flag<String> {
    open spec fn obeys_from_spec() -> bool {
        true
    }

    open spec fn from_spec(long: String) -> Flag<String> {
        Flag::Long(long)
    }
}

} // verus!
