//! What the tokenizer over owned arguments yields.
//!
//! An option keeps the arguments that it was read from and remembers where
//! in them its name and its parameter stand, counted in characters. Nothing
//! is copied.

use vstd::prelude::*;
use vstd::std_specs::cmp::PartialEqSpec;
use vstd::string::StrSliceExecFns;
use std::ops::Range;
use super::errors::{Error, ErrorKind};
use crate::low::flag::Flag;
use crate::low::model::ItemView;
use crate::low::text::{same_text, Text};

verus! {

/// Does `range` lie within a text of `len` characters?
pub open spec fn in_bounds(range: Range<usize>, len: nat) -> bool {
    range.start <= range.end <= len
}

/// The part of `text` that `range` covers.
pub open spec fn window(text: Seq<char>, range: Range<usize>) -> Seq<char> {
    text.subrange(range.start as int, range.end as int)
}

/// A range of character positions, as the options keep it.
#[derive(Clone, Copy, Debug)]
struct Span {
    start: usize,
    end: usize,
}

impl Span {
    /// The range that the span stands for.
    spec fn range(self) -> Range<usize> {
        self.start..self.end
    }

    /// The span that stands for `range`.
    fn of(range: Range<usize>) -> (span: Span)
        ensures
            span.range() == range,
    {
        Span { start: range.start, end: range.end }
    }
}

/// An option without a parameter.
#[derive(Debug)]
pub struct FlagOpt<S: Text> {
    flag: Flag<S>,
    range: Span,
}

impl<S: Text> FlagOpt<S> {
    #[verifier::type_invariant]
    spec fn inv(self) -> bool {
        match self.flag {
            Flag::Short(_) => true,
            Flag::Long(original) => in_bounds(self.range.range(), original.text().len()),
        }
    }

    /// The option's flag.
    pub closed spec fn flag_view(&self) -> Flag<Seq<char>> {
        match self.flag {
            Flag::Short(c) => Flag::Short(c),
            Flag::Long(original) => Flag::Long(window(original.text(), self.range.range())),
        }
    }

    /// An option with the flag `flag`.
    pub fn new(flag: Flag<S>) -> (opt: Self)
        ensures
            opt.flag_view() == flag@,
    {
        let len = match &flag {
            Flag::Short(_) => 0,
            Flag::Long(name) => {
                let len = name.as_text().unicode_len();
                assert(name.text().subrange(0, len as int) =~= name.text());
                len
            },
        };
        FlagOpt { flag, range: Span { start: 0, end: len } }
    }

    /// An option whose long flag is the part of `original` that `range`
    /// covers.
    pub(super) fn long_within(original: S, range: Range<usize>) -> (opt: Self)
        requires
            in_bounds(range, original.text().len()),
        ensures
            opt.flag_view() == Flag::Long(window(original.text(), range)),
    {
        FlagOpt { flag: Flag::Long(original), range: Span::of(range) }
    }

    /// The option's flag.
    pub fn flag(&self) -> (flag: Flag<&str>)
        ensures
            flag@ == self.flag_view(),
    {
        proof {
            use_type_invariant(self);
        }
        match &self.flag {
            Flag::Short(c) => Flag::Short(*c),
            Flag::Long(original) => Flag::Long(
                original.as_text().substring_char(self.range.start, self.range.end),
            ),
        }
    }
}

/// An option with a parameter.
#[derive(Debug)]
pub struct ParamOpt<S: Text> {
    flag: Flag<Span>,
    param_original: S,
    param_range: Span,
    extra_original: Option<S>,
}

impl<S: Text> ParamOpt<S> {
    /// The text in which a long flag stands: the argument of its own, where
    /// the option has one, else the argument that holds the parameter.
    pub closed spec fn flag_original(&self) -> Seq<char> {
        match self.extra_original {
            Some(original) => original.text(),
            None => self.param_original.text(),
        }
    }

    #[verifier::type_invariant]
    spec fn inv(self) -> bool {
        &&& in_bounds(self.param_range.range(), self.param_original.text().len())
        &&& match self.flag {
            Flag::Short(_) => true,
            Flag::Long(span) => in_bounds(span.range(), self.flag_original().len()),
        }
    }

    /// The option's flag.
    pub closed spec fn flag_view(&self) -> Flag<Seq<char>> {
        match self.flag {
            Flag::Short(c) => Flag::Short(c),
            Flag::Long(span) => Flag::Long(window(self.flag_original(), span.range())),
        }
    }

    /// The option's parameter.
    pub closed spec fn param_view(&self) -> Seq<char> {
        window(self.param_original.text(), self.param_range.range())
    }

    /// An option with the flag `flag` and the parameter `param`.
    pub fn new(flag: Flag<S>, param: S) -> (opt: Self)
        ensures
            opt.flag_view() == flag@,
            opt.param_view() == param.text(),
    {
        let param_len = param.as_text().unicode_len();
        assert(param.text().subrange(0, param_len as int) =~= param.text());
        match flag {
            Flag::Short(c) => ParamOpt {
                flag: Flag::Short(c),
                param_original: param,
                param_range: Span { start: 0, end: param_len },
                extra_original: None,
            },
            Flag::Long(name) => {
                let flag_len = name.as_text().unicode_len();
                assert(name.text().subrange(0, flag_len as int) =~= name.text());
                ParamOpt {
                    flag: Flag::Long(Span { start: 0, end: flag_len }),
                    param_original: param,
                    param_range: Span { start: 0, end: param_len },
                    extra_original: Some(name),
                }
            },
        }
    }

    /// An option with the short flag `c`, whose parameter is the part of
    /// `param_original` that `param_range` covers.
    pub(super) fn short_within(c: char, param_original: S, param_range: Range<usize>) -> (opt:
        Self)
        requires
            in_bounds(param_range, param_original.text().len()),
        ensures
            opt.flag_view() == Flag::<Seq<char>>::Short(c),
            opt.param_view() == window(param_original.text(), param_range),
    {
        ParamOpt {
            flag: Flag::Short(c),
            param_original,
            param_range: Span::of(param_range),
            extra_original: None,
        }
    }

    /// An option with a long flag, whose parameter is the part of
    /// `param_original` that `param_range` covers. The flag is the part that
    /// `flag_range` covers of `flag_original`, or of `param_original` where
    /// there is no `flag_original`.
    pub(super) fn long_within(
        flag_original: Option<S>,
        flag_range: Range<usize>,
        param_original: S,
        param_range: Range<usize>,
    ) -> (opt: Self)
        requires
            in_bounds(param_range, param_original.text().len()),
            in_bounds(
                flag_range,
                match flag_original {
                    Some(original) => original.text().len(),
                    None => param_original.text().len(),
                },
            ),
        ensures
            opt.flag_view() == Flag::Long(
                window(
                    match flag_original {
                        Some(original) => original.text(),
                        None => param_original.text(),
                    },
                    flag_range,
                ),
            ),
            opt.param_view() == window(param_original.text(), param_range),
    {
        ParamOpt {
            flag: Flag::Long(Span::of(flag_range)),
            param_original,
            param_range: Span::of(param_range),
            extra_original: flag_original,
        }
    }

    /// The option's flag.
    pub fn flag(&self) -> (flag: Flag<&str>)
        ensures
            flag@ == self.flag_view(),
    {
        proof {
            use_type_invariant(self);
        }
        match &self.flag {
            Flag::Short(c) => Flag::Short(*c),
            Flag::Long(span) => {
                let original = match &self.extra_original {
                    Some(original) => original,
                    None => &self.param_original,
                };
                Flag::Long(original.as_text().substring_char(span.start, span.end))
            },
        }
    }

    /// The option's parameter.
    pub fn param(&self) -> (param: &str)
        ensures
            param@ == self.param_view(),
    {
        proof {
            use_type_invariant(self);
        }
        self.param_original.as_text().substring_char(self.param_range.start, self.param_range.end)
    }
}

#[derive(Debug)]
enum InnerOpt<S: Text> {
    FlagOpt(FlagOpt<S>),
    ParamOpt(ParamOpt<S>),
}

/// An option as it was read: its flag, and its parameter if it has one.
#[derive(Debug)]
pub struct Opt<S: Text> {
    inner: InnerOpt<S>,
}

impl<S: Text> Opt<S> {
    /// The option's flag.
    pub closed spec fn flag_view(&self) -> Flag<Seq<char>> {
        match self.inner {
            InnerOpt::FlagOpt(inner) => inner.flag_view(),
            InnerOpt::ParamOpt(inner) => inner.flag_view(),
        }
    }

    /// The option's parameter, if it has one.
    pub closed spec fn param_view(&self) -> Option<Seq<char>> {
        match self.inner {
            InnerOpt::FlagOpt(_) => None,
            InnerOpt::ParamOpt(inner) => Some(inner.param_view()),
        }
    }

    /// An option with the flag `flag` and, if there is one, the parameter
    /// `param`.
    pub fn new(flag: Flag<S>, param: Option<S>) -> (opt: Self)
        ensures
            opt.flag_view() == flag@,
            opt.param_view() == match param {
                Some(param) => Some(param.text()),
                None => None,
            },
    {
        let inner = match param {
            None => InnerOpt::FlagOpt(FlagOpt::new(flag)),
            Some(param) => InnerOpt::ParamOpt(ParamOpt::new(flag, param)),
        };
        Opt { inner }
    }

    /// The option's flag.
    pub fn flag(&self) -> (flag: Flag<&str>)
        ensures
            flag@ == self.flag_view(),
    {
        match &self.inner {
            InnerOpt::FlagOpt(inner) => inner.flag(),
            InnerOpt::ParamOpt(inner) => inner.flag(),
        }
    }

    /// The option's parameter, if it has one.
    pub fn param(&self) -> (param: Option<&str>)
        ensures
            match param {
                Some(param) => self.param_view() == Some(param@),
                None => self.param_view() is None,
            },
    {
        match &self.inner {
            InnerOpt::FlagOpt(_) => None,
            InnerOpt::ParamOpt(inner) => Some(inner.param()),
        }
    }

    /// The option `-c`.
    pub fn new_short_flag(c: char) -> (opt: Self)
        ensures
            opt.flag_view() == Flag::<Seq<char>>::Short(c),
            opt.param_view() is None,
    {
        Opt { inner: InnerOpt::FlagOpt(FlagOpt::new(Flag::Short(c))) }
    }

    /// The option whose long flag is the part of `original` that `range`
    /// covers.
    pub fn new_long_flag(original: S, range: Range<usize>) -> (opt: Self)
        requires
            in_bounds(range, original.text().len()),
        ensures
            opt.flag_view() == Flag::Long(window(original.text(), range)),
            opt.param_view() is None,
    {
        Opt { inner: InnerOpt::FlagOpt(FlagOpt::long_within(original, range)) }
    }

    /// The option `-c` with the parameter that `param_range` covers in
    /// `param_original`.
    pub fn new_short_param(c: char, param_original: S, param_range: Range<usize>) -> (opt: Self)
        requires
            in_bounds(param_range, param_original.text().len()),
        ensures
            opt.flag_view() == Flag::<Seq<char>>::Short(c),
            opt.param_view() == Some(window(param_original.text(), param_range)),
    {
        Opt { inner: InnerOpt::ParamOpt(ParamOpt::short_within(c, param_original, param_range)) }
    }

    /// The option with a long flag and the parameter that `param_range`
    /// covers in `param_original`. The flag is the part that `flag_range`
    /// covers of `flag_original`, or of `param_original` where there is no
    /// `flag_original`.
    pub fn new_long_param(
        flag_original: Option<S>,
        flag_range: Range<usize>,
        param_original: S,
        param_range: Range<usize>,
    ) -> (opt: Self)
        requires
            in_bounds(param_range, param_original.text().len()),
            in_bounds(
                flag_range,
                match flag_original {
                    Some(original) => original.text().len(),
                    None => param_original.text().len(),
                },
            ),
        ensures
            opt.flag_view() == Flag::Long(
                window(
                    match flag_original {
                        Some(original) => original.text(),
                        None => param_original.text(),
                    },
                    flag_range,
                ),
            ),
            opt.param_view() == Some(window(param_original.text(), param_range)),
    {
        Opt {
            inner: InnerOpt::ParamOpt(
                ParamOpt::long_within(flag_original, flag_range, param_original, param_range),
            ),
        }
    }

    /// Is this the same option as `other`: the same flag, and the same
    /// parameter or none?
    pub open spec fn same_as<S2: Text>(&self, other: &Opt<S2>) -> bool {
        self.flag_view() == other.flag_view() && self.param_view() == other.param_view()
    }

    /// Is this the same option as `other`: the same flag, and the same
    /// parameter or none?
    pub fn same<S2: Text>(&self, other: &Opt<S2>) -> (b: bool)
        ensures
            b == self.same_as(other),
    {
        if !self.flag().is(other.flag()) {
            return false;
        }
        match (self.param(), other.param()) {
            (None, None) => true,
            (Some(a), Some(b)) => same_text(a, b),
            _ => false,
        }
    }
}

/// Two options are equal when they have the same flag and the same
/// parameter, wherever in their arguments these stand.
impl<S: Text> PartialEq for Opt<S> {
    fn eq(&self, other: &Self) -> (b: bool) {
        self.same(other)
    }
}

impl<S: Text> vstd::std_specs::cmp::PartialEqSpecImpl for Opt<S> {
    open spec fn obeys_eq_spec() -> bool {
        true
    }

    open spec fn eq_spec(&self, other: &Self) -> bool {
        self.same_as(other)
    }
}

impl<S: Text> Eq for Opt<S> {

}

/// One classified unit of the command line, which owns the arguments that
/// it was read from.
#[derive(Debug)]
pub enum Item<S: Text, T> {
    /// A registered option and its token.
    Opt(Opt<S>, T),
    /// An argument that is no option.
    Positional(S),
    /// A malformed option.
    Error(Error<S>),
}

impl<S: Text, T> View for Item<S, T> {
    type V = ItemView<T>;

    open spec fn view(&self) -> ItemView<T> {
        match *self {
            Item::Opt(opt, token) => ItemView::Opt(opt.flag_view(), opt.param_view(), token),
            Item::Positional(arg) => ItemView::Positional(arg.text()),
            Item::Error(error) => ItemView::Error(error@),
        }
    }
}

/// Two items are equal when they are of one kind and hold equal options and
/// tokens, equal texts, or equal errors.
impl<S: Text, T: PartialEq> PartialEq for Item<S, T> {
    fn eq(&self, other: &Self) -> (b: bool) {
        match (self, other) {
            (Item::Opt(o1, t1), Item::Opt(o2, t2)) => o1.same(o2) && t1 == t2,
            (Item::Positional(p1), Item::Positional(p2)) => same_text(p1.as_text(), p2.as_text()),
            (Item::Error(e1), Item::Error(e2)) => e1 == e2,
            _ => false,
        }
    }
}

impl<S: Text, T: PartialEq> vstd::std_specs::cmp::PartialEqSpecImpl for Item<S, T> {
    open spec fn obeys_eq_spec() -> bool {
        <T as PartialEqSpec>::obeys_eq_spec()
    }

    open spec fn eq_spec(&self, other: &Self) -> bool {
        match (*self, *other) {
            (Item::Opt(o1, t1), Item::Opt(o2, t2)) => o1.same_as(&o2) && t1.eq_spec(&t2),
            (Item::Positional(p1), Item::Positional(p2)) => p1.text() == p2.text(),
            (Item::Error(e1), Item::Error(e2)) => e1.kind == e2.kind && e1.option.same_as(
                &e2.option,
            ),
            _ => false,
        }
    }
}

impl<S: Text, T: Eq> Eq for Item<S, T> {

}

impl<S: Text, T> Item<S, T> {
    /// The item for an option that is in error.
    pub fn error(kind: ErrorKind, option: Opt<S>) -> (item: Self)
        ensures
            item == Item::<S, T>::Error(Error { kind, option }),
    {
        Item::Error(Error { kind, option })
    }
}

} // verus!
