//! The tokenizer over a source of owned arguments. Its items own the
//! arguments that they were read from.

mod errors;
mod item;

pub use self::errors::{Error, ErrorKind};
pub use self::item::{in_bounds, window, FlagOpt, Item, Opt, ParamOpt};

use vstd::prelude::*;
use vstd::std_specs::iter::IteratorSpec;
use vstd::string::StrSliceExecFns;
use std::mem::swap;
use crate::low::config::Config;
use crate::low::model::{
    lemma_step_borrowed, long_item, short_item, start, step, Cursor, ItemView, Pending,
};
use crate::low::policy::Presence;
use crate::low::slice_iter::texts;
use crate::low::text::Text;
use crate::util::find_char;

verus! {

/// The view of an optional item.
pub open spec fn pulled<S: Text, T>(item: Option<Item<S, T>>) -> Option<ItemView<T>> {
    match item {
        Some(item) => Some(item@),
        None => None,
    }
}

/// The cursor of a tokenizer with `pending` begun and the arguments
/// `remaining` still to come from its source.
pub open spec fn cursor_of<S: Text>(pending: Pending, remaining: Seq<S>) -> Cursor {
    Cursor { pending, rest: texts(remaining) }
}

/// How many more rounds a pull can take before it yields: one to leave a
/// cluster that is read to its end, one to read an argument that yields no
/// item of its own.
pub open spec fn rounds_left(pending: Pending) -> nat {
    match pending {
        Pending::Start => 1,
        Pending::ShortOpts(shorts) => if shorts.len() == 0 {
            2
        } else {
            0
        },
        Pending::PositionalOnly => 0,
    }
}

/// An owned argument and the part of it that is still to be read, counted
/// in characters.
struct OwnedSlice<S: Text> {
    owned: S,
    start: usize,
    end: usize,
}

impl<S: Text> OwnedSlice<S> {
    #[verifier::type_invariant]
    spec fn inv(self) -> bool {
        self.start <= self.end <= self.owned.text().len()
    }

    /// The part that is still to be read.
    closed spec fn view(&self) -> Seq<char> {
        self.owned.text().subrange(self.start as int, self.end as int)
    }

    /// The whole of an argument.
    fn new(owned: S) -> (slice: Self)
        ensures
            slice.owned == owned,
            slice.start == 0,
            slice.end == owned.text().len(),
            slice@ == owned.text(),
    {
        let end = owned.as_text().unicode_len();
        assert(owned.text().subrange(0, end as int) =~= owned.text());
        OwnedSlice { owned, start: 0, end }
    }

    /// Reads one character, if one is left.
    fn next(&mut self) -> (r: Option<char>)
        ensures
            final(self).owned == old(self).owned,
            final(self).end == old(self).end,
            match r {
                Some(c) => {
                    &&& old(self)@.len() > 0
                    &&& c == old(self)@[0]
                    &&& final(self)@ == old(self)@.drop_first()
                    &&& final(self).start == old(self).start + 1
                },
                None => old(self)@.len() == 0 && final(self).start == old(self).start,
            },
    {
        proof {
            use_type_invariant(&*self);
        }
        if self.start < self.end {
            let c = self.owned.as_text().get_char(self.start);
            self.start = self.start + 1;
            assert(final(self)@ =~= old(self)@.drop_first());
            Some(c)
        } else {
            None
        }
    }

    /// The character that is read next, if one is left.
    fn peek(&self) -> (r: Option<char>)
        ensures
            match r {
                Some(c) => self@.len() > 0 && c == self@[0],
                None => self@.len() == 0,
            },
    {
        proof {
            use_type_invariant(self);
        }
        if self.start < self.end {
            Some(self.owned.as_text().get_char(self.start))
        } else {
            None
        }
    }

    /// Is nothing left to read?
    fn is_empty(&self) -> (b: bool)
        ensures
            b == (self@.len() == 0),
    {
        proof {
            use_type_invariant(self);
        }
        self.start >= self.end
    }

    /// The part that is still to be read, as a string slice.
    fn as_str(&self) -> (s: &str)
        ensures
            s@ == self@,
    {
        proof {
            use_type_invariant(self);
        }
        self.owned.as_text().substring_char(self.start, self.end)
    }
}

/// What the tokenizer has begun and not finished.
enum InnerState<S: Text> {
    Start,
    ShortOpts(OwnedSlice<S>),
    PositionalOnly,
}

impl<S: Text> InnerState<S> {
    closed spec fn view(&self) -> Pending {
        match *self {
            InnerState::Start => Pending::Start,
            InnerState::ShortOpts(shorts) => Pending::ShortOpts(shorts@),
            InnerState::PositionalOnly => Pending::PositionalOnly,
        }
    }
}

/// The tokenizer's position in the arguments, apart from any configuration.
pub struct State<Src> where Src: Iterator, Src::Item: Text {
    inner: InnerState<Src::Item>,
    iter: Src,
}

impl<Src> State<Src> where Src: Iterator, Src::Item: Text {
    /// Does the source keep the laws of iterators: it yields its remaining
    /// items in order, and then `None`?
    pub open spec fn lawful(&self) -> bool {
        self.source().obeys_prophetic_iter_laws()
    }

    /// What the tokenizer has begun and not finished.
    pub closed spec fn pending(&self) -> Pending {
        self.inner@
    }

    /// The source of the arguments that are still to be read.
    pub closed spec fn source(&self) -> Src {
        self.iter
    }

    /// The state at the start of the arguments that `source` yields.
    pub fn new(source: Src) -> (state: Self)
        requires
            source.obeys_prophetic_iter_laws(),
        ensures
            state.pending() == Pending::Start,
            state.source() == source,
            state.lawful(),
    {
        State { inner: InnerState::Start, iter: source }
    }

    /// Takes the next argument from the source.
    fn next_arg(&mut self) -> (r: Option<OwnedSlice<Src::Item>>)
        requires
            old(self).lawful(),
        ensures
            final(self).lawful(),
            final(self).pending() == old(self).pending(),
            match r {
                Some(arg) => {
                    &&& texts(old(self).source().remaining()).len() > 0
                    &&& arg@ == texts(old(self).source().remaining())[0]
                    &&& arg@ == arg.owned.text()
                    &&& arg.start == 0
                    &&& arg.end == arg.owned.text().len()
                    &&& texts(final(self).source().remaining()) == texts(
                        old(self).source().remaining(),
                    ).drop_first()
                },
                None => {
                    &&& texts(old(self).source().remaining()).len() == 0
                    &&& texts(final(self).source().remaining()) == texts(
                        old(self).source().remaining(),
                    )
                },
            },
    {
        let ghost before = self.iter.remaining();
        match self.iter.next() {
            Some(owned) => {
                assert(texts(self.iter.remaining()) =~= texts(before).drop_first());
                Some(OwnedSlice::new(owned))
            },
            None => None,
        }
    }

    /// Classifies a long option, given what follows its two hyphens.
    fn parse_long<Cfg: Config>(
        &mut self,
        config: Cfg,
        after_hyphens: OwnedSlice<Src::Item>,
    ) -> (item: Item<Src::Item, Cfg::Token>)
        requires
            old(self).lawful(),
            old(self).pending() is Start,
        ensures
            final(self).lawful(),
            final(self).pending() is Start,
            (item@, texts(final(self).source().remaining())) == long_item(
                config,
                after_hyphens@,
                texts(old(self).source().remaining()),
            ),
    {
        proof {
            use_type_invariant(&after_hyphens);
        }
        let text = after_hyphens.as_str();
        match find_char(text, '=') {
            Some(index) => {
                let policy_opt = config.get_long_policy(text.substring_char(0, index));
                let flag_range = after_hyphens.start..after_hyphens.start + index;
                let param_range = after_hyphens.start + index + 1..after_hyphens.end;
                proof {
                    let whole = after_hyphens.owned.text();
                    assert(text@.subrange(0, index as int) =~= text@.take(index as int));
                    assert(window(whole, flag_range) =~= text@.take(index as int));
                    assert(window(whole, param_range) =~= text@.skip(index + 1));
                }
                let opt = Opt::new_long_param(None, flag_range, after_hyphens.owned, param_range);
                match policy_opt {
                    None => Item::error(ErrorKind::UnknownFlag, opt),
                    Some(policy) => match policy.presence {
                        Presence::Never => Item::error(ErrorKind::UnexpectedParam, opt),
                        Presence::IfAttached => Item::Opt(opt, policy.token),
                        Presence::Always => Item::Opt(opt, policy.token),
                    },
                }
            },
            None => {
                let policy_opt = config.get_long_policy(text);
                let flag = after_hyphens;
                let flag_range = flag.start..flag.end;
                match policy_opt {
                    None => Item::error(
                        ErrorKind::UnknownFlag,
                        Opt::new_long_flag(flag.owned, flag_range),
                    ),
                    Some(policy) => match policy.presence {
                        Presence::Never => Item::Opt(
                            Opt::new_long_flag(flag.owned, flag_range),
                            policy.token,
                        ),
                        Presence::IfAttached => Item::Opt(
                            Opt::new_long_flag(flag.owned, flag_range),
                            policy.token,
                        ),
                        Presence::Always => match self.next_arg() {
                            None => Item::error(
                                ErrorKind::MissingParam,
                                Opt::new_long_flag(flag.owned, flag_range),
                            ),
                            Some(param) => {
                                assert(window(param.owned.text(), param.start..param.end)
                                    =~= param.owned.text());
                                Item::Opt(
                                    Opt::new_long_param(
                                        Some(flag.owned),
                                        flag_range,
                                        param.owned,
                                        param.start..param.end,
                                    ),
                                    policy.token,
                                )
                            },
                        },
                    },
                }
            },
        }
    }

    /// Classifies the short flag `c`, which `rest` follows in its argument.
    fn parse_short<Cfg: Config>(
        &mut self,
        config: Cfg,
        c: char,
        rest: OwnedSlice<Src::Item>,
    ) -> (item: Item<Src::Item, Cfg::Token>)
        requires
            old(self).lawful(),
            old(self).pending() is Start,
        ensures
            final(self).lawful(),
            (
                item@,
                cursor_of(final(self).pending(), final(self).source().remaining()),
            ) == short_item(config, c, rest@, texts(old(self).source().remaining())),
    {
        proof {
            use_type_invariant(&rest);
        }
        let flag = Opt::new_short_flag(c);
        match config.get_short_policy(c) {
            None => {
                self.inner = InnerState::ShortOpts(rest);
                Item::error(ErrorKind::UnknownFlag, flag)
            },
            Some(policy) => match policy.presence {
                Presence::Always => if rest.is_empty() {
                    match self.next_arg() {
                        None => Item::error(ErrorKind::MissingParam, flag),
                        Some(param) => {
                            assert(window(param.owned.text(), param.start..param.end)
                                =~= param.owned.text());
                            Item::Opt(
                                Opt::new_short_param(c, param.owned, param.start..param.end),
                                policy.token,
                            )
                        },
                    }
                } else {
                    Item::Opt(
                        Opt::new_short_param(c, rest.owned, rest.start..rest.end),
                        policy.token,
                    )
                },
                Presence::IfAttached => if rest.is_empty() {
                    Item::Opt(flag, policy.token)
                } else {
                    Item::Opt(
                        Opt::new_short_param(c, rest.owned, rest.start..rest.end),
                        policy.token,
                    )
                },
                Presence::Never => {
                    self.inner = InnerState::ShortOpts(rest);
                    Item::Opt(flag, policy.token)
                },
            },
        }
    }

    /// Pulls the next item under the configuration `config`.
    pub fn next_with_config<Cfg: Config>(&mut self, config: Cfg) -> (item: Option<
        Item<Src::Item, Cfg::Token>,
    >)
        requires
            old(self).lawful(),
        ensures
            final(self).lawful(),
            (
                pulled(item),
                cursor_of(final(self).pending(), final(self).source().remaining()),
            ) == step(
                config,
                cursor_of(old(self).pending(), old(self).source().remaining()),
            ),
    {
        loop
            invariant
                self.lawful(),
                step(
                    config,
                    cursor_of(self.pending(), self.source().remaining()),
                ) == step(
                    config,
                    cursor_of(old(self).pending(), old(self).source().remaining()),
                ),
            decreases rounds_left(self.pending()),
        {
            let mut inner = InnerState::Start;
            swap(&mut self.inner, &mut inner);
            match inner {
                InnerState::Start => match self.next_arg() {
                    None => return None,
                    Some(arg) => {
                        let mut arg = arg;
                        let ghost whole = arg@;
                        match arg.next() {
                            Some(c0) => if c0 == '-' {
                                match arg.peek() {
                                    None => return Some(Item::Positional(arg.owned)),
                                    Some(c1) => if c1 == '-' {
                                        let _ = arg.next();
                                        assert(arg@ =~= whole.skip(2));
                                        if arg.is_empty() {
                                            self.inner = InnerState::PositionalOnly;
                                        } else {
                                            return Some(self.parse_long(config, arg));
                                        }
                                    } else {
                                        assert(arg@ =~= whole.skip(1));
                                        self.inner = InnerState::ShortOpts(arg);
                                    },
                                }
                            } else {
                                return Some(Item::Positional(arg.owned));
                            },
                            None => return Some(Item::Positional(arg.owned)),
                        }
                    },
                },
                InnerState::ShortOpts(short) => {
                    let mut short = short;
                    match short.next() {
                        Some(c) => return Some(self.parse_short(config, c, short)),
                        None => {},
                    }
                },
                InnerState::PositionalOnly => match self.next_arg() {
                    Some(arg) => {
                        self.inner = InnerState::PositionalOnly;
                        return Some(Item::Positional(arg.owned));
                    },
                    None => return None,
                },
            }
        }
    }
}

/// A tokenizer over a source of owned arguments: a configuration, and a
/// position in the arguments.
///
/// Each pull yields one item. The configuration can be exchanged between
/// pulls; the position stays as it is.
pub struct IterIter<Cfg, Src> where Src: Iterator, Src::Item: Text {
    config: Cfg,
    state: State<Src>,
}

impl<Cfg, Src> IterIter<Cfg, Src> where Src: Iterator, Src::Item: Text {
    /// The configuration under which [`next`](IterIter::next) pulls.
    pub closed spec fn config(&self) -> Cfg {
        self.config
    }

    /// What the tokenizer has begun and not finished.
    pub closed spec fn pending(&self) -> Pending {
        self.state.pending()
    }

    /// The source of the arguments that are still to be read.
    pub closed spec fn source(&self) -> Src {
        self.state.source()
    }

    /// Does the source keep the laws of iterators: it yields its remaining
    /// items in order, and then `None`?
    pub open spec fn lawful(&self) -> bool {
        self.source().obeys_prophetic_iter_laws()
    }

    /// A tokenizer at the start of the arguments that `source` yields.
    pub fn new(config: Cfg, source: Src) -> (iter: Self)
        requires
            source.obeys_prophetic_iter_laws(),
        ensures
            iter.config() == config,
            iter.pending() == Pending::Start,
            iter.source() == source,
    {
        IterIter { config, state: State::new(source) }
    }

    /// Lends the configuration for a change. The position stays.
    pub fn config_mut(&mut self) -> (config: &mut Cfg)
        ensures
            *config == old(self).config(),
            final(self).config() == *final(config),
            final(self).pending() == old(self).pending(),
            final(self).source() == old(self).source(),
    {
        &mut self.config
    }

    /// Pulls the next item under another configuration than the tokenizer's
    /// own, which stays.
    pub fn next_with_config<Cfg1: Config>(&mut self, config: Cfg1) -> (item: Option<
        Item<Src::Item, Cfg1::Token>,
    >)
        requires
            old(self).lawful(),
        ensures
            final(self).lawful(),
            final(self).config() == old(self).config(),
            (
                pulled(item),
                cursor_of(final(self).pending(), final(self).source().remaining()),
            ) == step(
                config,
                cursor_of(old(self).pending(), old(self).source().remaining()),
            ),
    {
        self.state.next_with_config(config)
    }

    /// Exchanges the configuration. The position stays.
    pub fn with_config<Cfg1>(self, config: Cfg1) -> (iter: IterIter<Cfg1, Src>)
        ensures
            iter.config() == config,
            iter.pending() == self.pending(),
            iter.source() == self.source(),
    {
        IterIter { config, state: self.state }
    }
}

impl<Cfg, Src> IterIter<Cfg, Src> where Cfg: Config, Src: Iterator, Src::Item: Text {
    /// Pulls the next item; `None` when the arguments are used up.
    pub fn next(&mut self) -> (item: Option<Item<Src::Item, Cfg::Token>>)
        requires
            old(self).lawful(),
        ensures
            final(self).lawful(),
            final(self).config() == old(self).config(),
            (
                pulled(item),
                cursor_of(final(self).pending(), final(self).source().remaining()),
            ) == step(
                old(self).config(),
                cursor_of(old(self).pending(), old(self).source().remaining()),
            ),
    {
        proof {
            lemma_step_borrowed(
                &self.config,
                cursor_of(self.pending(), self.source().remaining()),
            );
        }
        self.state.next_with_config(&self.config)
    }
}

} // verus!
