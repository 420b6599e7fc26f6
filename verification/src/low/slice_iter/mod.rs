//! The tokenizer over a slice of arguments. Its items borrow from the
//! arguments.

mod errors;
mod item;

pub use self::errors::{error_text, ErrorKind};
pub use self::item::{item_text, Item};

use vstd::prelude::*;
use vstd::string::StrSliceExecFns;
use crate::low::config::Config;
use crate::low::flag::Flag;
use crate::low::model::{
    items, lemma_step_borrowed, lemma_step_decreases, long_item, measure, short_item, start,
    step, Cursor, ItemView, Pending,
};
use crate::low::policy::Presence;
use crate::low::text::Text;
use crate::util::{find_char, split_first_str};

verus! {

/// The texts of a list of arguments.
pub open spec fn texts<A: Text>(args: Seq<A>) -> Seq<Seq<char>> {
    Seq::new(args.len(), |i: int| args[i].text())
}

/// The views of a list of items.
pub open spec fn item_views<'a, T>(items: Seq<Item<'a, T>>) -> Seq<ItemView<T>> {
    Seq::new(items.len(), |i: int| items[i]@)
}

/// The view of an optional item.
pub open spec fn pulled<'a, T>(item: Option<Item<'a, T>>) -> Option<ItemView<T>> {
    match item {
        Some(item) => Some(item@),
        None => None,
    }
}

/// What the tokenizer has begun and not finished.
#[derive(Clone, Copy)]
enum InnerState<S> {
    Start,
    ShortOpts(S),
    PositionalOnly,
}

/// The arguments that are still to be read.
struct Remaining<'a, A> {
    args: &'a [A],
    position: usize,
}

impl<'a, A> Remaining<'a, A> {
    #[verifier::type_invariant]
    spec fn inv(self) -> bool {
        self.position <= self.args@.len()
    }
}

impl<'a, A> Clone for Remaining<'a, A> {
    fn clone(&self) -> (rest: Self)
        ensures
            rest == *self,
    {
        proof {
            use_type_invariant(self);
        }
        Remaining { args: self.args, position: self.position }
    }
}

impl<'a, A> Copy for Remaining<'a, A> {

}

impl<'a, A: Text> Remaining<'a, A> {
    /// The texts of the arguments that are still to be read.
    closed spec fn view(&self) -> Seq<Seq<char>> {
        texts(self.args@).skip(self.position as int)
    }

    /// All of `args`.
    fn new(args: &'a [A]) -> (rest: Self)
        ensures
            rest.view() == texts(args@),
    {
        let rest = Remaining { args, position: 0 };
        assert(texts(args@).skip(0) =~= texts(args@));
        rest
    }

    /// Takes the first of the arguments, if one is left.
    fn take_first(&mut self) -> (r: Option<&'a str>)
        ensures
            match r {
                Some(arg) => {
                    &&& old(self).view().len() > 0
                    &&& arg@ == old(self).view()[0]
                    &&& final(self).view() == old(self).view().drop_first()
                },
                None => {
                    &&& old(self).view().len() == 0
                    &&& final(self).view() == old(self).view()
                },
            },
    {
        proof {
            use_type_invariant(&*self);
        }
        if self.position < self.args.len() {
            let arg = self.args[self.position].as_text();
            self.position = self.position + 1;
            assert(self.view() =~= old(self).view().drop_first());
            Some(arg)
        } else {
            None
        }
    }
}

/// The tokenizer's position in the arguments, apart from any configuration.
#[derive(Clone)]
pub struct State<'a, A> {
    first: InnerState<&'a str>,
    rest: Remaining<'a, A>,
}

impl<'a, A: Text> State<'a, A> {
    /// Where the tokenizer stands.
    pub closed spec fn cursor(&self) -> Cursor {
        Cursor {
            pending: match self.first {
                InnerState::Start => Pending::Start,
                InnerState::ShortOpts(shorts) => Pending::ShortOpts(shorts@),
                InnerState::PositionalOnly => Pending::PositionalOnly,
            },
            rest: self.rest.view(),
        }
    }

    /// The state at the start of the arguments.
    pub fn new(args: &'a [A]) -> (state: Self)
        ensures
            state.cursor() == start(texts(args@)),
    {
        State { first: InnerState::Start, rest: Remaining::new(args) }
    }

    /// Takes the next argument. At the end of the arguments, nothing is
    /// pending any more.
    fn next_arg(&mut self) -> (r: Option<&'a str>)
        ensures
            match r {
                Some(arg) => {
                    &&& old(self).cursor().rest.len() > 0
                    &&& arg@ == old(self).cursor().rest[0]
                    &&& final(self).cursor().rest == old(self).cursor().rest.drop_first()
                    &&& final(self).cursor().pending == old(self).cursor().pending
                },
                None => {
                    &&& old(self).cursor().rest.len() == 0
                    &&& final(self).cursor() == start(old(self).cursor().rest)
                },
            },
    {
        match self.rest.take_first() {
            Some(arg) => Some(arg),
            None => {
                self.first = InnerState::Start;
                None
            },
        }
    }

    /// Classifies a long option, given what follows its two hyphens.
    fn parse_long<Cfg: Config>(&mut self, config: Cfg, after_hyphens: &'a str) -> (item: Item<
        'a,
        Cfg::Token,
    >)
        requires
            old(self).cursor().pending is Start,
        ensures
            (item@, final(self).cursor().rest) == long_item(
                config,
                after_hyphens@,
                old(self).cursor().rest,
            ),
            final(self).cursor().pending is Start,
    {
        match find_char(after_hyphens, '=') {
            Some(index) => {
                let len = after_hyphens.unicode_len();
                let long = after_hyphens.substring_char(0, index);
                let param = after_hyphens.substring_char(index + 1, len);
                assert(long@ =~= after_hyphens@.take(index as int));
                assert(param@ =~= after_hyphens@.skip(index + 1));
                let flag = Flag::Long(long);
                match config.get_long_policy(long) {
                    None => Item::Error(ErrorKind::UnknownFlag(flag)),
                    Some(policy) => match policy.presence {
                        Presence::Never => Item::Error(ErrorKind::UnexpectedParam(flag, param)),
                        Presence::IfAttached => Item::Opt(flag, Some(param), policy.token),
                        Presence::Always => Item::Opt(flag, Some(param), policy.token),
                    },
                }
            },
            None => {
                let long = after_hyphens;
                let flag = Flag::Long(long);
                match config.get_long_policy(long) {
                    None => Item::Error(ErrorKind::UnknownFlag(flag)),
                    Some(policy) => match policy.presence {
                        Presence::Never => Item::Opt(flag, None, policy.token),
                        Presence::IfAttached => Item::Opt(flag, None, policy.token),
                        Presence::Always => match self.next_arg() {
                            None => Item::Error(ErrorKind::MissingParam(flag)),
                            Some(param) => Item::Opt(flag, Some(param), policy.token),
                        },
                    },
                }
            },
        }
    }

    /// Classifies the short flag `c`, which `rest` follows in its argument.
    fn parse_short<Cfg: Config>(&mut self, config: Cfg, c: char, rest: &'a str) -> (item: Item<
        'a,
        Cfg::Token,
    >)
        ensures
            (item@, final(self).cursor()) == short_item(config, c, rest@, old(self).cursor().rest),
    {
        let flag = Flag::Short(c);
        match config.get_short_policy(c) {
            None => {
                self.first = InnerState::ShortOpts(rest);
                Item::Error(ErrorKind::UnknownFlag(flag))
            },
            Some(policy) => match policy.presence {
                Presence::Always => if rest.is_empty() {
                    match self.next_arg() {
                        None => Item::Error(ErrorKind::MissingParam(flag)),
                        Some(arg) => {
                            self.first = InnerState::Start;
                            Item::Opt(flag, Some(arg), policy.token)
                        },
                    }
                } else {
                    self.first = InnerState::Start;
                    Item::Opt(flag, Some(rest), policy.token)
                },
                Presence::IfAttached => {
                    self.first = InnerState::Start;
                    if rest.is_empty() {
                        Item::Opt(flag, None, policy.token)
                    } else {
                        Item::Opt(flag, Some(rest), policy.token)
                    }
                },
                Presence::Never => {
                    self.first = InnerState::ShortOpts(rest);
                    Item::Opt(flag, None, policy.token)
                },
            },
        }
    }

    /// Pulls the next item under the configuration `config`.
    pub fn next_with_config<Cfg: Config>(&mut self, config: Cfg) -> (item: Option<
        Item<'a, Cfg::Token>,
    >)
        ensures
            (pulled(item), final(self).cursor()) == step(config, old(self).cursor()),
    {
        loop
            invariant
                step(config, self.cursor()) == step(config, old(self).cursor()),
            decreases
                self.cursor().rest.len(),
                (if self.cursor().pending is ShortOpts { 1nat } else { 0nat }),
        {
            match self.first {
                InnerState::Start => {
                    match self.next_arg() {
                        None => return None,
                        Some(arg) => match split_first_str(arg) {
                            Some((c0, rest)) => {
                                if c0 == '-' {
                                    match split_first_str(rest) {
                                        None => return Some(Item::Positional(arg)),
                                        Some((c1, long)) => {
                                            assert(long@ =~= arg@.skip(2));
                                            assert(rest@ =~= arg@.skip(1));
                                            if c1 == '-' {
                                                if long.is_empty() {
                                                    self.first = InnerState::PositionalOnly;
                                                } else {
                                                    return Some(self.parse_long(config, long));
                                                }
                                            } else {
                                                self.first = InnerState::ShortOpts(rest);
                                            }
                                        },
                                    }
                                } else {
                                    return Some(Item::Positional(arg));
                                }
                            },
                            None => return Some(Item::Positional(arg)),
                        },
                    }
                },
                InnerState::ShortOpts(rest) => {
                    match split_first_str(rest) {
                        None => self.first = InnerState::Start,
                        Some((c, rrest)) => return Some(self.parse_short(config, c, rrest)),
                    }
                },
                InnerState::PositionalOnly => {
                    return match self.next_arg() {
                        Some(arg) => Some(Item::Positional(arg)),
                        None => None,
                    };
                },
            }
        }
    }
}

/// A tokenizer over a slice of arguments: a configuration, and a position
/// in the arguments.
///
/// Each pull yields one item. The configuration can be exchanged between
/// pulls; the position stays as it is.
#[derive(Clone)]
pub struct SliceIter<'a, Cfg, Arg> {
    config: Cfg,
    state: State<'a, Arg>,
}

impl<'a, Cfg, Arg> SliceIter<'a, Cfg, Arg> where Arg: Text {
    /// The configuration under which [`next`](SliceIter::next) pulls.
    pub closed spec fn config(&self) -> Cfg {
        self.config
    }

    /// Where the tokenizer stands.
    pub closed spec fn cursor(&self) -> Cursor {
        self.state.cursor()
    }

    /// A tokenizer at the start of `args`.
    pub fn new(config: Cfg, args: &'a [Arg]) -> (iter: Self)
        ensures
            iter.config() == config,
            iter.cursor() == start(texts(args@)),
    {
        SliceIter { config, state: State::new(args) }
    }

    /// Lends the configuration for a change. The position stays.
    pub fn config_mut(&mut self) -> (config: &mut Cfg)
        ensures
            *config == old(self).config(),
            final(self).config() == *final(config),
            final(self).cursor() == old(self).cursor(),
    {
        &mut self.config
    }

    /// Pulls the next item under another configuration than the tokenizer's
    /// own, which stays.
    pub fn next_with_config<Cfg1: Config>(&mut self, config: Cfg1) -> (item: Option<
        Item<'a, Cfg1::Token>,
    >)
        ensures
            (pulled(item), final(self).cursor()) == step(config, old(self).cursor()),
            final(self).config() == old(self).config(),
    {
        self.state.next_with_config(config)
    }

    /// Exchanges the configuration. The position stays.
    pub fn with_config<Cfg1>(self, config: Cfg1) -> (iter: SliceIter<'a, Cfg1, Arg>)
        ensures
            iter.config() == config,
            iter.cursor() == self.cursor(),
    {
        SliceIter { config, state: self.state }
    }
}

impl<'a, Cfg, Arg> SliceIter<'a, Cfg, Arg> where Cfg: Config, Arg: Text {
    /// Pulls the next item; `None` when the arguments are used up.
    pub fn next(&mut self) -> (item: Option<Item<'a, Cfg::Token>>)
        ensures
            (pulled(item), final(self).cursor()) == step(old(self).config(), old(self).cursor()),
            final(self).config() == old(self).config(),
    {
        proof {
            lemma_step_borrowed(&self.config, self.cursor());
        }
        self.state.next_with_config(&self.config)
    }

    /// Pulls all the items that are left.
    pub fn collect(self) -> (all: Vec<Item<'a, Cfg::Token>>)
        ensures
            item_views(all@) == items(self.config(), self.cursor()),
    {
        let mut iter = self;
        let mut all: Vec<Item<'a, Cfg::Token>> = Vec::new();
        loop
            invariant
                iter.config() == self.config(),
                item_views(all@) + items(iter.config(), iter.cursor()) == items(
                    self.config(),
                    self.cursor(),
                ),
            decreases measure(iter.cursor()),
        {
            proof {
                lemma_step_decreases(iter.config(), iter.cursor());
            }
            let ghost before = all@;
            match iter.next() {
                None => {
                    return all;
                },
                Some(item) => {
                    all.push(item);
                    assert(item_views(all@) =~= item_views(before) + seq![item@]);
                },
            }
        }
    }
}

} // verus!
