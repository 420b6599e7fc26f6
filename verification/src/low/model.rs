//! The tokenizer as mathematics: what one step makes of a cursor over the
//! arguments, and the whole sequence of items that comes out.
//!
//! Everything here is specification. The executable tokenizers state their
//! contracts in these terms.

use vstd::prelude::*;
use super::config::Config;
use super::flag::Flag;
use super::policy::Presence;
use crate::util::first_position;

verus! {

/// What is wrong with an option, with its texts as character sequences.
pub enum ErrorKindView {
    /// The flag is not registered.
    UnknownFlag(Flag<Seq<char>>),
    /// The flag always takes a parameter, and the arguments ended.
    MissingParam(Flag<Seq<char>>),
    /// The long flag never takes a parameter, and one was attached with `=`.
    UnexpectedParam(Flag<Seq<char>>, Seq<char>),
}

/// One classified unit of the command line, with its texts as character
/// sequences.
pub enum ItemView<T> {
    /// A registered option, its parameter if it has one, and its token.
    Opt(Flag<Seq<char>>, Option<Seq<char>>, T),
    /// An argument that is no option.
    Positional(Seq<char>),
    /// A malformed option.
    Error(ErrorKindView),
}

/// What the tokenizer has begun and not finished.
pub enum Pending {
    /// Nothing: the next item starts with the next argument.
    Start,
    /// The characters of a cluster of short flags that are still to be read.
    ShortOpts(Seq<char>),
    /// A `--` argument was read: every further argument is positional.
    PositionalOnly,
}

/// Where the tokenizer stands: what is pending, and the arguments not yet
/// read.
pub struct Cursor {
    pub pending: Pending,
    pub rest: Seq<Seq<char>>,
}

/// The cursor at the start of the arguments `args`.
pub open spec fn start(args: Seq<Seq<char>>) -> Cursor {
    Cursor { pending: Pending::Start, rest: args }
}

/// The item for a long option, given what follows the two hyphens, and the
/// arguments that are left after it.
///
/// With an `=`, the name ends before it and the parameter starts after it;
/// a flag that never takes a parameter is then in error. Without one, a flag
/// that always takes a parameter takes the next argument.
pub open spec fn long_item<C: Config>(config: C, after: Seq<char>, rest: Seq<Seq<char>>) -> (
    ItemView<C::Token>,
    Seq<Seq<char>>,
) {
    match first_position(after, '=') {
        Some(i) => {
            let name = after.take(i);
            let value = after.skip(i + 1);
            let flag = Flag::Long(name);
            match config.long_policy(name) {
                None => (ItemView::Error(ErrorKindView::UnknownFlag(flag)), rest),
                Some(policy) => match policy.presence {
                    Presence::Never => (
                        ItemView::Error(ErrorKindView::UnexpectedParam(flag, value)),
                        rest,
                    ),
                    _ => (ItemView::Opt(flag, Some(value), policy.token), rest),
                },
            }
        },
        None => {
            let flag = Flag::Long(after);
            match config.long_policy(after) {
                None => (ItemView::Error(ErrorKindView::UnknownFlag(flag)), rest),
                Some(policy) => match policy.presence {
                    Presence::Always => if rest.len() == 0 {
                        (ItemView::Error(ErrorKindView::MissingParam(flag)), rest)
                    } else {
                        (ItemView::Opt(flag, Some(rest[0]), policy.token), rest.drop_first())
                    },
                    _ => (ItemView::Opt(flag, None, policy.token), rest),
                },
            }
        },
    }
}

/// The item for the short flag `c`, which `tail` follows in its argument,
/// and the cursor after it.
///
/// An unknown flag and one that never takes a parameter leave the tail to be
/// read as further short flags. The others end the cluster: the tail, when
/// it is not empty, is the parameter; else a flag that always takes one
/// takes the next argument.
pub open spec fn short_item<C: Config>(
    config: C,
    c: char,
    tail: Seq<char>,
    rest: Seq<Seq<char>>,
) -> (ItemView<C::Token>, Cursor) {
    let flag = Flag::Short(c);
    match config.short_policy(c) {
        None => (
            ItemView::Error(ErrorKindView::UnknownFlag(flag)),
            Cursor { pending: Pending::ShortOpts(tail), rest },
        ),
        Some(policy) => match policy.presence {
            Presence::Always => if tail.len() > 0 {
                (ItemView::Opt(flag, Some(tail), policy.token), start(rest))
            } else if rest.len() == 0 {
                (ItemView::Error(ErrorKindView::MissingParam(flag)), start(rest))
            } else {
                (ItemView::Opt(flag, Some(rest[0]), policy.token), start(rest.drop_first()))
            },
            Presence::IfAttached => if tail.len() > 0 {
                (ItemView::Opt(flag, Some(tail), policy.token), start(rest))
            } else {
                (ItemView::Opt(flag, None, policy.token), start(rest))
            },
            Presence::Never => (
                ItemView::Opt(flag, None, policy.token),
                Cursor { pending: Pending::ShortOpts(tail), rest },
            ),
        },
    }
}

/// How an argument reads when nothing is pending.
pub enum Shape {
    /// It does not start with a hyphen, or it is a hyphen alone.
    Positional,
    /// It is `--`: the end of the options.
    EndOfOptions,
    /// It starts with `--`, and this follows.
    Long(Seq<char>),
    /// It starts with one hyphen, and these characters follow.
    Shorts(Seq<char>),
}

/// The shape of one argument.
pub open spec fn shape(arg: Seq<char>) -> Shape {
    if arg.len() >= 2 && arg[0] == '-' {
        if arg[1] == '-' {
            if arg.len() == 2 {
                Shape::EndOfOptions
            } else {
                Shape::Long(arg.skip(2))
            }
        } else {
            Shape::Shorts(arg.skip(1))
        }
    } else {
        Shape::Positional
    }
}

/// One pull: the next item, if there is one, and the cursor after it.
///
/// A `--` argument and the end of a cluster yield no item of their own: the
/// step goes on from the cursor after them.
pub open spec fn step<C: Config>(config: C, cur: Cursor) -> (Option<ItemView<C::Token>>, Cursor)
    decreases cur.rest.len(), (if cur.pending is ShortOpts { 1nat } else { 0nat }),
{
    match cur.pending {
        Pending::Start => if cur.rest.len() == 0 {
            (None, start(cur.rest))
        } else {
            let arg = cur.rest[0];
            let rest = cur.rest.drop_first();
            match shape(arg) {
                Shape::Positional => (Some(ItemView::Positional(arg)), start(rest)),
                Shape::EndOfOptions => step(
                    config,
                    Cursor { pending: Pending::PositionalOnly, rest },
                ),
                Shape::Long(after) => {
                    let (item, left) = long_item(config, after, rest);
                    (Some(item), start(left))
                },
                Shape::Shorts(shorts) => step(
                    config,
                    Cursor { pending: Pending::ShortOpts(shorts), rest },
                ),
            }
        },
        Pending::ShortOpts(shorts) => if shorts.len() == 0 {
            step(config, start(cur.rest))
        } else {
            let (item, next) = short_item(config, shorts[0], shorts.drop_first(), cur.rest);
            (Some(item), next)
        },
        Pending::PositionalOnly => if cur.rest.len() == 0 {
            (None, start(cur.rest))
        } else {
            (
                Some(ItemView::Positional(cur.rest[0])),
                Cursor { pending: Pending::PositionalOnly, rest: cur.rest.drop_first() },
            )
        },
    }
}

/// The size of the arguments not yet read: two for each, and one for each of
/// their characters.
pub open spec fn weight(rest: Seq<Seq<char>>) -> nat
    decreases rest.len(),
{
    if rest.len() == 0 {
        0
    } else {
        rest[0].len() + 2 + weight(rest.drop_first())
    }
}

/// How much is left to read from a cursor. Every item that a step yields
/// makes it smaller.
pub open spec fn measure(cur: Cursor) -> nat {
    weight(cur.rest) + match cur.pending {
        Pending::ShortOpts(shorts) => shorts.len(),
        _ => 0,
    }
}

/// The item for a long option takes at most one further argument.
pub proof fn lemma_long_item_rest<C: Config>(config: C, after: Seq<char>, rest: Seq<Seq<char>>)
    ensures
        weight(long_item(config, after, rest).1) <= weight(rest),
{
}

/// The item for a short flag leaves less to read than there was with the
/// flag still pending.
pub proof fn lemma_short_item_decreases<C: Config>(
    config: C,
    c: char,
    tail: Seq<char>,
    rest: Seq<Seq<char>>,
)
    ensures
        measure(short_item(config, c, tail, rest).1) <= weight(rest) + tail.len(),
{
}

/// A step that yields an item leaves less to read; one that yields none
/// leaves nothing.
pub proof fn lemma_step_decreases<C: Config>(config: C, cur: Cursor)
    ensures
        step(config, cur).0 is Some ==> measure(step(config, cur).1) < measure(cur),
        step(config, cur).0 is None ==> step(config, cur).1 == start(Seq::<Seq<char>>::empty()),
    decreases cur.rest.len(), (if cur.pending is ShortOpts { 1nat } else { 0nat }),
{
    match cur.pending {
        Pending::Start => {
            if cur.rest.len() == 0 {
                assert(cur.rest =~= Seq::<Seq<char>>::empty());
            } else {
                let arg = cur.rest[0];
                let rest = cur.rest.drop_first();
                assert(weight(cur.rest) == arg.len() + 2 + weight(rest));
                match shape(arg) {
                    Shape::Positional => {},
                    Shape::EndOfOptions => {
                        lemma_step_decreases(
                            config,
                            Cursor { pending: Pending::PositionalOnly, rest },
                        );
                    },
                    Shape::Long(after) => {
                        lemma_long_item_rest(config, after, rest);
                    },
                    Shape::Shorts(shorts) => {
                        lemma_step_decreases(
                            config,
                            Cursor { pending: Pending::ShortOpts(shorts), rest },
                        );
                    },
                }
            }
        },
        Pending::ShortOpts(shorts) => {
            if shorts.len() == 0 {
                lemma_step_decreases(config, start(cur.rest));
            } else {
                lemma_short_item_decreases(config, shorts[0], shorts.drop_first(), cur.rest);
            }
        },
        Pending::PositionalOnly => {
            if cur.rest.len() == 0 {
                assert(cur.rest =~= Seq::<Seq<char>>::empty());
            }
        },
    }
}

/// Every item that the tokenizer yields from a cursor on, in order.
pub open spec fn items<C: Config>(config: C, cur: Cursor) -> Seq<ItemView<C::Token>>
    decreases measure(cur),
    via items_terminates::<C>
{
    let (item, next) = step(config, cur);
    match item {
        None => Seq::empty(),
        Some(item) => seq![item] + items(config, next),
    }
}

#[via_fn]
proof fn items_terminates<C: Config>(config: C, cur: Cursor) {
    lemma_step_decreases(config, cur);
}

/// Do two configurations hold the same policy for every flag?
pub open spec fn same_policies<A: Config, B: Config<Token = A::Token>>(
    first: A,
    second: B,
) -> bool {
    &&& forall|short: char| #[trigger] first.short_policy(short) == second.short_policy(short)
    &&& forall|long: Seq<char>| #[trigger] first.long_policy(long) == second.long_policy(long)
}

/// The tokenizer knows a configuration by its answers alone: under two
/// configurations that hold the same policy for every flag, of whatever
/// kinds they are, a step yields the same item and leads to the same
/// cursor.
pub proof fn lemma_step_same_policies<A: Config, B: Config<Token = A::Token>>(
    first: A,
    second: B,
    cur: Cursor,
)
    requires
        same_policies(first, second),
    ensures
        step(first, cur) == step(second, cur),
    decreases cur.rest.len(), (if cur.pending is ShortOpts { 1nat } else { 0nat }),
{
    match cur.pending {
        Pending::Start => {
            if cur.rest.len() > 0 {
                let rest = cur.rest.drop_first();
                match shape(cur.rest[0]) {
                    Shape::EndOfOptions => {
                        lemma_step_same_policies(
                            first,
                            second,
                            Cursor { pending: Pending::PositionalOnly, rest },
                        );
                    },
                    Shape::Shorts(shorts) => {
                        lemma_step_same_policies(
                            first,
                            second,
                            Cursor { pending: Pending::ShortOpts(shorts), rest },
                        );
                    },
                    _ => {},
                }
            }
        },
        Pending::ShortOpts(shorts) => {
            if shorts.len() == 0 {
                lemma_step_same_policies(first, second, start(cur.rest));
            }
        },
        Pending::PositionalOnly => {},
    }
}

/// Under two configurations that hold the same policy for every flag, the
/// tokenizer yields the same items.
pub proof fn lemma_items_same_policies<A: Config, B: Config<Token = A::Token>>(
    first: A,
    second: B,
    cur: Cursor,
)
    requires
        same_policies(first, second),
    ensures
        items(first, cur) == items(second, cur),
    decreases measure(cur),
{
    lemma_step_same_policies(first, second, cur);
    lemma_step_decreases(first, cur);
    if step(first, cur).0 is Some {
        lemma_items_same_policies(first, second, step(first, cur).1);
    }
}

/// A step under a borrowed configuration is the step under the
/// configuration itself.
pub proof fn lemma_step_borrowed<C: Config>(config: &C, cur: Cursor)
    ensures
        step::<&C>(config, cur) == step::<C>(*config, cur),
{
    lemma_step_same_policies::<&C, C>(config, *config, cur);
}

} // verus!
