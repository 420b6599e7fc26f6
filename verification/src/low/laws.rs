//! Laws of the configurations and of the tokenizer, proved of the model
//! that the executable functions are held to.

use vstd::prelude::*;
use super::config::Config;
use super::flag::Flag;
use super::model::{
    items, short_item, start, step, Cursor, ErrorKindView, ItemView, Pending,
};
use crate::util::lemma_first_position_is;
use super::policy::{Policy, Presence};

verus! {

/// Looking a short flag up twice gives the same answer twice: whatever two
/// calls of `get_short_policy` return for one configuration and one
/// character is equal.
pub proof fn lemma_short_lookup_repeats<C: Config>(
    config: &C,
    short: char,
    first: Option<Policy<C::Token>>,
    second: Option<Policy<C::Token>>,
)
    requires
        call_ensures(C::get_short_policy, (config, short), first),
        call_ensures(C::get_short_policy, (config, short), second),
    ensures
        first == second,
        first == config.short_policy(short),
{
}

/// Looking a long flag up twice gives the same answer twice: whatever two
/// calls of `get_long_policy` return for one configuration and one name is
/// equal, also where two strings hold the name.
pub proof fn lemma_long_lookup_repeats<C: Config>(
    config: &C,
    long: &str,
    again: &str,
    first: Option<Policy<C::Token>>,
    second: Option<Policy<C::Token>>,
)
    requires
        long@ == again@,
        call_ensures(C::get_long_policy, (config, long), first),
        call_ensures(C::get_long_policy, (config, again), second),
    ensures
        first == second,
        first == config.long_policy(long@),
{
}

/// In an overlay of two configurations the first one wins: a short flag
/// that the first registers has the policy that the first gives it,
/// whatever the second says of it.
pub proof fn lemma_overlay_prefers_first_short<A: Config, B: Config<Token = A::Token>>(
    first: A,
    second: B,
    short: char,
)
    requires
        first.short_policy(short) is Some,
    ensures
        (first, second).short_policy(short) == first.short_policy(short),
{
}

/// In an overlay of two configurations the first one wins: a long flag that
/// the first registers has the policy that the first gives it, whatever the
/// second says of it.
pub proof fn lemma_overlay_prefers_first_long<A: Config, B: Config<Token = A::Token>>(
    first: A,
    second: B,
    long: Seq<char>,
)
    requires
        first.long_policy(long) is Some,
    ensures
        (first, second).long_policy(long) == first.long_policy(long),
{
}

/// An overlay asks the second configuration about the flags that the first
/// does not know.
pub proof fn lemma_overlay_falls_back<A: Config, B: Config<Token = A::Token>>(
    first: A,
    second: B,
    short: char,
    long: Seq<char>,
)
    ensures
        first.short_policy(short) is None ==> (first, second).short_policy(short)
            == second.short_policy(short),
        first.long_policy(long) is None ==> (first, second).long_policy(long)
            == second.long_policy(long),
{
}

/// Does the short flag `c` leave the rest of its cluster to be read as
/// further flags: is it unknown, or does it never take a parameter?
pub open spec fn passes<C: Config>(config: C, c: char) -> bool {
    match config.short_policy(c) {
        Some(policy) => policy.presence == Presence::Never,
        None => true,
    }
}

/// The item for a short flag that leaves the rest of its cluster to be
/// read: an error where the flag is unknown, else an option without a
/// parameter.
pub open spec fn passing_item<C: Config>(config: C, c: char) -> ItemView<C::Token> {
    match config.short_policy(c) {
        Some(policy) => ItemView::Opt(Flag::Short(c), None, policy.token),
        None => ItemView::Error(ErrorKindView::UnknownFlag(Flag::Short(c))),
    }
}

/// One item for each character of `cluster`, in order.
pub open spec fn passing_items<C: Config>(config: C, cluster: Seq<char>) -> Seq<
    ItemView<C::Token>,
> {
    Seq::<ItemView<C::Token>>::new(cluster.len(), |i: int| passing_item(config, cluster[i]))
}

/// With a cluster of short flags pending of which none takes a parameter,
/// the tokenizer yields one item for each of them, and then goes on with
/// the arguments as they were.
pub proof fn lemma_pending_cluster<C: Config>(config: C, cluster: Seq<char>, rest: Seq<Seq<char>>)
    requires
        forall|i: int| 0 <= i < cluster.len() ==> passes(config, #[trigger] cluster[i]),
    ensures
        items(config, Cursor { pending: Pending::ShortOpts(cluster), rest }) == passing_items(
            config,
            cluster,
        ) + items(config, start(rest)),
    decreases cluster.len(),
{
    let cur = Cursor { pending: Pending::ShortOpts(cluster), rest };
    if cluster.len() == 0 {
        assert(step(config, cur) == step(config, start(rest)));
        assert(passing_items(config, cluster) + items(config, start(rest)) =~= items(
            config,
            start(rest),
        ));
    } else {
        let tail = cluster.drop_first();
        let first = passing_item(config, cluster[0]);
        let next = Cursor { pending: Pending::ShortOpts(tail), rest };
        assert(passes(config, cluster[0]));
        assert(short_item(config, cluster[0], tail, rest) == (first, next));
        assert(step(config, cur) == (Some(first), next));
        assert forall|i: int| 0 <= i < tail.len() implies passes(config, #[trigger] tail[i]) by {
            assert(tail[i] == cluster[i + 1]);
        }
        lemma_pending_cluster(config, tail, rest);
        assert(passing_items(config, cluster) =~= seq![first] + passing_items(config, tail));
        assert(seq![first] + (passing_items(config, tail) + items(config, start(rest))) =~= (
            seq![first] + passing_items(config, tail)) + items(config, start(rest)));
    }
}

/// An argument made of a hyphen and a cluster of short flags of which none
/// takes a parameter yields one item for each flag, and uses up that one
/// argument and no other.
pub proof fn lemma_cluster<C: Config>(config: C, cluster: Seq<char>, rest: Seq<Seq<char>>)
    requires
        cluster.len() > 0,
        cluster[0] != '-',
        forall|i: int| 0 <= i < cluster.len() ==> passes(config, #[trigger] cluster[i]),
    ensures
        items(config, start(seq![seq!['-'] + cluster] + rest)) == passing_items(config, cluster)
            + items(config, start(rest)),
{
    let arg = seq!['-'] + cluster;
    let args = seq![arg] + rest;
    let pending = Cursor { pending: Pending::ShortOpts(cluster), rest };
    assert(args[0] == arg);
    assert(args.drop_first() =~= rest);
    assert(arg.skip(1) =~= cluster);
    assert(arg[1] == cluster[0]);
    assert(step(config, start(args)) == step(config, pending));
    lemma_pending_cluster(config, cluster, rest);
}

/// Is every character of `cluster` a registered short flag that never takes
/// a parameter?
pub open spec fn all_never<C: Config>(config: C, cluster: Seq<char>) -> bool {
    forall|i: int|
        0 <= i < cluster.len() ==> match #[trigger] config.short_policy(cluster[i]) {
            Some(policy) => policy.presence == Presence::Never,
            None => false,
        }
}

/// Cluster conservation: an argument made of a hyphen and `n` short flags
/// that never take a parameter yields exactly `n` options, none with a
/// parameter, and uses up that one argument and no other. After them come
/// the items of the arguments that follow.
pub proof fn lemma_cluster_conservation<C: Config>(
    config: C,
    cluster: Seq<char>,
    rest: Seq<Seq<char>>,
)
    requires
        cluster.len() > 0,
        cluster[0] != '-',
        all_never(config, cluster),
    ensures
        items(config, start(seq![seq!['-'] + cluster] + rest)) == passing_items(config, cluster)
            + items(config, start(rest)),
        passing_items(config, cluster).len() == cluster.len(),
        forall|i: int|
            0 <= i < cluster.len() ==> #[trigger] passing_items(config, cluster)[i]
                == ItemView::Opt(
                Flag::Short(cluster[i]),
                None,
                config.short_policy(cluster[i])->0.token,
            ),
{
    assert forall|i: int| 0 <= i < cluster.len() implies passes(config, #[trigger] cluster[i]) by {
        assert(config.short_policy(cluster[i]) is Some);
    }
    lemma_cluster(config, cluster, rest);
    assert forall|i: int| 0 <= i < cluster.len() implies #[trigger] passing_items(
        config,
        cluster,
    )[i] == ItemView::Opt(
        Flag::Short(cluster[i]),
        None,
        config.short_policy(cluster[i])->0.token,
    ) by {
        assert(config.short_policy(cluster[i]) is Some);
    }
}

/// An unknown flag does not end its cluster: an argument made of a hyphen
/// and `n` characters of which none is a registered short flag yields
/// exactly `n` errors, one for each character in order, each saying that
/// the flag is unknown.
pub proof fn lemma_unknown_cluster<C: Config>(config: C, cluster: Seq<char>, rest: Seq<Seq<char>>)
    requires
        cluster.len() > 0,
        cluster[0] != '-',
        forall|i: int| 0 <= i < cluster.len() ==> (#[trigger] config.short_policy(cluster[i]))
            is None,
    ensures
        items(config, start(seq![seq!['-'] + cluster] + rest)) == passing_items(config, cluster)
            + items(config, start(rest)),
        passing_items(config, cluster).len() == cluster.len(),
        forall|i: int|
            0 <= i < cluster.len() ==> #[trigger] passing_items(config, cluster)[i]
                == ItemView::<C::Token>::Error(
                ErrorKindView::UnknownFlag(Flag::Short(cluster[i])),
            ),
{
    assert forall|i: int| 0 <= i < cluster.len() implies passes(config, #[trigger] cluster[i]) by {
        assert(config.short_policy(cluster[i]) is None);
    }
    lemma_cluster(config, cluster, rest);
    assert forall|i: int| 0 <= i < cluster.len() implies #[trigger] passing_items(
        config,
        cluster,
    )[i] == ItemView::<C::Token>::Error(ErrorKindView::UnknownFlag(Flag::Short(cluster[i]))) by {
        assert(config.short_policy(cluster[i]) is None);
    }
}

/// Attach precedence: where a short flag that takes a parameter is followed
/// by more characters in its argument, all of them are its parameter, and
/// none is read as a flag.
pub proof fn lemma_attached_parameter<C: Config>(
    config: C,
    c: char,
    tail: Seq<char>,
    rest: Seq<Seq<char>>,
)
    requires
        c != '-',
        tail.len() > 0,
        match config.short_policy(c) {
            Some(policy) => policy.presence != Presence::Never,
            None => false,
        },
    ensures
        items(config, start(seq![seq!['-', c] + tail] + rest)) == seq![
            ItemView::Opt(Flag::Short(c), Some(tail), config.short_policy(c)->0.token),
        ] + items(config, start(rest)),
{
    let arg = seq!['-', c] + tail;
    let args = seq![arg] + rest;
    let shorts = seq![c] + tail;
    let pending = Cursor { pending: Pending::ShortOpts(shorts), rest };
    assert(args[0] == arg);
    assert(args.drop_first() =~= rest);
    assert(arg.skip(1) =~= shorts);
    assert(shorts.drop_first() =~= tail);
    assert(step(config, start(args)) == step(config, pending));
    assert(step(config, pending).1 == start(rest));
}

/// Separate-token fallback: where a short flag that always takes a
/// parameter ends its argument, the next argument is its parameter,
/// whatever it looks like.
pub proof fn lemma_separate_parameter<C: Config>(
    config: C,
    c: char,
    param: Seq<char>,
    rest: Seq<Seq<char>>,
)
    requires
        c != '-',
        match config.short_policy(c) {
            Some(policy) => policy.presence == Presence::Always,
            None => false,
        },
    ensures
        items(config, start(seq![seq!['-', c], param] + rest)) == seq![
            ItemView::Opt(Flag::Short(c), Some(param), config.short_policy(c)->0.token),
        ] + items(config, start(rest)),
{
    let arg = seq!['-', c];
    let args = seq![arg, param] + rest;
    let left = seq![param] + rest;
    let pending = Cursor { pending: Pending::ShortOpts(seq![c]), rest: left };
    assert(args[0] == arg);
    assert(args.drop_first() =~= left);
    assert(arg.skip(1) =~= seq![c]);
    assert(seq![c].drop_first() =~= Seq::<char>::empty());
    assert(left.drop_first() =~= rest);
    assert(step(config, start(args)) == step(config, pending));
    assert(step(config, pending).1 == start(rest));
}

/// Missing terminal parameter: where a short flag that always takes a
/// parameter ends the last argument, the tokenizer yields the error that
/// the parameter is missing, and nothing after it.
pub proof fn lemma_missing_parameter<C: Config>(config: C, c: char)
    requires
        c != '-',
        match config.short_policy(c) {
            Some(policy) => policy.presence == Presence::Always,
            None => false,
        },
    ensures
        items(config, start(seq![seq!['-', c]])) == seq![
            ItemView::<C::Token>::Error(ErrorKindView::MissingParam(Flag::Short(c))),
        ],
{
    let arg = seq!['-', c];
    let args = seq![arg];
    let none = Seq::<Seq<char>>::empty();
    let pending = Cursor { pending: Pending::ShortOpts(seq![c]), rest: none };
    assert(args.drop_first() =~= none);
    assert(arg.skip(1) =~= seq![c]);
    assert(seq![c].drop_first() =~= Seq::<char>::empty());
    assert(step(config, start(args)) == step(config, pending));
    assert(step(config, pending).1 == start(none));
    assert(items(config, start(none)) =~= Seq::<ItemView<C::Token>>::empty());
    let error = ItemView::<C::Token>::Error(ErrorKindView::MissingParam(Flag::Short(c)));
    assert(seq![error] + Seq::<ItemView<C::Token>>::empty() =~= seq![error]);
}

/// One positional item for each of `args`, in order.
pub open spec fn positionals<T>(args: Seq<Seq<char>>) -> Seq<ItemView<T>> {
    Seq::<ItemView<T>>::new(args.len(), |i: int| ItemView::Positional(args[i]))
}

/// After the end of the options every argument is positional, whatever it
/// looks like.
pub proof fn lemma_positional_only<C: Config>(config: C, rest: Seq<Seq<char>>)
    ensures
        items(config, Cursor { pending: Pending::PositionalOnly, rest }) == positionals::<C::Token>(
            rest,
        ),
    decreases rest.len(),
{
    let cur = Cursor { pending: Pending::PositionalOnly, rest };
    if rest.len() == 0 {
        assert(items(config, cur) =~= positionals::<C::Token>(rest));
    } else {
        let first = ItemView::<C::Token>::Positional(rest[0]);
        lemma_positional_only(config, rest.drop_first());
        assert(positionals::<C::Token>(rest) =~= seq![first] + positionals::<C::Token>(
            rest.drop_first(),
        ));
    }
}

/// End of options: the argument `--` yields no item, and every argument
/// after it is positional and never read as a flag.
pub proof fn lemma_end_of_options<C: Config>(config: C, rest: Seq<Seq<char>>)
    ensures
        items(config, start(seq![seq!['-', '-']] + rest)) == positionals::<C::Token>(rest),
{
    let args = seq![seq!['-', '-']] + rest;
    let after = Cursor { pending: Pending::PositionalOnly, rest };
    assert(args.drop_first() =~= rest);
    assert(step(config, start(args)) == step(config, after));
    lemma_positional_only(config, rest);
}

/// A parameter that is attached to a long flag which never takes one is an
/// error, which holds the flag and the parameter.
pub proof fn lemma_unexpected_parameter<C: Config>(
    config: C,
    name: Seq<char>,
    value: Seq<char>,
    rest: Seq<Seq<char>>,
)
    requires
        !name.contains('='),
        match config.long_policy(name) {
            Some(policy) => policy.presence == Presence::Never,
            None => false,
        },
    ensures
        items(config, start(seq![seq!['-', '-'] + name + seq!['='] + value] + rest)) == seq![
            ItemView::<C::Token>::Error(
                ErrorKindView::UnexpectedParam(Flag::Long(name), value),
            ),
        ] + items(config, start(rest)),
{
    let arg = seq!['-', '-'] + name + seq!['='] + value;
    let args = seq![arg] + rest;
    let after = name + seq!['='] + value;
    assert(args.drop_first() =~= rest);
    assert(arg.skip(2) =~= after);
    assert(after[name.len() as int] == '=');
    assert forall|j: int| 0 <= j < name.len() implies after[j] != '=' by {
        assert(after[j] == name[j]);
        assert(name.contains(name[j]));
    }
    lemma_first_position_is(after, '=', name.len() as int);
    assert(after.take(name.len() as int) =~= name);
    assert(after.skip(name.len() as int + 1) =~= value);
    assert(step(config, start(args)).1 == start(rest));
}

} // verus!
