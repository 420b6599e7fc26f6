//! Configurations: what the tokenizer asks about each flag it meets.

use vstd::prelude::*;
use vstd::hash_map::StringHashMap;
use vstd::string::StringExecFns;
use std::collections::HashMap;
use std::marker::PhantomData;
use super::flag::{Flag, IntoFlag};
use super::model::start;
use super::slice_iter::{texts, SliceIter};
use super::policy::{IntoPolicy, IntoPresence, Policy};
use super::text::Text;
use crate::util::{first_position, lemma_first_position_is, lemma_first_position_none};

verus! {

broadcast use vstd::std_specs::hash::group_hash_axioms;

/// The capability that the tokenizer needs: to be told, for a short
/// character or a long name, the policy of that option, or that no such
/// option is registered.
///
/// Both lookups are functions of the configuration and the key: `None`
/// means that the option is unknown, which is different from any
/// [`Presence`](super::Presence).
pub trait Config {
    /// What the caller attaches to each option, handed through to the items.
    type Token;

    /// The policy registered for the short flag `short`, if any.
    spec fn short_policy(&self, short: char) -> Option<Policy<Self::Token>>;

    /// The policy registered for the long flag `long`, if any.
    spec fn long_policy(&self, long: Seq<char>) -> Option<Policy<Self::Token>>;

    /// Looks up a short flag.
    fn get_short_policy(&self, short: char) -> (r: Option<Policy<Self::Token>>)
        ensures
            r == self.short_policy(short),
    ;

    /// Looks up a long flag.
    fn get_long_policy(&self, long: &str) -> (r: Option<Policy<Self::Token>>)
        ensures
            r == self.long_policy(long@),
    ;

    /// A tokenizer over `args` that borrows this configuration.
    fn slice_iter<'a, Arg>(&self, args: &'a [Arg]) -> (iter: SliceIter<'a, &Self, Arg>) where
        Arg: Text,

        ensures
            iter.config() == self,
            iter.cursor() == start(texts(args@)),
    {
        SliceIter::new(self, args)
    }

    /// A tokenizer over `args` that owns this configuration.
    fn into_slice_iter<Arg>(self, args: &[Arg]) -> (iter: SliceIter<'_, Self, Arg>) where
        Self: Sized,
        Arg: Text,

        ensures
            iter.config() == self,
            iter.cursor() == start(texts(args@)),
    {
        SliceIter::new(self, args)
    }
}

impl<'a, C: Config + ?Sized> Config for &'a C {
    type Token = C::Token;

    open spec fn short_policy(&self, short: char) -> Option<Policy<C::Token>> {
        (**self).short_policy(short)
    }

    open spec fn long_policy(&self, long: Seq<char>) -> Option<Policy<C::Token>> {
        (**self).long_policy(long)
    }

    fn get_short_policy(&self, short: char) -> (r: Option<Policy<C::Token>>) {
        C::get_short_policy(self, short)
    }

    fn get_long_policy(&self, long: &str) -> (r: Option<Policy<C::Token>>) {
        C::get_long_policy(self, long)
    }
}

impl<C: Config + ?Sized> Config for Box<C> {
    type Token = C::Token;

    open spec fn short_policy(&self, short: char) -> Option<Policy<C::Token>> {
        (**self).short_policy(short)
    }

    open spec fn long_policy(&self, long: Seq<char>) -> Option<Policy<C::Token>> {
        (**self).long_policy(long)
    }

    fn get_short_policy(&self, short: char) -> (r: Option<Policy<C::Token>>) {
        C::get_short_policy(&self, short)
    }

    fn get_long_policy(&self, long: &str) -> (r: Option<Policy<C::Token>>) {
        C::get_long_policy(&self, long)
    }
}

/// The first of two answers that is not `None`.
pub open spec fn or_else<A>(first: Option<A>, second: Option<A>) -> Option<A> {
    match first {
        Some(a) => Some(a),
        None => second,
    }
}

/// A pair of configurations is their overlay: the first is asked first, and
/// the second only about what the first does not know.
impl<A, B> Config for (A, B) where A: Config, B: Config<Token = A::Token> {
    type Token = A::Token;

    open spec fn short_policy(&self, short: char) -> Option<Policy<A::Token>> {
        or_else(self.0.short_policy(short), self.1.short_policy(short))
    }

    open spec fn long_policy(&self, long: Seq<char>) -> Option<Policy<A::Token>> {
        or_else(self.0.long_policy(long), self.1.long_policy(long))
    }

    fn get_short_policy(&self, short: char) -> (r: Option<Policy<A::Token>>) {
        match self.0.get_short_policy(short) {
            Some(policy) => Some(policy),
            None => self.1.get_short_policy(short),
        }
    }

    fn get_long_policy(&self, long: &str) -> (r: Option<Policy<A::Token>>) {
        match self.0.get_long_policy(long) {
            Some(policy) => Some(policy),
            None => self.1.get_long_policy(long),
        }
    }
}

/// A configuration held in two hash tables, one for the short flags and one
/// for the long ones.
///
/// `L` is the type in which long names are registered through
/// [`opt`](HashConfig::opt); `T` is the token type.
/// The number under which a short flag is kept in the table.
pub open spec fn code(c: char) -> u32 {
    c as u32
}

/// Different characters are kept under different numbers.
pub proof fn lemma_code_injective(c: char, d: char)
    requires
        code(c) == code(d),
    ensures
        c == d,
{
}

#[verifier::reject_recursive_types(L)]
#[verifier::reject_recursive_types(T)]
pub struct HashConfig<L, T = ()> {
    short_opts: HashMap<u32, Policy<T>>,
    long_opts: StringHashMap<Policy<T>>,
    phantom: PhantomData<L>,
}

impl<L, T> HashConfig<L, T> {
    /// The registered short flags, each with its policy.
    pub closed spec fn shorts(&self) -> Map<char, Policy<T>> {
        Map::new(
            |c: char| self.short_opts@.contains_key(code(c)),
            |c: char| self.short_opts@[code(c)],
        )
    }

    /// The registered long flags, each with its policy.
    pub closed spec fn longs(&self) -> Map<Seq<char>, Policy<T>> {
        self.long_opts@
    }

    /// A configuration that knows no flag.
    pub fn new() -> (config: Self)
        ensures
            config.shorts() == Map::<char, Policy<T>>::empty(),
            config.longs() == Map::<Seq<char>, Policy<T>>::empty(),
    {
        let config = HashConfig {
            short_opts: HashMap::new(),
            long_opts: StringHashMap::new(),
            phantom: PhantomData,
        };
        assert(config.shorts() =~= Map::<char, Policy<T>>::empty());
        config
    }

    /// A configuration that knows no flag, with room for the given numbers
    /// of short and long flags.
    pub fn with_capacities(shorts: usize, longs: usize) -> (config: Self)
        ensures
            config.shorts() == Map::<char, Policy<T>>::empty(),
            config.longs() == Map::<Seq<char>, Policy<T>>::empty(),
    {
        let config = HashConfig {
            short_opts: HashMap::with_capacity(shorts),
            long_opts: StringHashMap::with_capacity(longs),
            phantom: PhantomData,
        };
        assert(config.shorts() =~= Map::<char, Policy<T>>::empty());
        config
    }

    /// Registers a short flag. A later registration of the same flag
    /// replaces an earlier one.
    pub fn short<P>(self, flag: char, param: P) -> (config: Self) where P: IntoPolicy<T>
        ensures
            config.shorts() == self.shorts().insert(flag, param.policy()),
            config.longs() == self.longs(),
    {
        let mut config = self;
        config.short_opts.insert(flag as u32, param.into_policy());
        proof {
            assert forall|c: char| #[trigger] code(c) == code(flag) implies c == flag by {
                lemma_code_injective(c, flag);
            }
            assert(config.shorts() =~= self.shorts().insert(flag, param.policy()));
        }
        config
    }

    /// Registers a long flag. A later registration of the same flag
    /// replaces an earlier one.
    pub fn long<S, P>(self, flag: S, param: P) -> (config: Self) where S: Text, P: IntoPolicy<T>
        ensures
            config.shorts() == self.shorts(),
            config.longs() == self.longs().insert(flag.text(), param.policy()),
    {
        let mut config = self;
        config.long_opts.insert(String::from_str(flag.as_text()), param.into_policy());
        assert(config.shorts() =~= self.shorts());
        config
    }

    /// Registers one option under a short and a long flag.
    pub fn both<S, P>(self, short: char, long: S, param: P) -> (config: Self) where
        S: Text,
        P: IntoPolicy<T>,
        T: Copy,

        ensures
            config.shorts() == self.shorts().insert(short, param.policy()),
            config.longs() == self.longs().insert(long.text(), param.policy()),
    {
        let policy = param.into_policy();
        self.short(short, policy).long(long, policy)
    }
}

impl<L: Text, T> HashConfig<L, T> {
    /// Registers a flag, short or long.
    pub fn opt<F, P>(self, flag: F, param: P) -> (config: Self) where
        F: IntoFlag<L>,
        P: IntoPolicy<T>,

        ensures
            match flag.flag() {
                Flag::Short(c) => {
                    &&& config.shorts() == self.shorts().insert(c, param.policy())
                    &&& config.longs() == self.longs()
                },
                Flag::Long(name) => {
                    &&& config.shorts() == self.shorts()
                    &&& config.longs() == self.longs().insert(name.text(), param.policy())
                },
            },
    {
        match flag.into_flag() {
            Flag::Short(short) => self.short(short, param),
            Flag::Long(long) => self.long(long, param),
        }
    }
}

/// What a map holds under a key, or `None`.
pub open spec fn map_get<K, V>(m: Map<K, V>, k: K) -> Option<V> {
    if m.contains_key(k) {
        Some(m[k])
    } else {
        None
    }
}

impl<L, T: Copy> Config for HashConfig<L, T> {
    type Token = T;

    open spec fn short_policy(&self, short: char) -> Option<Policy<T>> {
        map_get(self.shorts(), short)
    }

    open spec fn long_policy(&self, long: Seq<char>) -> Option<Policy<T>> {
        map_get(self.longs(), long)
    }

    fn get_short_policy(&self, short: char) -> (r: Option<Policy<T>>) {
        let key = short as u32;
        match self.short_opts.get(&key) {
            Some(policy) => Some(*policy),
            None => None,
        }
    }

    fn get_long_policy(&self, long: &str) -> (r: Option<Policy<T>>) {
        match self.long_opts.get(long) {
            Some(policy) => Some(*policy),
            None => None,
        }
    }
}

/// The policy, with the unit token, that an optional presence stands for.
pub open spec fn unit_policy<P: IntoPresence>(answer: Option<P>) -> Option<Policy<()>> {
    match answer {
        Some(p) => Some(Policy { presence: p.presence(), token: () }),
        None => None,
    }
}

/// A configuration given as a function from flags to optional presences.
#[verifier::reject_recursive_types(F)]
#[verifier::reject_recursive_types(P)]
pub struct FnConfig<F, P> where F: Fn(Flag<&str>) -> Option<P>, P: IntoPresence {
    fun: F,
    phantom: PhantomData<P>,
}

impl<F, P> FnConfig<F, P> where F: Fn(Flag<&str>) -> Option<P>, P: IntoPresence {
    /// Can `fun` serve as a configuration? It must accept every flag, and
    /// its answer must depend on nothing but the flag, long names taken as
    /// text.
    pub open spec fn is_lookup(fun: F) -> bool {
        &&& forall|flag: Flag<&str>| #[trigger] call_requires(fun, (flag,))
        &&& forall|f1: Flag<&str>, f2: Flag<&str>, r1: Option<P>, r2: Option<P>|
            f1@ == f2@ && #[trigger] call_ensures(fun, (f1,), r1) && #[trigger] call_ensures(
                fun,
                (f2,),
                r2,
            ) ==> r1 == r2
    }

    /// May `fun` give the answer `r` for `flag`?
    pub open spec fn may_answer(fun: F, flag: Flag<Seq<char>>, r: Option<P>) -> bool {
        exists|f: Flag<&str>| f@ == flag && #[trigger] call_ensures(fun, (f,), r)
    }

    #[verifier::type_invariant]
    spec fn inv(self) -> bool {
        Self::is_lookup(self.fun)
    }

    /// The function that the configuration asks.
    pub closed spec fn fun(&self) -> F {
        self.fun
    }

    /// The answer of the function for `flag`.
    pub open spec fn answer(&self, flag: Flag<Seq<char>>) -> Option<P> {
        choose|r: Option<P>| Self::may_answer(self.fun(), flag, r)
    }

    /// Makes a configuration of a function.
    pub fn new(fun: F) -> (config: Self)
        requires
            Self::is_lookup(fun),
        ensures
            config.fun() == fun,
    {
        FnConfig { fun, phantom: PhantomData }
    }

    /// Gives the function back.
    pub fn into_inner(self) -> (fun: F)
        ensures
            fun == self.fun(),
            Self::is_lookup(fun),
    {
        proof {
            use_type_invariant(&self);
        }
        self.fun
    }

    /// The policies of the configuration are the answers of its function,
    /// with the unit token.
    pub proof fn lemma_policies(&self, short: char, long: Seq<char>)
        ensures
            self.short_policy(short) == unit_policy(self.answer(Flag::Short(short))),
            self.long_policy(long) == unit_policy(self.answer(Flag::Long(long))),
    {
    }

    /// Asks the function about one flag.
    pub fn ask(&self, flag: Flag<&str>) -> (r: Option<P>)
        ensures
            r == self.answer(flag@),
            Self::may_answer(self.fun(), flag@, r),
    {
        proof {
            use_type_invariant(self);
        }
        assert(call_requires(self.fun, (flag,)));
        let r = (self.fun)(flag);
        proof {
            assert(Self::may_answer(self.fun, flag@, r));
            let other = self.answer(flag@);
            assert(Self::may_answer(self.fun, flag@, other));
        }
        r
    }
}

impl<F, P> Clone for FnConfig<F, P> where F: Fn(Flag<&str>) -> Option<P> + Copy, P: IntoPresence {
    fn clone(&self) -> (config: Self)
        ensures
            config.fun() == self.fun(),
    {
        proof {
            use_type_invariant(self);
        }
        FnConfig { fun: self.fun, phantom: PhantomData }
    }
}

impl<F, P> Copy for FnConfig<F, P> where F: Fn(Flag<&str>) -> Option<P> + Copy, P: IntoPresence {

}

/// A configuration of this kind can be called like the function that it
/// asks.
impl<F, P> core::ops::Deref for FnConfig<F, P> where
    F: Fn(Flag<&str>) -> Option<P>,
    P: IntoPresence,
 {
    type Target = F;

    fn deref(&self) -> (fun: &F)
        ensures
            *fun == self.fun(),
    {
        &self.fun
    }
}

impl<F, P> Config for FnConfig<F, P> where F: Fn(Flag<&str>) -> Option<P>, P: IntoPresence {
    type Token = ();

    open spec fn short_policy(&self, short: char) -> Option<Policy<()>> {
        unit_policy(self.answer(Flag::Short(short)))
    }

    open spec fn long_policy(&self, long: Seq<char>) -> Option<Policy<()>> {
        unit_policy(self.answer(Flag::Long(long)))
    }

    fn get_short_policy(&self, short: char) -> (r: Option<Policy<()>>)
        ensures
            r == unit_policy(self.answer(Flag::Short(short))),
            Self::may_answer(self.fun(), Flag::Short(short), self.answer(Flag::Short(short))),
    {
        match self.ask(Flag::Short(short)) {
            Some(p) => Some(Policy { presence: p.into_presence(), token: () }),
            None => None,
        }
    }

    fn get_long_policy(&self, long: &str) -> (r: Option<Policy<()>>)
        ensures
            r == unit_policy(self.answer(Flag::Long(long@))),
            Self::may_answer(self.fun(), Flag::Long(long@), self.answer(Flag::Long(long@))),
    {
        match self.ask(Flag::Long(long)) {
            Some(p) => Some(Policy { presence: p.into_presence(), token: () }),
            None => None,
        }
    }
}

/// The flags of a list of pairs, each with its long name as text.
pub open spec fn pair_flags<L: Text, P>(entries: Seq<(Flag<L>, P)>) -> Seq<Flag<Seq<char>>> {
    Seq::new(entries.len(), |i: int| entries[i].0@)
}

/// The policy that a list of pairs holds for `flag`: that of the first pair
/// with this flag.
pub open spec fn pair_policy<L: Text, P: IntoPresence>(
    entries: Seq<(Flag<L>, P)>,
    flag: Flag<Seq<char>>,
) -> Option<Policy<()>> {
    match first_position(pair_flags(entries), flag) {
        Some(i) => Some(Policy { presence: entries[i].1.presence(), token: () }),
        None => None,
    }
}

/// Looks `flag` up in a list of pairs.
pub fn find_pair<L, P>(entries: &[(Flag<L>, P)], flag: Flag<&str>) -> (r: Option<Policy<()>>) where
    L: Text,
    P: Copy + IntoPresence,

    ensures
        r == pair_policy(entries@, flag@),
{
    let mut i: usize = 0;
    while i < entries.len()
        invariant
            i <= entries.len(),
            forall|j: int| 0 <= j < i ==> pair_flags(entries@)[j] != flag@,
        decreases entries.len() - i,
    {
        if entries[i].0.is(flag) {
            proof {
                lemma_first_position_is(pair_flags(entries@), flag@, i as int);
            }
            let presence = entries[i].1;
            return Some(Policy { presence: presence.into_presence(), token: () });
        }
        i = i + 1;
    }
    proof {
        lemma_first_position_none(pair_flags(entries@), flag@);
    }
    None
}

/// A list of flags, each with a presence, is a configuration with the unit
/// token. Where a flag occurs more than once, its first entry counts.
impl<L, P> Config for [(Flag<L>, P)] where L: Text, P: Copy + IntoPresence {
    type Token = ();

    open spec fn short_policy(&self, short: char) -> Option<Policy<()>> {
        pair_policy(self@, Flag::Short(short))
    }

    open spec fn long_policy(&self, long: Seq<char>) -> Option<Policy<()>> {
        pair_policy(self@, Flag::Long(long))
    }

    fn get_short_policy(&self, short: char) -> (r: Option<Policy<()>>) {
        find_pair(self, Flag::Short(short))
    }

    fn get_long_policy(&self, long: &str) -> (r: Option<Policy<()>>) {
        find_pair(self, Flag::Long(long))
    }
}

/// The flags of a list of triples, each with its long name as text.
pub open spec fn triple_flags<L: Text, P, T>(entries: Seq<(Flag<L>, P, T)>) -> Seq<
    Flag<Seq<char>>,
> {
    Seq::new(entries.len(), |i: int| entries[i].0@)
}

/// The policy that a list of triples holds for `flag`: that of the first
/// triple with this flag.
pub open spec fn triple_policy<L: Text, P: IntoPresence, T>(
    entries: Seq<(Flag<L>, P, T)>,
    flag: Flag<Seq<char>>,
) -> Option<Policy<T>> {
    match first_position(triple_flags(entries), flag) {
        Some(i) => Some(Policy { presence: entries[i].1.presence(), token: entries[i].2 }),
        None => None,
    }
}

/// Looks `flag` up in a list of triples.
pub fn find_triple<L, P, T>(entries: &[(Flag<L>, P, T)], flag: Flag<&str>) -> (r: Option<
    Policy<T>,
>) where L: Text, P: Copy + IntoPresence, T: Copy
    ensures
        r == triple_policy(entries@, flag@),
{
    let mut i: usize = 0;
    while i < entries.len()
        invariant
            i <= entries.len(),
            forall|j: int| 0 <= j < i ==> triple_flags(entries@)[j] != flag@,
        decreases entries.len() - i,
    {
        if entries[i].0.is(flag) {
            proof {
                lemma_first_position_is(triple_flags(entries@), flag@, i as int);
            }
            let presence = entries[i].1;
            let token = entries[i].2;
            return Some(Policy { presence: presence.into_presence(), token });
        }
        i = i + 1;
    }
    proof {
        lemma_first_position_none(triple_flags(entries@), flag@);
    }
    None
}

/// A list of flags, each with a presence and a token, is a configuration.
/// Where a flag occurs more than once, its first entry counts.
impl<L, P, T> Config for [(Flag<L>, P, T)] where L: Text, P: Copy + IntoPresence, T: Copy {
    type Token = T;

    open spec fn short_policy(&self, short: char) -> Option<Policy<T>> {
        triple_policy(self@, Flag::Short(short))
    }

    open spec fn long_policy(&self, long: Seq<char>) -> Option<Policy<T>> {
        triple_policy(self@, Flag::Long(long))
    }

    fn get_short_policy(&self, short: char) -> (r: Option<Policy<T>>) {
        find_triple(self, Flag::Short(short))
    }

    fn get_long_policy(&self, long: &str) -> (r: Option<Policy<T>>) {
        find_triple(self, Flag::Long(long))
    }
}

} // verus!
