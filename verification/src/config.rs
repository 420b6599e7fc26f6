//! The configuration of the argument parser: the program's name and
//! description, and the arguments that it takes.

use vstd::prelude::*;
use vstd::hash_map::StringHashMap;
use vstd::std_specs::iter::IteratorSpec;
use vstd::string::StringExecFns;
use std::collections::HashMap;
use std::mem::swap;
use crate::arg::{option_usage, Arg};
use crate::error::{Error, ErrorView};
use crate::iter::Iter;
use crate::low::config::{code, lemma_code_injective};
use crate::low::text::{push_char, Text};
use crate::util::{first_position, lemma_first_position_is, lemma_first_position_none};

verus! {

broadcast use vstd::std_specs::hash::group_hash_axioms;

/// The short names of `formals`, in order.
pub open spec fn short_names<'a, T>(formals: Seq<Arg<'a, T>>) -> Seq<Option<char>> {
    Seq::new(formals.len(), |i: int| formals[i].short_view())
}

/// The long names of `formals`, in order; empty for an option without one.
pub open spec fn long_names<'a, T>(formals: Seq<Arg<'a, T>>) -> Seq<Seq<char>> {
    Seq::new(formals.len(), |i: int| formals[i].long_view())
}

/// The first of `formals` with the short name `c`, if there is one.
pub open spec fn short_formal<'a, T>(formals: Seq<Arg<'a, T>>, c: char) -> Option<Arg<'a, T>> {
    match first_position(short_names(formals), Some(c)) {
        Some(i) => Some(formals[i]),
        None => None,
    }
}

/// The first of `formals` with the long name `long`, if there is one. The
/// empty name is no long name.
pub open spec fn long_formal<'a, T>(formals: Seq<Arg<'a, T>>, long: Seq<char>) -> Option<
    Arg<'a, T>,
> {
    if long.len() == 0 {
        None
    } else {
        match first_position(long_names(formals), long) {
            Some(i) => Some(formals[i]),
            None => None,
        }
    }
}

/// Does one of `formals` have the short name `c`?
pub open spec fn has_short<'a, T>(formals: Seq<Arg<'a, T>>, c: char) -> bool {
    short_formal(formals, c) is Some
}

/// Does one of `formals` have the long name `long`, which is not empty?
pub open spec fn has_long<'a, T>(formals: Seq<Arg<'a, T>>, long: Seq<char>) -> bool {
    long_formal(formals, long) is Some
}

/// Does `arg` describe the positional arguments: has it neither a short nor
/// a long name?
pub open spec fn is_positional<'a, T>(arg: Arg<'a, T>) -> bool {
    arg.short_view() is None && arg.long_view().len() == 0
}

/// Why `arg` cannot be added to a configuration with the options `formals`
/// and the positional description `positional`, or `None` where it can: a
/// second description of the positional arguments, a short name that is
/// taken, or a long name that is taken.
pub open spec fn refusal<'a, T>(
    formals: Seq<Arg<'a, T>>,
    positional: Option<Arg<'a, T>>,
    arg: Arg<'a, T>,
) -> Option<ErrorView> {
    if is_positional(arg) {
        if positional is Some {
            Some(ErrorView { option: Seq::empty(), message: "multiple positional arguments"@ })
        } else {
            None
        }
    } else if arg.short_view() is Some && has_short(formals, arg.short_view()->0) {
        Some(
            ErrorView {
                option: seq!['-', arg.short_view()->0],
                message: "repeated in config"@,
            },
        )
    } else if has_long(formals, arg.long_view()) {
        Some(ErrorView { option: "--"@ + arg.long_view(), message: "repeated in config"@ })
    } else {
        None
    }
}

/// The options and the positional description of a configuration after
/// `arg` was added to it.
pub open spec fn added<'a, T>(
    formals: Seq<Arg<'a, T>>,
    positional: Option<Arg<'a, T>>,
    arg: Arg<'a, T>,
) -> (Seq<Arg<'a, T>>, Option<Arg<'a, T>>) {
    if is_positional(arg) {
        (formals, Some(arg))
    } else {
        (formals.push(arg), positional)
    }
}

/// Can the arguments `args` be added one after the other?
pub open spec fn all_fit<'a, T>(
    formals: Seq<Arg<'a, T>>,
    positional: Option<Arg<'a, T>>,
    args: Seq<Arg<'a, T>>,
) -> bool
    decreases args.len(),
{
    args.len() == 0 || {
        let next = added(formals, positional, args[0]);
        &&& refusal(formals, positional, args[0]) is None
        &&& all_fit(next.0, next.1, args.drop_first())
    }
}

/// The options and the positional description of a configuration after the
/// arguments `args` were added to it one after the other.
pub open spec fn added_all<'a, T>(
    formals: Seq<Arg<'a, T>>,
    positional: Option<Arg<'a, T>>,
    args: Seq<Arg<'a, T>>,
) -> (Seq<Arg<'a, T>>, Option<Arg<'a, T>>)
    decreases args.len(),
{
    if args.len() == 0 {
        (formals, positional)
    } else {
        let next = added(formals, positional, args[0]);
        added_all(next.0, next.1, args.drop_first())
    }
}

/// The line that names the program and its version: the name, then a blank
/// and the version where one is set, and a line feed.
pub open spec fn version_line(name: Seq<char>, version: Option<Seq<char>>) -> Seq<char> {
    name + (match version {
        Some(version) => " "@ + version,
        None => Seq::empty(),
    }) + "\n"@
}

/// The line that shows how the program is called.
pub open spec fn usage_line<'a, T>(name: Seq<char>, positional: Option<Arg<'a, T>>) -> Seq<char> {
    "Usage: "@ + name + " OPTION..."@ + (match positional {
        Some(arg) => " [--] "@ + (if arg.name_view().len() == 0 {
            "ARG"@
        } else {
            arg.name_view()
        }) + "..."@,
        None => Seq::empty(),
    }) + "\n"@
}

/// A line of its own for a text that is set, and nothing for one that is
/// not.
pub open spec fn optional_line(text: Option<Seq<char>>) -> Seq<char> {
    match text {
        Some(text) => text + "\n"@,
        None => Seq::empty(),
    }
}

/// The usage of each option, in order.
pub open spec fn options_usage<'a, T>(formals: Seq<Arg<'a, T>>) -> Seq<char>
    decreases formals.len(),
{
    if formals.len() == 0 {
        Seq::empty()
    } else {
        let last = formals.last();
        options_usage(formals.drop_last()) + option_usage(
            last.name_view(),
            last.short_view(),
            last.long_view(),
            last.descr_view(),
        )
    }
}

/// The configuration for the argument parser.
#[verifier::reject_recursive_types(T)]
pub struct Config<'a, T> {
    name: String,
    version: Option<String>,
    author: Option<String>,
    about: Option<String>,
    args: Vec<Arg<'a, T>>,
    short_map: HashMap<u32, usize>,
    long_map: StringHashMap<usize>,
    positional: Option<Arg<'a, T>>,
}

impl<'a, T> Config<'a, T> {
    #[verifier::type_invariant]
    spec fn inv(self) -> bool {
        &&& forall|i: int| 0 <= i < self.args@.len() ==> !is_positional(#[trigger] self.args@[i])
        &&& forall|i: int, c: char|
            0 <= i < self.args@.len() && (#[trigger] self.args@[i]).short_view() == Some(c)
                ==> self.short_map@.contains_key(#[trigger] code(c)) && self.short_map@[code(c)]
                == i
        &&& forall|k: u32| #[trigger]
            self.short_map@.contains_key(k) ==> self.short_map@[k] < self.args@.len() && (
            match self.args@[self.short_map@[k] as int].short_view() {
                Some(c) => code(c) == k,
                None => false,
            })
        &&& forall|i: int|
            0 <= i < self.args@.len() && (#[trigger] self.args@[i]).long_view().len() > 0
                ==> self.long_map@.contains_key(self.args@[i].long_view())
                && self.long_map@[self.args@[i].long_view()] == i
        &&& forall|s: Seq<char>| #[trigger]
            self.long_map@.contains_key(s) ==> s.len() > 0 && self.long_map@[s]
                < self.args@.len() && self.args@[self.long_map@[s] as int].long_view() == s
        &&& match self.positional {
            Some(arg) => is_positional(arg),
            None => true,
        }
    }

    /// The program's name.
    pub closed spec fn name_view(&self) -> Seq<char> {
        self.name@
    }

    /// The version string, if one is set.
    pub closed spec fn version_view(&self) -> Option<Seq<char>> {
        match self.version {
            Some(s) => Some(s@),
            None => None,
        }
    }

    /// The author string, if one is set.
    pub closed spec fn author_view(&self) -> Option<Seq<char>> {
        match self.author {
            Some(s) => Some(s@),
            None => None,
        }
    }

    /// The description string, if one is set.
    pub closed spec fn about_view(&self) -> Option<Seq<char>> {
        match self.about {
            Some(s) => Some(s@),
            None => None,
        }
    }

    /// The options, in the order in which they were added.
    pub closed spec fn formals(&self) -> Seq<Arg<'a, T>> {
        self.args@
    }

    /// The description of the positional arguments, if there is one.
    pub closed spec fn positional(&self) -> Option<Arg<'a, T>> {
        self.positional
    }

    /// Creates a new configuration, given the name of the program.
    pub fn new<S: Text>(name: S) -> (config: Self)
        ensures
            config.name_view() == name.text(),
            config.version_view() is None,
            config.author_view() is None,
            config.about_view() is None,
            config.formals() == Seq::<Arg<'a, T>>::empty(),
            config.positional() is None,
    {
        Config {
            name: String::from_str(name.as_text()),
            version: None,
            author: None,
            about: None,
            args: Vec::new(),
            short_map: HashMap::new(),
            long_map: StringHashMap::new(),
            positional: None,
        }
    }

    /// Are the options and the positional description those of `other`?
    pub open spec fn same_args(&self, other: &Self) -> bool {
        self.formals() == other.formals() && self.positional() == other.positional()
    }

    /// Sets the program name.
    pub fn name<S: Text>(self, name: S) -> (config: Self)
        ensures
            config.name_view() == name.text(),
            config.version_view() == self.version_view(),
            config.author_view() == self.author_view(),
            config.about_view() == self.about_view(),
            config.same_args(&self),
    {
        proof {
            use_type_invariant(&self);
        }
        let Config { name: _, version, author, about, args, short_map, long_map, positional } =
            self;
        Config {
            name: String::from_str(name.as_text()),
            version,
            author,
            about,
            args,
            short_map,
            long_map,
            positional,
        }
    }

    /// Sets the version string.
    pub fn version<S: Text>(self, version: S) -> (config: Self)
        ensures
            config.version_view() == Some(version.text()),
            config.name_view() == self.name_view(),
            config.author_view() == self.author_view(),
            config.about_view() == self.about_view(),
            config.same_args(&self),
    {
        proof {
            use_type_invariant(&self);
        }
        let Config { name, version: _, author, about, args, short_map, long_map, positional } =
            self;
        Config {
            name,
            version: Some(String::from_str(version.as_text())),
            author,
            about,
            args,
            short_map,
            long_map,
            positional,
        }
    }

    /// Sets the author string.
    pub fn author<S: Text>(self, author: S) -> (config: Self)
        ensures
            config.author_view() == Some(author.text()),
            config.name_view() == self.name_view(),
            config.version_view() == self.version_view(),
            config.about_view() == self.about_view(),
            config.same_args(&self),
    {
        proof {
            use_type_invariant(&self);
        }
        let Config { name, version, author: _, about, args, short_map, long_map, positional } =
            self;
        Config {
            name,
            version,
            author: Some(String::from_str(author.as_text())),
            about,
            args,
            short_map,
            long_map,
            positional,
        }
    }

    /// Sets the description string.
    pub fn about<S: Text>(self, about: S) -> (config: Self)
        ensures
            config.about_view() == Some(about.text()),
            config.name_view() == self.name_view(),
            config.version_view() == self.version_view(),
            config.author_view() == self.author_view(),
            config.same_args(&self),
    {
        proof {
            use_type_invariant(&self);
        }
        let Config { name, version, author, about: _, args, short_map, long_map, positional } =
            self;
        Config {
            name,
            version,
            author,
            about: Some(String::from_str(about.as_text())),
            args,
            short_map,
            long_map,
            positional,
        }
    }

    /// The description of the positional arguments, if there is one.
    pub fn get_positional(&self) -> (arg: Option<&Arg<'a, T>>)
        ensures
            match arg {
                Some(arg) => self.positional() == Some(*arg),
                None => self.positional() is None,
            },
    {
        self.positional.as_ref()
    }

    /// The option with the short name `c`, if there is one.
    pub fn get_short(&self, c: char) -> (arg: Option<&Arg<'a, T>>)
        ensures
            match arg {
                Some(arg) => short_formal(self.formals(), c) == Some(*arg),
                None => short_formal(self.formals(), c) is None,
            },
    {
        proof {
            use_type_invariant(self);
        }
        let key = c as u32;
        assert(key == code(c));
        match self.short_map.get(&key) {
            Some(index) => {
                let arg = &self.args[*index];
                proof {
                    let d = arg.short_view()->0;
                    lemma_code_injective(d, c);
                    lemma_first_position_is(short_names(self.args@), Some(c), *index as int);
                }
                Some(arg)
            },
            None => {
                proof {
                    lemma_first_position_none(short_names(self.args@), Some(c));
                }
                None
            },
        }
    }

    /// The option with the long name `s`, if there is one. No option has
    /// the empty name.
    pub fn get_long(&self, s: &str) -> (arg: Option<&Arg<'a, T>>)
        ensures
            match arg {
                Some(arg) => long_formal(self.formals(), s@) == Some(*arg),
                None => long_formal(self.formals(), s@) is None,
            },
    {
        proof {
            use_type_invariant(self);
        }
        match self.long_map.get(s) {
            Some(index) => {
                proof {
                    lemma_first_position_is(long_names(self.args@), s@, *index as int);
                }
                Some(&self.args[*index])
            },
            None => {
                proof {
                    if s@.len() > 0 {
                        lemma_first_position_none(long_names(self.args@), s@);
                    }
                }
                None
            },
        }
    }

    /// Adds an argument to the list of arguments, or says why it cannot be
    /// added and leaves the configuration as it was.
    pub fn arg_safe(&mut self, arg: Arg<'a, T>) -> (r: Result<(), Error>)
        ensures
            final(self).name_view() == old(self).name_view(),
            final(self).version_view() == old(self).version_view(),
            final(self).author_view() == old(self).author_view(),
            final(self).about_view() == old(self).about_view(),
            match r {
                Ok(_) => {
                    &&& refusal(old(self).formals(), old(self).positional(), arg) is None
                    &&& if is_positional(arg) {
                        &&& final(self).formals() == old(self).formals()
                        &&& final(self).positional() == Some(arg)
                    } else {
                        &&& final(self).formals() == old(self).formals().push(arg)
                        &&& final(self).positional() == old(self).positional()
                    }
                },
                Err(error) => {
                    &&& refusal(old(self).formals(), old(self).positional(), arg) == Some(error@)
                    &&& final(self).same_args(old(self))
                },
            },
    {
        let mut taken = Config::new("");
        swap(self, &mut taken);
        let (config, r) = taken.with_arg(arg);
        *self = config;
        r
    }

    /// Adds an argument to the list of arguments, or says why it cannot be
    /// added and hands the configuration back as it was.
    fn with_arg(self, arg: Arg<'a, T>) -> (r: (Self, Result<(), Error>))
        ensures
            r.0.name_view() == self.name_view(),
            r.0.version_view() == self.version_view(),
            r.0.author_view() == self.author_view(),
            r.0.about_view() == self.about_view(),
            match r.1 {
                Ok(_) => {
                    &&& refusal(self.formals(), self.positional(), arg) is None
                    &&& if is_positional(arg) {
                        &&& r.0.formals() == self.formals()
                        &&& r.0.positional() == Some(arg)
                    } else {
                        &&& r.0.formals() == self.formals().push(arg)
                        &&& r.0.positional() == self.positional()
                    }
                },
                Err(error) => {
                    &&& refusal(self.formals(), self.positional(), arg) == Some(error@)
                    &&& r.0.same_args(&self)
                },
            },
    {
        proof {
            use_type_invariant(&self);
        }
        if arg.is_positional() {
            if self.positional.is_none() {
                let Config { name, version, author, about, args, short_map, long_map, .. } = self;
                let config = Config {
                    name,
                    version,
                    author,
                    about,
                    args,
                    short_map,
                    long_map,
                    positional: Some(arg),
                };
                return (config, Ok(()));
            } else {
                return (self, Err(Error::from_message("multiple positional arguments")));
            }
        }
        let index = self.args.len();
        let short = arg.get_short();
        if let Some(c) = short {
            let key = c as u32;
            assert(key == code(c));
            if self.short_map.contains_key(&key) {
                proof {
                    let i = self.short_map@[key] as int;
                    let d = self.args@[i].short_view()->0;
                    lemma_code_injective(d, c);
                    lemma_first_position_is(short_names(self.args@), Some(c), i);
                }
                let mut option = String::new();
                push_char(&mut option, '-');
                push_char(&mut option, c);
                assert(option@ =~= seq!['-', c]);
                return (self, Err(Error::from_message("repeated in config").with_option(option)));
            }
        }
        let long_taken = match arg.get_long() {
            Some(s) => self.long_map.contains_key(s),
            None => false,
        };
        if long_taken {
            let mut option = String::from_str("--");
            match arg.get_long() {
                Some(s) => option.append(s),
                None => {},
            }
            proof {
                let i = self.long_map@[arg.long_view()] as int;
                lemma_first_position_is(long_names(self.args@), arg.long_view(), i);
            }
            return (self, Err(Error::from_message("repeated in config").with_option(option)));
        }
        let ghost old_args = self.args@;
        let ghost old_shorts = self.short_map@;
        let ghost old_longs = self.long_map@;
        let Config { name, version, author, about, args, short_map, long_map, positional } = self;
        let mut args = args;
        let mut short_map = short_map;
        let mut long_map = long_map;
        if let Some(c) = short {
            short_map.insert(c as u32, index);
        }
        match arg.get_long() {
            Some(s) => {
                long_map.insert(String::from_str(s), index);
            },
            None => {},
        }
        args.push(arg);
        proof {
            assert forall|i: int, c: char|
                0 <= i < args@.len() && (#[trigger] args@[i]).short_view() == Some(
                    c,
                ) implies short_map@.contains_key(#[trigger] code(c)) && short_map@[code(c)]
                == i by {
                if i < old_args.len() {
                    assert(old_args[i].short_view() == Some(c));
                    assert(old_shorts.contains_key(code(c)));
                    if short is Some {
                        if code(short->0) == code(c) {
                            lemma_code_injective(short->0, c);
                        }
                    }
                }
            }
            assert forall|k: u32| #[trigger] short_map@.contains_key(k) implies short_map@[k]
                < args@.len() && (match args@[short_map@[k] as int].short_view() {
                Some(c) => code(c) == k,
                None => false,
            }) by {
                if old_shorts.contains_key(k) {
                    assert(args@[old_shorts[k] as int] == old_args[old_shorts[k] as int]);
                }
            }
            assert forall|i: int|
                0 <= i < args@.len() && (#[trigger] args@[i]).long_view().len()
                    > 0 implies long_map@.contains_key(args@[i].long_view())
                && long_map@[args@[i].long_view()] == i by {
                if i < old_args.len() {
                    assert(old_args[i].long_view().len() > 0);
                    assert(old_longs.contains_key(old_args[i].long_view()));
                }
            }
            assert forall|s: Seq<char>| #[trigger] long_map@.contains_key(s) implies s.len() > 0
                && long_map@[s] < args@.len() && args@[long_map@[s] as int].long_view() == s by {
                if old_longs.contains_key(s) {
                    assert(args@[old_longs[s] as int] == old_args[old_longs[s] as int]);
                }
            }
            assert forall|i: int| 0 <= i < args@.len() implies !is_positional(
                #[trigger] args@[i],
            ) by {
                if i < old_args.len() {
                    assert(args@[i] == old_args[i]);
                }
            }
            if short is Some {
                lemma_first_position_none(short_names(old_args), short);
            }
            if arg.long_view().len() > 0 {
                lemma_first_position_none(long_names(old_args), arg.long_view());
            }
        }
        let config = Config { name, version, author, about, args, short_map, long_map, positional };
        (config, Ok(()))
    }

    /// Adds an argument to the list of arguments. The argument must be one
    /// that can be added.
    pub fn arg(self, arg: Arg<'a, T>) -> (config: Self)
        requires
            refusal(self.formals(), self.positional(), arg) is None,
        ensures
            config.name_view() == self.name_view(),
            config.version_view() == self.version_view(),
            config.author_view() == self.author_view(),
            config.about_view() == self.about_view(),
            if is_positional(arg) {
                &&& config.formals() == self.formals()
                &&& config.positional() == Some(arg)
            } else {
                &&& config.formals() == self.formals().push(arg)
                &&& config.positional() == self.positional()
            },
    {
        let (config, _) = self.with_arg(arg);
        config
    }

    /// Adds arguments to the list of arguments, one after the other. Each
    /// must be one that can be added when its turn comes.
    pub fn args(self, args: Vec<Arg<'a, T>>) -> (config: Self)
        requires
            all_fit(self.formals(), self.positional(), args@),
        ensures
            config.name_view() == self.name_view(),
            config.version_view() == self.version_view(),
            config.author_view() == self.author_view(),
            config.about_view() == self.about_view(),
            (config.formals(), config.positional()) == added_all(
                self.formals(),
                self.positional(),
                args@,
            ),
    {
        let mut config = self;
        let ghost all = args@;
        assert(all.skip(0) =~= all);
        for arg in it: args
            invariant
                it.seq() == all,
                config.name_view() == self.name_view(),
                config.version_view() == self.version_view(),
                config.author_view() == self.author_view(),
                config.about_view() == self.about_view(),
                all_fit(config.formals(), config.positional(), all.skip(it.index() as int)),
                added_all(config.formals(), config.positional(), all.skip(it.index() as int))
                    == added_all(self.formals(), self.positional(), all),
        {
            proof {
                let left = all.skip(it.index() as int);
                assert(left[0] == arg);
                assert(left.drop_first() =~= all.skip(it.index() + 1));
            }
            config = config.arg(arg);
        }
        config
    }

    /// Given an iterator over the unparsed arguments, returns an iterator
    /// over the parsed arguments.
    pub fn iter<'b, I>(&'b self, args: I) -> (iter: Iter<'b, 'a, I, T>) where
        I: Iterator<Item = String>,

        requires
            args.obeys_prophetic_iter_laws(),
        ensures
            iter.config() == self,
            iter.source() == args,
            iter.push_back() is None,
            !iter.positional(),
    {
        Iter::new(self, args)
    }

    /// Writes version information to `out`.
    pub fn write_version(&self, out: &mut String)
        ensures
            final(out)@ == old(out)@ + version_line(self.name_view(), self.version_view()),
    {
        out.append(self.name.as_str());
        match &self.version {
            Some(version) => {
                out.append(" ");
                out.append(version.as_str());
            },
            None => {},
        }
        out.append("\n");
    }

    /// Writes the line that shows how the program is called to `out`.
    pub fn write_usage_line(&self, out: &mut String)
        ensures
            final(out)@ == old(out)@ + usage_line(self.name_view(), self.positional()),
    {
        out.append("Usage: ");
        out.append(self.name.as_str());
        out.append(" OPTION...");
        match &self.positional {
            Some(arg) => {
                out.append(" [--] ");
                out.append(arg.positional_name());
                out.append("...");
            },
            None => {},
        }
        out.append("\n");
    }

    /// Writes usage information to `out`: the version line, the author and
    /// the description where they are set, an empty line, the usage line,
    /// and the list of the options.
    pub fn write_usage(&self, out: &mut String)
        ensures
            final(out)@ == old(out)@ + version_line(self.name_view(), self.version_view())
                + optional_line(self.author_view()) + optional_line(self.about_view()) + "\n"@
                + usage_line(self.name_view(), self.positional()) + "\nOPTIONS:\n"@
                + options_usage(self.formals()),
    {
        self.write_version(out);
        match &self.author {
            Some(author) => {
                out.append(author.as_str());
                out.append("\n");
            },
            None => {},
        }
        match &self.about {
            Some(about) => {
                out.append(about.as_str());
                out.append("\n");
            },
            None => {},
        }
        out.append("\n");
        self.write_usage_line(out);
        out.append("\nOPTIONS:\n");
        let ghost head = out@;
        let mut i: usize = 0;
        while i < self.args.len()
            invariant
                i <= self.args@.len(),
                out@ == head + options_usage(self.args@.take(i as int)),
            decreases self.args@.len() - i,
        {
            let ghost before = out@;
            self.args[i].write_option_usage(out);
            proof {
                let upto = self.args@.take(i + 1);
                assert(upto.drop_last() =~= self.args@.take(i as int));
                assert(upto.last() == self.args@[i as int]);
            }
            i = i + 1;
        }
        assert(self.args@.take(i as int) =~= self.args@);
    }
}

} // verus!
