//! The description of one argument: a Boolean flag, an option with a
//! parameter, or the positional arguments.

use vstd::prelude::*;
use vstd::string::{StrSliceExecFns, StringExecFns};
use crate::error::Error;
use crate::low::text::{push_char, Text};
use crate::util::non_empty_string;

verus! {

/// What is done with the parameter of an argument that was found: it is
/// turned into a value, or refused.
trait Action<T> {
    /// May the action return `r` when it is given `param`?
    spec fn may_yield(&self, param: Seq<char>, r: Result<T, Error>) -> bool;

    /// Runs the action on `param`.
    fn apply(&self, param: &str) -> (r: Result<T, Error>)
        ensures
            self.may_yield(param@, r),
    ;
}

/// May the function `parser` return `r` for a string that reads `param`?
pub open spec fn parser_may_yield<T, F: Fn(&str) -> Result<T, Error>>(
    parser: F,
    param: Seq<char>,
    r: Result<T, Error>,
) -> bool {
    exists|s: &str| s@ == param && #[trigger] call_ensures(parser, (s,), r)
}

/// The action of an argument with a raw string parameter: a function from
/// the parameter to a value or an error.
#[verifier::reject_recursive_types(T)]
#[verifier::reject_recursive_types(F)]
struct Parser<T, F> where F: Fn(&str) -> Result<T, Error> {
    fun: F,
    phantom: core::marker::PhantomData<T>,
}

impl<T, F> Parser<T, F> where F: Fn(&str) -> Result<T, Error> {
    #[verifier::type_invariant]
    spec fn inv(self) -> bool {
        forall|param: &str| #[trigger] call_requires(self.fun, (param,))
    }
}

impl<T, F> Action<T> for Parser<T, F> where F: Fn(&str) -> Result<T, Error> {
    closed spec fn may_yield(&self, param: Seq<char>, r: Result<T, Error>) -> bool {
        parser_may_yield(self.fun, param, r)
    }

    fn apply(&self, param: &str) -> (r: Result<T, Error>) {
        proof {
            use_type_invariant(self);
        }
        assert(call_requires(self.fun, (param,)));
        (self.fun)(param)
    }
}

/// May the function `thunk` return the value of `r`, which is no error?
pub open spec fn thunk_may_yield<T, F: Fn() -> T>(thunk: F, r: Result<T, Error>) -> bool {
    match r {
        Ok(value) => call_ensures(thunk, (), value),
        Err(_) => false,
    }
}

/// The action of a Boolean flag: a function that takes nothing and gives
/// the flag's value.
#[verifier::reject_recursive_types(T)]
#[verifier::reject_recursive_types(F)]
struct Thunk<T, F> where F: Fn() -> T {
    fun: F,
    phantom: core::marker::PhantomData<T>,
}

impl<T, F> Thunk<T, F> where F: Fn() -> T {
    #[verifier::type_invariant]
    spec fn inv(self) -> bool {
        call_requires(self.fun, ())
    }
}

impl<T, F> Action<T> for Thunk<T, F> where F: Fn() -> T {
    closed spec fn may_yield(&self, param: Seq<char>, r: Result<T, Error>) -> bool {
        thunk_may_yield(self.fun, r)
    }

    fn apply(&self, param: &str) -> (r: Result<T, Error>) {
        proof {
            use_type_invariant(self);
        }
        Ok((self.fun)())
    }
}

/// How an argument is listed in the usage message: nothing for the
/// positional arguments; else two blanks, the short and the long name as
/// far as there are any, the parameter's name in angle brackets, the
/// description after three blanks, and a line feed.
pub open spec fn option_usage(
    name: Seq<char>,
    short: Option<char>,
    long: Seq<char>,
    descr: Seq<char>,
) -> Seq<char> {
    if short is None && long.len() == 0 {
        Seq::empty()
    } else {
        (match short {
            Some(c) => if long.len() == 0 {
                "  -"@.push(c)
            } else {
                "  -"@.push(c) + ", --"@ + long
            },
            None => "  --"@ + long,
        }) + (if name.len() > 0 {
            " <"@ + name + ">"@
        } else {
            Seq::empty()
        }) + (if descr.len() > 0 {
            "   "@ + descr
        } else {
            Seq::empty()
        }) + "\n"@
    }
}

/// A description of an argument, which may be a Boolean flag or carry a
/// parameter.
#[verifier::reject_recursive_types(T)]
pub struct Arg<'a, T> {
    name: String,
    action: Box<dyn Action<T> + 'a>,
    short: Option<char>,
    long: String,
    descr: String,
}

impl<'a, T> Arg<'a, T> {
    /// The name of the parameter; empty for a Boolean flag.
    pub closed spec fn name_view(&self) -> Seq<char> {
        self.name@
    }

    /// The short name of the option, if it has one.
    pub closed spec fn short_view(&self) -> Option<char> {
        self.short
    }

    /// The long name of the option; empty if it has none.
    pub closed spec fn long_view(&self) -> Seq<char> {
        self.long@
    }

    /// The description of the option, for the help message.
    pub closed spec fn descr_view(&self) -> Seq<char> {
        self.descr@
    }

    /// May the argument's action return `r` when it is given `param`?
    pub closed spec fn may_yield(&self, param: Seq<char>, r: Result<T, Error>) -> bool {
        self.action.may_yield(param, r)
    }

    /// Creates a new Boolean flag whose action is the given thunk.
    pub fn flag<F>(thunk: F) -> (arg: Self) where F: Fn() -> T + 'a, T: 'a
        requires
            call_requires(thunk, ()),
        ensures
            arg.name_view() == Seq::<char>::empty(),
            arg.short_view() is None,
            arg.long_view() == Seq::<char>::empty(),
            arg.descr_view() == Seq::<char>::empty(),
            forall|param: Seq<char>, r: Result<T, Error>| #[trigger]
                arg.may_yield(param, r) <==> thunk_may_yield(thunk, r),
    {
        Arg {
            name: String::new(),
            action: Box::new(Thunk { fun: thunk, phantom: core::marker::PhantomData }),
            short: None,
            long: String::new(),
            descr: String::new(),
        }
    }

    /// Creates a new argument with a raw string parameter.
    pub fn str_param<S, F>(name: S, parser: F) -> (arg: Self) where
        S: Text,
        F: Fn(&str) -> Result<T, Error> + 'a,
        T: 'a,

        requires
            forall|param: &str| #[trigger] call_requires(parser, (param,)),
        ensures
            arg.name_view() == name.text(),
            arg.short_view() is None,
            arg.long_view() == Seq::<char>::empty(),
            arg.descr_view() == Seq::<char>::empty(),
            forall|param: Seq<char>, r: Result<T, Error>| #[trigger]
                arg.may_yield(param, r) <==> parser_may_yield(parser, param, r),
    {
        Arg {
            name: String::from_str(name.as_text()),
            action: Box::new(Parser { fun: parser, phantom: core::marker::PhantomData }),
            short: None,
            long: String::new(),
            descr: String::new(),
        }
    }

    /// Attempts to parse an argument: runs the action on the parameter that
    /// was supplied to the option.
    pub fn parse_argument(&self, param: &str) -> (r: Result<T, Error>)
        ensures
            self.may_yield(param@, r),
    {
        self.action.apply(param)
    }

    /// Sets the short name of the option, which is not a hyphen.
    pub fn short(self, c: char) -> (arg: Self)
        requires
            c != '-',
        ensures
            arg.short_view() == Some(c),
            arg.name_view() == self.name_view(),
            arg.long_view() == self.long_view(),
            arg.descr_view() == self.descr_view(),
            forall|param: Seq<char>, r: Result<T, Error>| #[trigger]
                arg.may_yield(param, r) == self.may_yield(param, r),
    {
        let mut arg = self;
        arg.short = Some(c);
        arg
    }

    /// Sets the long name of the option.
    pub fn long<S: Text>(self, s: S) -> (arg: Self)
        ensures
            arg.long_view() == s.text(),
            arg.name_view() == self.name_view(),
            arg.short_view() == self.short_view(),
            arg.descr_view() == self.descr_view(),
            forall|param: Seq<char>, r: Result<T, Error>| #[trigger]
                arg.may_yield(param, r) == self.may_yield(param, r),
    {
        let mut arg = self;
        arg.long = String::from_str(s.as_text());
        arg
    }

    /// Sets the description of the option (for the help message).
    pub fn description<S: Text>(self, s: S) -> (arg: Self)
        ensures
            arg.descr_view() == s.text(),
            arg.name_view() == self.name_view(),
            arg.short_view() == self.short_view(),
            arg.long_view() == self.long_view(),
            forall|param: Seq<char>, r: Result<T, Error>| #[trigger]
                arg.may_yield(param, r) == self.may_yield(param, r),
    {
        let mut arg = self;
        arg.descr = String::from_str(s.as_text());
        arg
    }

    /// An error about this option, named by its long name where `long`
    /// says so, else by its short name, or by `-?` where it has none.
    pub fn new_error(&self, long: bool, msg: &str) -> (error: Error)
        ensures
            error@.message == msg@,
            error@.option == if long {
                "--"@ + self.long_view()
            } else {
                match self.short_view() {
                    Some(c) => seq!['-', c],
                    None => "-?"@,
                }
            },
    {
        let mut opt_name = String::new();
        if long {
            opt_name.append("--");
            opt_name.append(self.long.as_str());
        } else {
            match self.short {
                Some(c) => {
                    push_char(&mut opt_name, '-');
                    push_char(&mut opt_name, c);
                },
                None => {
                    opt_name.append("-?");
                },
            }
        }
        Error::from_message(msg).with_option(opt_name)
    }

    /// Writes the usage for this option to `out`.
    pub fn write_option_usage(&self, out: &mut String)
        ensures
            final(out)@ == old(out)@ + option_usage(
                self.name_view(),
                self.short_view(),
                self.long_view(),
                self.descr_view(),
            ),
    {
        if self.is_positional() {
            return ;
        }
        match self.short {
            Some(c) => {
                out.append("  -");
                push_char(out, c);
                if self.long.as_str().unicode_len() > 0 {
                    out.append(", --");
                    out.append(self.long.as_str());
                }
            },
            None => {
                out.append("  --");
                out.append(self.long.as_str());
            },
        }
        if self.name.as_str().unicode_len() > 0 {
            out.append(" <");
            out.append(self.name.as_str());
            out.append(">");
        }
        if self.descr.as_str().unicode_len() > 0 {
            out.append("   ");
            out.append(self.descr.as_str());
        }
        out.append("\n");
    }

    /// Does this describe the positional arguments: has it neither a short
    /// nor a long name?
    pub fn is_positional(&self) -> (b: bool)
        ensures
            b == (self.short_view() is None && self.long_view().len() == 0),
    {
        self.short.is_none() && self.long.as_str().unicode_len() == 0
    }

    /// Does the option take a parameter: has its parameter a name?
    pub fn takes_parameter(&self) -> (b: bool)
        ensures
            b == (self.name_view().len() > 0),
    {
        self.name.as_str().unicode_len() > 0
    }

    /// The short name of the option, if it has one.
    pub fn get_short(&self) -> (short: Option<char>)
        ensures
            short == self.short_view(),
    {
        self.short
    }

    /// The long name of the option, if it has one.
    pub fn get_long(&self) -> (long: Option<&str>)
        ensures
            match long {
                Some(long) => long@ == self.long_view() && long@.len() > 0,
                None => self.long_view().len() == 0,
            },
    {
        non_empty_string(self.long.as_str())
    }

    /// The name under which the positional arguments are listed: the
    /// parameter's name, or `ARG` where it has none.
    pub fn positional_name(&self) -> (name: &str)
        ensures
            name@ == if self.name_view().len() == 0 {
                "ARG"@
            } else {
                self.name_view()
            },
    {
        if self.name.as_str().unicode_len() == 0 {
            "ARG"
        } else {
            self.name.as_str()
        }
    }
}

} // verus!
