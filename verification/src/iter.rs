//! The iterator over the processed arguments: each argument of the command
//! line is matched with its description, and the description's action makes
//! a value of it.

use vstd::prelude::*;
use vstd::std_specs::iter::IteratorSpec;
use vstd::string::{StrSliceExecFns, StringExecFns};
use crate::arg::Arg;
use crate::config::{long_formal, short_formal, Config};
use crate::error::{Error, ErrorView};
use crate::low::slice_iter::texts;
use crate::util::{find_char, first_position, split_first_str};

verus! {

/// How one argument reads.
pub enum ArgState<'a> {
    /// It is `--`.
    EndOfOptions,
    /// It is a hyphen, a short flag, and what follows the flag.
    ShortOption(char, &'a str),
    /// It is two hyphens, a long flag, and, after an `=`, a parameter.
    LongOption(&'a str, Option<&'a str>),
    /// It is no option.
    Positional(&'a str),
}

/// How one argument reads, with its texts as character sequences.
pub enum ArgStateView {
    EndOfOptions,
    ShortOption(char, Seq<char>),
    LongOption(Seq<char>, Option<Seq<char>>),
    Positional(Seq<char>),
}

impl<'a> View for ArgState<'a> {
    type V = ArgStateView;

    open spec fn view(&self) -> ArgStateView {
        match *self {
            ArgState::EndOfOptions => ArgStateView::EndOfOptions,
            ArgState::ShortOption(c, rest) => ArgStateView::ShortOption(c, rest@),
            ArgState::LongOption(name, Some(param)) => ArgStateView::LongOption(
                name@,
                Some(param@),
            ),
            ArgState::LongOption(name, None) => ArgStateView::LongOption(name@, None),
            ArgState::Positional(arg) => ArgStateView::Positional(arg@),
        }
    }
}

/// How an argument reads, given what follows its first hyphen: nothing
/// makes it the positional argument `-`; a hyphen alone, the end of the
/// options; a hyphen and more, a long option, whose name ends at the first
/// `=`; anything else, a short option.
pub open spec fn option_state(opt: Seq<char>) -> ArgStateView {
    if opt.len() == 0 {
        ArgStateView::Positional("-"@)
    } else if opt[0] == '-' {
        let rest = opt.drop_first();
        if rest.len() == 0 {
            ArgStateView::EndOfOptions
        } else {
            match first_position(rest, '=') {
                Some(ix) => ArgStateView::LongOption(rest.take(ix), Some(rest.skip(ix + 1))),
                None => ArgStateView::LongOption(rest, None),
            }
        }
    } else {
        ArgStateView::ShortOption(opt[0], opt.drop_first())
    }
}

/// How an argument reads: as an option where it starts with a hyphen, else
/// as a positional argument.
pub open spec fn argument_state(param: Seq<char>) -> ArgStateView {
    if param.len() > 0 && param[0] == '-' {
        option_state(param.drop_first())
    } else {
        ArgStateView::Positional(param)
    }
}

/// Reads an argument.
pub fn analyze_argument(param: &str) -> (state: ArgState<'_>)
    ensures
        state@ == argument_state(param@),
{
    match split_first_str(param) {
        Some((c, rest)) => if c == '-' {
            analyze_option(rest)
        } else {
            ArgState::Positional(param)
        },
        None => ArgState::Positional(param),
    }
}

/// Reads an argument that starts with a hyphen, given what follows the
/// hyphen.
pub fn analyze_option(opt: &str) -> (state: ArgState<'_>)
    ensures
        state@ == option_state(opt@),
{
    match split_first_str(opt) {
        None => ArgState::Positional("-"),
        Some((c, rest)) => {
            if c == '-' {
                if rest.is_empty() {
                    ArgState::EndOfOptions
                } else {
                    match find_char(rest, '=') {
                        Some(ix) => {
                            let len = rest.unicode_len();
                            let name = rest.substring_char(0, ix);
                            let param = rest.substring_char(ix + 1, len);
                            assert(name@ =~= rest@.take(ix as int));
                            assert(param@ =~= rest@.skip(ix + 1));
                            ArgState::LongOption(name, Some(param))
                        },
                        None => ArgState::LongOption(rest, None),
                    }
                }
            } else {
                ArgState::ShortOption(c, rest)
            }
        },
    }
}

/// Where the parser stands in the command line.
pub struct Position {
    /// What is left of a cluster of short flags, written as an argument of
    /// its own; it is read before the next argument.
    pub push_back: Option<Seq<char>>,
    /// Was the end of the options passed?
    pub positional: bool,
    /// The arguments that are still to be read.
    pub rest: Seq<Seq<char>>,
}

/// The position of a parser with `remaining` still to come from its
/// source.
pub open spec fn position_of(
    push_back: Option<Seq<char>>,
    positional: bool,
    remaining: Seq<String>,
) -> Position {
    Position { push_back, positional, rest: texts(remaining) }
}

/// What one pull comes to, before any action has run.
#[verifier::reject_recursive_types(T)]
pub enum Outcome<'a, T> {
    /// The command line is used up.
    Done,
    /// The action of `formal` is run on `param`. An error that it returns
    /// is then said to be about the option `label`, where there is one.
    Run { formal: Arg<'a, T>, param: Seq<char>, label: Option<Seq<char>> },
    /// The pull fails with this error, and no action is run.
    Fail(ErrorView),
}

/// What a positional argument `actual` comes to: the action of the
/// positional description, where the configuration has one.
pub open spec fn positional_outcome<'a, T>(
    positional: Option<Arg<'a, T>>,
    actual: Seq<char>,
    label: Option<Seq<char>>,
) -> Outcome<'a, T> {
    match positional {
        Some(formal) => Outcome::Run { formal, param: actual, label },
        None => Outcome::Fail(
            ErrorView {
                option: match label {
                    Some(label) => label,
                    None => Seq::empty(),
                },
                message: "Positional arguments not accepted"@,
            },
        ),
    }
}

/// What one pull comes to, and the position after it.
///
/// The item that is read is what was pushed back, or else the next
/// argument. After the end of the options every item is positional. Before
/// it:
/// - `--` ends the options, and the pull goes on to the next argument,
///   which is positional;
/// - a short option that takes a parameter takes the rest of the item, or
///   else the next argument; one that takes none pushes the rest of the
///   item back, with a hyphen before it;
/// - a long option that takes a parameter takes what follows the `=`, or
///   else the next argument; one that takes none must not have an `=`;
/// - anything else is positional.
/// Every error of such a pull is about the item as it was read.
pub open spec fn plan<'a, T>(
    formals: Seq<Arg<'a, T>>,
    positional: Option<Arg<'a, T>>,
    pos: Position,
) -> (Outcome<'a, T>, Position) {
    if pos.push_back is None && pos.rest.len() == 0 {
        (Outcome::Done, pos)
    } else {
        let item = match pos.push_back {
            Some(item) => item,
            None => pos.rest[0],
        };
        let rest = match pos.push_back {
            Some(_) => pos.rest,
            None => pos.rest.drop_first(),
        };
        let after = Position { push_back: None, positional: pos.positional, rest };
        let after_next = Position {
            push_back: None,
            positional: pos.positional,
            rest: rest.drop_first(),
        };
        let fail = |message: Seq<char>| Outcome::<'a, T>::Fail(ErrorView { option: item, message });
        if pos.positional {
            (positional_outcome(positional, item, None), after)
        } else {
            match argument_state(item) {
                ArgStateView::EndOfOptions => if rest.len() == 0 {
                    (Outcome::Done, Position { push_back: None, positional: true, rest })
                } else {
                    (
                        positional_outcome(positional, rest[0], Some(item)),
                        Position { push_back: None, positional: true, rest: rest.drop_first() },
                    )
                },
                ArgStateView::ShortOption(c, param) => match short_formal(formals, c) {
                    Some(formal) => if formal.name_view().len() > 0 {
                        if param.len() > 0 {
                            (Outcome::Run { formal, param, label: Some(item) }, after)
                        } else if rest.len() > 0 {
                            (Outcome::Run { formal, param: rest[0], label: Some(item) }, after_next)
                        } else {
                            (fail("expected option parameter"@), after)
                        }
                    } else {
                        (
                            Outcome::Run { formal, param: Seq::empty(), label: Some(item) },
                            Position {
                                push_back: if param.len() > 0 {
                                    Some(seq!['-'] + param)
                                } else {
                                    None
                                },
                                positional: false,
                                rest,
                            },
                        )
                    },
                    None => (fail("unrecognized"@), after),
                },
                ArgStateView::LongOption(name, param) => match long_formal(formals, name) {
                    Some(formal) => if formal.name_view().len() > 0 {
                        match param {
                            Some(param) => (
                                Outcome::Run { formal, param, label: Some(item) },
                                after,
                            ),
                            None => if rest.len() > 0 {
                                (
                                    Outcome::Run { formal, param: rest[0], label: Some(item) },
                                    after_next,
                                )
                            } else {
                                (fail("expected option parameter"@), after)
                            },
                        }
                    } else {
                        match param {
                            None => (
                                Outcome::Run { formal, param: Seq::empty(), label: Some(item) },
                                after,
                            ),
                            Some(_) => (fail("unexpected option parameter"@), after),
                        }
                    },
                    None => (fail("unrecognized"@), after),
                },
                ArgStateView::Positional(_) => (
                    positional_outcome(positional, item, Some(item)),
                    after,
                ),
            }
        }
    }
}

/// Is `res` what `raw` becomes when its error, if it is one, is said to be
/// about the option `label`? Without a label it stays as it is.
pub open spec fn relabelled<T>(
    raw: Result<T, Error>,
    label: Option<Seq<char>>,
    res: Result<T, Error>,
) -> bool {
    match label {
        None => res == raw,
        Some(label) => match raw {
            Ok(value) => res == Ok::<T, Error>(value),
            Err(cause) => match res {
                Ok(_) => false,
                Err(error) => error@ == (ErrorView { option: label, message: cause@.message }),
            },
        },
    }
}

/// Is `r` a result that a pull with the outcome `outcome` may have?
pub open spec fn agrees<'a, T>(outcome: Outcome<'a, T>, r: Option<Result<T, Error>>) -> bool {
    match outcome {
        Outcome::Done => r is None,
        Outcome::Fail(expected) => match r {
            Some(Err(error)) => error@ == expected,
            _ => false,
        },
        Outcome::Run { formal, param, label } => match r {
            Some(res) => run_may_give(formal, param, label, res),
            None => false,
        },
    }
}

/// May running the action of `formal` on `param` come to `res`, where an
/// error is said to be about `label`?
pub open spec fn run_may_give<'a, T>(
    formal: Arg<'a, T>,
    param: Seq<char>,
    label: Option<Seq<char>>,
    res: Result<T, Error>,
) -> bool {
    exists|raw: Result<T, Error>|
        (#[trigger] formal.may_yield(param, raw)) && relabelled(raw, label, res)
}

/// Says that the error of `raw`, if it is one, is about `option`.
fn relabel<T>(raw: Result<T, Error>, option: &str) -> (res: Result<T, Error>)
    ensures
        relabelled(raw, Some(option@), res),
{
    match raw {
        Ok(value) => Ok(value),
        Err(cause) => Err(cause.with_option(option)),
    }
}

/// The iterator over the processed arguments.
#[verifier::reject_recursive_types(T)]
pub struct Iter<'a, 'b, I, T> where I: Iterator<Item = String> {
    config: &'a Config<'b, T>,
    args: I,
    push_back: Option<String>,
    positional: bool,
}

impl<'a, 'b, I, T> Iter<'a, 'b, I, T> where I: Iterator<Item = String> {
    /// The configuration that describes the arguments.
    pub closed spec fn config(&self) -> &'a Config<'b, T> {
        self.config
    }

    /// The source of the arguments that are still to be read.
    pub closed spec fn source(&self) -> I {
        self.args
    }

    /// What is left of a cluster of short flags, to be read next.
    pub closed spec fn push_back(&self) -> Option<Seq<char>> {
        match self.push_back {
            Some(s) => Some(s@),
            None => None,
        }
    }

    /// Was the end of the options passed?
    pub closed spec fn positional(&self) -> bool {
        self.positional
    }

    /// Does the source keep the laws of iterators: it yields its remaining
    /// items in order, and then `None`?
    pub open spec fn lawful(&self) -> bool {
        self.source().obeys_prophetic_iter_laws()
    }

    /// Creates a new iterator from a reference to the configuration and an
    /// iterator over the unparsed arguments.
    pub fn new(config: &'a Config<'b, T>, args: I) -> (iter: Self)
        requires
            args.obeys_prophetic_iter_laws(),
        ensures
            iter.config() == config,
            iter.source() == args,
            iter.push_back() is None,
            !iter.positional(),
    {
        Iter { config, args, push_back: None, positional: false }
    }

    /// Runs the action for a positional argument, if the configuration
    /// describes any.
    pub fn parse_positional(&self, actual: &str) -> (r: Result<T, Error>)
        ensures
            agrees(positional_outcome(self.config().positional(), actual@, None), Some(r)),
    {
        match self.config.get_positional() {
            Some(formal) => {
                let r = formal.parse_argument(actual);
                assert(run_may_give(*formal, actual@, None, r)) by {
                    assert(formal.may_yield(actual@, r) && relabelled(r, None, r));
                }
                r
            },
            None => Err(Error::from_message("Positional arguments not accepted")),
        }
    }

    /// Takes the next argument from the source.
    fn next_arg(&mut self) -> (r: Option<String>)
        requires
            old(self).lawful(),
        ensures
            final(self).lawful(),
            final(self).config() == old(self).config(),
            final(self).push_back() == old(self).push_back(),
            final(self).positional() == old(self).positional(),
            match r {
                Some(arg) => {
                    &&& texts(old(self).source().remaining()).len() > 0
                    &&& arg@ == texts(old(self).source().remaining())[0]
                    &&& texts(final(self).source().remaining()) == texts(
                        old(self).source().remaining(),
                    ).drop_first()
                },
                None => {
                    &&& texts(old(self).source().remaining()).len() == 0
                    &&& texts(final(self).source().remaining()) == texts(
                        old(self).source().remaining(),
                    )
                },
            },
    {
        self.args.next()
    }

    /// Pulls the value or the error that the next argument comes to; `None`
    /// when the command line is used up.
    pub fn next(&mut self) -> (r: Option<Result<T, Error>>)
        requires
            old(self).lawful(),
        ensures
            final(self).lawful(),
            final(self).config() == old(self).config(),
            ({
                let planned = plan(
                    old(self).config().formals(),
                    old(self).config().positional(),
                    position_of(
                        old(self).push_back(),
                        old(self).positional(),
                        old(self).source().remaining(),
                    ),
                );
                &&& agrees(planned.0, r)
                &&& planned.1 == position_of(
                    final(self).push_back(),
                    final(self).positional(),
                    final(self).source().remaining(),
                )
            }),
    {
        proof {
            reveal_strlit("");
            reveal_strlit("-");
            assert(""@ =~= Seq::<char>::empty());
        }
        let mut held: Option<String> = None;
        std::mem::swap(&mut self.push_back, &mut held);
        let item = match held {
            Some(item) => item,
            None => match self.next_arg() {
                Some(item) => item,
                None => return None,
            },
        };
        let arg = item.as_str();
        if self.positional {
            return Some(self.parse_positional(arg));
        }
        let result = match analyze_argument(arg) {
            ArgState::EndOfOptions => {
                self.positional = true;
                match self.next_arg() {
                    Some(actual) => self.parse_positional(actual.as_str()),
                    None => return None,
                }
            },
            ArgState::ShortOption(c, param) => match self.config.get_short(c) {
                Some(formal) => if formal.takes_parameter() {
                    if !param.is_empty() {
                        formal.parse_argument(param)
                    } else {
                        match self.next_arg() {
                            Some(param) => formal.parse_argument(param.as_str()),
                            None => Err(formal.new_error(false, "expected option parameter")),
                        }
                    }
                } else {
                    if !param.is_empty() {
                        let mut rest_of_cluster = String::from_str("-");
                        rest_of_cluster.append(param);
                        assert(rest_of_cluster@ =~= seq!['-'] + param@);
                        self.push_back = Some(rest_of_cluster);
                    }
                    formal.parse_argument("")
                },
                None => Err(Error::from_message("unrecognized")),
            },
            ArgState::LongOption(s, param) => match self.config.get_long(s) {
                Some(formal) => if formal.takes_parameter() {
                    match param {
                        Some(param) => formal.parse_argument(param),
                        None => match self.next_arg() {
                            Some(param) => formal.parse_argument(param.as_str()),
                            None => Err(formal.new_error(true, "expected option parameter")),
                        },
                    }
                } else {
                    match param {
                        None => formal.parse_argument(""),
                        Some(_) => Err(formal.new_error(true, "unexpected option parameter")),
                    }
                },
                None => Err(Error::from_message("unrecognized")),
            },
            ArgState::Positional(_) => self.parse_positional(arg),
        };
        Some(relabel(result, arg))
    }
}

} // verus!
