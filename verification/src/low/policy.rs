//! Whether an option takes a parameter, and what it carries along.

use vstd::prelude::*;

verus! {

/// Whether a particular option expects a parameter.
#[derive(Clone, Copy, Debug, PartialEq, Eq, Structural)]
pub enum Presence {
    /// The option always takes a parameter: the rest of its token, or else
    /// the next token.
    Always,
    /// The option takes a parameter only when one is attached to it in the
    /// same token.
    IfAttached,
    /// The option never takes a parameter.
    Never,
}

/// The presence that a Boolean stands for: `true` for [`Presence::Always`],
/// `false` for [`Presence::Never`].
pub open spec fn presence_of_bool(b: bool) -> Presence {
    if b {
        Presence::Always
    } else {
        Presence::Never
    }
}

impl From<bool> for Presence {
    fn from(b: bool) -> (p: Presence) {
        if b {
            Presence::Always
        } else {
            Presence::Never
        }
    }
}

impl vstd::std_specs::convert::FromSpecImpl<bool> for Presence {
    open spec fn obeys_from_spec() -> bool {
        true
    }

    open spec fn from_spec(b: bool) -> Presence {
        presence_of_bool(b)
    }
}

/// A value that says whether an option takes a parameter: a [`Presence`],
/// or a Boolean.
pub trait IntoPresence: Sized {
    /// The presence that the value stands for.
    spec fn presence(self) -> Presence;

    /// Converts the value into the presence that it stands for.
    fn into_presence(self) -> (p: Presence)
        ensures
            p == self.presence(),
    ;
}

impl IntoPresence for Presence {
    open spec fn presence(self) -> Presence {
        self
    }

    fn into_presence(self) -> (p: Presence) {
        self
    }
}

impl IntoPresence for bool {
    open spec fn presence(self) -> Presence {
        presence_of_bool(self)
    }

    fn into_presence(self) -> (p: Presence) {
        if self {
            Presence::Always
        } else {
            Presence::Never
        }
    }
}

/// What a configuration knows of a registered option: its [`Presence`] and a
/// token of the caller's choosing, which the tokenizer hands through to the
/// item it emits.
#[derive(Clone, Copy, Debug, PartialEq, Eq)]
pub struct Policy<T> {
    pub presence: Presence,
    pub token: T,
}

impl<T> Policy<T> {
    /// Pairs a presence with a token.
    pub fn new<P>(presence: P, token: T) -> (policy: Self) where P: IntoPresence
        ensures
            policy == (Policy { presence: presence.presence(), token }),
    {
        Policy { presence: presence.into_presence(), token }
    }
}

/// A value that describes an option's policy: a [`Policy`], a bare presence
/// (with the unit token), or a pair of a presence and a token.
pub trait IntoPolicy<T>: Sized {
    /// The policy that the value describes.
    spec fn policy(self) -> Policy<T>;

    /// Converts the value into the policy that it describes.
    fn into_policy(self) -> (p: Policy<T>)
        ensures
            p == self.policy(),
    ;
}

impl<T> IntoPolicy<T> for Policy<T> {
    open spec fn policy(self) -> Policy<T> {
        self
    }

    fn into_policy(self) -> (p: Policy<T>) {
        self
    }
}

impl IntoPolicy<()> for Presence {
    open spec fn policy(self) -> Policy<()> {
        Policy { presence: self, token: () }
    }

    fn into_policy(self) -> (p: Policy<()>) {
        Policy { presence: self, token: () }
    }
}

impl IntoPolicy<()> for bool {
    open spec fn policy(self) -> Policy<()> {
        Policy { presence: presence_of_bool(self), token: () }
    }

    fn into_policy(self) -> (p: Policy<()>) {
        Policy { presence: self.into_presence(), token: () }
    }
}

impl<P: IntoPresence, T> IntoPolicy<T> for (P, T) {
    open spec fn policy(self) -> Policy<T> {
        Policy { presence: self.0.presence(), token: self.1 }
    }

    fn into_policy(self) -> (p: Policy<T>) {
        Policy { presence: self.0.into_presence(), token: self.1 }
    }
}

impl From<Presence> for Policy<()> {
    fn from(presence: Presence) -> (p: Policy<()>) {
        Policy { presence, token: () }
    }
}

impl vstd::std_specs::convert::FromSpecImpl<Presence> for Policy<()> {
    open spec fn obeys_from_spec() -> bool {
        true
    }

    open spec fn from_spec(presence: Presence) -> Policy<()> {
        Policy { presence, token: () }
    }
}

impl From<bool> for Policy<()> {
    fn from(b: bool) -> (p: Policy<()>) {
        Policy { presence: b.into_presence(), token: () }
    }
}

impl vstd::std_specs::convert::FromSpecImpl<bool> for Policy<()> {
    open spec fn obeys_from_spec() -> bool {
        true
    }

    open spec fn from_spec(b: bool) -> Policy<()> {
        Policy { presence: presence_of_bool(b), token: () }
    }
}

impl<T> From<(Presence, T)> for Policy<T> {
    fn from(pair: (Presence, T)) -> (p: Policy<T>) {
        Policy { presence: pair.0, token: pair.1 }
    }
}

impl<T> vstd::std_specs::convert::FromSpecImpl<(Presence, T)> for Policy<T> {
    open spec fn obeys_from_spec() -> bool {
        true
    }

    open spec fn from_spec(pair: (Presence, T)) -> Policy<T> {
        Policy { presence: pair.0, token: pair.1 }
    }
}

impl<T> From<(bool, T)> for Policy<T> {
    fn from(pair: (bool, T)) -> (p: Policy<T>) {
        Policy { presence: pair.0.into_presence(), token: pair.1 }
    }
}

impl<T> vstd::std_specs::convert::FromSpecImpl<(bool, T)> for Policy<T> {
    open spec fn obeys_from_spec() -> bool {
        true
    }

    open spec fn from_spec(pair: (bool, T)) -> Policy<T> {
        Policy { presence: presence_of_bool(pair.0), token: pair.1 }
    }
}

} // verus!
