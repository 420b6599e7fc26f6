//! Small helpers on string slices, stated over their character sequences.

use vstd::prelude::*;
use vstd::string::StrSliceExecFns;

verus! {

/// Is `i` the position of the first occurrence of `c` in `s`?
pub open spec fn is_first_at<A>(s: Seq<A>, c: A, i: int) -> bool {
    &&& 0 <= i < s.len()
    &&& s[i] == c
    &&& forall|j: int| 0 <= j < i ==> s[j] != c
}

/// The position of the first occurrence of `c` in `s`, if there is one.
pub open spec fn first_position<A>(s: Seq<A>, c: A) -> Option<int> {
    if exists|i: int| is_first_at(s, c, i) {
        Some(choose|i: int| is_first_at(s, c, i))
    } else {
        None
    }
}

/// A position that satisfies [`is_first_at`] is the one that
/// [`first_position`] names.
pub proof fn lemma_first_position_is<A>(s: Seq<A>, c: A, i: int)
    requires
        is_first_at(s, c, i),
    ensures
        first_position(s, c) == Some(i),
{
    let k = choose|k: int| is_first_at(s, c, k);
    assert(is_first_at(s, c, k));
    if k < i {
        assert(s[k] != c);
    } else if i < k {
        assert(s[i] != c);
    }
}

/// Where `c` does not occur, [`first_position`] names no position.
pub proof fn lemma_first_position_none<A>(s: Seq<A>, c: A)
    requires
        forall|j: int| 0 <= j < s.len() ==> s[j] != c,
    ensures
        first_position(s, c) is None,
{
    if exists|i: int| is_first_at(s, c, i) {
        let k = choose|k: int| is_first_at(s, c, k);
        assert(s[k] != c);
    }
}

/// Returns `None`, or `Some` of a non-empty string.
pub fn non_empty_string(s: &str) -> (r: Option<&str>)
    ensures
        s@.len() == 0 ==> r is None,
        s@.len() > 0 ==> r == Some(s),
{
    if s.unicode_len() == 0 {
        None
    } else {
        Some(s)
    }
}

/// Splits a string into its first character and the rest; `None` for the
/// empty string.
pub fn split_first_str(s: &str) -> (r: Option<(char, &str)>)
    ensures
        match r {
            Some((c, rest)) => s@.len() > 0 && c == s@[0] && rest@ == s@.drop_first(),
            None => s@.len() == 0,
        },
{
    let n = s.unicode_len();
    if n == 0 {
        None
    } else {
        let c = s.get_char(0);
        let rest = s.substring_char(1, n);
        assert(rest@ =~= s@.drop_first());
        Some((c, rest))
    }
}

/// Finds the first occurrence of `c` in `s`, counted in characters.
pub fn find_char(s: &str, c: char) -> (r: Option<usize>)
    ensures
        match r {
            Some(i) => first_position(s@, c) == Some(i as int),
            None => first_position(s@, c) is None,
        },
{
    let n = s.unicode_len();
    let mut i: usize = 0;
    for ch in it: s.chars()
        invariant
            n == s@.len(),
            i == it.index(),
            it.seq() == s@,
            forall|j: int| 0 <= j < i ==> s@[j] != c,
    {
        if ch == c {
            proof {
                lemma_first_position_is(s@, c, i as int);
            }
            return Some(i);
        }
        i = i + 1;
    }
    proof {
        lemma_first_position_none(s@, c);
    }
    None
}

} // verus!
