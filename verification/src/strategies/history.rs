//! What strategies read off a history.

use vstd::prelude::*;

use crate::action::Action;

verus! {

/// The last move of `h`, or `default` when `h` is empty.
pub open spec fn last_or(h: Seq<Action>, default: Action) -> Action {
    if h.len() == 0 {
        default
    } else {
        h.last()
    }
}

/// How many times `a` occurs in `h`.
pub open spec fn count_of(h: Seq<Action>, a: Action) -> nat
    decreases h.len(),
{
    if h.len() == 0 {
        0
    } else {
        count_of(h.drop_last(), a) + if h.last() == a {
            1nat
        } else {
            0nat
        }
    }
}

/// `h` holds at least one defection.
pub open spec fn has_defected(h: Seq<Action>) -> bool {
    exists|i: int| 0 <= i < h.len() && h[i] == Action::Defect
}

pub fn last_or_else(h: &[Action], default: Action) -> (r: Action)
    ensures
        r == last_or(h@, default),
{
    if h.len() == 0 {
        default
    } else {
        h[h.len() - 1]
    }
}

pub fn count_moves(h: &[Action], a: Action) -> (n: usize)
    ensures
        n == count_of(h@, a),
        n <= h@.len(),
{
    let mut n: usize = 0;
    let mut i: usize = 0;
    while i < h.len()
        invariant
            i <= h@.len(),
            n == count_of(h@.take(i as int), a),
            n <= i,
        decreases h@.len() - i,
    {
        proof {
            assert(h@.take(i + 1).drop_last() =~= h@.take(i as int));
        }
        if h[i] == a {
            n = n + 1;
        }
        i = i + 1;
    }
    proof {
        assert(h@.take(i as int) =~= h@);
    }
    n
}

pub fn any_defection(h: &[Action]) -> (r: bool)
    ensures
        r == has_defected(h@),
{
    let mut i: usize = 0;
    while i < h.len()
        invariant
            i <= h@.len(),
            forall|j: int| 0 <= j < i ==> h@[j] != Action::Defect,
        decreases h@.len() - i,
    {
        if h[i] == Action::Defect {
            return true;
        }
        i = i + 1;
    }
    false
}

} // verus!
