//! The state encoding of the tabular Q-learner: its last `K` joint moves,
//! two bits per round.

use vstd::prelude::*;

use crate::action::Action;

verus! {

pub open spec fn move_bit(a: Action) -> nat {
    if a == Action::Defect {
        1
    } else {
        0
    }
}

/// Rounds `start..end` in base 4, oldest first: each round is the digit
/// `2 * (my move is D) + (opponent move is D)`.
pub open spec fn joint_code(my_history: Seq<Action>, opponent_history: Seq<Action>, start: int, end: int) -> nat
    decreases end - start,
{
    if end <= start {
        0
    } else {
        joint_code(my_history, opponent_history, start, end - 1) * 4 + 2 * move_bit(my_history[end - 1])
            + move_bit(opponent_history[end - 1])
    }
}

pub open spec fn pow4(n: nat) -> nat
    decreases n,
{
    if n == 0 {
        1
    } else {
        4 * pow4((n - 1) as nat)
    }
}

proof fn lemma_pow4_bound(n: nat)
    requires
        n <= 15,
    ensures
        pow4(n) <= 0x4000_0000,
{
    reveal_with_fuel(pow4, 16);
    assert(pow4(15) == 0x4000_0000);
    lemma_pow4_monotone(n, 15);
}

proof fn lemma_pow4_monotone(a: nat, b: nat)
    requires
        a <= b,
    ensures
        pow4(a) <= pow4(b),
    decreases b - a,
{
    if a < b {
        lemma_pow4_monotone(a, (b - 1) as nat);
    }
}

/// The number of rounds both histories hold.
pub open spec fn rounds_of(my_history: Seq<Action>, opponent_history: Seq<Action>) -> nat {
    if my_history.len() <= opponent_history.len() {
        my_history.len()
    } else {
        opponent_history.len()
    }
}

/// The last `k` (at most 15) joint moves as a number below `4^k`.
pub fn encode_state(my_history: &[Action], opponent_history: &[Action], k: usize) -> (s: u32)
    requires
        k <= 15,
    ensures
        s == joint_code(
            my_history@,
            opponent_history@,
            rounds_of(my_history@, opponent_history@) - if rounds_of(my_history@, opponent_history@)
                >= k {
                k as int
            } else {
                rounds_of(my_history@, opponent_history@) as int
            },
            rounds_of(my_history@, opponent_history@) as int,
        ),
{
    let n = if my_history.len() <= opponent_history.len() {
        my_history.len()
    } else {
        opponent_history.len()
    };
    let start = if n >= k {
        n - k
    } else {
        0
    };
    let mut s: u32 = 0;
    let mut i: usize = start;
    while i < n
        invariant
            start <= i <= n,
            n <= my_history@.len(),
            n <= opponent_history@.len(),
            n - start <= 15,
            s == joint_code(my_history@, opponent_history@, start as int, i as int),
            s < pow4((i - start) as nat),
        decreases n - i,
    {
        let mb: u32 = if my_history[i] == Action::Defect {
            1
        } else {
            0
        };
        let ob: u32 = if opponent_history[i] == Action::Defect {
            1
        } else {
            0
        };
        proof {
            lemma_pow4_bound((i - start) as nat);
            assert(s < 0x4000_0000);
            assert((s << 2u32) | (mb << 1u32) | ob == s * 4 + mb * 2 + ob) by (bit_vector)
                requires
                    s < 0x4000_0000,
                    mb <= 1,
                    ob <= 1,
            ;
            assert(pow4((i + 1 - start) as nat) == 4 * pow4((i - start) as nat));
        }
        s = (s << 2u32) | (mb << 1u32) | ob;
        i = i + 1;
    }
    s
}

} // verus!
