use vstd::prelude::*;

verus! {

/// A player's move in one round.
#[derive(Debug, Clone, Copy, PartialEq, Eq, Structural)]
pub enum Action {
    Cooperate,
    Defect,
}

impl Action {
    /// The other move.
    pub open spec fn flipped(self) -> Action {
        match self {
            Action::Cooperate => Action::Defect,
            Action::Defect => Action::Cooperate,
        }
    }

    pub fn flip(&self) -> (r: Self)
        ensures
            r == self.flipped(),
    {
        match self {
            Action::Cooperate => Action::Defect,
            Action::Defect => Action::Cooperate,
        }
    }
}

/// Flipping changes a move, and flipping twice gives it back.
pub proof fn lemma_flip_involution(a: Action)
    ensures
        a.flipped() != a,
        a.flipped().flipped() == a,
{
}

/// The joint moves of a match, one `(first player, second player)` pair per round.
pub type History = Vec<(Action, Action)>;

/// Payoffs are given as `(T, R, P, S)`: temptation, reward, punishment, sucker.
pub open spec fn payoff_of(payoffs: (i32, i32, i32, i32), mine: Action, theirs: Action) -> int {
    match (mine, theirs) {
        (Action::Cooperate, Action::Cooperate) => payoffs.1 as int,
        (Action::Cooperate, Action::Defect) => payoffs.3 as int,
        (Action::Defect, Action::Cooperate) => payoffs.0 as int,
        (Action::Defect, Action::Defect) => payoffs.2 as int,
    }
}

/// Total payoff of the first player over a joint history.
pub open spec fn first_total(payoffs: (i32, i32, i32, i32), h: Seq<(Action, Action)>) -> int
    decreases h.len(),
{
    if h.len() == 0 {
        0
    } else {
        first_total(payoffs, h.drop_last()) + payoff_of(payoffs, h.last().0, h.last().1)
    }
}

/// Total payoff of the second player over a joint history.
pub open spec fn second_total(payoffs: (i32, i32, i32, i32), h: Seq<(Action, Action)>) -> int
    decreases h.len(),
{
    if h.len() == 0 {
        0
    } else {
        second_total(payoffs, h.drop_last()) + payoff_of(payoffs, h.last().1, h.last().0)
    }
}

/// The magnitude of `x`.
pub open spec fn abs_of(x: i32) -> int {
    if x < 0 {
        -(x as int)
    } else {
        x as int
    }
}

/// The largest magnitude among the four payoffs.
pub open spec fn max_abs_payoff(payoffs: (i32, i32, i32, i32)) -> int {
    let a = if abs_of(payoffs.0) >= abs_of(payoffs.1) {
        abs_of(payoffs.0)
    } else {
        abs_of(payoffs.1)
    };
    let b = if abs_of(payoffs.2) >= abs_of(payoffs.3) {
        abs_of(payoffs.2)
    } else {
        abs_of(payoffs.3)
    };
    if a >= b {
        a
    } else {
        b
    }
}

/// The largest magnitude among the four payoffs, the most a single round
/// can add to or take from a score.
pub fn largest_payoff_magnitude(payoffs: (i32, i32, i32, i32)) -> (r: i64)
    ensures
        r == max_abs_payoff(payoffs),
{
    let (t, r, p, s) = payoffs;
    let a = magnitude(t);
    let b = magnitude(r);
    let c = magnitude(p);
    let d = magnitude(s);
    let ab = if a >= b {
        a
    } else {
        b
    };
    let cd = if c >= d {
        c
    } else {
        d
    };
    if ab >= cd {
        ab
    } else {
        cd
    }
}

fn magnitude(x: i32) -> (r: i64)
    ensures
        r == abs_of(x),
{
    if x < 0 {
        -(x as i64)
    } else {
        x as i64
    }
}

/// `T > R > P > S`.
pub open spec fn payoffs_ordered(payoffs: (i32, i32, i32, i32)) -> bool {
    payoffs.0 > payoffs.1 && payoffs.1 > payoffs.2 && payoffs.2 > payoffs.3
}

/// `2R > T + S`.
pub open spec fn alternation_unprofitable(payoffs: (i32, i32, i32, i32)) -> bool {
    2 * (payoffs.1 as int) > payoffs.0 as int + payoffs.3 as int
}

/// Axelrod's constraints for an iterated prisoner's dilemma.
pub open spec fn valid_payoffs(payoffs: (i32, i32, i32, i32)) -> bool {
    payoffs_ordered(payoffs) && alternation_unprofitable(payoffs)
}

/// The payoffs of both players for one round.
pub fn round_payoffs(payoffs: (i32, i32, i32, i32), m1: Action, m2: Action) -> (r: (i32, i32))
    ensures
        r.0 == payoff_of(payoffs, m1, m2),
        r.1 == payoff_of(payoffs, m2, m1),
{
    let (t, r, p, s) = payoffs;
    match (m1, m2) {
        (Action::Cooperate, Action::Cooperate) => (r, r),
        (Action::Cooperate, Action::Defect) => (s, t),
        (Action::Defect, Action::Cooperate) => (t, s),
        (Action::Defect, Action::Defect) => (p, p),
    }
}

/// Under valid payoffs the one-shot game is a dilemma: defecting pays more
/// than cooperating whatever the other player does, yet mutual cooperation
/// pays each player more than mutual defection.
pub proof fn lemma_one_shot_dilemma(payoffs: (i32, i32, i32, i32), theirs: Action)
    requires
        payoffs_ordered(payoffs),
    ensures
        payoff_of(payoffs, Action::Defect, theirs) > payoff_of(payoffs, Action::Cooperate, theirs),
        payoff_of(payoffs, Action::Cooperate, Action::Cooperate) > payoff_of(
            payoffs,
            Action::Defect,
            Action::Defect,
        ),
{
}

/// Mutual cooperation for `n` rounds.
pub open spec fn mutual_cooperation(n: nat) -> Seq<(Action, Action)> {
    Seq::new(n, |i: int| (Action::Cooperate, Action::Cooperate))
}

/// `k` cycles of the alternating exploitation pattern `(D, C), (C, D)`.
pub open spec fn alternating_exploitation(k: nat) -> Seq<(Action, Action)> {
    Seq::new(
        2 * k,
        |i: int|
            if i % 2 == 0 {
                (Action::Defect, Action::Cooperate)
            } else {
                (Action::Cooperate, Action::Defect)
            },
    )
}

proof fn lemma_mutual_cooperation_total(payoffs: (i32, i32, i32, i32), n: nat)
    ensures
        first_total(payoffs, mutual_cooperation(n)) == n * payoffs.1,
    decreases n,
{
    let r = payoffs.1 as int;
    if n > 0 {
        let h = mutual_cooperation(n);
        assert(h.drop_last() =~= mutual_cooperation((n - 1) as nat));
        assert(h.last() == (Action::Cooperate, Action::Cooperate));
        lemma_mutual_cooperation_total(payoffs, (n - 1) as nat);
        assert(first_total(payoffs, h) == first_total(payoffs, h.drop_last()) + r);
        assert(n * r == (n - 1) * r + r) by (nonlinear_arith);
    } else {
        assert(n * r == 0) by (nonlinear_arith) requires n == 0;
    }
}

proof fn lemma_alternating_total(payoffs: (i32, i32, i32, i32), k: nat)
    ensures
        first_total(payoffs, alternating_exploitation(k)) == k * (payoffs.0 + payoffs.3),
        second_total(payoffs, alternating_exploitation(k)) == k * (payoffs.0 + payoffs.3),
    decreases k,
{
    let ts = payoffs.0 + payoffs.3;
    if k > 0 {
        let h = alternating_exploitation(k);
        let h1 = h.drop_last();
        assert(h1.drop_last() =~= alternating_exploitation((k - 1) as nat));
        assert(h.last() == (Action::Cooperate, Action::Defect));
        assert(h1.last() == (Action::Defect, Action::Cooperate));
        lemma_alternating_total(payoffs, (k - 1) as nat);
        assert(first_total(payoffs, h1) == first_total(payoffs, h1.drop_last()) + payoffs.0);
        assert(first_total(payoffs, h) == first_total(payoffs, h1) + payoffs.3);
        assert(second_total(payoffs, h1) == second_total(payoffs, h1.drop_last()) + payoffs.3);
        assert(second_total(payoffs, h) == second_total(payoffs, h1) + payoffs.0);
        assert(first_total(payoffs, h) == first_total(payoffs, h1.drop_last()) + ts);
        assert(second_total(payoffs, h) == second_total(payoffs, h1.drop_last()) + ts);
        assert(k * ts == (k - 1) * ts + ts) by (nonlinear_arith);
    } else {
        assert(k * ts == 0) by (nonlinear_arith) requires k == 0;
    }
}

/// With `2R > T + S`, taking turns at exploiting each other earns each
/// player strictly less over `2k` rounds than mutual cooperation does.
pub proof fn lemma_alternation_loses_to_cooperation(payoffs: (i32, i32, i32, i32), k: nat)
    requires
        alternation_unprofitable(payoffs),
        k > 0,
    ensures
        first_total(payoffs, alternating_exploitation(k)) < first_total(
            payoffs,
            mutual_cooperation(2 * k),
        ),
        second_total(payoffs, alternating_exploitation(k)) < first_total(
            payoffs,
            mutual_cooperation(2 * k),
        ),
{
    lemma_alternating_total(payoffs, k);
    lemma_mutual_cooperation_total(payoffs, 2 * k);
    let r = payoffs.1 as int;
    let ts = payoffs.0 + payoffs.3;
    assert(k * ts < (2 * k) * r) by (nonlinear_arith)
        requires
            2 * r > ts,
            k > 0,
    ;
}

} // verus!
