//! Gradual: punishes the n-th counted defection with n defections, then
//! cooperates twice; defections during punishment or the calm rounds are
//! not counted.
//! The scaled variant used by the Gradual family punishes the n-th counted
//! defection with `n * mult / 10 + 1` defections.
//!
//! The rule folds the whole opponent history; the scratch keeps the folded
//! counters so each round only folds the moves not seen yet.

use vstd::prelude::*;
use rand_chacha::ChaCha8Rng;

use crate::action::Action;
use crate::strategy::{lemma_take_all, scratch_fits, Strategy, StrategyScratch};

verus! {

/// `x` capped at `usize::MAX`.
pub open spec fn capped(x: int) -> nat {
    if x > usize::MAX {
        usize::MAX as nat
    } else if x < 0 {
        0
    } else {
        x as nat
    }
}

/// Counters `(counted defections, punishment left, cooldown left)`.
pub type GradualState = (nat, nat, nat);

/// How long the `defects`-th counted defection is punished: `defects`
/// rounds for Gradual, `defects * mult / 10 + 1` for the scaled variant.
pub open spec fn punishment_length(defects: nat, scale: Option<usize>) -> nat {
    match scale {
        None => capped(defects as int),
        Some(mult) => capped((capped(defects * mult) / 10 + 1) as int),
    }
}

/// One opponent move folded into the counters.
pub open spec fn gradual_step(s: GradualState, act: Action, scale: Option<usize>) -> GradualState {
    let (d, p, c) = s;
    if p > 0 {
        if p == 1 {
            (d, 0, 2)
        } else {
            (d, (p - 1) as nat, c)
        }
    } else if c > 0 {
        (d, p, (c - 1) as nat)
    } else if act == Action::Defect {
        let d2 = capped(d + 1int);
        let p2 = punishment_length(d2, scale);
        match scale {
            None => if p2 == 0 {
                (d2, 0, 2)
            } else {
                (d2, p2, c)
            },
            Some(_) => (d2, p2, 2),
        }
    } else {
        s
    }
}

/// The counters after folding `acts`, in order, into `start`.
pub open spec fn gradual_fold(start: GradualState, acts: Seq<Action>, scale: Option<usize>) -> GradualState
    decreases acts.len(),
{
    if acts.len() == 0 {
        start
    } else {
        gradual_step(gradual_fold(start, acts.drop_last(), scale), acts.last(), scale)
    }
}

/// The move once the counters are known: defect exactly while punishing.
pub open spec fn gradual_decision(s: GradualState, opponent_history: Seq<Action>, scale: Option<usize>) -> Action {
    if s.1 > 0 {
        Action::Defect
    } else {
        Action::Cooperate
    }
}

/// The move that the full history calls for.
pub open spec fn gradual_move(opponent_history: Seq<Action>, scale: Option<usize>) -> Action {
    gradual_decision(gradual_fold((0, 0, 0), opponent_history, scale), opponent_history, scale)
}

/// The scratch holds the counters of the first `processed` opponent moves.
pub open spec fn gradual_scratch_summarises(
    scratch: StrategyScratch,
    opponent_history: Seq<Action>,
    scale: Option<usize>,
) -> bool {
    match scratch {
        StrategyScratch::Gradual { opp_defects, p_left, c_left, processed } => {
            &&& processed <= opponent_history.len()
            &&& gradual_fold((0, 0, 0), opponent_history.take(processed as int), scale) == (
                opp_defects as nat,
                p_left as nat,
                c_left as nat,
            )
        },
        _ => false,
    }
}

/// A scratch that summarises a prefix of the opponent history summarises
/// the whole history: later moves are simply not folded in yet.
pub proof fn law_gradual_summary_extends(
    scratch: StrategyScratch,
    opponent_history: Seq<Action>,
    k: int,
    scale: Option<usize>,
)
    requires
        0 <= k <= opponent_history.len(),
        gradual_scratch_summarises(scratch, opponent_history.take(k), scale),
    ensures
        gradual_scratch_summarises(scratch, opponent_history, scale),
{
    if let StrategyScratch::Gradual { processed, .. } = scratch {
        assert(opponent_history.take(k).take(processed as int) =~= opponent_history.take(processed as int));
    }
}

/// The moves a scratch that has folded `processed` moves still has to fold.
pub open spec fn unprocessed(opponent_history: Seq<Action>, processed: usize) -> Seq<Action> {
    if processed < opponent_history.len() {
        opponent_history.subrange(processed as int, opponent_history.len() as int)
    } else {
        Seq::empty()
    }
}

/// The counters of a Gradual scratch once the moves it has not seen are
/// folded in.
pub open spec fn gradual_after(scratch: StrategyScratch, opponent_history: Seq<Action>, scale: Option<usize>) -> GradualState {
    match scratch {
        StrategyScratch::Gradual { opp_defects, p_left, c_left, processed } => gradual_fold(
            (opp_defects as nat, p_left as nat, c_left as nat),
            unprocessed(opponent_history, processed),
            scale,
        ),
        _ => (0, 0, 0),
    }
}

/// A Gradual scratch once the moves it has not seen are folded in.
pub open spec fn gradual_scratch_after(
    scratch: StrategyScratch,
    opponent_history: Seq<Action>,
    scale: Option<usize>,
) -> StrategyScratch {
    match scratch {
        StrategyScratch::Gradual { processed, .. } => {
            let s = gradual_after(scratch, opponent_history, scale);
            StrategyScratch::Gradual {
                opp_defects: s.0 as usize,
                p_left: s.1 as usize,
                c_left: s.2 as usize,
                processed: if processed < opponent_history.len() {
                    opponent_history.len() as usize
                } else {
                    processed
                },
            }
        },
        _ => scratch,
    }
}

/// Folding a history in two parts gives what folding it at once gives:
/// the incremental counters always agree with a full rescan.
pub proof fn law_gradual_fold_splits(
    start: GradualState,
    first: Seq<Action>,
    second: Seq<Action>,
    scale: Option<usize>,
)
    ensures
        gradual_fold(start, first + second, scale) == gradual_fold(
            gradual_fold(start, first, scale),
            second,
            scale,
        ),
    decreases second.len(),
{
    if second.len() == 0 {
        assert(first + second =~= first);
    } else {
        assert((first + second).drop_last() =~= first + second.drop_last());
        law_gradual_fold_splits(start, first, second.drop_last(), scale);
    }
}

/// Gradual punishes the n-th counted defection with n defections: met
/// with nothing left to punish or calm, an opponent defection after `d`
/// counted ones starts a punishment of `d + 1` rounds.
pub proof fn law_gradual_punishes_nth_defection_n_times(defects: nat)
    requires
        defects + 1 <= usize::MAX,
    ensures
        gradual_step((defects, 0, 0), Action::Defect, None) == (defects + 1, defects + 1, 0nat),
{
}

/// Gradual (xM) punishes the n-th counted defection for `n * M / 10 + 1`
/// rounds and then cooperates twice: met with nothing left to punish or
/// calm, an opponent defection after `d` counted ones starts a punishment
/// of `(d + 1) * M / 10 + 1` rounds followed by two calm rounds.
pub proof fn law_scaled_punishment_length(defects: nat, mult: usize)
    requires
        defects + 1 <= usize::MAX,
        (defects + 1) * mult <= usize::MAX,
    ensures
        gradual_step((defects, 0, 0), Action::Defect, Some(mult)) == (
            defects + 1,
            (((defects + 1) * mult) / 10 + 1) as nat,
            2nat,
        ),
{
    assert(((defects + 1) * mult) / 10 + 1 <= usize::MAX) by (nonlinear_arith)
        requires
            (defects + 1) * mult <= usize::MAX,
            (defects + 1) * mult >= 0,
    ;
}

/// For a multiplier of at least ten, every counted defection of Gradual
/// (xM) is punished strictly longer than the one before it.
pub proof fn law_scaled_punishment_grows(defects: nat, mult: usize)
    requires
        mult >= 10,
        (defects + 2) * mult <= usize::MAX,
    ensures
        gradual_step((defects + 1, 0, 0), Action::Defect, Some(mult)).1 > gradual_step(
            (defects, 0, 0),
            Action::Defect,
            Some(mult),
        ).1,
{
    assert((defects + 1) * mult <= (defects + 2) * mult && (defects + 2) * mult == (defects + 1) * mult + mult)
        by (nonlinear_arith)
        requires
            mult >= 0,
            defects >= 0,
    ;
    assert((defects + 2) <= (defects + 2) * mult) by (nonlinear_arith)
        requires
            mult >= 10,
            defects >= 0,
    ;
    law_scaled_punishment_length(defects, mult);
    law_scaled_punishment_length((defects + 1) as nat, mult);
    let x = (defects + 1) * mult;
    assert((x + mult) / 10 >= x / 10 + 1) by (nonlinear_arith)
        requires
            mult >= 10,
            x >= 0,
    ;
}

/// Folds one opponent move into the counters.
pub fn step_state(
    opp_defects: &mut usize,
    p_left: &mut usize,
    c_left: &mut usize,
    scale: Option<usize>,
    act: Action,
)
    ensures
        (*final(opp_defects) as nat, *final(p_left) as nat, *final(c_left) as nat) == gradual_step(
            (*old(opp_defects) as nat, *old(p_left) as nat, *old(c_left) as nat),
            act,
            scale,
        ),
{
    if *p_left > 0 {
        *p_left = *p_left - 1;
        if *p_left == 0 {
            *c_left = 2;
        }
    } else if *c_left > 0 {
        *c_left = *c_left - 1;
    } else if act == Action::Defect {
        *opp_defects = opp_defects.saturating_add(1);
        match scale {
            None => {
                *p_left = *opp_defects;
            },
            Some(mult) => {
                let scaled = match opp_defects.checked_mul(mult) {
                    Some(x) => x,
                    None => usize::MAX,
                };
                *p_left = scaled / 10 + 1;
                *c_left = 2;
            },
        }
    }
}

/// The decision of `gradual_decision` from concrete counters.
pub fn decide(p_left: usize, c_left: usize, opponent_history: &[Action], scale: Option<usize>) -> (r: Action)
    ensures
        forall|d: nat| r == gradual_decision((d, p_left as nat, c_left as nat), opponent_history@, scale),
{
    if p_left > 0 {
        Action::Defect
    } else {
        Action::Cooperate
    }
}

/// The stateless rule: rescans the whole opponent history.
pub fn gradual_rescan(opponent_history: &[Action], scale: Option<usize>) -> (r: Action)
    ensures
        r == gradual_move(opponent_history@, scale),
{
    let mut opp_defects: usize = 0;
    let mut p_left: usize = 0;
    let mut c_left: usize = 0;
    let mut i: usize = 0;
    while i < opponent_history.len()
        invariant
            i <= opponent_history@.len(),
            (opp_defects as nat, p_left as nat, c_left as nat) == gradual_fold(
                (0, 0, 0),
                opponent_history@.take(i as int),
                scale,
            ),
        decreases opponent_history@.len() - i,
    {
        proof {
            assert(opponent_history@.take(i + 1).drop_last() =~= opponent_history@.take(i as int));
        }
        step_state(&mut opp_defects, &mut p_left, &mut c_left, scale, opponent_history[i]);
        i = i + 1;
    }
    proof {
        assert(opponent_history@.take(i as int) =~= opponent_history@);
    }
    decide(p_left, c_left, opponent_history, scale)
}

/// The scratch path: folds only the opponent moves the scratch has not
/// seen, then decides. A scratch of another kind leaves the decision to
/// the full rescan.
pub fn gradual_incremental(
    opponent_history: &[Action],
    scratch: &mut StrategyScratch,
    scale: Option<usize>,
) -> (r: Action)
    ensures
        *old(scratch) is Gradual ==> {
            &&& *final(scratch) == gradual_scratch_after(*old(scratch), opponent_history@, scale)
            &&& r == gradual_decision(gradual_after(*old(scratch), opponent_history@, scale), opponent_history@, scale)
        },
        !(*old(scratch) is Gradual) ==> r == gradual_move(opponent_history@, scale) && *final(scratch)
            == *old(scratch),
        gradual_scratch_summarises(*old(scratch), opponent_history@, scale) ==> {
            &&& r == gradual_move(opponent_history@, scale)
            &&& gradual_scratch_summarises(*final(scratch), opponent_history@, scale)
            &&& (*final(scratch))->Gradual_processed == opponent_history@.len()
        },
{
    match scratch {
        StrategyScratch::Gradual { opp_defects, p_left, c_left, processed } => {
            let ghost start = (*opp_defects as nat, *p_left as nat, *c_left as nat);
            let ghost p0 = *processed;
            let ghost h = opponent_history@;
            while *processed < opponent_history.len()
                invariant
                    p0 <= *processed || h.len() <= p0,
                    p0 < h.len() ==> *processed <= h.len(),
                    p0 >= h.len() ==> *processed == p0,
                    h == opponent_history@,
                    p0 < h.len() ==> (*opp_defects as nat, *p_left as nat, *c_left as nat)
                        == gradual_fold(start, h.subrange(p0 as int, *processed as int), scale),
                    p0 >= h.len() ==> (*opp_defects as nat, *p_left as nat, *c_left as nat) == start,
                decreases h.len() - *processed,
            {
                proof {
                    assert(h.subrange(p0 as int, *processed + 1).drop_last() =~= h.subrange(
                        p0 as int,
                        *processed as int,
                    ));
                }
                step_state(opp_defects, p_left, c_left, scale, opponent_history[*processed]);
                *processed = *processed + 1;
            }
            proof {
                if p0 < h.len() {
                    assert(h.subrange(p0 as int, *processed as int) =~= unprocessed(h, p0));
                } else {
                    assert(unprocessed(h, p0) =~= Seq::<Action>::empty());
                }
            }
            let r = decide(*p_left, *c_left, opponent_history, scale);
            proof {
                let s = gradual_fold(start, unprocessed(h, p0), scale);
                if p0 <= h.len() && gradual_fold((0, 0, 0), h.take(p0 as int), scale) == start {
                    law_gradual_fold_splits((0, 0, 0), h.take(p0 as int), unprocessed(h, p0), scale);
                    assert(h.take(p0 as int) + unprocessed(h, p0) =~= h);
                    assert(h.take(h.len() as int) =~= h);
                }
            }
            r
        },
        _ => gradual_rescan(opponent_history, scale),
    }
}

#[derive(Clone, Copy, Default)]
pub struct Gradual;

impl Strategy for Gradual {
    /// Its scratch holds the counters of a prefix of the opponent history.
    open spec fn summarises_scratch(&self, scratch: StrategyScratch, my_history: Seq<Action>, opponent_history: Seq<Action>) -> bool {
        gradual_scratch_summarises(scratch, opponent_history, None)
    }

    open spec fn spec_name(&self) -> Seq<char> {
        "Gradual"@
    }

    open spec fn names_itself(&self) -> bool {
        true
    }

    open spec fn allows(&self, my_history: Seq<Action>, opponent_history: Seq<Action>, r: Action) -> bool {
        &&& (r == gradual_move(opponent_history, None))
    }

    fn name(&self) -> (r: &str)
        ensures
            r@ == "Gradual"@,
    {
        "Gradual"
    }

    fn next_move(&self, _my_history: &[Action], opponent_history: &[Action], _rng: &mut ChaCha8Rng) -> (r: Action)
        ensures
            r == gradual_move(opponent_history@, None),
    {
        gradual_rescan(opponent_history, None)
    }

    fn init_scratch(&self) -> (s: StrategyScratch)
        ensures
            s == (StrategyScratch::Gradual { opp_defects: 0, p_left: 0, c_left: 0, processed: 0 }),
    {
        let s = StrategyScratch::Gradual { opp_defects: 0, p_left: 0, c_left: 0, processed: 0 };
        proof {
            law_fresh_gradual_scratch(Seq::empty(), None);
        }
        s
    }

    /// Same decisions as `next_move` whenever the scratch summarises a
    /// prefix of the opponent history, as a fresh scratch does.
    fn next_move_stateful(
        &self,
        _my_history: &[Action],
        opponent_history: &[Action],
        scratch: &mut StrategyScratch,
        _rng: &mut ChaCha8Rng,
    ) -> (r: Action)
        ensures
            gradual_scratch_summarises(*old(scratch), opponent_history@, None) ==> {
                &&& r == gradual_move(opponent_history@, None)
                &&& gradual_scratch_summarises(*final(scratch), opponent_history@, None)
                &&& (*final(scratch))->Gradual_processed == opponent_history@.len()
            },
            !(*old(scratch) is Gradual) ==> r == gradual_move(opponent_history@, None) && *final(scratch)
                == *old(scratch),
            *old(scratch) is Gradual ==> r == gradual_decision(
                gradual_after(*old(scratch), opponent_history@, None),
                opponent_history@,
                None,
            ),
    {
        proof {
            if exists|j: int, k: int|
                0 <= j <= _my_history@.len() && 0 <= k <= opponent_history@.len()
                    && #[trigger] self.summarises_scratch(*scratch, _my_history@.take(j), opponent_history@.take(k)) {
                let (j, k) = choose|j: int, k: int|
                    0 <= j <= _my_history@.len() && 0 <= k <= opponent_history@.len()
                        && #[trigger] self.summarises_scratch(*scratch, _my_history@.take(j), opponent_history@.take(k));
                law_gradual_summary_extends(*scratch, opponent_history@, k, None);
            }
        }
        let r = gradual_incremental(opponent_history, scratch, None);
        proof {
            lemma_take_all(_my_history@);
            lemma_take_all(opponent_history@);
            assert(gradual_scratch_summarises(*scratch, opponent_history@, None) ==> self.summarises_scratch(
                *scratch,
                _my_history@.take(_my_history@.len() as int),
                opponent_history@.take(opponent_history@.len() as int),
            ));
        }
        r
    }
}

/// A scratch that fits Gradual's histories, as the one it starts a match
/// with and then updates round by round does, summarises the whole opponent
/// history; handed such a scratch, `next_move_stateful` answers what
/// `next_move` answers.
pub proof fn law_fitting_gradual_scratch_summarises(
    scratch: StrategyScratch,
    my_history: Seq<Action>,
    opponent_history: Seq<Action>,
)
    requires
        scratch_fits(&Gradual, scratch, my_history, opponent_history),
        !(scratch is Empty),
    ensures
        gradual_scratch_summarises(scratch, opponent_history, None),
{
    let (j, k) = choose|j: int, k: int|
        0 <= j <= my_history.len() && 0 <= k <= opponent_history.len() && #[trigger] Gradual.summarises_scratch(
            scratch,
            my_history.take(j),
            opponent_history.take(k),
        );
    law_gradual_summary_extends(scratch, opponent_history, k, None);
}

/// A fresh scratch summarises every history: nothing has been folded yet.
pub proof fn law_fresh_gradual_scratch(opponent_history: Seq<Action>, scale: Option<usize>)
    ensures
        gradual_scratch_summarises(
            StrategyScratch::Gradual { opp_defects: 0, p_left: 0, c_left: 0, processed: 0 },
            opponent_history,
            scale,
        ),
{
    assert(opponent_history.take(0) =~= Seq::<Action>::empty());
}

} // verus!
