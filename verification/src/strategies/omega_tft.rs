//! OmegaTFT: plays Tit For Tat, but counts the rounds in which the opponent
//! defected right after it cooperated; once warmed up, too many such
//! inconsistencies mark the opponent as random and it defects.
//!
//! The Omega-Detector family uses the same machine with its own warm-up
//! length and limit. The scratch keeps the running count so each round only
//! scans the entries not seen yet.

use vstd::prelude::*;
use rand_chacha::ChaCha8Rng;

use crate::action::Action;
use crate::strategies::gradual::capped;
use crate::strategies::history::{last_or, last_or_else};
use crate::strategy::{lemma_take_all, scratch_fits, Strategy, StrategyScratch};

verus! {

/// Rounds of plain Tit For Tat before the detector may switch.
pub const OMEGA_WARMUP: usize = 10;

/// Inconsistencies tolerated before OmegaTFT defects.
pub const OMEGA_THRESHOLD: usize = 5;

/// Round `i` is inconsistent: I cooperated in round `i - 1` and the
/// opponent defected in round `i`. A round past the end of my own history
/// is not.
pub open spec fn inconsistent_at(my_history: Seq<Action>, opponent_history: Seq<Action>, i: int) -> bool {
    &&& i - 1 < my_history.len()
    &&& my_history[i - 1] == Action::Cooperate
    &&& opponent_history[i] == Action::Defect
}

/// How far a scan can fold rounds in: to the end of the opponent history,
/// and no further than one round past the end of my own.
pub open spec fn omega_scan_end(my_history: Seq<Action>, opponent_history: Seq<Action>) -> int {
    if my_history.len() < opponent_history.len() {
        my_history.len() + 1int
    } else {
        opponent_history.len() as int
    }
}

/// The inconsistent rounds `i` with `from <= i < to`.
pub open spec fn inconsistencies_between(
    my_history: Seq<Action>,
    opponent_history: Seq<Action>,
    from: int,
    to: int,
) -> nat
    decreases to - from,
{
    if to <= from {
        0
    } else {
        inconsistencies_between(my_history, opponent_history, from, to - 1) + if inconsistent_at(
            my_history,
            opponent_history,
            to - 1,
        ) {
            1nat
        } else {
            0nat
        }
    }
}

/// The move once the count is known: Tit For Tat during warm-up or while
/// the count stays within the limit, defection otherwise.
pub open spec fn omega_decision(count: nat, opponent_history: Seq<Action>, warmup: usize, limit: usize) -> Action {
    if opponent_history.len() < warmup {
        last_or(opponent_history, Action::Cooperate)
    } else if count > limit {
        Action::Defect
    } else {
        last_or(opponent_history, Action::Cooperate)
    }
}

/// The move that the full histories call for.
pub open spec fn omega_move(
    my_history: Seq<Action>,
    opponent_history: Seq<Action>,
    warmup: usize,
    limit: usize,
) -> Action {
    omega_decision(
        inconsistencies_between(my_history, opponent_history, 1, opponent_history.len() as int),
        opponent_history,
        warmup,
        limit,
    )
}

pub open spec fn scan_start(processed: usize) -> int {
    if processed < 1 {
        1
    } else {
        processed as int
    }
}

/// The scratch holds the count of the inconsistent rounds among the first
/// `processed` entries, all of which both histories hold.
pub open spec fn omega_scratch_summarises(
    scratch: StrategyScratch,
    my_history: Seq<Action>,
    opponent_history: Seq<Action>,
) -> bool {
    match scratch {
        StrategyScratch::OmegaDetector { inconsistencies, processed } => {
            &&& processed <= opponent_history.len()
            &&& processed <= my_history.len() + 1
            &&& inconsistencies == inconsistencies_between(
                my_history,
                opponent_history,
                1,
                scan_start(processed),
            )
        },
        _ => false,
    }
}

/// The scratch that has folded in the whole histories: the count of all
/// inconsistent rounds, every entry processed (as far as my own history
/// reaches).
pub open spec fn omega_scratch_of(my_history: Seq<Action>, opponent_history: Seq<Action>) -> StrategyScratch {
    StrategyScratch::OmegaDetector {
        inconsistencies: inconsistencies_between(my_history, opponent_history, 1, opponent_history.len() as int)
            as usize,
        processed: omega_scan_end(my_history, opponent_history) as usize,
    }
}

/// The count of an Omega scratch once the entries it has not seen are
/// scanned (capped at `usize::MAX`).
pub open spec fn omega_count_after(
    scratch: StrategyScratch,
    my_history: Seq<Action>,
    opponent_history: Seq<Action>,
) -> nat {
    match scratch {
        StrategyScratch::OmegaDetector { inconsistencies, processed } => capped(
            inconsistencies + inconsistencies_between(
                my_history,
                opponent_history,
                scan_start(processed),
                opponent_history.len() as int,
            ),
        ),
        _ => 0,
    }
}

/// Counting over two adjacent ranges counts over their union.
pub proof fn law_inconsistencies_split(
    my_history: Seq<Action>,
    opponent_history: Seq<Action>,
    a: int,
    b: int,
    c: int,
)
    requires
        a <= b <= c,
    ensures
        inconsistencies_between(my_history, opponent_history, a, c) == inconsistencies_between(
            my_history,
            opponent_history,
            a,
            b,
        ) + inconsistencies_between(my_history, opponent_history, b, c),
    decreases c - b,
{
    if c > b {
        law_inconsistencies_split(my_history, opponent_history, a, b, c - 1);
    }
}

/// No round past the end of my own history is inconsistent.
proof fn lemma_nothing_past_my_history(my_history: Seq<Action>, opponent_history: Seq<Action>, a: int, b: int)
    requires
        my_history.len() + 1 <= a,
    ensures
        inconsistencies_between(my_history, opponent_history, a, b) == 0,
    decreases b - a,
{
    if b > a {
        lemma_nothing_past_my_history(my_history, opponent_history, a, b - 1);
    }
}

/// Counting over prefixes of the histories that hold every round read
/// counts as over the whole histories.
proof fn lemma_count_over_prefixes(
    my_history: Seq<Action>,
    opponent_history: Seq<Action>,
    j: int,
    k: int,
    a: int,
    b: int,
)
    requires
        1 <= a,
        0 <= j <= my_history.len(),
        0 <= k <= opponent_history.len(),
        b <= a || (b <= k && b <= j + 1),
    ensures
        inconsistencies_between(my_history.take(j), opponent_history.take(k), a, b) == inconsistencies_between(
            my_history,
            opponent_history,
            a,
            b,
        ),
    decreases b - a,
{
    if b > a {
        lemma_count_over_prefixes(my_history, opponent_history, j, k, a, b - 1);
    }
}

/// A scratch that summarises prefixes of the histories summarises the whole
/// histories: the rounds it counted read the same moves in both.
pub proof fn law_omega_summary_extends(
    scratch: StrategyScratch,
    my_history: Seq<Action>,
    opponent_history: Seq<Action>,
    j: int,
    k: int,
)
    requires
        0 <= j <= my_history.len(),
        0 <= k <= opponent_history.len(),
        omega_scratch_summarises(scratch, my_history.take(j), opponent_history.take(k)),
    ensures
        omega_scratch_summarises(scratch, my_history, opponent_history),
{
    if let StrategyScratch::OmegaDetector { processed, .. } = scratch {
        lemma_count_over_prefixes(my_history, opponent_history, j, k, 1, scan_start(processed));
    }
}

proof fn lemma_inconsistencies_bounded(my_history: Seq<Action>, opponent_history: Seq<Action>, a: int, b: int)
    requires
        a <= b,
    ensures
        inconsistencies_between(my_history, opponent_history, a, b) <= b - a,
    decreases b - a,
{
    if b > a {
        lemma_inconsistencies_bounded(my_history, opponent_history, a, b - 1);
    }
}

/// The stateless rule: rescans both histories.
pub fn omega_rescan(my_history: &[Action], opponent_history: &[Action], warmup: usize, limit: usize) -> (r: Action)
    ensures
        r == omega_move(my_history@, opponent_history@, warmup, limit),
{
    if opponent_history.len() < warmup {
        return last_or_else(opponent_history, Action::Cooperate);
    }
    let mut inconsistencies: usize = 0;
    let mut i: usize = 1;
    while i < opponent_history.len()
        invariant
            1 <= i,
            i <= opponent_history@.len() || (opponent_history@.len() == 0 && i == 1),
            inconsistencies == inconsistencies_between(my_history@, opponent_history@, 1, i as int),
            inconsistencies < i,
        decreases opponent_history@.len() - i,
    {
        if i - 1 < my_history.len() && my_history[i - 1] == Action::Cooperate && opponent_history[i]
            == Action::Defect {
            inconsistencies = inconsistencies + 1;
        }
        i = i + 1;
    }
    proof {
        if opponent_history@.len() == 0 {
            assert(inconsistencies_between(my_history@, opponent_history@, 1, 0) == 0);
            assert(inconsistencies_between(my_history@, opponent_history@, 1, 1) == 0);
        } else {
            assert(i == opponent_history@.len());
        }
        assert(inconsistencies == inconsistencies_between(
            my_history@,
            opponent_history@,
            1,
            opponent_history@.len() as int,
        ));
    }
    if inconsistencies > limit {
        Action::Defect
    } else {
        last_or_else(opponent_history, Action::Cooperate)
    }
}

/// The scratch path: scans only the entries the scratch has not seen, then
/// decides. A scratch of another kind leaves the decision to the rescan.
pub fn omega_incremental(
    my_history: &[Action],
    opponent_history: &[Action],
    scratch: &mut StrategyScratch,
    warmup: usize,
    limit: usize,
) -> (r: Action)
    ensures
        *old(scratch) is OmegaDetector ==> {
            &&& *final(scratch) == (StrategyScratch::OmegaDetector {
                inconsistencies: omega_count_after(*old(scratch), my_history@, opponent_history@) as usize,
                processed: omega_scan_end(my_history@, opponent_history@) as usize,
            })
            &&& r == omega_decision(
                omega_count_after(*old(scratch), my_history@, opponent_history@),
                opponent_history@,
                warmup,
                limit,
            )
        },
        !(*old(scratch) is OmegaDetector) ==> r == omega_move(
            my_history@,
            opponent_history@,
            warmup,
            limit,
        ) && *final(scratch) == *old(scratch),
        omega_scratch_summarises(*old(scratch), my_history@, opponent_history@) ==> {
            &&& r == omega_move(my_history@, opponent_history@, warmup, limit)
            &&& omega_scratch_summarises(*final(scratch), my_history@, opponent_history@)
            &&& *final(scratch) == omega_scratch_of(my_history@, opponent_history@)
        },
{
    match scratch {
        StrategyScratch::OmegaDetector { inconsistencies, processed } => {
            let ghost h_my = my_history@;
            let ghost h_opp = opponent_history@;
            let ghost c0 = *inconsistencies as nat;
            let ghost start = scan_start(*processed);
            let mut i: usize = if *processed < 1 {
                1
            } else {
                *processed
            };
            while i < opponent_history.len()
                invariant
                    start == i || (start <= i <= h_opp.len()),
                    1 <= start <= i,
                    h_my == my_history@,
                    h_opp == opponent_history@,
                    *inconsistencies as nat == capped(
                        (c0 + inconsistencies_between(h_my, h_opp, start, i as int)) as int,
                    ),
                decreases h_opp.len() - i,
            {
                if i - 1 < my_history.len() && my_history[i - 1] == Action::Cooperate
                    && opponent_history[i] == Action::Defect {
                    *inconsistencies = inconsistencies.saturating_add(1);
                }
                i = i + 1;
            }
            proof {
                if start > h_opp.len() {
                    assert(inconsistencies_between(h_my, h_opp, start, h_opp.len() as int) == 0);
                    assert(inconsistencies_between(h_my, h_opp, start, i as int) == 0);
                }
            }
            *processed = if my_history.len() < opponent_history.len() {
                my_history.len() + 1
            } else {
                opponent_history.len()
            };
            let count = *inconsistencies;
            let r = if opponent_history.len() < warmup {
                last_or_else(opponent_history, Action::Cooperate)
            } else if count > limit {
                Action::Defect
            } else {
                last_or_else(opponent_history, Action::Cooperate)
            };
            proof {
                if h_opp.len() >= 1 && start <= h_opp.len() && c0 == inconsistencies_between(
                    h_my,
                    h_opp,
                    1,
                    start,
                ) {
                    law_inconsistencies_split(h_my, h_opp, 1, start, h_opp.len() as int);
                    lemma_inconsistencies_bounded(h_my, h_opp, 1, h_opp.len() as int);
                    let e = omega_scan_end(h_my, h_opp);
                    law_inconsistencies_split(h_my, h_opp, 1, e, h_opp.len() as int);
                    if e < h_opp.len() {
                        lemma_nothing_past_my_history(h_my, h_opp, e, h_opp.len() as int);
                    }
                    assert(scan_start(e as usize) == e);
                }
            }
            r
        },
        _ => omega_rescan(my_history, opponent_history, warmup, limit),
    }
}

#[derive(Clone, Copy, Default)]
pub struct OmegaTFT;

impl Strategy for OmegaTFT {
    /// Its scratch holds the count of a prefix of the histories.
    open spec fn summarises_scratch(&self, scratch: StrategyScratch, my_history: Seq<Action>, opponent_history: Seq<Action>) -> bool {
        omega_scratch_summarises(scratch, my_history, opponent_history)
    }

    open spec fn spec_name(&self) -> Seq<char> {
        "Omega Tit For Tat"@
    }

    open spec fn names_itself(&self) -> bool {
        true
    }

    open spec fn allows(&self, my_history: Seq<Action>, opponent_history: Seq<Action>, r: Action) -> bool {
        &&& (r == omega_move(my_history, opponent_history, OMEGA_WARMUP, OMEGA_THRESHOLD))
    }

    fn name(&self) -> (r: &str)
        ensures
            r@ == "Omega Tit For Tat"@,
    {
        "Omega Tit For Tat"
    }

    fn next_move(&self, my_history: &[Action], opponent_history: &[Action], _rng: &mut ChaCha8Rng) -> (r: Action)
        ensures
            r == omega_move(my_history@, opponent_history@, OMEGA_WARMUP, OMEGA_THRESHOLD),
    {
        omega_rescan(my_history, opponent_history, OMEGA_WARMUP, OMEGA_THRESHOLD)
    }

    fn init_scratch(&self) -> (s: StrategyScratch)
        ensures
            s == (StrategyScratch::OmegaDetector { inconsistencies: 0, processed: 0 }),
    {
        let s = StrategyScratch::OmegaDetector { inconsistencies: 0, processed: 0 };
        proof {
            law_fresh_omega_scratch(Seq::empty(), Seq::empty());
        }
        s
    }

    /// Same decisions as `next_move` whenever the scratch summarises a
    /// prefix of the histories, as a fresh scratch does.
    fn next_move_stateful(
        &self,
        my_history: &[Action],
        opponent_history: &[Action],
        scratch: &mut StrategyScratch,
        _rng: &mut ChaCha8Rng,
    ) -> (r: Action)
        ensures
            omega_scratch_summarises(*old(scratch), my_history@, opponent_history@) ==> {
                &&& r == omega_move(my_history@, opponent_history@, OMEGA_WARMUP, OMEGA_THRESHOLD)
                &&& omega_scratch_summarises(*final(scratch), my_history@, opponent_history@)
                &&& *final(scratch) == omega_scratch_of(my_history@, opponent_history@)
            },
            !(*old(scratch) is OmegaDetector) ==> r == omega_move(
                my_history@,
                opponent_history@,
                OMEGA_WARMUP,
                OMEGA_THRESHOLD,
            ) && *final(scratch) == *old(scratch),
            *old(scratch) is OmegaDetector ==> r == omega_decision(
                omega_count_after(*old(scratch), my_history@, opponent_history@),
                opponent_history@,
                OMEGA_WARMUP,
                OMEGA_THRESHOLD,
            ),
    {
        proof {
            if exists|j: int, k: int|
                0 <= j <= my_history@.len() && 0 <= k <= opponent_history@.len()
                    && #[trigger] self.summarises_scratch(*scratch, my_history@.take(j), opponent_history@.take(k)) {
                let (j, k) = choose|j: int, k: int|
                    0 <= j <= my_history@.len() && 0 <= k <= opponent_history@.len()
                        && #[trigger] self.summarises_scratch(*scratch, my_history@.take(j), opponent_history@.take(k));
                law_omega_summary_extends(*scratch, my_history@, opponent_history@, j, k);
            }
        }
        let r = omega_incremental(my_history, opponent_history, scratch, OMEGA_WARMUP, OMEGA_THRESHOLD);
        proof {
            lemma_take_all(my_history@);
            lemma_take_all(opponent_history@);
            assert(omega_scratch_summarises(*scratch, my_history@, opponent_history@) ==> self.summarises_scratch(
                *scratch,
                my_history@.take(my_history@.len() as int),
                opponent_history@.take(opponent_history@.len() as int),
            ));
        }
        r
    }
}

/// A scratch that fits OmegaTFT's histories, as the one it starts a match
/// with and then updates round by round does, summarises the whole
/// histories; handed such a scratch, `next_move_stateful` answers what
/// `next_move` answers and leaves `omega_scratch_of` the histories.
pub proof fn law_fitting_omega_scratch_summarises(
    scratch: StrategyScratch,
    my_history: Seq<Action>,
    opponent_history: Seq<Action>,
)
    requires
        scratch_fits(&OmegaTFT, scratch, my_history, opponent_history),
        !(scratch is Empty),
    ensures
        omega_scratch_summarises(scratch, my_history, opponent_history),
{
    let (j, k) = choose|j: int, k: int|
        0 <= j <= my_history.len() && 0 <= k <= opponent_history.len() && #[trigger] OmegaTFT.summarises_scratch(
            scratch,
            my_history.take(j),
            opponent_history.take(k),
        );
    law_omega_summary_extends(scratch, my_history, opponent_history, j, k);
}

/// Without a round in which the opponent defected right after I
/// cooperated, none is counted, over any range of rounds.
proof fn lemma_no_pair_counts_nothing(my_history: Seq<Action>, opponent_history: Seq<Action>, a: int, b: int)
    requires
        1 <= a,
        b <= opponent_history.len(),
        forall|i: int|
            1 <= i < opponent_history.len() && i - 1 < my_history.len() ==> !(my_history[i - 1]
                == Action::Cooperate && #[trigger] opponent_history[i] == Action::Defect),
    ensures
        inconsistencies_between(my_history, opponent_history, a, b) == 0,
    decreases b - a,
{
    if b > a {
        lemma_no_pair_counts_nothing(my_history, opponent_history, a, b - 1);
        assert(!inconsistent_at(my_history, opponent_history, b - 1)) by {
            if b - 1 - 1 < my_history.len() {
                let _ = opponent_history[b - 1];
            }
        }
    }
}

/// Where the opponent never defected right after I cooperated, OmegaTFT
/// and every Omega-Detector play Tit For Tat, during warm-up and after it:
/// the opponent's last move, cooperation on an empty history. Rounds in
/// which I defected never count against the opponent.
pub proof fn law_omega_without_inconsistency_plays_tit_for_tat(
    my_history: Seq<Action>,
    opponent_history: Seq<Action>,
    warmup: usize,
    limit: usize,
)
    requires
        forall|i: int|
            1 <= i < opponent_history.len() && i - 1 < my_history.len() ==> !(my_history[i - 1]
                == Action::Cooperate && #[trigger] opponent_history[i] == Action::Defect),
    ensures
        omega_move(my_history, opponent_history, warmup, limit) == last_or(opponent_history, Action::Cooperate),
{
    lemma_no_pair_counts_nothing(my_history, opponent_history, 1, opponent_history.len() as int);
}

/// Once warmed up, the detector defects exactly when more than `limit`
/// rounds had the opponent defect right after I cooperated. Here I always
/// cooperated and the opponent defected in every round but the last, which
/// makes `len - 2` such rounds: it defects exactly when `len - 2 > limit`,
/// and otherwise copies the opponent's last cooperation.
pub proof fn law_omega_defects_past_its_limit(
    my_history: Seq<Action>,
    opponent_history: Seq<Action>,
    warmup: usize,
    limit: usize,
)
    requires
        my_history.len() == opponent_history.len(),
        opponent_history.len() >= 2,
        opponent_history.len() >= warmup,
        forall|i: int| 0 <= i < my_history.len() ==> #[trigger] my_history[i] == Action::Cooperate,
        forall|i: int| 0 <= i < opponent_history.len() - 1 ==> #[trigger] opponent_history[i] == Action::Defect,
        opponent_history.last() == Action::Cooperate,
    ensures
        (omega_move(my_history, opponent_history, warmup, limit) == Action::Defect) <==> opponent_history.len()
            - 2 > limit,
{
    let n = opponent_history.len() as int;
    lemma_every_pair_counts(my_history, opponent_history, n - 1);
    assert(!inconsistent_at(my_history, opponent_history, n - 1));
}

proof fn lemma_every_pair_counts(my_history: Seq<Action>, opponent_history: Seq<Action>, b: int)
    requires
        1 <= b <= opponent_history.len(),
        my_history.len() == opponent_history.len(),
        forall|i: int| 0 <= i < my_history.len() ==> #[trigger] my_history[i] == Action::Cooperate,
        forall|i: int| 0 <= i < b ==> #[trigger] opponent_history[i] == Action::Defect,
    ensures
        inconsistencies_between(my_history, opponent_history, 1, b) == b - 1,
    decreases b,
{
    if b > 1 {
        lemma_every_pair_counts(my_history, opponent_history, b - 1);
        assert(my_history[b - 2] == Action::Cooperate);
        assert(opponent_history[b - 1] == Action::Defect);
    }
}

/// A fresh scratch summarises every pair of histories.
pub proof fn law_fresh_omega_scratch(my_history: Seq<Action>, opponent_history: Seq<Action>)
    ensures
        omega_scratch_summarises(
            StrategyScratch::OmegaDetector { inconsistencies: 0, processed: 0 },
            my_history,
            opponent_history,
        ),
{
}

/// OmegaTFT is the Omega-Detector with threshold 10: both play Tit For Tat
/// for ten rounds and then defect once more than five inconsistencies have
/// been seen.
pub proof fn law_omega_tft_is_detector_ten(my_history: Seq<Action>, opponent_history: Seq<Action>)
    ensures
        omega_move(my_history, opponent_history, OMEGA_WARMUP, OMEGA_THRESHOLD) == omega_move(
            my_history,
            opponent_history,
            10,
            (10usize / 2) as usize,
        ),
{
}

} // verus!
