use vstd::prelude::*;

use crate::action::Action;
use rand_chacha::ChaCha8Rng;

verus! {

/// Per-match scratchpad threaded through `next_move_stateful`, so that a
/// strategy whose decision folds the whole history can update its state
/// once per round instead of rescanning the history.
pub enum StrategyScratch {
    /// No scratch: the strategy decides from the histories alone.
    Empty,
    /// Running counters of the Gradual punish/cooldown machine and how many
    /// opponent moves have been folded in.
    Gradual { opp_defects: usize, p_left: usize, c_left: usize, processed: usize },
    /// Running count of (my C, next opponent D) inconsistencies and how many
    /// history entries have been folded in.
    OmegaDetector { inconsistencies: usize, processed: usize },
    /// Open-ended slot of machine words for any other stateful strategy;
    /// the strategy that creates it decides their layout.
    Custom(Vec<u64>),
}

impl Default for StrategyScratch {
    fn default() -> (r: Self)
        ensures
            r is Empty,
    {
        StrategyScratch::Empty
    }
}

/// A player of the iterated game. Strategies hold no per-match state of
/// their own: what they remember between rounds lives in the scratch that
/// `init_scratch` creates for each match.
pub trait Strategy: Send + Sync {
    /// The name that `name` returns, where `names_itself` holds.
    open spec fn spec_name(&self) -> Seq<char> {
        Seq::empty()
    }

    /// Whether `spec_name` is the name that `name` returns. A strategy that
    /// does not state its name claims nothing of it.
    open spec fn names_itself(&self) -> bool {
        false
    }

    /// The moves the strategy may answer after the given histories: its
    /// rule, and for a stochastic rule every outcome of its draws. By
    /// default any move.
    open spec fn allows(&self, my_history: Seq<Action>, opponent_history: Seq<Action>, r: Action) -> bool {
        true
    }

    /// What a scratch of this strategy records of the given histories. A
    /// strategy that keeps no scratch asks nothing of it.
    open spec fn summarises_scratch(&self, scratch: StrategyScratch, my_history: Seq<Action>, opponent_history: Seq<Action>) -> bool {
        true
    }

    fn name(&self) -> (r: &str)
        ensures
            self.names_itself() ==> r@ == self.spec_name(),
    ;

    /// The next move, given both histories of the match so far (one entry
    /// per round played, in order).
    fn next_move(&self, my_history: &[Action], opponent_history: &[Action], rng: &mut ChaCha8Rng) -> (r: Action)
        ensures
            self.allows(my_history@, opponent_history@, r),
    ;

    /// The scratch for a new match: none, or one that records the empty
    /// histories. By default there is none.
    fn init_scratch(&self) -> (s: StrategyScratch)
        ensures
            s is Empty || self.summarises_scratch(s, Seq::empty(), Seq::empty()),
        default_ensures
            s == StrategyScratch::Empty,
    {
        StrategyScratch::Empty
    }

    /// The move the engine asks for. Handed a scratch that fits the
    /// histories (see `scratch_fits`: empty, or recording a prefix of each),
    /// it answers a move that `allows` admits and leaves a scratch that still
    /// fits them. By default the scratch is ignored and the stateless
    /// `next_move` decides. (The fit is written out in full below, as
    /// `scratch_fits` is itself stated over this trait.)
    fn next_move_stateful(
        &self,
        my_history: &[Action],
        opponent_history: &[Action],
        scratch: &mut StrategyScratch,
        rng: &mut ChaCha8Rng,
    ) -> (r: Action)
        ensures
            ({
                ||| *old(scratch) is Empty
                ||| exists|j: int, k: int|
                    0 <= j <= my_history@.len() && 0 <= k <= opponent_history@.len()
                        && #[trigger] self.summarises_scratch(
                        *old(scratch),
                        my_history@.take(j),
                        opponent_history@.take(k),
                    )
            }) ==> {
                &&& self.allows(my_history@, opponent_history@, r)
                &&& {
                    ||| *final(scratch) is Empty
                    ||| exists|j: int, k: int|
                        0 <= j <= my_history@.len() && 0 <= k <= opponent_history@.len()
                            && #[trigger] self.summarises_scratch(
                            *final(scratch),
                            my_history@.take(j),
                            opponent_history@.take(k),
                        )
                }
            },
        default_ensures
            *final(scratch) == *old(scratch),
    {
        self.next_move(my_history, opponent_history, rng)
    }
}

/// `scratch` may be handed to `s` along with the given histories: it is
/// empty, or it records, as `s` reads a scratch, some prefix of each.
pub open spec fn scratch_fits<S: Strategy + ?Sized>(
    s: &S,
    scratch: StrategyScratch,
    my_history: Seq<Action>,
    opponent_history: Seq<Action>,
) -> bool {
    ||| scratch is Empty
    ||| exists|j: int, k: int|
        0 <= j <= my_history.len() && 0 <= k <= opponent_history.len() && #[trigger] s.summarises_scratch(
            scratch,
            my_history.take(j),
            opponent_history.take(k),
        )
}

/// Taking all of a history gives the history.
pub proof fn lemma_take_all(history: Seq<Action>)
    ensures
        history.take(history.len() as int) == history,
{
    assert(history.take(history.len() as int) =~= history);
}

/// A scratch that fits the histories still fits them once further rounds
/// are appended to both.
pub proof fn law_fit_survives_more_rounds<S: Strategy + ?Sized>(
    s: &S,
    scratch: StrategyScratch,
    my_history: Seq<Action>,
    opponent_history: Seq<Action>,
    my_longer: Seq<Action>,
    opponent_longer: Seq<Action>,
)
    requires
        scratch_fits(s, scratch, my_history, opponent_history),
        my_history.len() <= my_longer.len(),
        opponent_history.len() <= opponent_longer.len(),
        my_longer.take(my_history.len() as int) == my_history,
        opponent_longer.take(opponent_history.len() as int) == opponent_history,
    ensures
        scratch_fits(s, scratch, my_longer, opponent_longer),
{
    if !(scratch is Empty) {
        let (j, k) = choose|j: int, k: int|
            0 <= j <= my_history.len() && 0 <= k <= opponent_history.len() && #[trigger] s.summarises_scratch(
                scratch,
                my_history.take(j),
                opponent_history.take(k),
            );
        assert(my_longer.take(j) =~= my_history.take(j));
        assert(opponent_longer.take(k) =~= opponent_history.take(k));
        assert(s.summarises_scratch(scratch, my_longer.take(j), opponent_longer.take(k)));
    }
}

} // verus!
