use vstd::prelude::*;

use rand_chacha::ChaCha8Rng;

use crate::action::{
    alternation_unprofitable, first_total, max_abs_payoff, payoff_of, payoffs_ordered, round_payoffs, second_total, valid_payoffs, Action,
    History,
};
use crate::chance::{came_up, draw_ratio, law_outcome_respects_its_chance, entropy_rng, is_chance, seeded_rng};
use crate::strategies::labels::{append_signed, signed_decimal};
use crate::strategy::{law_fit_survives_more_rounds, scratch_fits, Strategy};

verus! {

/// The rules of a match.
pub struct Game {
    /// Rounds per match.
    pub iterations: usize,
    /// Chance, as `(numerator, denominator)`, that a chosen move is flipped
    /// before it is played.
    pub action_noise: (u32, u32),
    /// Chance, as `(numerator, denominator)`, that a player sees the
    /// opposite of the move the other played.
    pub perception_noise: (u32, u32),
    /// Chance, as `(numerator, denominator)` and drawn before each round,
    /// that the match ends there; `None`, or a zero chance, when matches
    /// always run their full length.
    pub discount_factor: Option<(u32, u32)>,
    /// `(T, R, P, S)`.
    pub payoffs: (i32, i32, i32, i32),
    pub seed: Option<u64>,
}

impl Clone for Game {
    fn clone(&self) -> (g: Self)
        ensures
            g == *self,
    {
        Game {
            iterations: self.iterations,
            action_noise: self.action_noise,
            perception_noise: self.perception_noise,
            discount_factor: self.discount_factor,
            payoffs: self.payoffs,
            seed: self.seed,
        }
    }
}

impl Default for Game {
    fn default() -> (g: Self)
        ensures
            g.iterations == 200,
            g.action_noise == (0u32, 1u32),
            g.perception_noise == (0u32, 1u32),
            g.discount_factor is None,
            g.payoffs == (5i32, 3i32, 1i32, 0i32),
            g.seed is None,
    {
        Game {
            iterations: 200,
            action_noise: (0, 1),
            perception_noise: (0, 1),
            discount_factor: None,
            payoffs: (5, 3, 1, 0),
            seed: None,
        }
    }
}

/// The text of the error for payoffs that break `T > R > P > S`.
pub open spec fn ordering_violation_text(t: i32, r: i32, p: i32, s: i32) -> Seq<char> {
    "Axelrod payoffs must satisfy T > R > P > S (got T="@ + signed_decimal(t as int) + ", R="@ + signed_decimal(
        r as int,
    ) + ", P="@ + signed_decimal(p as int) + ", S="@ + signed_decimal(s as int) + ")"@
}

/// The text of the error for payoffs that break `2R > T + S`.
pub open spec fn alternation_violation_text(r: i32, t: i32, s: i32) -> Seq<char> {
    "Axelrod payoffs must satisfy 2R > T + S (got R="@ + signed_decimal(r as int) + ", T="@ + signed_decimal(
        t as int,
    ) + ", S="@ + signed_decimal(s as int)
        + "; otherwise alternating defection beats mutual cooperation)"@
}

/// The message that names the payoffs breaking `T > R > P > S`.
fn ordering_violation(t: i32, r: i32, p: i32, s: i32) -> (m: String)
    ensures
        m@ == ordering_violation_text(t, r, p, s),
{
    let mut m = String::from_str("Axelrod payoffs must satisfy T > R > P > S (got T=");
    append_signed(&mut m, t);
    m.append(", R=");
    append_signed(&mut m, r);
    m.append(", P=");
    append_signed(&mut m, p);
    m.append(", S=");
    append_signed(&mut m, s);
    m.append(")");
    proof {
        assert(m@ =~= ordering_violation_text(t, r, p, s));
    }
    m
}

/// The message that names the payoffs breaking `2R > T + S`.
fn alternation_violation(r: i32, t: i32, s: i32) -> (m: String)
    ensures
        m@ == alternation_violation_text(r, t, s),
{
    let mut m = String::from_str("Axelrod payoffs must satisfy 2R > T + S (got R=");
    append_signed(&mut m, r);
    m.append(", T=");
    append_signed(&mut m, t);
    m.append(", S=");
    append_signed(&mut m, s);
    m.append("; otherwise alternating defection beats mutual cooperation)");
    proof {
        assert(m@ =~= alternation_violation_text(r, t, s));
    }
    m
}

impl Game {
    /// Checks Axelrod's constraints `T > R > P > S` and `2R > T + S`; the
    /// first one broken is reported.
    pub fn validate(&self) -> (res: Result<(), String>)
        ensures
            res is Ok <==> valid_payoffs(self.payoffs),
            !payoffs_ordered(self.payoffs) ==> (res matches Err(m) && m@ == ordering_violation_text(
                self.payoffs.0,
                self.payoffs.1,
                self.payoffs.2,
                self.payoffs.3,
            )),
            payoffs_ordered(self.payoffs) && !alternation_unprofitable(self.payoffs) ==> (res matches Err(
                m,
            ) && m@ == alternation_violation_text(self.payoffs.1, self.payoffs.0, self.payoffs.3)),
    {
        let (t, r, p, s) = self.payoffs;
        if !(t > r && r > p && p > s) {
            return Err(ordering_violation(t, r, p, s));
        }
        if !(2 * (r as i64) > (t as i64) + (s as i64)) {
            return Err(alternation_violation(r, t, s));
        }
        Ok(())
    }

    /// Plays one match and returns both scores and the joint history of the
    /// moves actually played.
    ///
    /// Each round: the match may end (discount), both players choose from
    /// what they have seen, each choice may be flipped (action noise), each
    /// player may misperceive the other's played move (perception noise),
    /// and both score the played moves. The generator is seeded from
    /// `match_seed`, else from the game's seed, else from the operating
    /// system (from `FALLBACK_SEED` where it has no entropy to give).
    pub fn play<S1: Strategy + ?Sized, S2: Strategy + ?Sized>(&self, s1: &S1, s2: &S2, match_seed: Option<u64>) -> (res: (
        i32,
        i32,
        History,
    ))
        requires
            self.iterations * max_abs_payoff(self.payoffs) <= i32::MAX,
            chances_valid(*self),
        ensures
            possible_match(*self, s1, s2, res.2@),
            res.0 == first_total(self.payoffs, res.2@),
            res.1 == second_total(self.payoffs, res.2@),
            -(self.iterations * max_abs_payoff(self.payoffs)) <= res.0 <= self.iterations
                * max_abs_payoff(self.payoffs),
            -(self.iterations * max_abs_payoff(self.payoffs)) <= res.1 <= self.iterations
                * max_abs_payoff(self.payoffs),
    {
        let mut h1_actual: Vec<Action> = Vec::new();
        let mut h2_actual: Vec<Action> = Vec::new();
        let mut h1_perceived_by_2: Vec<Action> = Vec::new();
        let mut h2_perceived_by_1: Vec<Action> = Vec::new();
        let mut score1: i32 = 0;
        let mut score2: i32 = 0;
        let mut history: History = Vec::new();
        let ghost mut chosen1: Seq<Action> = Seq::empty();
        let ghost mut chosen2: Seq<Action> = Seq::empty();

        let mut rng = match effective_seed(match_seed, self.seed) {
            Some(s) => seeded_rng(s),
            None => entropy_rng(),
        };

        let mut scratch1 = s1.init_scratch();
        let mut scratch2 = s2.init_scratch();
        proof {
            let none = Seq::<Action>::empty();
            assert(h1_actual@ =~= none && h2_actual@ =~= none);
            assert(h1_perceived_by_2@ =~= none && h2_perceived_by_1@ =~= none);
            assert(none.take(0) =~= none);
            assert(scratch1 is Empty || s1.summarises_scratch(scratch1, none.take(0), none.take(0)));
            assert(scratch2 is Empty || s2.summarises_scratch(scratch2, none.take(0), none.take(0)));
        }
        let ghost bound = max_abs_payoff(self.payoffs);

        let mut turn: usize = 0;
        while turn < self.iterations
            invariant
                turn <= self.iterations,
                self.iterations * bound <= i32::MAX,
                bound == max_abs_payoff(self.payoffs),
                chances_valid(*self),
                ends_at_once(*self) ==> turn == 0,
                h1_actual@.len() == turn,
                h2_actual@.len() == turn,
                h1_perceived_by_2@.len() == turn,
                h2_perceived_by_1@.len() == turn,
                chosen1.len() == turn,
                chosen2.len() == turn,
                history@.len() == turn,
                h1_actual@ == firsts(history@),
                h2_actual@ == seconds(history@),
                forall|t: int|
                    0 <= t < turn ==> #[trigger] round_consistent(
                        *self,
                        s1,
                        s2,
                        h1_actual@,
                        h2_actual@,
                        h1_perceived_by_2@,
                        h2_perceived_by_1@,
                        chosen1,
                        chosen2,
                        t,
                    ),
                score1 == first_total(self.payoffs, history@),
                score2 == second_total(self.payoffs, history@),
                -(turn * bound) <= score1 <= turn * bound,
                -(turn * bound) <= score2 <= turn * bound,
                scratch_fits(s1, scratch1, h1_actual@, h2_perceived_by_1@),
                scratch_fits(s2, scratch2, h2_actual@, h1_perceived_by_2@),
                turn > 0 ==> discount_spared(*self),
            ensures
                turn > 0 ==> discount_spared(*self),
                turn < self.iterations ==> discount_ended(*self),
                turn <= self.iterations,
                runs_full_length(*self) ==> turn == self.iterations,
                ends_at_once(*self) ==> turn == 0,
                history@.len() == turn,
                h1_actual@ == firsts(history@),
                h2_actual@ == seconds(history@),
                h1_perceived_by_2@.len() == turn,
                h2_perceived_by_1@.len() == turn,
                chosen1.len() == turn,
                chosen2.len() == turn,
                forall|t: int|
                    0 <= t < turn ==> #[trigger] round_consistent(
                        *self,
                        s1,
                        s2,
                        h1_actual@,
                        h2_actual@,
                        h1_perceived_by_2@,
                        h2_perceived_by_1@,
                        chosen1,
                        chosen2,
                        t,
                    ),
                score1 == first_total(self.payoffs, history@),
                score2 == second_total(self.payoffs, history@),
                -(turn * bound) <= score1 <= turn * bound,
                -(turn * bound) <= score2 <= turn * bound,
            decreases self.iterations - turn,
        {
            match self.discount_factor {
                Some(d) => {
                    if d.0 > 0 && draw_ratio(&mut rng, d.0, d.1) {
                        break ;
                    }
                },
                None => {},
            }

            let m1 = s1.next_move_stateful(
                h1_actual.as_slice(),
                h2_perceived_by_1.as_slice(),
                &mut scratch1,
                &mut rng,
            );
            let m2 = s2.next_move_stateful(
                h2_actual.as_slice(),
                h1_perceived_by_2.as_slice(),
                &mut scratch2,
                &mut rng,
            );

            let m1_actual = noisy(&mut rng, m1, self.action_noise);
            let m2_actual = noisy(&mut rng, m2, self.action_noise);
            let m1_perceived = noisy(&mut rng, m1_actual, self.perception_noise);
            let m2_perceived = noisy(&mut rng, m2_actual, self.perception_noise);

            let (p1, p2) = round_payoffs(self.payoffs, m1_actual, m2_actual);
            proof {
                lemma_payoff_bounded(self.payoffs, m1_actual, m2_actual);
                lemma_payoff_bounded(self.payoffs, m2_actual, m1_actual);
                assert((turn + 1) * bound <= self.iterations * bound) by (nonlinear_arith)
                    requires
                        turn + 1 <= self.iterations,
                        bound >= 0,
                ;
                assert((turn + 1) * bound == turn * bound + bound) by (nonlinear_arith);
            }
            score1 = score1 + p1;
            score2 = score2 + p2;

            let ghost a1 = h1_actual@;
            let ghost a2 = h2_actual@;
            let ghost q1 = h1_perceived_by_2@;
            let ghost q2 = h2_perceived_by_1@;
            let ghost c1 = chosen1;
            let ghost c2 = chosen2;
            h1_actual.push(m1_actual);
            h2_actual.push(m2_actual);
            h1_perceived_by_2.push(m1_perceived);
            h2_perceived_by_1.push(m2_perceived);
            let ghost before = history@;
            history.push((m1_actual, m2_actual));
            proof {
                chosen1 = chosen1.push(m1);
                chosen2 = chosen2.push(m2);
                assert(h1_actual@.take(turn as int) =~= a1);
                assert(h2_actual@.take(turn as int) =~= a2);
                assert(h1_perceived_by_2@.take(turn as int) =~= q1);
                assert(h2_perceived_by_1@.take(turn as int) =~= q2);
                law_fit_survives_more_rounds(s1, scratch1, a1, q2, h1_actual@, h2_perceived_by_1@);
                law_fit_survives_more_rounds(s2, scratch2, a2, q1, h2_actual@, h1_perceived_by_2@);
                assert(history@.drop_last() =~= before);
                assert(h1_actual@ =~= firsts(history@));
                assert(h2_actual@ =~= seconds(history@));
                assert forall|t: int| 0 <= t < turn + 1 implies #[trigger] round_consistent(
                    *self,
                    s1,
                    s2,
                    h1_actual@,
                    h2_actual@,
                    h1_perceived_by_2@,
                    h2_perceived_by_1@,
                    chosen1,
                    chosen2,
                    t,
                ) by {
                    if t < turn {
                        assert(round_consistent(*self, s1, s2, a1, a2, q1, q2, c1, c2, t));
                        assert(h1_actual@.take(t) =~= a1.take(t));
                        assert(h2_actual@.take(t) =~= a2.take(t));
                        assert(h1_perceived_by_2@.take(t) =~= q1.take(t));
                        assert(h2_perceived_by_1@.take(t) =~= q2.take(t));
                    } else {
                        assert(h1_actual@.take(t) =~= a1);
                        assert(h2_actual@.take(t) =~= a2);
                        assert(h1_perceived_by_2@.take(t) =~= q1);
                        assert(h2_perceived_by_1@.take(t) =~= q2);
                    }
                }
            }
            turn = turn + 1;
        }

        proof {
            assert(turn * bound <= self.iterations * bound) by (nonlinear_arith)
                requires
                    turn <= self.iterations,
                    bound >= 0,
            ;
            lemma_payoff_bounded(self.payoffs, Action::Cooperate, Action::Cooperate);
            assert(possible_match_witness(
                *self,
                s1,
                s2,
                history@,
                h1_perceived_by_2@,
                h2_perceived_by_1@,
                chosen1,
                chosen2,
            ));
        }
        (score1, score2, history)
    }
}

/// The seed a match is played with: the match's own seed, else the game's.
pub fn effective_seed(match_seed: Option<u64>, game_seed: Option<u64>) -> (r: Option<u64>)
    ensures
        r == match match_seed {
            Some(s) => Some(s),
            None => game_seed,
        },
{
    match match_seed {
        Some(s) => Some(s),
        None => game_seed,
    }
}

/// `chosen`, flipped when a draw of `chance` comes up.
fn noisy(rng: &mut ChaCha8Rng, chosen: Action, chance: (u32, u32)) -> (r: Action)
    requires
        is_chance(chance),
    ensures
        passed_through(chosen, r, chance),
{
    if draw_ratio(rng, chance.0, chance.1) {
        chosen.flip()
    } else {
        chosen
    }
}

/// The game's three chances are ratios in [0, 1].
pub open spec fn chances_valid(game: Game) -> bool {
    &&& is_chance(game.action_noise)
    &&& is_chance(game.perception_noise)
    &&& game.discount_factor matches Some(d) ==> is_chance(d)
}

/// Before a round the discount was drawn and came up: the match ends there.
pub open spec fn discount_ended(game: Game) -> bool {
    game.discount_factor matches Some(d) && 0 < d.0 && came_up(d.0, d.1, true)
}

/// Before a round the discount, where there is a chance of it, was drawn
/// and did not come up: the round is played.
pub open spec fn discount_spared(game: Game) -> bool {
    game.discount_factor matches Some(d) ==> (d.0 == 0 || came_up(d.0, d.1, false))
}

/// Matches are never cut short: no discount, or a zero chance of it.
pub open spec fn runs_full_length(game: Game) -> bool {
    game.discount_factor matches Some(d) ==> d.0 == 0
}

/// Every match ends before its first round: a certain discount.
pub open spec fn ends_at_once(game: Game) -> bool {
    game.discount_factor matches Some(d) && 0 < d.0 && d.0 == d.1
}

/// `out` is `input` after a noise of `chance`: unchanged or flipped,
/// unchanged for a zero chance and flipped for a certain one.
pub open spec fn passed_through(input: Action, out: Action, chance: (u32, u32)) -> bool {
    &&& out == input || out == input.flipped()
    &&& chance.0 == 0 ==> out == input
    &&& (chance.0 == chance.1 && chance.1 > 0) ==> out == input.flipped()
}

/// The first player's moves of a joint history.
pub open spec fn firsts(h: Seq<(Action, Action)>) -> Seq<Action> {
    Seq::new(h.len(), |i: int| h[i].0)
}

/// The second player's moves of a joint history.
pub open spec fn seconds(h: Seq<(Action, Action)>) -> Seq<Action> {
    Seq::new(h.len(), |i: int| h[i].1)
}

/// Round `t` of a match: each player chose from its own played moves and
/// what it saw of the other's (`seen2` is what the first player saw of the
/// second, `seen1` the reverse), as its rule allows; each choice went through the action noise and each played
/// move through the perception noise.
pub open spec fn round_consistent<S1: Strategy + ?Sized, S2: Strategy + ?Sized>(
    game: Game,
    s1: &S1,
    s2: &S2,
    mine1: Seq<Action>,
    mine2: Seq<Action>,
    seen1: Seq<Action>,
    seen2: Seq<Action>,
    chosen1: Seq<Action>,
    chosen2: Seq<Action>,
    t: int,
) -> bool {
    &&& passed_through(chosen1[t], mine1[t], game.action_noise)
    &&& passed_through(chosen2[t], mine2[t], game.action_noise)
    &&& passed_through(mine1[t], seen1[t], game.perception_noise)
    &&& passed_through(mine2[t], seen2[t], game.perception_noise)
    &&& s1.allows(mine1.take(t), seen2.take(t), chosen1[t])
    &&& s2.allows(mine2.take(t), seen1.take(t), chosen2[t])
}

/// `h` can be the history of a match of `s1` against `s2` under `game`,
/// with what each player saw and chose given.
pub open spec fn possible_match_witness<S1: Strategy + ?Sized, S2: Strategy + ?Sized>(
    game: Game,
    s1: &S1,
    s2: &S2,
    h: Seq<(Action, Action)>,
    seen1: Seq<Action>,
    seen2: Seq<Action>,
    chosen1: Seq<Action>,
    chosen2: Seq<Action>,
) -> bool {
    &&& h.len() <= game.iterations
    &&& h.len() < game.iterations ==> discount_ended(game)
    &&& h.len() > 0 ==> discount_spared(game)
    &&& runs_full_length(game) ==> h.len() == game.iterations
    &&& ends_at_once(game) ==> h.len() == 0
    &&& seen1.len() == h.len() && seen2.len() == h.len()
    &&& chosen1.len() == h.len() && chosen2.len() == h.len()
    &&& forall|t: int|
        0 <= t < h.len() ==> #[trigger] round_consistent(
            game,
            s1,
            s2,
            firsts(h),
            seconds(h),
            seen1,
            seen2,
            chosen1,
            chosen2,
            t,
        )
}

/// `h` can be the history of a match of `s1` against `s2` under `game`.
pub open spec fn possible_match<S1: Strategy + ?Sized, S2: Strategy + ?Sized>(
    game: Game,
    s1: &S1,
    s2: &S2,
    h: Seq<(Action, Action)>,
) -> bool {
    exists|seen1: Seq<Action>, seen2: Seq<Action>, chosen1: Seq<Action>, chosen2: Seq<Action>|
        #[trigger] possible_match_witness(game, s1, s2, h, seen1, seen2, chosen1, chosen2)
}

/// A single round's payoff never exceeds the largest payoff magnitude.
proof fn lemma_payoff_bounded(payoffs: (i32, i32, i32, i32), mine: Action, theirs: Action)
    ensures
        -max_abs_payoff(payoffs) <= payoff_of(payoffs, mine, theirs) <= max_abs_payoff(payoffs),
        max_abs_payoff(payoffs) >= 0,
{
}


/// A discount ends a match only when its draw comes up: a match cut short
/// had a discount with a chance above zero whose draw came up, and a match
/// with rounds played had, before each, a discount draw that did not come
/// up, so never a certain discount.
pub proof fn law_discount_ends_a_match_only_when_it_comes_up<S1: Strategy + ?Sized, S2: Strategy + ?Sized>(
    game: Game,
    s1: &S1,
    s2: &S2,
    h: Seq<(Action, Action)>,
)
    requires
        possible_match(game, s1, s2, h),
    ensures
        h.len() < game.iterations ==> {
            &&& game.discount_factor is Some
            &&& 0 < game.discount_factor.unwrap().0
            &&& came_up(game.discount_factor.unwrap().0, game.discount_factor.unwrap().1, true)
        },
        h.len() > 0 && game.discount_factor is Some && 0 < game.discount_factor.unwrap().0 ==> {
            &&& came_up(game.discount_factor.unwrap().0, game.discount_factor.unwrap().1, false)
            &&& game.discount_factor.unwrap().0 != game.discount_factor.unwrap().1
        },
{
    let (seen1, seen2, chosen1, chosen2) = choose|
        seen1: Seq<Action>,
        seen2: Seq<Action>,
        chosen1: Seq<Action>,
        chosen2: Seq<Action>,
    | possible_match_witness(game, s1, s2, h, seen1, seen2, chosen1, chosen2);
    if h.len() > 0 && game.discount_factor is Some && 0 < game.discount_factor.unwrap().0 {
        let d = game.discount_factor.unwrap();
        law_outcome_respects_its_chance(d.0, d.1, false);
    }
}

/// Without noise a match is played as the rules say: each round, each
/// player's played move is one its strategy allows after the two played
/// histories so far.
pub proof fn law_noiseless_match_follows_the_rules<S1: Strategy + ?Sized, S2: Strategy + ?Sized>(
    game: Game,
    s1: &S1,
    s2: &S2,
    h: Seq<(Action, Action)>,
)
    requires
        possible_match(game, s1, s2, h),
        game.action_noise.0 == 0,
        game.perception_noise.0 == 0,
    ensures
        forall|t: int|
            0 <= t < h.len() ==> s1.allows(firsts(h).take(t), seconds(h).take(t), #[trigger] h[t].0),
        forall|t: int|
            0 <= t < h.len() ==> s2.allows(seconds(h).take(t), firsts(h).take(t), #[trigger] h[t].1),
{
    let (seen1, seen2, chosen1, chosen2) = choose|
        seen1: Seq<Action>,
        seen2: Seq<Action>,
        chosen1: Seq<Action>,
        chosen2: Seq<Action>,
    | possible_match_witness(game, s1, s2, h, seen1, seen2, chosen1, chosen2);
    assert(seen1 =~= firsts(h)) by {
        assert forall|u: int| 0 <= u < h.len() implies seen1[u] == firsts(h)[u] by {
            assert(round_consistent(game, s1, s2, firsts(h), seconds(h), seen1, seen2, chosen1, chosen2, u));
        }
    }
    assert(seen2 =~= seconds(h)) by {
        assert forall|u: int| 0 <= u < h.len() implies seen2[u] == seconds(h)[u] by {
            assert(round_consistent(game, s1, s2, firsts(h), seconds(h), seen1, seen2, chosen1, chosen2, u));
        }
    }
    assert forall|t: int| 0 <= t < h.len() implies s1.allows(
        firsts(h).take(t),
        seconds(h).take(t),
        #[trigger] h[t].0,
    ) by {
        assert(round_consistent(game, s1, s2, firsts(h), seconds(h), seen1, seen2, chosen1, chosen2, t));
        assert(chosen1[t] == firsts(h)[t]);
    }
    assert forall|t: int| 0 <= t < h.len() implies s2.allows(
        seconds(h).take(t),
        firsts(h).take(t),
        #[trigger] h[t].1,
    ) by {
        assert(round_consistent(game, s1, s2, firsts(h), seconds(h), seen1, seen2, chosen1, chosen2, t));
        assert(chosen2[t] == seconds(h)[t]);
    }
}

} // verus!
