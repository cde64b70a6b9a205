//! Tournaments over a population of strategies: the round-robin schedule
//! and its per-match seeds, single scheduled matches, the Swiss pairing,
//! truncation selection and the population census.

use vstd::prelude::*;
use std::sync::Arc;

use crate::action::{first_total, max_abs_payoff, second_total, Action};
use crate::census::{is_census, names_distinct, tally, total_count};
use crate::game::{chances_valid, possible_match, Game};
use crate::strategy::Strategy;

verus! {

pub struct Tournament {
    pub strategies: Vec<Arc<dyn Strategy>>,
    pub game: Game,
    /// Number of times each pair plays; with a seed, each repetition uses
    /// its own derived seed.
    pub match_repetitions: usize,
    /// Whether each strategy also plays itself.
    pub include_self_play: bool,
}

/// The outcome of one scheduled match between strategies `i` and `j`.
#[derive(Clone, Copy, Debug, PartialEq, Eq, Structural)]
pub struct MatchRecord {
    pub i: usize,
    pub j: usize,
    pub score_i: i32,
    pub score_j: i32,
    /// Rounds actually played.
    pub turns: usize,
}

/// The number of repetitions a schedule uses: at least one.
pub open spec fn effective_repetitions(match_repetitions: usize) -> nat {
    if match_repetitions >= 1 {
        match_repetitions as nat
    } else {
        1
    }
}

/// `(i, j, rep)` is a match of the round robin over `n` strategies.
pub open spec fn scheduled(n: nat, self_play: bool, reps: nat, t: (usize, usize, usize)) -> bool {
    &&& t.0 < n
    &&& t.1 < n
    &&& if self_play {
        t.0 <= t.1
    } else {
        t.0 < t.1
    }
    &&& t.2 < reps
}

/// Lexicographic order on `(i, j, rep)`.
pub open spec fn lex_less(a: (usize, usize, usize), b: (usize, usize, usize)) -> bool {
    a.0 < b.0 || (a.0 == b.0 && (a.1 < b.1 || (a.1 == b.1 && a.2 < b.2)))
}

impl Tournament {
    pub fn new(strategies: Vec<Arc<dyn Strategy>>, game: Game) -> (t: Self)
        ensures
            t.strategies == strategies,
            t.game == game,
            t.match_repetitions == 1,
            t.include_self_play,
    {
        Tournament { strategies, game, match_repetitions: 1, include_self_play: true }
    }

    /// Sets the repetitions per pair, at least one.
    pub fn with_match_repetitions(self, n: usize) -> (t: Self)
        ensures
            t.match_repetitions == if n >= 1 {
                n
            } else {
                1
            },
            t.strategies == self.strategies,
            t.game == self.game,
            t.include_self_play == self.include_self_play,
    {
        let mut t = self;
        t.match_repetitions = if n >= 1 {
            n
        } else {
            1
        };
        t
    }

    pub fn with_include_self_play(self, self_play: bool) -> (t: Self)
        ensures
            t.include_self_play == self_play,
            t.strategies == self.strategies,
            t.game == self.game,
            t.match_repetitions == self.match_repetitions,
    {
        let mut t = self;
        t.include_self_play = self_play;
        t
    }

    /// Every match of the round robin, each exactly once, in lexicographic
    /// order of `(i, j, rep)`: each pair `i <= j` (or `i < j` without self
    /// play), each repetition.
    pub fn schedule(&self) -> (pairs: Vec<(usize, usize, usize)>)
        ensures
            forall|k: int|
                0 <= k < pairs@.len() ==> scheduled(
                    self.strategies@.len(),
                    self.include_self_play,
                    effective_repetitions(self.match_repetitions),
                    #[trigger] pairs@[k],
                ),
            forall|a: int, b: int| 0 <= a < b < pairs@.len() ==> lex_less(#[trigger] pairs@[a], #[trigger] pairs@[b]),
            forall|t: (usize, usize, usize)|
                scheduled(
                    self.strategies@.len(),
                    self.include_self_play,
                    effective_repetitions(self.match_repetitions),
                    t,
                ) ==> #[trigger] pairs@.contains(t),
    {
        let n = self.strategies.len();
        let reps = if self.match_repetitions >= 1 {
            self.match_repetitions
        } else {
            1
        };
        let sp = self.include_self_play;
        let ghost nn = n as nat;
        let ghost rr = reps as nat;
        let mut pairs: Vec<(usize, usize, usize)> = Vec::new();
        let mut i: usize = 0;
        while i < n
            invariant
                i <= n,
                rr == reps,
                nn == n,
                reps >= 1,
                forall|k: int| 0 <= k < pairs@.len() ==> scheduled(nn, sp, rr, #[trigger] pairs@[k]),
                forall|a: int, b: int| 0 <= a < b < pairs@.len() ==> lex_less(#[trigger] pairs@[a], #[trigger] pairs@[b]),
                forall|k: int| 0 <= k < pairs@.len() ==> (#[trigger] pairs@[k]).0 < i,
                forall|t: (usize, usize, usize)| scheduled(nn, sp, rr, t) && t.0 < i ==> #[trigger] pairs@.contains(t),
            decreases n - i,
        {
            let start_j = if sp {
                i
            } else {
                i + 1
            };
            let mut j: usize = start_j;
            while j < n
                invariant
                    i < n,
                    start_j == if sp {
                        i
                    } else {
                        (i + 1) as usize
                    },
                    start_j <= j,
                    j <= n || j == start_j,
                    rr == reps,
                    nn == n,
                    reps >= 1,
                    forall|k: int| 0 <= k < pairs@.len() ==> scheduled(nn, sp, rr, #[trigger] pairs@[k]),
                    forall|a: int, b: int| 0 <= a < b < pairs@.len() ==> lex_less(#[trigger] pairs@[a], #[trigger] pairs@[b]),
                    forall|k: int|
                        0 <= k < pairs@.len() ==> (#[trigger] pairs@[k]).0 < i || (pairs@[k].0 == i
                            && pairs@[k].1 < j),
                    forall|t: (usize, usize, usize)|
                        scheduled(nn, sp, rr, t) && (t.0 < i || (t.0 == i && t.1 < j)) ==> #[trigger] pairs@.contains(t),
                decreases n - j,
            {
                let mut rep: usize = 0;
                while rep < reps
                    invariant
                        i < n,
                        start_j <= j < n,
                        start_j == if sp {
                            i
                        } else {
                            (i + 1) as usize
                        },
                        rep <= reps,
                        rr == reps,
                        nn == n,
                        forall|k: int| 0 <= k < pairs@.len() ==> scheduled(nn, sp, rr, #[trigger] pairs@[k]),
                        forall|a: int, b: int|
                            0 <= a < b < pairs@.len() ==> lex_less(#[trigger] pairs@[a], #[trigger] pairs@[b]),
                        forall|k: int|
                            0 <= k < pairs@.len() ==> lex_less(#[trigger] pairs@[k], (i, j, rep)),
                        forall|t: (usize, usize, usize)|
                            scheduled(nn, sp, rr, t) && (t.0 < i || (t.0 == i && (t.1 < j || (t.1 == j
                                && t.2 < rep)))) ==> #[trigger] pairs@.contains(t),
                    decreases reps - rep,
                {
                    let ghost before = pairs@;
                    pairs.push((i, j, rep));
                    proof {
                        assert forall|t: (usize, usize, usize)|
                            scheduled(nn, sp, rr, t) && (t.0 < i || (t.0 == i && (t.1 < j || (t.1 == j
                                && t.2 < rep + 1)))) implies #[trigger] pairs@.contains(t) by {
                            if t == (i, j, rep) {
                                assert(pairs@[before.len() as int] == t);
                            } else {
                                assert(before.contains(t));
                                let k = choose|k: int| 0 <= k < before.len() && before[k] == t;
                                assert(pairs@[k] == t);
                            }
                        }
                    }
                    rep = rep + 1;
                }
                j = j + 1;
            }
            proof {
                assert forall|t: (usize, usize, usize)|
                    scheduled(nn, sp, rr, t) && t.0 < i + 1 implies #[trigger] pairs@.contains(t) by {
                    if t.0 == i {
                        assert(t.1 < j);
                    }
                }
            }
            i = i + 1;
        }
        pairs
    }

    /// The seed of repetition `rep` of the match between `i` and `j`:
    /// `seed + (i * n + j) * reps + rep`, wrapping, when the game has a seed.
    pub fn match_seed(&self, i: usize, j: usize, rep: usize) -> (r: Option<u64>)
        requires
            i * self.strategies@.len() + j <= usize::MAX,
        ensures
            r == match self.game.seed {
                Some(s) => Some(
                    derived_match_seed(
                        s,
                        self.strategies@.len() as usize,
                        effective_repetitions(self.match_repetitions) as usize,
                        (i, j, rep),
                    ),
                ),
                None => None::<u64>,
            },
    {
        let n = self.strategies.len();
        let reps = if self.match_repetitions >= 1 {
            self.match_repetitions
        } else {
            1
        };
        match self.game.seed {
            Some(s) => Some(s.wrapping_add(((i * n + j) as u64).wrapping_mul(reps as u64)).wrapping_add(rep as u64)),
            None => None,
        }
    }

    /// Plays repetition `rep` of strategy `i` against strategy `j`.
    pub fn play_match(&self, i: usize, j: usize, rep: usize) -> (m: MatchRecord)
        requires
            i < self.strategies@.len(),
            j < self.strategies@.len(),
            self.strategies@.len() * self.strategies@.len() <= usize::MAX,
            self.game.iterations * max_abs_payoff(self.game.payoffs) <= i32::MAX,
            chances_valid(self.game),
        ensures
            m.i == i,
            m.j == j,
            exists|h: Seq<(Action, Action)>|
                {
                    &&& h.len() == m.turns
                    &&& possible_match(self.game, &*self.strategies@[i as int], &*self.strategies@[j as int], h)
                    &&& m.score_i == first_total(self.game.payoffs, h)
                    &&& m.score_j == second_total(self.game.payoffs, h)
                },
    {
        proof {
            let n = self.strategies@.len() as int;
            assert(i * n + j <= n * n) by (nonlinear_arith)
                requires
                    0 <= i < n,
                    0 <= j < n,
            ;
        }
        let seed = self.match_seed(i, j, rep);
        let s1 = &self.strategies[i];
        let s2 = &self.strategies[j];
        let (score_i, score_j, history) = self.game.play(&**s1, &**s2, seed);
        MatchRecord { i, j, score_i, score_j, turns: history.len() }
    }

    /// The seed of the Swiss match whose first player sits at position `i`
    /// in round `round`: `seed + round * len + i`, wrapping.
    pub fn swiss_match_seed(&self, round: usize, len: usize, i: usize) -> (r: Option<u64>)
        requires
            round * len + i <= usize::MAX,
        ensures
            r == match self.game.seed {
                Some(s) => Some(s.wrapping_add((round * len + i) as u64)),
                None => None::<u64>,
            },
    {
        match self.game.seed {
            Some(s) => Some(s.wrapping_add((round * len + i) as u64)),
            None => None,
        }
    }

    /// The population counted by strategy name: each name once, the counts
    /// adding up to the population size. Each strategy is counted under the
    /// name it returns, which is its stated name where it states one.
    pub fn population_counts(&self) -> (counts: Vec<(String, usize)>)
        ensures
            names_distinct(counts@),
            total_count(counts@) == self.strategies@.len(),
            exists|names: Seq<String>|
                {
                    &&& names.len() == self.strategies@.len()
                    &&& forall|k: int|
                        0 <= k < names.len() && self.strategies@[k].names_itself() ==> (#[trigger] names[k])@
                            == self.strategies@[k].spec_name()
                    &&& is_census(counts@, names)
                },
    {
        let mut names: Vec<String> = Vec::new();
        let mut i: usize = 0;
        while i < self.strategies.len()
            invariant
                i <= self.strategies@.len(),
                names@.len() == i,
                forall|k: int|
                    0 <= k < i && self.strategies@[k].names_itself() ==> (#[trigger] names@[k])@
                        == self.strategies@[k].spec_name(),
            decreases self.strategies@.len() - i,
        {
            names.push(String::from_str(self.strategies[i].name()));
            i = i + 1;
        }
        let counts = tally(&names);
        proof {
            assert(forall|k: int|
                0 <= k < names@.len() && self.strategies@[k].names_itself() ==> (#[trigger] names@[k])@
                    == self.strategies@[k].spec_name());
        }
        counts
    }
}

/// Swiss pairing of a ranked list of `len` entries: first with second,
/// third with fourth, and so on; an odd last entry sits out.
pub fn swiss_pairs(len: usize) -> (pairs: Vec<(usize, usize)>)
    ensures
        pairs@.len() == len / 2,
        forall|k: int| 0 <= k < pairs@.len() ==> #[trigger] pairs@[k] == ((2 * k) as usize, (2 * k + 1) as usize),
{
    let mut pairs: Vec<(usize, usize)> = Vec::new();
    let mut i: usize = 0;
    while i + 1 < len
        invariant
            i % 2 == 0,
            i <= len,
            pairs@.len() == i / 2,
            forall|k: int| 0 <= k < pairs@.len() ==> #[trigger] pairs@[k] == ((2 * k) as usize, (2 * k + 1) as usize),
        decreases len - i,
    {
        pairs.push((i, i + 1));
        i = i + 2;
    }
    pairs
}

/// The seed of match `t = (i, j, rep)` of a round robin over `n` strategies
/// with `reps` repetitions: `seed + (i * n + j) * reps + rep`, wrapping.
pub open spec fn derived_match_seed(seed: u64, n: usize, reps: usize, t: (usize, usize, usize)) -> u64 {
    seed.wrapping_add(((t.0 * n + t.1) as u64).wrapping_mul(reps as u64)).wrapping_add(t.2 as u64)
}

/// Wrapping addition is addition modulo `2^64`.
pub(crate) proof fn lemma_wrapping_add_is_mod(x: u64, y: u64)
    ensures
        x.wrapping_add(y) == (x + y) % 0x1_0000_0000_0000_0000,
{
    if x + y > u64::MAX {
        vstd::arithmetic::div_mod::lemma_fundamental_div_mod_converse(
            x + y,
            0x1_0000_0000_0000_0000,
            1,
            x + y - 0x1_0000_0000_0000_0000,
        );
    } else {
        vstd::arithmetic::div_mod::lemma_fundamental_div_mod_converse(x + y, 0x1_0000_0000_0000_0000, 0, x + y);
    }
}

/// Every match of a round robin gets a seed of its own: two different
/// matches `(i, j, rep)` never share one, as long as the offsets
/// `(i * n + j) * reps + rep` do not wrap around.
pub proof fn law_match_seeds_are_distinct(
    seed: u64,
    n: usize,
    reps: usize,
    a: (usize, usize, usize),
    b: (usize, usize, usize),
)
    requires
        a.0 < n && a.1 < n && a.2 < reps,
        b.0 < n && b.1 < n && b.2 < reps,
        a != b,
        n * n * reps <= 0x1_0000_0000_0000_0000,
    ensures
        derived_match_seed(seed, n, reps, a) != derived_match_seed(seed, n, reps, b),
{
    let m: int = 0x1_0000_0000_0000_0000;
    let ghost nn = n as int;
    let ghost rr = reps as int;
    let pa = a.0 * nn + a.1;
    let pb = b.0 * nn + b.1;
    assert(0 <= pa < nn * nn && 0 <= pb < nn * nn) by (nonlinear_arith)
        requires
            pa == a.0 * nn + a.1,
            pb == b.0 * nn + b.1,
            0 <= a.0 < nn,
            0 <= a.1 < nn,
            0 <= b.0 < nn,
            0 <= b.1 < nn,
    ;
    let oa = pa * rr + a.2;
    let ob = pb * rr + b.2;
    assert(0 <= oa < nn * nn * rr && 0 <= ob < nn * nn * rr) by (nonlinear_arith)
        requires
            oa == pa * rr + a.2,
            ob == pb * rr + b.2,
            0 <= pa < nn * nn,
            0 <= pb < nn * nn,
            0 <= a.2 < rr,
            0 <= b.2 < rr,
    ;
    assert(nn * nn <= nn * nn * rr) by (nonlinear_arith)
        requires
            rr >= 1,
            nn >= 0,
    ;
    assert(pa * rr <= oa && pb * rr <= ob);
    // The offsets differ: the repetition is the remainder by `reps`, and
    // the pair is the quotient, itself `i * n + j` with `j < n`.
    if oa == ob {
        vstd::arithmetic::div_mod::lemma_fundamental_div_mod_converse(oa, rr, pa, a.2 as int);
        vstd::arithmetic::div_mod::lemma_fundamental_div_mod_converse(ob, rr, pb, b.2 as int);
        vstd::arithmetic::div_mod::lemma_fundamental_div_mod_converse(pa, nn, a.0 as int, a.1 as int);
        vstd::arithmetic::div_mod::lemma_fundamental_div_mod_converse(pb, nn, b.0 as int, b.1 as int);
        assert(false);
    }
    // Nothing wraps before the final additions.
    assert((pa as u64) as int == pa && (pb as u64) as int == pb);
    assert(0 <= pa * rr < m && 0 <= pb * rr < m) by (nonlinear_arith)
        requires
            0 <= pa * rr <= oa,
            0 <= pb * rr <= ob,
            oa < m,
            ob < m,
            pa >= 0,
            pb >= 0,
            rr >= 0,
    ;
    vstd::arithmetic::div_mod::lemma_small_mod((pa * rr) as nat, m as nat);
    vstd::arithmetic::div_mod::lemma_small_mod((pb * rr) as nat, m as nat);
    let ma = (pa as u64).wrapping_mul(reps as u64);
    let mb = (pb as u64).wrapping_mul(reps as u64);
    assert(ma as int == pa * rr);
    assert(mb as int == pb * rr);
    lemma_wrapping_add_is_mod(seed, ma);
    lemma_wrapping_add_is_mod(seed, mb);
    lemma_wrapping_add_is_mod(seed.wrapping_add(ma), a.2 as u64);
    lemma_wrapping_add_is_mod(seed.wrapping_add(mb), b.2 as u64);
    vstd::arithmetic::div_mod::lemma_add_mod_noop(seed + ma, a.2 as int, m);
    vstd::arithmetic::div_mod::lemma_add_mod_noop(seed + mb, b.2 as int, m);
    vstd::arithmetic::div_mod::lemma_mod_twice(seed + ma, m);
    vstd::arithmetic::div_mod::lemma_mod_twice(seed + mb, m);
    vstd::arithmetic::div_mod::lemma_small_mod(a.2 as nat, m as nat);
    vstd::arithmetic::div_mod::lemma_small_mod(b.2 as nat, m as nat);
    assert(derived_match_seed(seed, n, reps, a) as int == (seed + oa) % m);
    assert(derived_match_seed(seed, n, reps, b) as int == (seed + ob) % m);
    // Two sums of `seed` with different offsets below `m` differ modulo `m`.
    if (seed + oa) % m == (seed + ob) % m {
        vstd::arithmetic::div_mod::lemma_fundamental_div_mod(seed + oa, m);
        vstd::arithmetic::div_mod::lemma_fundamental_div_mod(seed + ob, m);
        let qa = (seed + oa) / m;
        let qb = (seed + ob) / m;
        assert(0 <= qa <= 1 && 0 <= qb <= 1) by {
            vstd::arithmetic::div_mod::lemma_div_is_ordered(seed + oa, 2 * m, m);
            vstd::arithmetic::div_mod::lemma_div_is_ordered(seed + ob, 2 * m, m);
            vstd::arithmetic::div_mod::lemma_div_pos_is_pos(seed + oa, m);
            vstd::arithmetic::div_mod::lemma_div_pos_is_pos(seed + ob, m);
            vstd::arithmetic::div_mod::lemma_div_multiples_vanish(2, m);
        }
        assert(m * qa - m * qb == oa - ob);
        if qa == qb {
            assert(oa == ob);
        } else if qa == 1 {
            assert(oa - ob == m);
        } else {
            assert(ob - oa == m);
        }
    }
}

/// Position `p` of the ranking plays in pair `k`.
pub open spec fn plays_in(pairs: Seq<(usize, usize)>, k: int, p: int) -> bool {
    pairs[k].0 == p || pairs[k].1 == p
}

/// Position `p` of the ranking plays in some pair.
pub open spec fn paired(pairs: Seq<(usize, usize)>, p: int) -> bool {
    exists|k: int| 0 <= k < pairs.len() && #[trigger] plays_in(pairs, k, p)
}

/// The Swiss pairing of `len` ranked entries meets each entry at most once,
/// pairs it with a neighbour in the ranking, and leaves out only an odd
/// last entry.
pub proof fn law_swiss_pairs_partition(len: usize, pairs: Seq<(usize, usize)>)
    requires
        pairs.len() == len / 2,
        forall|k: int| 0 <= k < pairs.len() ==> #[trigger] pairs[k] == ((2 * k) as usize, (2 * k + 1) as usize),
    ensures
        forall|k: int| 0 <= k < pairs.len() ==> pairs[k].0 + 1 == pairs[k].1 && #[trigger] pairs[k].1 < len,
        forall|k1: int, k2: int, p: int|
            0 <= k1 < pairs.len() && 0 <= k2 < pairs.len() && #[trigger] plays_in(pairs, k1, p) && #[trigger] plays_in(
                pairs,
                k2,
                p,
            ) ==> k1 == k2,
        forall|p: int| 0 <= p < len ==> (#[trigger] paired(pairs, p) <==> p < 2 * (len / 2)),
{
    assert forall|p: int| 0 <= p < len implies (#[trigger] paired(pairs, p) <==> p < 2 * (len / 2)) by {
        if p < 2 * (len / 2) {
            let k = p / 2;
            assert(0 <= k < pairs.len());
            assert(2 * k + 1 <= len);
            assert(pairs[k] == ((2 * k) as usize, (2 * k + 1) as usize));
            assert(pairs[k].0 == 2 * k && pairs[k].1 == 2 * k + 1);
            assert(plays_in(pairs, k, p));
        }
        if exists|k: int| 0 <= k < pairs.len() && #[trigger] plays_in(pairs, k, p) {
            let k = choose|k: int| 0 <= k < pairs.len() && #[trigger] plays_in(pairs, k, p);
            assert(2 * k + 1 <= len);
            assert(pairs[k] == ((2 * k) as usize, (2 * k + 1) as usize));
            assert(pairs[k].0 == 2 * k && pairs[k].1 == 2 * k + 1);
        }
    }
    assert forall|k1: int, k2: int, p: int|
        0 <= k1 < pairs.len() && 0 <= k2 < pairs.len() && #[trigger] plays_in(pairs, k1, p) && #[trigger] plays_in(
            pairs,
            k2,
            p,
        ) implies k1 == k2 by {
        assert(2 * k1 + 1 <= len && 2 * k2 + 1 <= len);
        assert(pairs[k1] == ((2 * k1) as usize, (2 * k1 + 1) as usize));
        assert(pairs[k2] == ((2 * k2) as usize, (2 * k2 + 1) as usize));
        assert(pairs[k1].0 == 2 * k1 && pairs[k1].1 == 2 * k1 + 1);
        assert(pairs[k2].0 == 2 * k2 && pairs[k2].1 == 2 * k2 + 1);
    }
    assert forall|k: int| 0 <= k < pairs.len() implies pairs[k].0 + 1 == pairs[k].1 && #[trigger] pairs[k].1 < len by {
        assert(2 * k + 1 <= len);
        assert(pairs[k] == ((2 * k) as usize, (2 * k + 1) as usize));
    }
}

/// Truncation selection: the `keep_count` best (the first entries of
/// `ranked`) survive, and the remaining slots are refilled by cycling
/// through those same survivors.
pub fn truncation_parents(ranked: &Vec<usize>, keep_count: usize) -> (parents: Vec<usize>)
    requires
        1 <= keep_count <= ranked@.len(),
    ensures
        parents@.len() == ranked@.len(),
        forall|k: int| 0 <= k < keep_count ==> #[trigger] parents@[k] == ranked@[k],
        forall|k: int|
            keep_count <= k < parents@.len() ==> #[trigger] parents@[k] == ranked@[(k - keep_count) % (keep_count as int)],
{
    let pop_size = ranked.len();
    let mut parents: Vec<usize> = Vec::new();
    let mut k: usize = 0;
    while k < keep_count
        invariant
            k <= keep_count <= pop_size,
            pop_size == ranked@.len(),
            parents@.len() == k,
            forall|m: int| 0 <= m < k ==> #[trigger] parents@[m] == ranked@[m],
        decreases keep_count - k,
    {
        parents.push(ranked[k]);
        k = k + 1;
    }
    let replace_count = pop_size - keep_count;
    let mut r: usize = 0;
    while r < replace_count
        invariant
            1 <= keep_count <= pop_size,
            pop_size == ranked@.len(),
            replace_count == pop_size - keep_count,
            r <= replace_count,
            parents@.len() == keep_count + r,
            forall|m: int| 0 <= m < keep_count ==> #[trigger] parents@[m] == ranked@[m],
            forall|m: int|
                keep_count <= m < parents@.len() ==> #[trigger] parents@[m] == ranked@[(m - keep_count) % (keep_count as int)],
        decreases replace_count - r,
    {
        parents.push(ranked[r % keep_count]);
        r = r + 1;
    }
    parents
}

/// Truncation keeps the population size, and every parent is one of the
/// `keep_count` survivors.
pub proof fn law_truncation_draws_from_survivors(ranked: Seq<usize>, keep_count: nat, parents: Seq<usize>)
    requires
        1 <= keep_count <= ranked.len(),
        parents.len() == ranked.len(),
        forall|k: int| 0 <= k < keep_count ==> #[trigger] parents[k] == ranked[k],
        forall|k: int|
            keep_count <= k < parents.len() ==> #[trigger] parents[k] == ranked[(k - keep_count) % (keep_count as int)],
    ensures
        forall|k: int| 0 <= k < parents.len() ==> survivor_index_of(ranked, keep_count, #[trigger] parents[k]),
{
    assert forall|k: int| 0 <= k < parents.len() implies survivor_index_of(ranked, keep_count, #[trigger] parents[k]) by {
        if k < keep_count {
            assert(parents[k] == ranked[k]);
        } else {
            let s = (k - keep_count) % (keep_count as int);
            assert(0 <= s < keep_count);
            assert(parents[k] == ranked[s]);
        }
    }
}

/// `p` is one of the first `keep_count` entries of `ranked`.
pub open spec fn survivor_index_of(ranked: Seq<usize>, keep_count: nat, p: usize) -> bool {
    exists|s: int| 0 <= s < keep_count && p == #[trigger] ranked[s]
}

} // verus!
