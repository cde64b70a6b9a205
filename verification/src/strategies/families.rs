//! The parameterised families of the generative population. Each member
//! carries its name and its parameter; the rules are those of the family.

use vstd::prelude::*;
use rand_chacha::ChaCha8Rng;

use crate::action::Action;
use crate::chance::draw_ratio;
use crate::strategies::gradual::{
    gradual_after, gradual_decision, gradual_incremental, gradual_move, gradual_rescan,
    gradual_scratch_summarises, law_fresh_gradual_scratch, law_gradual_summary_extends,
};
use crate::strategies::history::{count_moves, count_of, last_or, last_or_else};
use crate::strategies::labels::{append_tenths, decimal, numbered_label, tenths_label, tenths_text};
use crate::strategies::omega_tft::{
    law_fresh_omega_scratch, law_omega_summary_extends, omega_count_after, omega_decision,
    omega_incremental, omega_move, omega_rescan, omega_scratch_of, omega_scratch_summarises,
};
use crate::strategy::{lemma_take_all, Strategy, StrategyScratch};

verus! {

// ---------------------------------------------------------------------------
// Reactive (p, q): after an opponent C cooperate with probability p, after
// an opponent D with probability q; both in tenths.

pub open spec fn reactive_rule(opponent_history: Seq<Action>, coin: bool) -> Action {
    if opponent_history.len() == 0 || coin {
        Action::Cooperate
    } else {
        Action::Defect
    }
}

pub struct Reactive {
    label: String,
    p_tenths: u32,
    q_tenths: u32,
}

impl Reactive {
    /// The strategy's name.
    pub closed spec fn spec_label(&self) -> Seq<char> {
        self.label@
    }

    #[verifier::type_invariant]
    spec fn well_formed(self) -> bool {
        self.p_tenths <= 10 && self.q_tenths <= 10
    }

    pub closed spec fn spec_p_tenths(&self) -> u32 {
        self.p_tenths
    }

    pub closed spec fn spec_q_tenths(&self) -> u32 {
        self.q_tenths
    }

    pub fn new(p_tenths: u32, q_tenths: u32) -> (r: Self)
        requires
            p_tenths <= 10,
            q_tenths <= 10,
        ensures
            r.spec_p_tenths() == p_tenths,
            r.spec_q_tenths() == q_tenths,
            r.spec_label() == "Reactive (p="@ + tenths_text(p_tenths as nat) + ", q="@ + tenths_text(q_tenths as nat) + ")"@,
    {
        let mut label = tenths_label("Reactive (p=", p_tenths as u64, ", q=");
        append_tenths(&mut label, q_tenths as u64);
        label.append(")");
        Reactive { label, p_tenths, q_tenths }
    }
}

impl Strategy for Reactive {
    open spec fn spec_name(&self) -> Seq<char> {
        self.spec_label()
    }

    open spec fn names_itself(&self) -> bool {
        true
    }

    open spec fn allows(&self, my_history: Seq<Action>, opponent_history: Seq<Action>, r: Action) -> bool {
        &&& (r == reactive_rule(opponent_history, true) || r == reactive_rule(opponent_history, false))
        &&& (opponent_history.len() == 0 ==> r == Action::Cooperate)
        &&& (opponent_history.len() > 0 ==> {
                    let chance = if opponent_history.last() == Action::Cooperate {
                        self.spec_p_tenths()
                    } else {
                        self.spec_q_tenths()
                    };
                    &&& chance == 10 ==> r == Action::Cooperate
                    &&& chance == 0 ==> r == Action::Defect
        })
    }

    fn name(&self) -> (r: &str)
        ensures
            r@ == self.spec_label(),
    {
        self.label.as_str()
    }

    fn next_move(&self, _my_history: &[Action], opponent_history: &[Action], rng: &mut ChaCha8Rng) -> (r: Action)
        ensures
            r == reactive_rule(opponent_history@, true) || r == reactive_rule(opponent_history@, false),
            opponent_history@.len() == 0 ==> r == Action::Cooperate,
            opponent_history@.len() > 0 ==> {
                let chance = if opponent_history@.last() == Action::Cooperate {
                    self.spec_p_tenths()
                } else {
                    self.spec_q_tenths()
                };
                &&& chance == 10 ==> r == Action::Cooperate
                &&& chance == 0 ==> r == Action::Defect
            },
    {
        proof {
            use_type_invariant(self);
        }
        let n = opponent_history.len();
        if n == 0 {
            return Action::Cooperate;
        }
        let tenths = if opponent_history[n - 1] == Action::Cooperate {
            self.p_tenths
        } else {
            self.q_tenths
        };
        if draw_ratio(rng, tenths, 10) {
            Action::Cooperate
        } else {
            Action::Defect
        }
    }
}

// ---------------------------------------------------------------------------
// Pattern Matcher (W): when the opponent's last W moves repeat the W before
// them, it predicts the cycle and defects; otherwise Tit For Tat.

pub open spec fn pattern_repeats(opponent_history: Seq<Action>, window: nat) -> bool {
    let n = opponent_history.len();
    forall|k: int|
        0 <= k < window ==> #[trigger] opponent_history[n - window + k] == opponent_history[n - 2 * window
            + k]
}

pub open spec fn pattern_matcher_move(opponent_history: Seq<Action>, window: nat) -> Action {
    if opponent_history.len() < 2 * window {
        Action::Cooperate
    } else if pattern_repeats(opponent_history, window) {
        Action::Defect
    } else {
        last_or(opponent_history, Action::Cooperate)
    }
}

pub struct PatternMatcher {
    pub label: String,
    pub window: usize,
}

impl PatternMatcher {
    /// The strategy's name.
    pub closed spec fn spec_label(&self) -> Seq<char> {
        self.label@
    }

    pub fn new(window: usize) -> (r: Self)
        ensures
            r.window == window,
            r.spec_label() == "Pattern Matcher (W="@ + decimal(window as nat) + ")"@,
    {
        PatternMatcher { label: numbered_label("Pattern Matcher (W=", window as u64, ")"), window }
    }
}

impl Strategy for PatternMatcher {
    open spec fn spec_name(&self) -> Seq<char> {
        self.spec_label()
    }

    open spec fn names_itself(&self) -> bool {
        true
    }

    open spec fn allows(&self, my_history: Seq<Action>, opponent_history: Seq<Action>, r: Action) -> bool {
        &&& (r == pattern_matcher_move(opponent_history, self.window as nat))
    }

    fn name(&self) -> (r: &str)
        ensures
            r@ == self.spec_label(),
    {
        self.label.as_str()
    }

    fn next_move(&self, _my_history: &[Action], opponent_history: &[Action], _rng: &mut ChaCha8Rng) -> (r: Action)
        ensures
            r == pattern_matcher_move(opponent_history@, self.window as nat),
    {
        let n = opponent_history.len();
        let w = self.window;
        if n / 2 < w {
            return Action::Cooperate;
        }
        let mut k: usize = 0;
        while k < w
            invariant
                n == opponent_history@.len(),
                w == self.window,
                2 * w <= n,
                k <= w,
                forall|j: int|
                    0 <= j < k ==> #[trigger] opponent_history@[n - w + j] == opponent_history@[n - 2 * w
                        + j],
            decreases w - k,
        {
            if opponent_history[n - w + k] != opponent_history[n - 2 * w + k] {
                proof {
                    let h = opponent_history@;
                    let kk = k as int;
                    if pattern_repeats(h, w as nat) {
                        assert(h[h.len() - (w as nat) + kk] == h[h.len() - 2 * (w as nat) + kk]);
                    }
                }
                return last_or_else(opponent_history, Action::Cooperate);
            }
            k = k + 1;
        }
        Action::Defect
    }
}

// ---------------------------------------------------------------------------
// Adaptive TFT (target / 50): defects whenever the opponent's cooperation
// rate so far is below the target rate.

pub open spec fn adaptive_tft_move(opponent_history: Seq<Action>, target_fiftieths: nat) -> Action {
    if opponent_history.len() == 0 {
        Action::Cooperate
    } else if 50 * count_of(opponent_history, Action::Cooperate) < target_fiftieths
        * opponent_history.len() {
        Action::Defect
    } else {
        Action::Cooperate
    }
}

/// Adaptive TFT with target `t / 50` defects on a non-empty history
/// exactly when the opponent's cooperation rate, cooperations over moves,
/// is below the target; it cooperates at the target rate and above.
pub proof fn law_adaptive_tft_defects_below_target(opponent_history: Seq<Action>, target_fiftieths: nat)
    requires
        opponent_history.len() > 0,
    ensures
        (adaptive_tft_move(opponent_history, target_fiftieths) == Action::Defect) <==> count_of(
            opponent_history,
            Action::Cooperate,
        ) * 50 < opponent_history.len() * target_fiftieths,
{
    assert(target_fiftieths * opponent_history.len() == opponent_history.len() * target_fiftieths)
        by (nonlinear_arith);
}

/// Adaptive TFT (Target 50%) defects exactly when the opponent cooperated
/// in fewer than half of its moves.
pub proof fn law_adaptive_tft_half_target(opponent_history: Seq<Action>)
    requires
        opponent_history.len() > 0,
    ensures
        (adaptive_tft_move(opponent_history, 25) == Action::Defect) <==> 2 * count_of(
            opponent_history,
            Action::Cooperate,
        ) < opponent_history.len(),
{
}

/// A stricter target never forgives where a laxer one punishes.
pub proof fn law_adaptive_tft_stricter_target_punishes_more(
    opponent_history: Seq<Action>,
    lax: nat,
    strict: nat,
)
    requires
        lax <= strict,
        adaptive_tft_move(opponent_history, lax) == Action::Defect,
    ensures
        adaptive_tft_move(opponent_history, strict) == Action::Defect,
{
    assert(lax * opponent_history.len() <= strict * opponent_history.len()) by (nonlinear_arith)
        requires
            lax <= strict,
    ;
}

pub struct AdaptiveTft {
    pub label: String,
    pub target_fiftieths: u32,
}

impl AdaptiveTft {
    /// The strategy's name.
    pub closed spec fn spec_label(&self) -> Seq<char> {
        self.label@
    }

    pub fn new(target_fiftieths: u32) -> (r: Self)
        ensures
            r.target_fiftieths == target_fiftieths,
            r.spec_label() == "Adaptive TFT (Target "@ + decimal(2 * target_fiftieths as nat) + "%)"@,
    {
        AdaptiveTft {
            label: numbered_label("Adaptive TFT (Target ", 2 * (target_fiftieths as u64), "%)"),
            target_fiftieths,
        }
    }
}

impl Strategy for AdaptiveTft {
    open spec fn spec_name(&self) -> Seq<char> {
        self.spec_label()
    }

    open spec fn names_itself(&self) -> bool {
        true
    }

    open spec fn allows(&self, my_history: Seq<Action>, opponent_history: Seq<Action>, r: Action) -> bool {
        &&& (r == adaptive_tft_move(opponent_history, self.target_fiftieths as nat))
    }

    fn name(&self) -> (r: &str)
        ensures
            r@ == self.spec_label(),
    {
        self.label.as_str()
    }

    fn next_move(&self, _my_history: &[Action], opponent_history: &[Action], _rng: &mut ChaCha8Rng) -> (r: Action)
        ensures
            r == adaptive_tft_move(opponent_history@, self.target_fiftieths as nat),
    {
        let n = opponent_history.len();
        if n == 0 {
            return Action::Cooperate;
        }
        let cooperations = count_moves(opponent_history, Action::Cooperate);
        let lhs = 50u128 * (cooperations as u128);
        proof {
            assert((self.target_fiftieths as int) * (n as int) <= 0xffff_ffffu128 * 0xffff_ffff_ffff_ffffu128)
                by (nonlinear_arith)
                requires
                    self.target_fiftieths <= 0xffff_ffffu32,
                    n <= 0xffff_ffff_ffff_ffffu64,
            ;
        }
        let rhs = (self.target_fiftieths as u128) * (n as u128);
        if lhs < rhs {
            Action::Defect
        } else {
            Action::Cooperate
        }
    }
}

// ---------------------------------------------------------------------------
// Backstabber (T): cooperates for T rounds, then defects forever.

pub open spec fn backstabber_move(my_history: Seq<Action>, turn: nat) -> Action {
    if my_history.len() >= turn {
        Action::Defect
    } else {
        Action::Cooperate
    }
}

pub struct Backstabber {
    pub label: String,
    pub turn: usize,
}

impl Backstabber {
    /// The strategy's name.
    pub closed spec fn spec_label(&self) -> Seq<char> {
        self.label@
    }

    pub fn new(turn: usize) -> (r: Self)
        ensures
            r.turn == turn,
            r.spec_label() == "Backstabber (T="@ + decimal(turn as nat) + ")"@,
    {
        Backstabber { label: numbered_label("Backstabber (T=", turn as u64, ")"), turn }
    }
}

impl Strategy for Backstabber {
    open spec fn spec_name(&self) -> Seq<char> {
        self.spec_label()
    }

    open spec fn names_itself(&self) -> bool {
        true
    }

    open spec fn allows(&self, my_history: Seq<Action>, opponent_history: Seq<Action>, r: Action) -> bool {
        &&& (r == backstabber_move(my_history, self.turn as nat))
    }

    fn name(&self) -> (r: &str)
        ensures
            r@ == self.spec_label(),
    {
        self.label.as_str()
    }

    fn next_move(&self, my_history: &[Action], _opponent_history: &[Action], _rng: &mut ChaCha8Rng) -> (r: Action)
        ensures
            r == backstabber_move(my_history@, self.turn as nat),
    {
        if my_history.len() >= self.turn {
            Action::Defect
        } else {
            Action::Cooperate
        }
    }
}

/// Once the Backstabber has turned, it never cooperates again.
pub proof fn law_backstab_is_final(my_history: Seq<Action>, later: Seq<Action>, turn: nat)
    requires
        backstabber_move(my_history, turn) == Action::Defect,
    ensures
        backstabber_move(my_history + later, turn) == Action::Defect,
{
}

// ---------------------------------------------------------------------------
// Bully (prob / 50): with the given probability plays the opposite of Tit
// For Tat (cooperating on the first round), and defects otherwise.

pub open spec fn bully_rule(opponent_history: Seq<Action>, engage: bool) -> Action {
    if !engage {
        Action::Defect
    } else if opponent_history.len() == 0 {
        Action::Cooperate
    } else {
        opponent_history.last().flipped()
    }
}

pub struct Bully {
    label: String,
    fiftieths: u32,
}

impl Bully {
    /// The strategy's name.
    pub closed spec fn spec_label(&self) -> Seq<char> {
        self.label@
    }

    #[verifier::type_invariant]
    spec fn well_formed(self) -> bool {
        self.fiftieths <= 50
    }

    pub closed spec fn spec_fiftieths(&self) -> u32 {
        self.fiftieths
    }

    pub fn new(fiftieths: u32) -> (r: Self)
        requires
            fiftieths <= 50,
        ensures
            r.spec_fiftieths() == fiftieths,
            r.spec_label() == "Bully ("@ + decimal(2 * fiftieths as nat) + "%)"@,
    {
        Bully { label: numbered_label("Bully (", 2 * (fiftieths as u64), "%)"), fiftieths }
    }
}

impl Strategy for Bully {
    open spec fn spec_name(&self) -> Seq<char> {
        self.spec_label()
    }

    open spec fn names_itself(&self) -> bool {
        true
    }

    open spec fn allows(&self, my_history: Seq<Action>, opponent_history: Seq<Action>, r: Action) -> bool {
        &&& (r == bully_rule(opponent_history, true) || r == bully_rule(opponent_history, false))
        &&& (self.spec_fiftieths() == 0 ==> r == bully_rule(opponent_history, false))
        &&& (self.spec_fiftieths() == 50 ==> r == bully_rule(opponent_history, true))
    }

    fn name(&self) -> (r: &str)
        ensures
            r@ == self.spec_label(),
    {
        self.label.as_str()
    }

    fn next_move(&self, _my_history: &[Action], opponent_history: &[Action], rng: &mut ChaCha8Rng) -> (r: Action)
        ensures
            r == bully_rule(opponent_history@, true) || r == bully_rule(opponent_history@, false),
            self.spec_fiftieths() == 0 ==> r == bully_rule(opponent_history@, false),
            self.spec_fiftieths() == 50 ==> r == bully_rule(opponent_history@, true),
    {
        proof {
            use_type_invariant(self);
        }
        if !draw_ratio(rng, self.fiftieths, 50) {
            return Action::Defect;
        }
        let n = opponent_history.len();
        if n == 0 {
            Action::Cooperate
        } else {
            opponent_history[n - 1].flip()
        }
    }
}

// ---------------------------------------------------------------------------
// Forgiving TFT (prob / 100): Tit For Tat that forgives a defection with the
// given probability.

pub open spec fn forgiving_tft_rule(opponent_history: Seq<Action>, forgive: bool) -> Action {
    if opponent_history.len() > 0 && opponent_history.last() == Action::Defect && !forgive {
        Action::Defect
    } else {
        Action::Cooperate
    }
}

pub struct ForgivingTft {
    label: String,
    hundredths: u32,
}

impl ForgivingTft {
    /// The strategy's name.
    pub closed spec fn spec_label(&self) -> Seq<char> {
        self.label@
    }

    #[verifier::type_invariant]
    spec fn well_formed(self) -> bool {
        self.hundredths <= 100
    }

    pub closed spec fn spec_hundredths(&self) -> u32 {
        self.hundredths
    }

    pub fn new(hundredths: u32) -> (r: Self)
        requires
            hundredths <= 100,
        ensures
            r.spec_hundredths() == hundredths,
            r.spec_label() == "Forgiving TFT ("@ + decimal(hundredths as nat) + ".0%)"@,
    {
        ForgivingTft { label: numbered_label("Forgiving TFT (", hundredths as u64, ".0%)"), hundredths }
    }
}

impl Strategy for ForgivingTft {
    open spec fn spec_name(&self) -> Seq<char> {
        self.spec_label()
    }

    open spec fn names_itself(&self) -> bool {
        true
    }

    open spec fn allows(&self, my_history: Seq<Action>, opponent_history: Seq<Action>, r: Action) -> bool {
        &&& (r == forgiving_tft_rule(opponent_history, true) || r == forgiving_tft_rule(
                    opponent_history,
                    false))
        &&& (self.spec_hundredths() == 0 ==> r == forgiving_tft_rule(opponent_history, false))
        &&& (self.spec_hundredths() == 100 ==> r == forgiving_tft_rule(opponent_history, true))
    }

    fn name(&self) -> (r: &str)
        ensures
            r@ == self.spec_label(),
    {
        self.label.as_str()
    }

    fn next_move(&self, _my_history: &[Action], opponent_history: &[Action], rng: &mut ChaCha8Rng) -> (r: Action)
        ensures
            r == forgiving_tft_rule(opponent_history@, true) || r == forgiving_tft_rule(
                opponent_history@,
                false,
            ),
            self.spec_hundredths() == 0 ==> r == forgiving_tft_rule(opponent_history@, false),
            self.spec_hundredths() == 100 ==> r == forgiving_tft_rule(opponent_history@, true),
    {
        proof {
            use_type_invariant(self);
        }
        let n = opponent_history.len();
        if n > 0 && opponent_history[n - 1] == Action::Defect {
            if draw_ratio(rng, self.hundredths, 100) {
                Action::Cooperate
            } else {
                Action::Defect
            }
        } else {
            Action::Cooperate
        }
    }
}

// ---------------------------------------------------------------------------
// Gradual (xN): the scaled Gradual machine.

pub struct GradualFamily {
    pub label: String,
    pub mult: usize,
}

impl GradualFamily {
    /// The strategy's name.
    pub closed spec fn spec_label(&self) -> Seq<char> {
        self.label@
    }

    pub fn new(mult: usize) -> (r: Self)
        ensures
            r.mult == mult,
            r.spec_label() == "Gradual (x"@ + decimal(mult as nat) + ")"@,
    {
        GradualFamily { label: numbered_label("Gradual (x", mult as u64, ")"), mult }
    }
}

impl Strategy for GradualFamily {
    /// Its scratch holds the counters of a prefix of the opponent history.
    open spec fn summarises_scratch(&self, scratch: StrategyScratch, my_history: Seq<Action>, opponent_history: Seq<Action>) -> bool {
        gradual_scratch_summarises(scratch, opponent_history, Some(self.mult))
    }

    open spec fn spec_name(&self) -> Seq<char> {
        self.spec_label()
    }

    open spec fn names_itself(&self) -> bool {
        true
    }

    open spec fn allows(&self, my_history: Seq<Action>, opponent_history: Seq<Action>, r: Action) -> bool {
        &&& (r == gradual_move(opponent_history, Some(self.mult)))
    }

    fn name(&self) -> (r: &str)
        ensures
            r@ == self.spec_label(),
    {
        self.label.as_str()
    }

    fn next_move(&self, _my_history: &[Action], opponent_history: &[Action], _rng: &mut ChaCha8Rng) -> (r: Action)
        ensures
            r == gradual_move(opponent_history@, Some(self.mult)),
    {
        gradual_rescan(opponent_history, Some(self.mult))
    }

    fn init_scratch(&self) -> (s: StrategyScratch)
        ensures
            s == (StrategyScratch::Gradual { opp_defects: 0, p_left: 0, c_left: 0, processed: 0 }),
    {
        let s = StrategyScratch::Gradual { opp_defects: 0, p_left: 0, c_left: 0, processed: 0 };
        proof {
            law_fresh_gradual_scratch(Seq::empty(), Some(self.mult));
        }
        s
    }

    /// Same decisions as `next_move` whenever the scratch summarises a
    /// prefix of the opponent history.
    fn next_move_stateful(
        &self,
        _my_history: &[Action],
        opponent_history: &[Action],
        scratch: &mut StrategyScratch,
        _rng: &mut ChaCha8Rng,
    ) -> (r: Action)
        ensures
            gradual_scratch_summarises(*old(scratch), opponent_history@, Some(self.mult)) ==> {
                &&& r == gradual_move(opponent_history@, Some(self.mult))
                &&& gradual_scratch_summarises(*final(scratch), opponent_history@, Some(self.mult))
                &&& (*final(scratch))->Gradual_processed == opponent_history@.len()
            },
            !(*old(scratch) is Gradual) ==> r == gradual_move(opponent_history@, Some(self.mult))
                && *final(scratch) == *old(scratch),
            *old(scratch) is Gradual ==> r == gradual_decision(
                gradual_after(*old(scratch), opponent_history@, Some(self.mult)),
                opponent_history@,
                Some(self.mult),
            ),
    {
        proof {
            if exists|j: int, k: int|
                0 <= j <= _my_history@.len() && 0 <= k <= opponent_history@.len()
                    && #[trigger] self.summarises_scratch(*scratch, _my_history@.take(j), opponent_history@.take(k)) {
                let (j, k) = choose|j: int, k: int|
                    0 <= j <= _my_history@.len() && 0 <= k <= opponent_history@.len()
                        && #[trigger] self.summarises_scratch(*scratch, _my_history@.take(j), opponent_history@.take(k));
                law_gradual_summary_extends(*scratch, opponent_history@, k, Some(self.mult));
            }
        }
        let r = gradual_incremental(opponent_history, scratch, Some(self.mult));
        proof {
            lemma_take_all(_my_history@);
            lemma_take_all(opponent_history@);
            assert(gradual_scratch_summarises(*scratch, opponent_history@, Some(self.mult)) ==> self.summarises_scratch(
                *scratch,
                _my_history@.take(_my_history@.len() as int),
                opponent_history@.take(opponent_history@.len() as int),
            ));
        }
        r
    }
}

// ---------------------------------------------------------------------------
// Handshake (Code #N): opens with a three-move code derived from N; an
// opponent that sent the same code is met with Tit For Tat, any other is
// defected against.

pub open spec fn code_move(code_id: nat, turn: nat) -> Action {
    if (code_id + turn) % 2 == 0 {
        Action::Cooperate
    } else {
        Action::Defect
    }
}

pub open spec fn handshake_code_move(my_history: Seq<Action>, opponent_history: Seq<Action>, code_id: nat) -> Action {
    if my_history.len() < 3 {
        code_move(code_id, my_history.len())
    } else if forall|t: int|
        0 <= t < 3 ==> t < opponent_history.len() && opponent_history[t] == code_move(
            code_id,
            t as nat,
        ) {
        last_or(opponent_history, Action::Cooperate)
    } else {
        Action::Defect
    }
}

pub struct HandshakeCode {
    pub label: String,
    pub code_id: usize,
}

impl HandshakeCode {
    /// The strategy's name.
    pub closed spec fn spec_label(&self) -> Seq<char> {
        self.label@
    }

    pub fn new(code_id: usize) -> (r: Self)
        ensures
            r.code_id == code_id,
            r.spec_label() == "Handshake (Code #"@ + decimal(code_id as nat) + ")"@,
    {
        HandshakeCode { label: numbered_label("Handshake (Code #", code_id as u64, ")"), code_id }
    }
}

fn code_move_exec(code_id: usize, turn: usize) -> (r: Action)
    ensures
        r == code_move(code_id as nat, turn as nat),
{
    if (code_id % 2 + turn % 2) % 2 == 0 {
        Action::Cooperate
    } else {
        Action::Defect
    }
}

impl Strategy for HandshakeCode {
    open spec fn spec_name(&self) -> Seq<char> {
        self.spec_label()
    }

    open spec fn names_itself(&self) -> bool {
        true
    }

    open spec fn allows(&self, my_history: Seq<Action>, opponent_history: Seq<Action>, r: Action) -> bool {
        &&& (r == handshake_code_move(my_history, opponent_history, self.code_id as nat))
    }

    fn name(&self) -> (r: &str)
        ensures
            r@ == self.spec_label(),
    {
        self.label.as_str()
    }

    fn next_move(&self, my_history: &[Action], opponent_history: &[Action], _rng: &mut ChaCha8Rng) -> (r: Action)
        ensures
            r == handshake_code_move(my_history@, opponent_history@, self.code_id as nat),
    {
        let turn = my_history.len();
        if turn < 3 {
            return code_move_exec(self.code_id, turn);
        }
        let mut t: usize = 0;
        while t < 3
            invariant
                t <= 3,
                my_history@.len() >= 3,
                forall|j: int|
                    0 <= j < t ==> j < opponent_history@.len() && opponent_history@[j] == code_move(
                        self.code_id as nat,
                        j as nat,
                    ),
            decreases 3 - t,
        {
            let expected = code_move_exec(self.code_id, t);
            if t >= opponent_history.len() || opponent_history[t] != expected {
                proof {
                    let h = opponent_history@;
                    let tt = t as int;
                    if forall|j: int|
                        0 <= j < 3 ==> j < h.len() && h[j] == code_move(self.code_id as nat, j as nat) {
                        assert(tt < h.len() && h[tt] == code_move(self.code_id as nat, tt as nat));
                    }
                }
                return Action::Defect;
            }
            t = t + 1;
        }
        last_or_else(opponent_history, Action::Cooperate)
    }
}

// ---------------------------------------------------------------------------
// Omega-Detector (Thresh N): the OmegaTFT machine with warm-up N and limit N / 2.

pub struct OmegaDetectorFamily {
    pub label: String,
    pub threshold: usize,
}

impl OmegaDetectorFamily {
    /// The strategy's name.
    pub closed spec fn spec_label(&self) -> Seq<char> {
        self.label@
    }

    pub fn new(threshold: usize) -> (r: Self)
        ensures
            r.threshold == threshold,
            r.spec_label() == "Omega-Detector (Thresh "@ + decimal(threshold as nat) + ")"@,
    {
        OmegaDetectorFamily {
            label: numbered_label("Omega-Detector (Thresh ", threshold as u64, ")"),
            threshold,
        }
    }
}

impl Strategy for OmegaDetectorFamily {
    /// Its scratch holds the count of a prefix of the histories.
    open spec fn summarises_scratch(&self, scratch: StrategyScratch, my_history: Seq<Action>, opponent_history: Seq<Action>) -> bool {
        omega_scratch_summarises(scratch, my_history, opponent_history)
    }

    open spec fn spec_name(&self) -> Seq<char> {
        self.spec_label()
    }

    open spec fn names_itself(&self) -> bool {
        true
    }

    open spec fn allows(&self, my_history: Seq<Action>, opponent_history: Seq<Action>, r: Action) -> bool {
        &&& (r == omega_move(
                    my_history,
                    opponent_history,
                    self.threshold,
                    (self.threshold / 2) as usize))
    }

    fn name(&self) -> (r: &str)
        ensures
            r@ == self.spec_label(),
    {
        self.label.as_str()
    }

    fn next_move(&self, my_history: &[Action], opponent_history: &[Action], _rng: &mut ChaCha8Rng) -> (r: Action)
        ensures
            r == omega_move(
                my_history@,
                opponent_history@,
                self.threshold,
                (self.threshold / 2) as usize,
            ),
    {
        omega_rescan(my_history, opponent_history, self.threshold, self.threshold / 2)
    }

    fn init_scratch(&self) -> (s: StrategyScratch)
        ensures
            s == (StrategyScratch::OmegaDetector { inconsistencies: 0, processed: 0 }),
    {
        let s = StrategyScratch::OmegaDetector { inconsistencies: 0, processed: 0 };
        proof {
            law_fresh_omega_scratch(Seq::empty(), Seq::empty());
        }
        s
    }

    /// Same decisions as `next_move` whenever the scratch summarises a
    /// prefix of the histories.
    fn next_move_stateful(
        &self,
        my_history: &[Action],
        opponent_history: &[Action],
        scratch: &mut StrategyScratch,
        _rng: &mut ChaCha8Rng,
    ) -> (r: Action)
        ensures
            omega_scratch_summarises(*old(scratch), my_history@, opponent_history@) ==> {
                &&& r == omega_move(
                    my_history@,
                    opponent_history@,
                    self.threshold,
                    (self.threshold / 2) as usize,
                )
                &&& omega_scratch_summarises(*final(scratch), my_history@, opponent_history@)
                &&& *final(scratch) == omega_scratch_of(my_history@, opponent_history@)
            },
            !(*old(scratch) is OmegaDetector) ==> r == omega_move(
                my_history@,
                opponent_history@,
                self.threshold,
                (self.threshold / 2) as usize,
            ) && *final(scratch) == *old(scratch),
            *old(scratch) is OmegaDetector ==> r == omega_decision(
                omega_count_after(*old(scratch), my_history@, opponent_history@),
                opponent_history@,
                self.threshold,
                (self.threshold / 2) as usize,
            ),
    {
        proof {
            if exists|j: int, k: int|
                0 <= j <= my_history@.len() && 0 <= k <= opponent_history@.len()
                    && #[trigger] self.summarises_scratch(*scratch, my_history@.take(j), opponent_history@.take(k)) {
                let (j, k) = choose|j: int, k: int|
                    0 <= j <= my_history@.len() && 0 <= k <= opponent_history@.len()
                        && #[trigger] self.summarises_scratch(*scratch, my_history@.take(j), opponent_history@.take(k));
                law_omega_summary_extends(*scratch, my_history@, opponent_history@, j, k);
            }
        }
        let r = omega_incremental(my_history, opponent_history, scratch, self.threshold, self.threshold / 2);
        proof {
            lemma_take_all(my_history@);
            lemma_take_all(opponent_history@);
            assert(omega_scratch_summarises(*scratch, my_history@, opponent_history@) ==> self.summarises_scratch(
                *scratch,
                my_history@.take(my_history@.len() as int),
                opponent_history@.take(opponent_history@.len() as int),
            ));
        }
        r
    }
}

// ---------------------------------------------------------------------------
// Biased Random (prob / 100): ignores the history and cooperates with the
// given probability.

pub struct BiasedRandom {
    label: String,
    hundredths: u32,
}

impl BiasedRandom {
    /// The strategy's name.
    pub closed spec fn spec_label(&self) -> Seq<char> {
        self.label@
    }

    #[verifier::type_invariant]
    spec fn well_formed(self) -> bool {
        self.hundredths <= 100
    }

    pub closed spec fn spec_hundredths(&self) -> u32 {
        self.hundredths
    }

    pub fn new(hundredths: u32) -> (r: Self)
        requires
            hundredths <= 100,
        ensures
            r.spec_hundredths() == hundredths,
            r.spec_label() == "Biased Random ("@ + decimal(hundredths as nat) + "%)"@,
    {
        BiasedRandom { label: numbered_label("Biased Random (", hundredths as u64, "%)"), hundredths }
    }
}

impl Strategy for BiasedRandom {
    open spec fn spec_name(&self) -> Seq<char> {
        self.spec_label()
    }

    open spec fn names_itself(&self) -> bool {
        true
    }

    open spec fn allows(&self, my_history: Seq<Action>, opponent_history: Seq<Action>, r: Action) -> bool {
        &&& (self.spec_hundredths() == 0 ==> r == Action::Defect)
        &&& (self.spec_hundredths() == 100 ==> r == Action::Cooperate)
    }

    fn name(&self) -> (r: &str)
        ensures
            r@ == self.spec_label(),
    {
        self.label.as_str()
    }

    fn next_move(&self, _my_history: &[Action], _opponent_history: &[Action], rng: &mut ChaCha8Rng) -> (r: Action)
        ensures
            self.spec_hundredths() == 0 ==> r == Action::Defect,
            self.spec_hundredths() == 100 ==> r == Action::Cooperate,
    {
        proof {
            use_type_invariant(self);
        }
        if draw_ratio(rng, self.hundredths, 100) {
            Action::Cooperate
        } else {
            Action::Defect
        }
    }
}

// ---------------------------------------------------------------------------

/// A member of one of the ten parameterised families.
pub enum FamilyMember {
    Reactive(Reactive),
    PatternMatcher(PatternMatcher),
    AdaptiveTft(AdaptiveTft),
    Backstabber(Backstabber),
    Bully(Bully),
    ForgivingTft(ForgivingTft),
    GradualFamily(GradualFamily),
    HandshakeCode(HandshakeCode),
    OmegaDetectorFamily(OmegaDetectorFamily),
    BiasedRandom(BiasedRandom),
}

impl FamilyMember {
    /// The name of the member.
    pub open spec fn spec_label(&self) -> Seq<char> {
        match self {
            FamilyMember::Reactive(s) => s.spec_label(),
            FamilyMember::PatternMatcher(s) => s.spec_label(),
            FamilyMember::AdaptiveTft(s) => s.spec_label(),
            FamilyMember::Backstabber(s) => s.spec_label(),
            FamilyMember::Bully(s) => s.spec_label(),
            FamilyMember::ForgivingTft(s) => s.spec_label(),
            FamilyMember::GradualFamily(s) => s.spec_label(),
            FamilyMember::HandshakeCode(s) => s.spec_label(),
            FamilyMember::OmegaDetectorFamily(s) => s.spec_label(),
            FamilyMember::BiasedRandom(s) => s.spec_label(),
        }
    }
}

/// `r` is a move that the rule of `m`'s family allows after the given
/// histories: the move itself for a deterministic rule, one of the two
/// outcomes of the draw for a stochastic one.
pub open spec fn member_move_allowed(m: FamilyMember, my_history: Seq<Action>, opponent_history: Seq<Action>, r: Action) -> bool {
    match m {
        FamilyMember::Reactive(_) => r == reactive_rule(opponent_history, true) || r == reactive_rule(
            opponent_history,
            false,
        ),
        FamilyMember::PatternMatcher(s) => r == pattern_matcher_move(opponent_history, s.window as nat),
        FamilyMember::AdaptiveTft(s) => r == adaptive_tft_move(opponent_history, s.target_fiftieths as nat),
        FamilyMember::Backstabber(s) => r == backstabber_move(my_history, s.turn as nat),
        FamilyMember::Bully(_) => r == bully_rule(opponent_history, true) || r == bully_rule(opponent_history, false),
        FamilyMember::ForgivingTft(_) => r == forgiving_tft_rule(opponent_history, true) || r
            == forgiving_tft_rule(opponent_history, false),
        FamilyMember::GradualFamily(s) => r == gradual_move(opponent_history, Some(s.mult)),
        FamilyMember::HandshakeCode(s) => r == handshake_code_move(my_history, opponent_history, s.code_id as nat),
        FamilyMember::OmegaDetectorFamily(s) => r == omega_move(
            my_history,
            opponent_history,
            s.threshold,
            (s.threshold / 2) as usize,
        ),
        FamilyMember::BiasedRandom(_) => true,
    }
}

impl Strategy for FamilyMember {
    /// The Gradual and Omega-Detector members keep a scratch, as their
    /// families do; the others ask nothing of it.
    open spec fn summarises_scratch(&self, scratch: StrategyScratch, my_history: Seq<Action>, opponent_history: Seq<Action>) -> bool {
        match *self {
            FamilyMember::GradualFamily(g) => gradual_scratch_summarises(scratch, opponent_history, Some(g.mult)),
            FamilyMember::OmegaDetectorFamily(_) => omega_scratch_summarises(scratch, my_history, opponent_history),
            _ => true,
        }
    }

    open spec fn spec_name(&self) -> Seq<char> {
        self.spec_label()
    }

    open spec fn names_itself(&self) -> bool {
        true
    }

    open spec fn allows(&self, my_history: Seq<Action>, opponent_history: Seq<Action>, r: Action) -> bool {
        &&& (member_move_allowed(*self, my_history, opponent_history, r))
    }

    fn name(&self) -> (r: &str)
        ensures
            r@ == self.spec_label(),
    {
        match self {
            FamilyMember::Reactive(s) => s.name(),
            FamilyMember::PatternMatcher(s) => s.name(),
            FamilyMember::AdaptiveTft(s) => s.name(),
            FamilyMember::Backstabber(s) => s.name(),
            FamilyMember::Bully(s) => s.name(),
            FamilyMember::ForgivingTft(s) => s.name(),
            FamilyMember::GradualFamily(s) => s.name(),
            FamilyMember::HandshakeCode(s) => s.name(),
            FamilyMember::OmegaDetectorFamily(s) => s.name(),
            FamilyMember::BiasedRandom(s) => s.name(),
        }
    }

    /// The move of the member's family rule; a draw decides between the
    /// two moves a stochastic rule allows.
    fn next_move(&self, my_history: &[Action], opponent_history: &[Action], rng: &mut ChaCha8Rng) -> (r: Action)
        ensures
            member_move_allowed(*self, my_history@, opponent_history@, r),
    {
        match self {
            FamilyMember::Reactive(s) => s.next_move(my_history, opponent_history, rng),
            FamilyMember::PatternMatcher(s) => s.next_move(my_history, opponent_history, rng),
            FamilyMember::AdaptiveTft(s) => s.next_move(my_history, opponent_history, rng),
            FamilyMember::Backstabber(s) => s.next_move(my_history, opponent_history, rng),
            FamilyMember::Bully(s) => s.next_move(my_history, opponent_history, rng),
            FamilyMember::ForgivingTft(s) => s.next_move(my_history, opponent_history, rng),
            FamilyMember::GradualFamily(s) => s.next_move(my_history, opponent_history, rng),
            FamilyMember::HandshakeCode(s) => s.next_move(my_history, opponent_history, rng),
            FamilyMember::OmegaDetectorFamily(s) => s.next_move(my_history, opponent_history, rng),
            FamilyMember::BiasedRandom(s) => s.next_move(my_history, opponent_history, rng),
        }
    }

    fn init_scratch(&self) -> (sc: StrategyScratch)
        ensures
            sc == match *self {
                FamilyMember::GradualFamily(_) => StrategyScratch::Gradual {
                    opp_defects: 0,
                    p_left: 0,
                    c_left: 0,
                    processed: 0,
                },
                FamilyMember::OmegaDetectorFamily(_) => StrategyScratch::OmegaDetector { inconsistencies: 0, processed: 0 },
                _ => StrategyScratch::Empty,
            },
    {
        match self {
            FamilyMember::GradualFamily(s) => {
                let sc = s.init_scratch();
                proof {
                    law_fresh_gradual_scratch(Seq::empty(), Some(s.mult));
                }
                sc
            },
            FamilyMember::OmegaDetectorFamily(s) => {
                let sc = s.init_scratch();
                proof {
                    law_fresh_omega_scratch(Seq::empty(), Seq::empty());
                }
                sc
            },
            _ => StrategyScratch::Empty,
        }
    }

    fn next_move_stateful(
        &self,
        my_history: &[Action],
        opponent_history: &[Action],
        scratch: &mut StrategyScratch,
        rng: &mut ChaCha8Rng,
    ) -> (r: Action)
        ensures
            match *self {
                FamilyMember::GradualFamily(g) => gradual_scratch_summarises(
                    *old(scratch),
                    opponent_history@,
                    Some(g.mult),
                ) ==> {
                    &&& r == gradual_move(opponent_history@, Some(g.mult))
                    &&& gradual_scratch_summarises(*final(scratch), opponent_history@, Some(g.mult))
                },
                FamilyMember::OmegaDetectorFamily(o) => omega_scratch_summarises(
                    *old(scratch),
                    my_history@,
                    opponent_history@,
                ) ==> {
                    &&& r == omega_move(my_history@, opponent_history@, o.threshold, (o.threshold / 2) as usize)
                    &&& omega_scratch_summarises(*final(scratch), my_history@, opponent_history@)
                },
                _ => member_move_allowed(*self, my_history@, opponent_history@, r) && *final(scratch)
                    == *old(scratch),
            },
    {
        match self {
            FamilyMember::GradualFamily(s) => {
                proof {
                    if exists|j: int, k: int|
                        0 <= j <= my_history@.len() && 0 <= k <= opponent_history@.len()
                            && #[trigger] self.summarises_scratch(*scratch, my_history@.take(j), opponent_history@.take(k)) {
                        let (j, k) = choose|j: int, k: int|
                            0 <= j <= my_history@.len() && 0 <= k <= opponent_history@.len()
                                && #[trigger] self.summarises_scratch(*scratch, my_history@.take(j), opponent_history@.take(k));
                        law_gradual_summary_extends(*scratch, opponent_history@, k, Some(s.mult));
                    }
                }
                let r = s.next_move_stateful(my_history, opponent_history, scratch, rng);
                proof {
                    lemma_take_all(my_history@);
                    lemma_take_all(opponent_history@);
                    assert(gradual_scratch_summarises(*scratch, opponent_history@, Some(s.mult)) ==> self.summarises_scratch(
                        *scratch,
                        my_history@.take(my_history@.len() as int),
                        opponent_history@.take(opponent_history@.len() as int),
                    ));
                }
                r
            },
            FamilyMember::OmegaDetectorFamily(s) => {
                proof {
                    if exists|j: int, k: int|
                        0 <= j <= my_history@.len() && 0 <= k <= opponent_history@.len()
                            && #[trigger] self.summarises_scratch(*scratch, my_history@.take(j), opponent_history@.take(k)) {
                        let (j, k) = choose|j: int, k: int|
                            0 <= j <= my_history@.len() && 0 <= k <= opponent_history@.len()
                                && #[trigger] self.summarises_scratch(*scratch, my_history@.take(j), opponent_history@.take(k));
                        law_omega_summary_extends(*scratch, my_history@, opponent_history@, j, k);
                    }
                }
                let r = s.next_move_stateful(my_history, opponent_history, scratch, rng);
                proof {
                    lemma_take_all(my_history@);
                    lemma_take_all(opponent_history@);
                    assert(omega_scratch_summarises(*scratch, my_history@, opponent_history@) ==> self.summarises_scratch(
                        *scratch,
                        my_history@.take(my_history@.len() as int),
                        opponent_history@.take(opponent_history@.len() as int),
                    ));
                }
                r
            },
            _ => self.next_move(my_history, opponent_history, rng),
        }
    }
}

/// The name of member `i` of the population that `generative_families`
/// builds.
pub open spec fn family_label(i: int) -> Seq<char> {
    if i < 100 {
        "Reactive (p="@ + tenths_text((i / 10 + 1) as nat) + ", q="@ + tenths_text((i % 10 + 1) as nat) + ")"@
    } else if i < 110 {
        "Pattern Matcher (W="@ + decimal((i - 100 + 2) as nat) + ")"@
    } else if i < 160 {
        "Adaptive TFT (Target "@ + decimal((2 * (i - 110 + 1)) as nat) + "%)"@
    } else if i < 210 {
        "Backstabber (T="@ + decimal((10 * (i - 160 + 1)) as nat) + ")"@
    } else if i < 260 {
        "Bully ("@ + decimal((2 * (i - 210 + 1)) as nat) + "%)"@
    } else if i < 360 {
        "Forgiving TFT ("@ + decimal((i - 260 + 1) as nat) + ".0%)"@
    } else if i < 410 {
        "Gradual (x"@ + decimal((i - 360 + 1) as nat) + ")"@
    } else if i < 460 {
        "Handshake (Code #"@ + decimal((i - 410 + 1) as nat) + ")"@
    } else if i < 510 {
        "Omega-Detector (Thresh "@ + decimal((i - 460 + 2) as nat) + ")"@
    } else {
        "Biased Random ("@ + decimal((i - 510 + 1) as nat) + "%)"@
    }
}

/// `m` is member `i` of the population that `generative_families` builds:
/// its family, its parameter and its name.
pub open spec fn family_member_at(m: FamilyMember, i: int) -> bool {
    &&& m.spec_label() == family_label(i)
    &&& if i < 100 {
        m is Reactive && m->Reactive_0.spec_p_tenths() == i / 10 + 1 && m->Reactive_0.spec_q_tenths() == i
            % 10 + 1
    } else if i < 110 {
        m is PatternMatcher && m->PatternMatcher_0.window == i - 100 + 2
    } else if i < 160 {
        m is AdaptiveTft && m->AdaptiveTft_0.target_fiftieths == i - 110 + 1
    } else if i < 210 {
        m is Backstabber && m->Backstabber_0.turn == 10 * (i - 160 + 1)
    } else if i < 260 {
        m is Bully && m->Bully_0.spec_fiftieths() == i - 210 + 1
    } else if i < 360 {
        m is ForgivingTft && m->ForgivingTft_0.spec_hundredths() == i - 260 + 1
    } else if i < 410 {
        m is GradualFamily && m->GradualFamily_0.mult == i - 360 + 1
    } else if i < 460 {
        m is HandshakeCode && m->HandshakeCode_0.code_id == i - 410 + 1
    } else if i < 510 {
        m is OmegaDetectorFamily && m->OmegaDetectorFamily_0.threshold == i - 460 + 2
    } else {
        m is BiasedRandom && m->BiasedRandom_0.spec_hundredths() == i - 510 + 1
    }
}

/// The ten parameterised families in their population order: Reactive
/// (10 x 10), Pattern Matcher (W = 2..=11), Adaptive TFT (1..=50 fiftieths),
/// Backstabber (T = 10, 20, .., 500), Bully (1..=50 fiftieths), Forgiving
/// TFT (1..=100 hundredths), Gradual (x1..=x50), Handshake (codes 1..=50),
/// Omega-Detector (thresholds 2..=51), Biased Random (1..=100 hundredths).
pub fn generative_families() -> (v: Vec<FamilyMember>)
    ensures
        v@.len() == 610,
        forall|i: int| 0 <= i < 610 ==> family_member_at(#[trigger] v@[i], i),
{
    let mut v: Vec<FamilyMember> = Vec::new();
    let mut i: u32 = 1;
    while i <= 10
        invariant
            1 <= i <= 11,
            v@.len() == 10 * (i - 1),
            forall|k: int| 0 <= k < v@.len() ==> family_member_at(#[trigger] v@[k], k),
        decreases 11 - i,
    {
        let mut j: u32 = 1;
        while j <= 10
            invariant
                1 <= i <= 10,
                1 <= j <= 11,
                v@.len() == 10 * (i - 1) + (j - 1),
                forall|k: int| 0 <= k < v@.len() ==> family_member_at(#[trigger] v@[k], k),
            decreases 11 - j,
        {
            v.push(FamilyMember::Reactive(Reactive::new(i, j)));
            j = j + 1;
        }
        i = i + 1;
    }
    let mut window: usize = 2;
    while window <= 11
        invariant
            2 <= window <= 12,
            v@.len() == 100 + (window - 2),
            forall|k: int| 0 <= k < v@.len() ==> family_member_at(#[trigger] v@[k], k),
        decreases 12 - window,
    {
        v.push(FamilyMember::PatternMatcher(PatternMatcher::new(window)));
        window = window + 1;
    }
    let mut target: u32 = 1;
    while target <= 50
        invariant
            1 <= target <= 51,
            v@.len() == 110 + (target - 1),
            forall|k: int| 0 <= k < v@.len() ==> family_member_at(#[trigger] v@[k], k),
        decreases 51 - target,
    {
        v.push(FamilyMember::AdaptiveTft(AdaptiveTft::new(target)));
        target = target + 1;
    }
    let mut k: usize = 1;
    while k <= 50
        invariant
            1 <= k <= 51,
            v@.len() == 160 + (k - 1),
            forall|m: int| 0 <= m < v@.len() ==> family_member_at(#[trigger] v@[m], m),
        decreases 51 - k,
    {
        v.push(FamilyMember::Backstabber(Backstabber::new(10 * k)));
        k = k + 1;
    }
    let mut b: u32 = 1;
    while b <= 50
        invariant
            1 <= b <= 51,
            v@.len() == 210 + (b - 1),
            forall|m: int| 0 <= m < v@.len() ==> family_member_at(#[trigger] v@[m], m),
        decreases 51 - b,
    {
        v.push(FamilyMember::Bully(Bully::new(b)));
        b = b + 1;
    }
    let mut f: u32 = 1;
    while f <= 100
        invariant
            1 <= f <= 101,
            v@.len() == 260 + (f - 1),
            forall|m: int| 0 <= m < v@.len() ==> family_member_at(#[trigger] v@[m], m),
        decreases 101 - f,
    {
        v.push(FamilyMember::ForgivingTft(ForgivingTft::new(f)));
        f = f + 1;
    }
    let mut mult: usize = 1;
    while mult <= 50
        invariant
            1 <= mult <= 51,
            v@.len() == 360 + (mult - 1),
            forall|m: int| 0 <= m < v@.len() ==> family_member_at(#[trigger] v@[m], m),
        decreases 51 - mult,
    {
        v.push(FamilyMember::GradualFamily(GradualFamily::new(mult)));
        mult = mult + 1;
    }
    let mut code: usize = 1;
    while code <= 50
        invariant
            1 <= code <= 51,
            v@.len() == 410 + (code - 1),
            forall|m: int| 0 <= m < v@.len() ==> family_member_at(#[trigger] v@[m], m),
        decreases 51 - code,
    {
        v.push(FamilyMember::HandshakeCode(HandshakeCode::new(code)));
        code = code + 1;
    }
    let mut threshold: usize = 2;
    while threshold <= 51
        invariant
            2 <= threshold <= 52,
            v@.len() == 460 + (threshold - 2),
            forall|m: int| 0 <= m < v@.len() ==> family_member_at(#[trigger] v@[m], m),
        decreases 52 - threshold,
    {
        v.push(FamilyMember::OmegaDetectorFamily(OmegaDetectorFamily::new(threshold)));
        threshold = threshold + 1;
    }
    let mut r: u32 = 1;
    while r <= 100
        invariant
            1 <= r <= 101,
            v@.len() == 510 + (r - 1),
            forall|m: int| 0 <= m < v@.len() ==> family_member_at(#[trigger] v@[m], m),
        decreases 101 - r,
    {
        v.push(FamilyMember::BiasedRandom(BiasedRandom::new(r)));
        r = r + 1;
    }
    v
}

} // verus!
