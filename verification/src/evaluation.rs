//! The static position evaluator.
//!
//! `eval` returns a White-positive fixed-point score combining four terms:
//! material (with doubled and isolated pawns discounted to half a pawn),
//! piece-square position values for the current game phase, mobility
//! (legal-move count of the side to move minus that of the opponent after a
//! passed turn), and a bonus per checking piece.  Its contract pins the
//! result to `spec_eval`, a closed-form function of the position's
//! bitboards and of what the rules engine reports for move counts.

use vstd::prelude::*;

use crate::bitboards::{
    bit, doubled_pawns, isolated_pawns, lemma_popcnt_le, popcnt, popcount, spec_doubled_pawns,
    spec_isolated_pawns,
};
use crate::presets::{
    piece_weights_ok, spec_phase_tables, spec_square_table, EvaluationPresets, PieceSquarePhases,
    PieceSquareTables, PRESET_VALUE_MAX,
};
use crate::rules::{
    legal_moves, moves_of, null_of, spec_color_bb, Position, BISHOP, KNIGHT, QUEEN, ROOK,
};
use crate::{SCORE_MAX, SCORE_MIN, SCORE_SCALE};

verus! {

/// Half a pawn, in fixed point: the value of a doubled or isolated pawn.
pub const HALF_PAWN: i64 = 5000;

/// Legal-move counts are clamped here before scoring, so the mobility term
/// cannot overflow whatever the rules engine reports.
pub const MOBILITY_CAP: i64 = 100_000;

/// Every evaluation of a well-formed preset stays within this bound,
/// strictly inside the search's sentinel scores.
pub const EVAL_BOUND: i64 = 100_000_000_000;

/// The game phase, derived from the piece counts of a position.
#[derive(Clone, Copy, Debug, PartialEq, Eq, Structural)]
pub enum GamePhase {
    Opening,
    MiddleGame,
    EndGame,
}

/// The phase a position is in: opening while the pawn mass and minor and
/// major pieces are intact, endgame once all three have thinned out,
/// middlegame in between.
pub open spec fn spec_game_phase(p: Position) -> GamePhase {
    let minors = popcnt(p.knights | p.bishops);
    let majors = popcnt(p.rooks | p.queens);
    let pawns = popcnt(p.pawns);
    if pawns > 14 && minors == 4 && majors >= 4 {
        GamePhase::Opening
    } else if pawns <= 14 && minors <= 4 && majors <= 4 {
        GamePhase::EndGame
    } else {
        GamePhase::MiddleGame
    }
}

impl GamePhase {
    /// Derives the phase of a position.
    pub fn new(p: &Position) -> (r: GamePhase)
        ensures
            r == spec_game_phase(*p),
    {
        let minors = popcount(p.knights | p.bishops);
        let majors = popcount(p.rooks | p.queens);
        let pawns = popcount(p.pawns);
        if pawns > 14 && minors == 4 && majors >= 4 {
            GamePhase::Opening
        } else if pawns <= 14 && minors <= 4 && majors <= 4 {
            GamePhase::EndGame
        } else {
            GamePhase::MiddleGame
        }
    }
}

/// The material score of one color: pawns count a full pawn each, except
/// doubled and isolated ones which count half; every other piece counts its
/// preset weight.
pub open spec fn spec_material_color(p: Position, w: Seq<i64>, white: bool) -> int {
    let cb = spec_color_bb(p, white);
    let pb = p.pawns & cb;
    let special = popcnt(spec_doubled_pawns(pb, white)) + popcnt(spec_isolated_pawns(pb));
    let total = popcnt(pb);
    let normal: nat = if total >= special {
        (total - special) as nat
    } else {
        0
    };
    normal * SCORE_SCALE + special * HALF_PAWN + w[KNIGHT as int] * popcnt(p.knights & cb) + w[
        BISHOP as int
    ] * popcnt(p.bishops & cb) + w[ROOK as int] * popcnt(p.rooks & cb) + w[QUEEN as int] * popcnt(
        p.queens & cb,
    ) + w[5] * popcnt(p.kings & cb)
}

/// The material term: White's material minus Black's.
pub open spec fn spec_material(p: Position, w: Seq<i64>) -> int {
    spec_material_color(p, w, true) - spec_material_color(p, w, false)
}

/// A preset-bounded weight times a bit count stays within a fixed bound.
pub proof fn lemma_mul_bounds(w: i64, c: int)
    by (nonlinear_arith)
    requires
        -100_000_000 <= w <= 100_000_000,
        -64 <= c <= 64,
    ensures
        -6_400_000_000 <= w * c <= 6_400_000_000,
{
}

/// One color's material stays within this bound.
pub proof fn lemma_material_color_bound(p: Position, w: Seq<i64>, white: bool)
    requires
        piece_weights_ok(w),
    ensures
        -40_000_000_000 <= spec_material_color(p, w, white) <= 40_000_000_000,
{
    let cb = spec_color_bb(p, white);
    let pb = p.pawns & cb;
    lemma_popcnt_le(spec_doubled_pawns(pb, white));
    lemma_popcnt_le(spec_isolated_pawns(pb));
    lemma_popcnt_le(pb);
    lemma_popcnt_le(p.knights & cb);
    lemma_popcnt_le(p.bishops & cb);
    lemma_popcnt_le(p.rooks & cb);
    lemma_popcnt_le(p.queens & cb);
    lemma_popcnt_le(p.kings & cb);
    lemma_mul_bounds(w[KNIGHT as int], popcnt(p.knights & cb) as int);
    lemma_mul_bounds(w[BISHOP as int], popcnt(p.bishops & cb) as int);
    lemma_mul_bounds(w[ROOK as int], popcnt(p.rooks & cb) as int);
    lemma_mul_bounds(w[QUEEN as int], popcnt(p.queens & cb) as int);
    lemma_mul_bounds(w[5], popcnt(p.kings & cb) as int);
}

/// The material score of one color.
fn eval_material_color(p: &Position, w: &Vec<i64>, white: bool) -> (r: i64)
    requires
        piece_weights_ok(w@),
    ensures
        r == spec_material_color(*p, w@, white),
        -40_000_000_000 <= r <= 40_000_000_000,
{
    proof {
        lemma_material_color_bound(*p, w@, white);
    }
    let cb = p.color_bb(white);
    let pb = p.pawns & cb;
    let special = popcount(doubled_pawns(pb, white)) + popcount(isolated_pawns(pb));
    let total = popcount(pb);
    let normal = if total >= special {
        total - special
    } else {
        0
    };
    let mut score: i64 = (normal as i64) * SCORE_SCALE + (special as i64) * HALF_PAWN;
    let kn = popcount(p.knights & cb) as i64;
    let bi = popcount(p.bishops & cb) as i64;
    let ro = popcount(p.rooks & cb) as i64;
    let qu = popcount(p.queens & cb) as i64;
    let ki = popcount(p.kings & cb) as i64;
    proof {
        lemma_mul_bounds(w@[1], kn as int);
        lemma_mul_bounds(w@[2], bi as int);
        lemma_mul_bounds(w@[3], ro as int);
        lemma_mul_bounds(w@[4], qu as int);
        lemma_mul_bounds(w@[5], ki as int);
    }
    score = score + w[1] * kn;
    score = score + w[2] * bi;
    score = score + w[3] * ro;
    score = score + w[4] * qu;
    score = score + w[5] * ki;
    score
}

/// The material term: White's material minus Black's.
pub fn eval_material(p: &Position, w: &Vec<i64>) -> (r: i64)
    requires
        piece_weights_ok(w@),
    ensures
        r == spec_material(*p, w@),
        -80_000_000_000 <= r <= 80_000_000_000,
{
    eval_material_color(p, w, true) - eval_material_color(p, w, false)
}

/// The kind of the piece on a square, if any, probing the kind bitboards in
/// a fixed order.
pub open spec fn spec_piece_kind_at(p: Position, sq: u64) -> Option<u8> {
    if bit(p.pawns, sq) {
        Some(0u8)
    } else if bit(p.knights, sq) {
        Some(1u8)
    } else if bit(p.bishops, sq) {
        Some(2u8)
    } else if bit(p.rooks, sq) {
        Some(3u8)
    } else if bit(p.queens, sq) {
        Some(4u8)
    } else if bit(p.kings, sq) {
        Some(5u8)
    } else {
        None
    }
}

/// The kind of the piece on a square, if any.
pub fn piece_kind_at(p: &Position, sq: u64) -> (r: Option<u8>)
    requires
        sq < 64,
    ensures
        r == spec_piece_kind_at(*p, sq),
        r matches Some(k) ==> k < 6,
{
    if (p.pawns >> sq) & 1 == 1 {
        Some(0)
    } else if (p.knights >> sq) & 1 == 1 {
        Some(1)
    } else if (p.bishops >> sq) & 1 == 1 {
        Some(2)
    } else if (p.rooks >> sq) & 1 == 1 {
        Some(3)
    } else if (p.queens >> sq) & 1 == 1 {
        Some(4)
    } else if (p.kings >> sq) & 1 == 1 {
        Some(5)
    } else {
        None
    }
}

/// Signed truncating division by the square-table scale of 24.
pub open spec fn spec_div24(x: i64) -> int {
    if x >= 0 {
        x / 24
    } else {
        -((-x as int) / 24)
    }
}

/// Signed truncating division by 24.
fn div24(x: i64) -> (r: i64)
    requires
        -PRESET_VALUE_MAX <= x <= PRESET_VALUE_MAX,
    ensures
        r == spec_div24(x),
        -PRESET_VALUE_MAX <= r <= PRESET_VALUE_MAX,
{
    if x >= 0 {
        (((x as u64) / 24) as i64)
    } else {
        let m = ((-x) as u64) / 24;
        -(m as i64)
    }
}

/// The positional contribution of one square: the phase table's value for
/// the piece on it, scaled down by 24, from White's side for White's pieces
/// and from the flipped square, negated, for Black's.
pub open spec fn spec_psq_value(t: PieceSquareTables, p: Position, sq: u64) -> int {
    match spec_piece_kind_at(p, sq) {
        None => 0,
        Some(k) => {
            if bit(p.white, sq) {
                spec_div24(spec_square_table(t, k)[sq as int])
            } else if bit(p.black, sq) {
                -spec_div24(spec_square_table(t, k)[63 - sq as int])
            } else {
                0
            }
        },
    }
}

/// The positional contributions of squares `0..n`.
pub open spec fn spec_psq_sum(t: PieceSquareTables, p: Position, n: nat) -> int
    decreases n,
{
    if n == 0 {
        0
    } else {
        spec_psq_sum(t, p, (n - 1) as nat) + spec_psq_value(t, p, (n - 1) as u64)
    }
}

/// The positional term of a position under one phase's tables.
pub open spec fn spec_positional(t: PieceSquareTables, p: Position) -> int {
    spec_psq_sum(t, p, 64)
}

/// One square's value stays within the table bound.
proof fn lemma_psq_value_bound(t: PieceSquareTables, p: Position, sq: u64)
    requires
        t.wf(),
        sq < 64,
    ensures
        -PRESET_VALUE_MAX <= spec_psq_value(t, p, sq) <= PRESET_VALUE_MAX,
{
}

/// A partial positional sum grows at most one table bound per square.
proof fn lemma_psq_sum_bound(t: PieceSquareTables, p: Position, n: nat)
    requires
        t.wf(),
        n <= 64,
    ensures
        -(n as int) * PRESET_VALUE_MAX <= spec_psq_sum(t, p, n) <= (n as int) * PRESET_VALUE_MAX,
    decreases n,
{
    if n > 0 {
        lemma_psq_sum_bound(t, p, (n - 1) as nat);
        lemma_psq_value_bound(t, p, (n - 1) as u64);
    }
}

/// The positional term of a position under the given phase's tables.
pub fn evaluate_piece_square_location(phases: &PieceSquarePhases, p: &Position, phase: GamePhase) -> (r: i64)
    requires
        phases.wf(),
    ensures
        r == spec_positional(spec_phase_tables(*phases, phase), *p),
        -6_400_000_000 <= r <= 6_400_000_000,
{
    let ghost t: PieceSquareTables = spec_phase_tables(*phases, phase);
    let mut acc: i64 = 0;
    let mut sq: u64 = 0;
    while sq < 64
        invariant
            phases.wf(),
            t == spec_phase_tables(*phases, phase),
            t.wf(),
            sq <= 64,
            acc == spec_psq_sum(t, *p, sq as nat),
            -(sq as int) * PRESET_VALUE_MAX <= acc <= (sq as int) * PRESET_VALUE_MAX,
        decreases 64 - sq,
    {
        proof {
            lemma_psq_value_bound(t, *p, sq);
        }
        let delta: i64 = match piece_kind_at(p, sq) {
            None => 0,
            Some(k) => {
                let table = phases.get_square_table(phase, k);
                if (p.white >> sq) & 1 == 1 {
                    div24(table[sq as usize])
                } else if (p.black >> sq) & 1 == 1 {
                    -div24(table[(63 - sq) as usize])
                } else {
                    0
                }
            },
        };
        acc = acc + delta;
        sq = sq + 1;
    }
    proof {
        lemma_psq_sum_bound(t, *p, 64);
    }
    acc
}

/// A legal-move count, clamped to `MOBILITY_CAP`.
pub open spec fn spec_cap_count(n: nat) -> int {
    if n > MOBILITY_CAP {
        MOBILITY_CAP as int
    } else {
        n as int
    }
}

/// Clamps a legal-move count.
fn cap_count(n: usize) -> (r: i64)
    ensures
        r == spec_cap_count(n as nat),
        0 <= r <= MOBILITY_CAP,
{
    if n > 100_000 {
        100_000
    } else {
        n as i64
    }
}

/// The mobility term: the side to move's clamped legal-move count, signed
/// by its color, plus the opponent's after a passed turn with the opposite
/// sign — or the first count alone when the turn cannot be passed (the side
/// to move is in check).
pub open spec fn spec_mobility(p: Position) -> int {
    let m1 = spec_cap_count(moves_of(p.board).len());
    let s1: int = if p.white_to_move {
        m1
    } else {
        -m1
    };
    match null_of(p.board) {
        None => s1 * SCORE_SCALE,
        Some(b2) => {
            let m2 = spec_cap_count(moves_of(b2).len());
            let s2: int = if p.white_to_move {
                -m2
            } else {
                m2
            };
            (s1 + s2) * SCORE_SCALE
        },
    }
}

/// The check term: the bonus per White checking piece minus the bonus per
/// Black checking piece.
pub open spec fn spec_check_term(p: Position, bonus: i64) -> int {
    (popcnt(p.checkers & p.white) - popcnt(p.checkers & p.black)) * bonus
}

/// The full evaluation: material, position, mobility and check terms.
pub open spec fn spec_eval(presets: EvaluationPresets, p: Position) -> int {
    spec_material(p, presets.piece_weights@) + spec_positional(
        spec_phase_tables(presets.piece_square_phases, spec_game_phase(p)),
        p,
    ) + spec_mobility(p) + spec_check_term(p, presets.check_bonus)
}

/// An evaluation stays strictly inside the sentinel scores.
pub proof fn lemma_eval_bound(presets: EvaluationPresets, p: Position)
    requires
        presets.wf(),
    ensures
        -EVAL_BOUND <= spec_eval(presets, p) <= EVAL_BOUND,
        SCORE_MIN < spec_eval(presets, p) < SCORE_MAX,
{
    lemma_material_color_bound(p, presets.piece_weights@, true);
    lemma_material_color_bound(p, presets.piece_weights@, false);
    lemma_psq_sum_bound(
        spec_phase_tables(presets.piece_square_phases, spec_game_phase(p)),
        p,
        64,
    );
    lemma_popcnt_le(p.checkers & p.white);
    lemma_popcnt_le(p.checkers & p.black);
    lemma_mul_bounds(
        presets.check_bonus,
        popcnt(p.checkers & p.white) - popcnt(p.checkers & p.black),
    );
    assert(spec_check_term(p, presets.check_bonus) == (popcnt(p.checkers & p.white) - popcnt(
        p.checkers & p.black,
    )) * presets.check_bonus) by {
        vstd::arithmetic::mul::lemma_mul_is_commutative(
            popcnt(p.checkers & p.white) - popcnt(p.checkers & p.black),
            presets.check_bonus as int,
        );
    }
}

/// Evaluates a position: positive favors White, in fixed point.
pub fn eval(presets: &EvaluationPresets, p: &Position) -> (r: i64)
    requires
        presets.wf(),
    ensures
        r == spec_eval(*presets, *p),
        -EVAL_BOUND <= r <= EVAL_BOUND,
{
    proof {
        lemma_eval_bound(*presets, *p);
    }
    let material = eval_material(p, &presets.piece_weights);
    let phase = GamePhase::new(p);
    let positional = evaluate_piece_square_location(&presets.piece_square_phases, p, phase);
    let mobility = {
        let own = legal_moves(&p.board);
        let m1 = cap_count(own.len());
        let s1: i64 = if p.white_to_move {
            m1
        } else {
            -m1
        };
        match p.pass_turn() {
            None => s1 * SCORE_SCALE,
            Some(q) => {
                let theirs = legal_moves(&q.board);
                let m2 = cap_count(theirs.len());
                let s2: i64 = if p.white_to_move {
                    -m2
                } else {
                    m2
                };
                (s1 + s2) * SCORE_SCALE
            },
        }
    };
    let checks = {
        let white_checkers = popcount(p.checkers & p.white) as i64;
        let black_checkers = popcount(p.checkers & p.black) as i64;
        proof {
            lemma_popcnt_le(p.checkers & p.white);
            lemma_popcnt_le(p.checkers & p.black);
        }
        (white_checkers - black_checkers) * presets.check_bonus
    };
    material + positional + mobility + checks
}

} // verus!
