//! The evaluation symmetry law.
//!
//! Mirroring a position — rotating the board a half turn and swapping the
//! colors — negates the static evaluation: the material, positional and
//! check terms all flip sign, for any preset.  The mobility term counts
//! legal moves reported by the rules engine and is not a function of the
//! bitboards alone, so the law covers the full evaluation whenever that
//! term mirrors too, which symmetric move generation gives it.

use vstd::prelude::*;

use crate::bitboards::{
    bit, popcnt, popcnt_upto, spec_doubled_pawns, spec_east_one, spec_file_fill,
    spec_isolated_pawns, spec_north_fill, spec_north_one, spec_south_fill, spec_south_one,
    spec_west_one,
};
use crate::evaluation::{
    spec_check_term, spec_eval, spec_game_phase, spec_material, spec_material_color, spec_mobility,
    spec_piece_kind_at, spec_positional, spec_psq_sum, spec_psq_value,
};
use crate::presets::{spec_phase_tables, EvaluationPresets, PieceSquareTables};
use crate::rules::Position;

verus! {

/// `b` is `a` rotated a half turn: bit `i` of `b` is bit `63 - i` of `a`.
pub open spec fn mirror_bb(a: u64, b: u64) -> bool {
    forall|i: u64| i < 64 ==> (#[trigger] bit(b, i)) == bit(a, (63 - i) as u64)
}

/// `q` is the color-mirrored counterpart of `p`: every piece moves to the
/// rotated square with its color swapped, the turn passes to the other
/// side, the checking pieces rotate along, and neither position stacks
/// the two colors on one square.
pub open spec fn mirrored(p: Position, q: Position) -> bool {
    &&& mirror_bb(p.pawns, q.pawns)
    &&& mirror_bb(p.knights, q.knights)
    &&& mirror_bb(p.bishops, q.bishops)
    &&& mirror_bb(p.rooks, q.rooks)
    &&& mirror_bb(p.queens, q.queens)
    &&& mirror_bb(p.kings, q.kings)
    &&& mirror_bb(p.white, q.black)
    &&& mirror_bb(p.black, q.white)
    &&& mirror_bb(p.checkers, q.checkers)
    &&& q.white_to_move == !p.white_to_move
    &&& p.white & p.black == 0
    &&& q.white & q.black == 0
}

/// The evaluation without its mobility term: material, position and
/// check, all functions of the bitboards alone.
pub open spec fn spec_eval_static(ps: EvaluationPresets, p: Position) -> int {
    spec_material(p, ps.piece_weights@) + spec_positional(
        spec_phase_tables(ps.piece_square_phases, spec_game_phase(p)),
        p,
    ) + spec_check_term(p, ps.check_bonus)
}

/// The full evaluation is the static part plus the mobility term.
pub proof fn lemma_eval_split(ps: EvaluationPresets, p: Position)
    ensures
        spec_eval(ps, p) == spec_eval_static(ps, p) + spec_mobility(p),
{
}

proof fn lemma_bit_and(a: u64, b: u64, i: u64)
    by (bit_vector)
    requires
        i < 64,
    ensures
        bit(a & b, i) == (bit(a, i) && bit(b, i)),
{
}

proof fn lemma_bit_or(a: u64, b: u64, i: u64)
    by (bit_vector)
    requires
        i < 64,
    ensures
        bit(a | b, i) == (bit(a, i) || bit(b, i)),
{
}

proof fn lemma_bit_not(a: u64, i: u64)
    by (bit_vector)
    requires
        i < 64,
    ensures
        bit(!a, i) == !bit(a, i),
{
}

proof fn lemma_bit_zero(i: u64)
    by (bit_vector)
    requires
        i < 64,
    ensures
        !bit(0u64, i),
{
}

proof fn lemma_or_comm(a: u64, b: u64)
    by (bit_vector)
    ensures
        a | b == b | a,
{
}

proof fn lemma_and_comm(a: u64, b: u64)
    by (bit_vector)
    ensures
        a & b == b & a,
{
}

proof fn lemma_bit_north_one(x: u64, i: u64)
    by (bit_vector)
    requires
        i < 64,
    ensures
        bit(spec_north_one(x), i) == (i >= 8 && bit(x, (i - 8) as u64)),
{
}

proof fn lemma_bit_south_one(x: u64, i: u64)
    by (bit_vector)
    requires
        i < 64,
    ensures
        bit(spec_south_one(x), i) == (i <= 55 && bit(x, (i + 8) as u64)),
{
}

proof fn lemma_bit_east_one(x: u64, i: u64)
    by (bit_vector)
    requires
        i < 64,
    ensures
        bit(spec_east_one(x), i) == (i % 8 != 0 && bit(x, (i - 1) as u64)),
{
}

proof fn lemma_bit_west_one(x: u64, i: u64)
    by (bit_vector)
    requires
        i < 64,
    ensures
        bit(spec_west_one(x), i) == (i % 8 != 7 && bit(x, (i + 1) as u64)),
{
}

proof fn lemma_bit_north_fill(x: u64, i: u64)
    by (bit_vector)
    requires
        i < 64,
    ensures
        bit(spec_north_fill(x), i) == (bit(x, i) || (i >= 8 && bit(x, (i - 8) as u64)) || (i >= 16
            && bit(x, (i - 16) as u64)) || (i >= 24 && bit(x, (i - 24) as u64)) || (i >= 32 && bit(
            x,
            (i - 32) as u64,
        )) || (i >= 40 && bit(x, (i - 40) as u64)) || (i >= 48 && bit(x, (i - 48) as u64)) || (i
            >= 56 && bit(x, (i - 56) as u64))),
{
}

proof fn lemma_bit_south_fill(x: u64, i: u64)
    by (bit_vector)
    requires
        i < 64,
    ensures
        bit(spec_south_fill(x), i) == (bit(x, i) || (i <= 55 && bit(x, (i + 8) as u64)) || (i <= 47
            && bit(x, (i + 16) as u64)) || (i <= 39 && bit(x, (i + 24) as u64)) || (i <= 31 && bit(
            x,
            (i + 32) as u64,
        )) || (i <= 23 && bit(x, (i + 40) as u64)) || (i <= 15 && bit(x, (i + 48) as u64)) || (i
            <= 7 && bit(x, (i + 56) as u64))),
{
}

/// Mirroring commutes with intersecting mirrored partners.
proof fn lemma_mirror_and(a1: u64, b1: u64, a2: u64, b2: u64)
    requires
        mirror_bb(a1, b1),
        mirror_bb(a2, b2),
    ensures
        mirror_bb(a1 & a2, b1 & b2),
{
    assert forall|i: u64| i < 64 implies (#[trigger] bit(b1 & b2, i)) == bit(
        a1 & a2,
        (63 - i) as u64,
    ) by {
        lemma_bit_and(b1, b2, i);
        lemma_bit_and(a1, a2, (63 - i) as u64);
        assert(bit(b1, i) == bit(a1, (63 - i) as u64));
        assert(bit(b2, i) == bit(a2, (63 - i) as u64));
    }
}

/// Mirroring commutes with joining mirrored partners.
proof fn lemma_mirror_or(a1: u64, b1: u64, a2: u64, b2: u64)
    requires
        mirror_bb(a1, b1),
        mirror_bb(a2, b2),
    ensures
        mirror_bb(a1 | a2, b1 | b2),
{
    assert forall|i: u64| i < 64 implies (#[trigger] bit(b1 | b2, i)) == bit(
        a1 | a2,
        (63 - i) as u64,
    ) by {
        lemma_bit_or(b1, b2, i);
        lemma_bit_or(a1, a2, (63 - i) as u64);
        assert(bit(b1, i) == bit(a1, (63 - i) as u64));
        assert(bit(b2, i) == bit(a2, (63 - i) as u64));
    }
}

/// Mirroring commutes with complementing.
proof fn lemma_mirror_not(a: u64, b: u64)
    requires
        mirror_bb(a, b),
    ensures
        mirror_bb(!a, !b),
{
    assert forall|i: u64| i < 64 implies (#[trigger] bit(!b, i)) == bit(!a, (63 - i) as u64) by {
        lemma_bit_not(b, i);
        lemma_bit_not(a, (63 - i) as u64);
        assert(bit(b, i) == bit(a, (63 - i) as u64));
    }
}

/// Under mirroring, the north fill of one board is the south fill of the
/// other.
proof fn lemma_mirror_fill(x: u64, y: u64)
    requires
        mirror_bb(x, y),
    ensures
        mirror_bb(spec_south_fill(x), spec_north_fill(y)),
        mirror_bb(spec_north_fill(x), spec_south_fill(y)),
{
    assert forall|i: u64| i < 64 implies (#[trigger] bit(spec_north_fill(y), i)) == bit(
        spec_south_fill(x),
        (63 - i) as u64,
    ) by {
        lemma_bit_north_fill(y, i);
        lemma_bit_south_fill(x, (63 - i) as u64);
        assert(bit(y, i) == bit(x, (63 - i) as u64));
        if i >= 8 {
            assert(bit(y, (i - 8) as u64) == bit(x, (71 - i) as u64));
        }
        if i >= 16 {
            assert(bit(y, (i - 16) as u64) == bit(x, (79 - i) as u64));
        }
        if i >= 24 {
            assert(bit(y, (i - 24) as u64) == bit(x, (87 - i) as u64));
        }
        if i >= 32 {
            assert(bit(y, (i - 32) as u64) == bit(x, (95 - i) as u64));
        }
        if i >= 40 {
            assert(bit(y, (i - 40) as u64) == bit(x, (103 - i) as u64));
        }
        if i >= 48 {
            assert(bit(y, (i - 48) as u64) == bit(x, (111 - i) as u64));
        }
        if i >= 56 {
            assert(bit(y, (i - 56) as u64) == bit(x, (119 - i) as u64));
        }
    }
    assert forall|i: u64| i < 64 implies (#[trigger] bit(spec_south_fill(y), i)) == bit(
        spec_north_fill(x),
        (63 - i) as u64,
    ) by {
        lemma_bit_south_fill(y, i);
        lemma_bit_north_fill(x, (63 - i) as u64);
        assert(bit(y, i) == bit(x, (63 - i) as u64));
        if i <= 55 {
            assert(bit(y, (i + 8) as u64) == bit(x, (55 - i) as u64));
        }
        if i <= 47 {
            assert(bit(y, (i + 16) as u64) == bit(x, (47 - i) as u64));
        }
        if i <= 39 {
            assert(bit(y, (i + 24) as u64) == bit(x, (39 - i) as u64));
        }
        if i <= 31 {
            assert(bit(y, (i + 32) as u64) == bit(x, (31 - i) as u64));
        }
        if i <= 23 {
            assert(bit(y, (i + 40) as u64) == bit(x, (23 - i) as u64));
        }
        if i <= 15 {
            assert(bit(y, (i + 48) as u64) == bit(x, (15 - i) as u64));
        }
        if i <= 7 {
            assert(bit(y, (i + 56) as u64) == bit(x, (7 - i) as u64));
        }
    }
}

/// Under mirroring, one step north on one board is one step south on the
/// other.
proof fn lemma_mirror_step(x: u64, y: u64)
    requires
        mirror_bb(x, y),
    ensures
        mirror_bb(spec_south_one(x), spec_north_one(y)),
        mirror_bb(spec_north_one(x), spec_south_one(y)),
{
    assert forall|i: u64| i < 64 implies (#[trigger] bit(spec_north_one(y), i)) == bit(
        spec_south_one(x),
        (63 - i) as u64,
    ) by {
        lemma_bit_north_one(y, i);
        lemma_bit_south_one(x, (63 - i) as u64);
        if i >= 8 {
            assert(bit(y, (i - 8) as u64) == bit(x, (71 - i) as u64));
        }
    }
    assert forall|i: u64| i < 64 implies (#[trigger] bit(spec_south_one(y), i)) == bit(
        spec_north_one(x),
        (63 - i) as u64,
    ) by {
        lemma_bit_south_one(y, i);
        lemma_bit_north_one(x, (63 - i) as u64);
        if i <= 55 {
            assert(bit(y, (i + 8) as u64) == bit(x, (55 - i) as u64));
        }
    }
}

/// Under mirroring, one step east on one board is one step west on the
/// other.
proof fn lemma_mirror_side_step(x: u64, y: u64)
    requires
        mirror_bb(x, y),
    ensures
        mirror_bb(spec_west_one(x), spec_east_one(y)),
        mirror_bb(spec_east_one(x), spec_west_one(y)),
{
    assert forall|i: u64| i < 64 implies (#[trigger] bit(spec_east_one(y), i)) == bit(
        spec_west_one(x),
        (63 - i) as u64,
    ) by {
        lemma_bit_east_one(y, i);
        lemma_bit_west_one(x, (63 - i) as u64);
        if i % 8 != 0 {
            assert(bit(y, (i - 1) as u64) == bit(x, (64 - i) as u64));
            assert(((63 - i) as u64) % 8 != 7);
        } else {
            assert(((63 - i) as u64) % 8 == 7);
        }
    }
    assert forall|i: u64| i < 64 implies (#[trigger] bit(spec_west_one(y), i)) == bit(
        spec_east_one(x),
        (63 - i) as u64,
    ) by {
        lemma_bit_west_one(y, i);
        lemma_bit_east_one(x, (63 - i) as u64);
        if i % 8 != 7 {
            assert(bit(y, (i + 1) as u64) == bit(x, (62 - i) as u64));
            assert(((63 - i) as u64) % 8 != 0);
        } else {
            assert(((63 - i) as u64) % 8 == 0);
        }
    }
}

/// Under mirroring, doubled pawns of one color map to doubled pawns of
/// the other.
proof fn lemma_mirror_doubled(x: u64, y: u64)
    requires
        mirror_bb(x, y),
    ensures
        mirror_bb(spec_doubled_pawns(x, false), spec_doubled_pawns(y, true)),
        mirror_bb(spec_doubled_pawns(x, true), spec_doubled_pawns(y, false)),
{
    lemma_mirror_fill(x, y);
    lemma_mirror_step(spec_south_fill(x), spec_north_fill(y));
    lemma_mirror_and(x, y, spec_south_one(spec_south_fill(x)), spec_north_one(spec_north_fill(y)));
    lemma_mirror_step(spec_north_fill(x), spec_south_fill(y));
    lemma_mirror_and(x, y, spec_north_one(spec_north_fill(x)), spec_south_one(spec_south_fill(y)));
}

/// Under mirroring, isolated pawns map to isolated pawns.
proof fn lemma_mirror_isolated(x: u64, y: u64)
    requires
        mirror_bb(x, y),
    ensures
        mirror_bb(spec_isolated_pawns(x), spec_isolated_pawns(y)),
{
    lemma_mirror_fill(x, y);
    lemma_mirror_or(
        spec_north_fill(x),
        spec_south_fill(y),
        spec_south_fill(x),
        spec_north_fill(y),
    );
    lemma_or_comm(spec_south_fill(y), spec_north_fill(y));
    assert(spec_file_fill(y) == spec_south_fill(y) | spec_north_fill(y));
    assert(mirror_bb(spec_file_fill(x), spec_file_fill(y)));
    lemma_mirror_side_step(spec_file_fill(x), spec_file_fill(y));
    lemma_mirror_not(spec_east_one(spec_file_fill(x)), spec_west_one(spec_file_fill(y)));
    lemma_mirror_not(spec_west_one(spec_file_fill(x)), spec_east_one(spec_file_fill(y)));
    let no_w_x = x & !spec_east_one(spec_file_fill(x));
    let no_e_y = y & !spec_west_one(spec_file_fill(y));
    let no_e_x = x & !spec_west_one(spec_file_fill(x));
    let no_w_y = y & !spec_east_one(spec_file_fill(y));
    lemma_mirror_and(x, y, !spec_east_one(spec_file_fill(x)), !spec_west_one(spec_file_fill(y)));
    lemma_mirror_and(x, y, !spec_west_one(spec_file_fill(x)), !spec_east_one(spec_file_fill(y)));
    lemma_mirror_and(no_w_x, no_e_y, no_e_x, no_w_y);
    lemma_and_comm(no_e_y, no_w_y);
    lemma_and_comm(no_e_x, no_w_x);
    assert(spec_isolated_pawns(y) == no_e_y & no_w_y);
    assert(spec_isolated_pawns(x) == no_w_x & no_e_x);
}

/// The count of set bits from position `l` up.
spec fn popcnt_from(x: u64, l: nat) -> nat
    decreases 64 - l,
{
    if l >= 64 {
        0
    } else {
        (if bit(x, l as u64) {
            1nat
        } else {
            0nat
        }) + popcnt_from(x, l + 1)
    }
}

proof fn lemma_popcnt_split(x: u64, l: nat)
    requires
        l <= 64,
    ensures
        popcnt_upto(x, l) + popcnt_from(x, l) == popcnt(x),
    decreases 64 - l,
{
    if l == 64 {
    } else {
        lemma_popcnt_split(x, l + 1);
    }
}

proof fn lemma_mirror_popcnt_partial(a: u64, b: u64, n: nat)
    requires
        mirror_bb(a, b),
        n <= 64,
    ensures
        popcnt_upto(b, n) == popcnt_from(a, (64 - n) as nat),
    decreases n,
{
    if n == 0 {
    } else {
        lemma_mirror_popcnt_partial(a, b, (n - 1) as nat);
        assert(bit(b, (n - 1) as u64) == bit(a, (64 - n) as u64));
    }
}

/// Mirrored bitboards hold the same number of pieces.
pub proof fn lemma_mirror_popcnt(a: u64, b: u64)
    requires
        mirror_bb(a, b),
    ensures
        popcnt(a) == popcnt(b),
{
    lemma_mirror_popcnt_partial(a, b, 64);
    lemma_popcnt_split(a, 0);
}

/// Mirroring swaps the two colors' material scores.
proof fn lemma_mirror_material_color(p: Position, q: Position, w: Seq<i64>, white: bool)
    requires
        mirrored(p, q),
    ensures
        spec_material_color(q, w, white) == spec_material_color(p, w, !white),
{
    let cb_q = if white {
        q.white
    } else {
        q.black
    };
    let cb_p = if white {
        p.black
    } else {
        p.white
    };
    assert(mirror_bb(cb_p, cb_q));
    lemma_mirror_and(p.pawns, q.pawns, cb_p, cb_q);
    let ppb = p.pawns & cb_p;
    let qpb = q.pawns & cb_q;
    lemma_mirror_doubled(ppb, qpb);
    if white {
        lemma_mirror_popcnt(spec_doubled_pawns(ppb, false), spec_doubled_pawns(qpb, true));
    } else {
        lemma_mirror_popcnt(spec_doubled_pawns(ppb, true), spec_doubled_pawns(qpb, false));
    }
    lemma_mirror_isolated(ppb, qpb);
    lemma_mirror_popcnt(spec_isolated_pawns(ppb), spec_isolated_pawns(qpb));
    lemma_mirror_popcnt(ppb, qpb);
    lemma_mirror_and(p.knights, q.knights, cb_p, cb_q);
    lemma_mirror_popcnt(p.knights & cb_p, q.knights & cb_q);
    lemma_mirror_and(p.bishops, q.bishops, cb_p, cb_q);
    lemma_mirror_popcnt(p.bishops & cb_p, q.bishops & cb_q);
    lemma_mirror_and(p.rooks, q.rooks, cb_p, cb_q);
    lemma_mirror_popcnt(p.rooks & cb_p, q.rooks & cb_q);
    lemma_mirror_and(p.queens, q.queens, cb_p, cb_q);
    lemma_mirror_popcnt(p.queens & cb_p, q.queens & cb_q);
    lemma_mirror_and(p.kings, q.kings, cb_p, cb_q);
    lemma_mirror_popcnt(p.kings & cb_p, q.kings & cb_q);
}

/// Mirroring negates the material term.
pub proof fn lemma_mirror_material(p: Position, q: Position, w: Seq<i64>)
    requires
        mirrored(p, q),
    ensures
        spec_material(q, w) == -spec_material(p, w),
{
    lemma_mirror_material_color(p, q, w, true);
    lemma_mirror_material_color(p, q, w, false);
}

/// Mirroring keeps the game phase.
pub proof fn lemma_mirror_phase(p: Position, q: Position)
    requires
        mirrored(p, q),
    ensures
        spec_game_phase(q) == spec_game_phase(p),
{
    lemma_mirror_or(p.knights, q.knights, p.bishops, q.bishops);
    lemma_mirror_popcnt(p.knights | p.bishops, q.knights | q.bishops);
    lemma_mirror_or(p.rooks, q.rooks, p.queens, q.queens);
    lemma_mirror_popcnt(p.rooks | p.queens, q.rooks | q.queens);
    lemma_mirror_popcnt(p.pawns, q.pawns);
}

/// Mirroring negates the check term.
pub proof fn lemma_mirror_check(p: Position, q: Position, bonus: i64)
    requires
        mirrored(p, q),
    ensures
        spec_check_term(q, bonus) == -spec_check_term(p, bonus),
{
    lemma_mirror_and(p.checkers, q.checkers, p.black, q.white);
    lemma_mirror_popcnt(p.checkers & p.black, q.checkers & q.white);
    lemma_mirror_and(p.checkers, q.checkers, p.white, q.black);
    lemma_mirror_popcnt(p.checkers & p.white, q.checkers & q.black);
    let cw: int = popcnt(q.checkers & q.white) as int;
    let cb: int = popcnt(q.checkers & q.black) as int;
    assert((cw - cb) * bonus == -((cb - cw) * bonus)) by (nonlinear_arith);
}

/// Mirroring maps the piece on a square to the rotated square.
proof fn lemma_mirror_kind_at(p: Position, q: Position, i: u64)
    requires
        mirrored(p, q),
        i < 64,
    ensures
        spec_piece_kind_at(q, i) == spec_piece_kind_at(p, (63 - i) as u64),
{
    assert(bit(q.pawns, i) == bit(p.pawns, (63 - i) as u64));
    assert(bit(q.knights, i) == bit(p.knights, (63 - i) as u64));
    assert(bit(q.bishops, i) == bit(p.bishops, (63 - i) as u64));
    assert(bit(q.rooks, i) == bit(p.rooks, (63 - i) as u64));
    assert(bit(q.queens, i) == bit(p.queens, (63 - i) as u64));
    assert(bit(q.kings, i) == bit(p.kings, (63 - i) as u64));
}

/// Mirroring negates one square's positional value, against the rotated
/// square of the other board.
proof fn lemma_mirror_psq_value(t: PieceSquareTables, p: Position, q: Position, i: u64)
    requires
        mirrored(p, q),
        i < 64,
    ensures
        spec_psq_value(t, q, i) == -spec_psq_value(t, p, (63 - i) as u64),
{
    lemma_mirror_kind_at(p, q, i);
    assert(bit(q.white, i) == bit(p.black, (63 - i) as u64));
    assert(bit(q.black, i) == bit(p.white, (63 - i) as u64));
    lemma_bit_and(p.white, p.black, (63 - i) as u64);
    lemma_bit_zero((63 - i) as u64);
    lemma_bit_and(q.white, q.black, i);
    lemma_bit_zero(i);
    assert(!(bit(p.white, (63 - i) as u64) && bit(p.black, (63 - i) as u64)));
    assert(!(bit(q.white, i) && bit(q.black, i)));
}

/// The positional values of squares `l` and up.
spec fn psq_from(t: PieceSquareTables, p: Position, l: nat) -> int
    decreases 64 - l,
{
    if l >= 64 {
        0
    } else {
        spec_psq_value(t, p, l as u64) + psq_from(t, p, l + 1)
    }
}

proof fn lemma_psq_split(t: PieceSquareTables, p: Position, l: nat)
    requires
        l <= 64,
    ensures
        spec_psq_sum(t, p, l) + psq_from(t, p, l) == spec_psq_sum(t, p, 64),
    decreases 64 - l,
{
    if l == 64 {
    } else {
        lemma_psq_split(t, p, l + 1);
    }
}

proof fn lemma_mirror_psq_partial(t: PieceSquareTables, p: Position, q: Position, n: nat)
    requires
        mirrored(p, q),
        n <= 64,
    ensures
        spec_psq_sum(t, q, n) == -psq_from(t, p, (64 - n) as nat),
    decreases n,
{
    if n == 0 {
    } else {
        lemma_mirror_psq_partial(t, p, q, (n - 1) as nat);
        lemma_mirror_psq_value(t, p, q, (n - 1) as u64);
    }
}

/// Mirroring negates the positional term.
pub proof fn lemma_mirror_positional(t: PieceSquareTables, p: Position, q: Position)
    requires
        mirrored(p, q),
    ensures
        spec_positional(t, q) == -spec_positional(t, p),
{
    lemma_mirror_psq_partial(t, p, q, 64);
    lemma_psq_split(t, p, 0);
}

/// Evaluation symmetry, static part: for any preset, mirroring a position
/// negates the material, positional and check terms together.
pub proof fn lemma_eval_symmetry_static(ps: EvaluationPresets, p: Position, q: Position)
    requires
        mirrored(p, q),
    ensures
        spec_eval_static(ps, q) == -spec_eval_static(ps, p),
{
    lemma_mirror_material(p, q, ps.piece_weights@);
    lemma_mirror_phase(p, q);
    lemma_mirror_positional(spec_phase_tables(ps.piece_square_phases, spec_game_phase(p)), p, q);
    lemma_mirror_check(p, q, ps.check_bonus);
}

/// Evaluation symmetry: whenever the rules engine reports mirrored
/// mobility too (symmetric move generation does), mirroring a position
/// negates the whole evaluation.
pub proof fn lemma_eval_symmetry(ps: EvaluationPresets, p: Position, q: Position)
    requires
        mirrored(p, q),
        spec_mobility(q) == -spec_mobility(p),
    ensures
        spec_eval(ps, q) == -spec_eval(ps, p),
{
    lemma_eval_symmetry_static(ps, p, q);
    lemma_eval_split(ps, p);
    lemma_eval_split(ps, q);
}

} // verus!
