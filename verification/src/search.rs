//! The recursive searches: quiescence, negamax with alpha-beta pruning and
//! the transposition table, and the one-ply "blunder" search of the
//! anti-optimal strategy.
//!
//! Quiescence and the blunder search carry exact functional contracts:
//! their results equal closed-form spec recursions over what the rules
//! engine reports.  Negamax is pinned exactly at depth zero (where it is a
//! table probe followed by quiescence) and bounded elsewhere; it never
//! shrinks the table and never deepens an entry backwards.

use vstd::prelude::*;

use crate::evaluation::{eval, eval_material, spec_eval, spec_material};
use crate::presets::EvaluationPresets;
use crate::rules::{
    dest_of, legal_moves, make_move_of, move_dest, moves_of, pos_of, Position,
};
use crate::transposition_table::{
    move_key, spec_add, spec_move_key, spec_ordered_moves, MoveKey, SearchFlag, SearchResult,
    TranspositionTable,
};
use crate::zobrist::{hash_board, spec_hash, ZobristKeys};
use crate::{SCORE_MAX, SCORE_MIN};

verus! {

/// How many plies of capture chains quiescence resolves before standing
/// pat; no legal chain of captures is longer than the thirty pieces that
/// can be taken.
pub const QUIESCE_FUEL: u32 = 32;

/// Whether a position has no legal move and its mover is in check.
pub open spec fn spec_is_checkmate(p: Position) -> bool {
    moves_of(p.board).len() == 0 && p.checkers != 0
}

/// Whether a position has no legal move and its mover is not in check.
pub open spec fn spec_is_stalemate(p: Position) -> bool {
    moves_of(p.board).len() == 0 && p.checkers == 0
}

/// Whether a move lands on an occupied square.
pub open spec fn spec_is_capture(p: Position, mv: chess::ChessMove) -> bool {
    ((p.white | p.black) >> dest_of(mv)) & 1 == 1
}

/// The side-to-move sign: scores are White-positive, negamax wants
/// mover-positive.
pub open spec fn spec_sign(p: Position) -> int {
    if p.white_to_move {
        1
    } else {
        -1
    }
}

/// The quiescence score of a position: checkmate and stalemate are final;
/// otherwise the static evaluation stands unless a capture sequence,
/// searched through the same alpha-beta window, beats it.
pub open spec fn spec_quiesce(
    ps: EvaluationPresets,
    p: Position,
    alpha: int,
    beta: int,
    fuel: nat,
) -> int
    decreases fuel, 1int, 0int,
{
    if spec_is_checkmate(p) {
        SCORE_MIN as int
    } else if spec_is_stalemate(p) {
        0
    } else {
        let stand_pat = spec_sign(p) * spec_eval(ps, p);
        if stand_pat >= beta {
            beta as int
        } else {
            let a2 = if alpha < stand_pat {
                stand_pat
            } else {
                alpha
            };
            if fuel == 0 {
                a2
            } else {
                spec_quiesce_captures(ps, p, moves_of(p.board), 0, a2, beta, fuel)
            }
        }
    }
}

/// Folds quiescence over the capturing moves from index `i` on, raising
/// `alpha` and cutting at `beta`.
pub open spec fn spec_quiesce_captures(
    ps: EvaluationPresets,
    p: Position,
    moves: Seq<chess::ChessMove>,
    i: nat,
    alpha: int,
    beta: int,
    fuel: nat,
) -> int
    decreases fuel, 0int, moves.len() - i,
{
    if i >= moves.len() || fuel == 0 {
        alpha
    } else {
        let mv = moves[i as int];
        if !spec_is_capture(p, mv) {
            spec_quiesce_captures(ps, p, moves, i + 1, alpha, beta, fuel)
        } else {
            let child = pos_of(make_move_of(p.board, mv));
            let s = -spec_quiesce(ps, child, -beta, -alpha, (fuel - 1) as nat);
            if s >= beta {
                beta as int
            } else if s > alpha {
                spec_quiesce_captures(ps, p, moves, i + 1, s, beta, fuel)
            } else {
                spec_quiesce_captures(ps, p, moves, i + 1, alpha, beta, fuel)
            }
        }
    }
}

/// Quiescence search: evaluates a position by standing pat or resolving
/// capture chains, within the `[alpha, beta]` window.
pub fn quiesce(ps: &EvaluationPresets, p: &Position, alpha: i64, beta: i64, fuel: u32) -> (r: i64)
    requires
        ps.wf(),
        p.wf(),
        SCORE_MIN <= alpha <= beta <= SCORE_MAX,
    ensures
        r == spec_quiesce(*ps, *p, alpha as int, beta as int, fuel as nat),
        SCORE_MIN <= r <= SCORE_MAX,
    decreases fuel,
{
    let moves = legal_moves(&p.board);
    if moves.len() == 0 {
        if p.checkers != 0 {
            return SCORE_MIN;
        } else {
            return 0;
        }
    }
    let e = eval(ps, p);
    let stand_pat: i64 = if p.white_to_move {
        e
    } else {
        -e
    };
    if stand_pat >= beta {
        return beta;
    }
    let mut a: i64 = if alpha < stand_pat {
        stand_pat
    } else {
        alpha
    };
    if fuel == 0 {
        return a;
    }
    let ghost a0: int = a as int;
    proof {
        assert(spec_quiesce(*ps, *p, alpha as int, beta as int, fuel as nat)
            == spec_quiesce_captures(*ps, *p, moves@, 0, a0, beta as int, fuel as nat));
    }
    let mut i: usize = 0;
    let n = moves.len();
    while i < n
        invariant
            ps.wf(),
            p.wf(),
            fuel >= 1,
            n == moves@.len(),
            moves@ == moves_of(p.board),
            i <= n,
            SCORE_MIN <= alpha <= beta <= SCORE_MAX,
            SCORE_MIN <= a <= beta,
            spec_quiesce_captures(*ps, *p, moves@, i as nat, a as int, beta as int, fuel as nat)
                == spec_quiesce(*ps, *p, alpha as int, beta as int, fuel as nat),
        decreases n - i,
    {
        let ghost a_prev: int = a as int;
        let mv = moves[i];
        let dst = move_dest(&mv);
        if ((p.white | p.black) >> (dst as u64)) & 1 == 1 {
            proof {
                assert(moves_of(p.board).contains(moves@[i as int])) by {
                    assert(moves_of(p.board)[i as int] == moves@[i as int]);
                }
            }
            let child = p.apply_move(mv);
            let s = -quiesce(ps, &child, -beta, -a, fuel - 1);
            proof {
                assert(spec_is_capture(*p, moves@[i as int]));
                assert(s == -spec_quiesce(
                    *ps,
                    pos_of(make_move_of(p.board, moves@[i as int])),
                    -(beta as int),
                    -a_prev,
                    (fuel - 1) as nat,
                ));
            }
            if s >= beta {
                proof {
                    assert(spec_quiesce_captures(
                        *ps,
                        *p,
                        moves@,
                        i as nat,
                        a_prev,
                        beta as int,
                        fuel as nat,
                    ) == beta as int);
                }
                return beta;
            }
            if s > a {
                a = s;
            }
            proof {
                assert(spec_quiesce_captures(
                    *ps,
                    *p,
                    moves@,
                    i as nat,
                    a_prev,
                    beta as int,
                    fuel as nat,
                ) == spec_quiesce_captures(
                    *ps,
                    *p,
                    moves@,
                    i as nat + 1,
                    a as int,
                    beta as int,
                    fuel as nat,
                ));
            }
        } else {
            proof {
                assert(!spec_is_capture(*p, moves@[i as int]));
                assert(spec_quiesce_captures(
                    *ps,
                    *p,
                    moves@,
                    i as nat,
                    a_prev,
                    beta as int,
                    fuel as nat,
                ) == spec_quiesce_captures(
                    *ps,
                    *p,
                    moves@,
                    i as nat + 1,
                    a as int,
                    beta as int,
                    fuel as nat,
                ));
            }
        }
        i = i + 1;
    }
    a
}

/// One cache grew from another: no entry vanished and none got shallower.
pub open spec fn tt_extends(m0: Map<u64, SearchResult>, m1: Map<u64, SearchResult>) -> bool {
    forall|h: u64|
        #[trigger] m0.contains_key(h) ==> m1.contains_key(h) && m1[h].depth >= m0[h].depth
}

/// An insert attempt only grows the cache.
pub proof fn lemma_add_extends(m: Map<u64, SearchResult>, hash: u64, r: SearchResult)
    ensures
        tt_extends(m, spec_add(m, hash, r)),
{
}

/// Growing is transitive.
pub proof fn lemma_extends_trans(
    m0: Map<u64, SearchResult>,
    m1: Map<u64, SearchResult>,
    m2: Map<u64, SearchResult>,
)
    requires
        tt_extends(m0, m1),
        tt_extends(m1, m2),
    ensures
        tt_extends(m0, m2),
{
    assert forall|h: u64|
        #[trigger] m0.contains_key(h) implies m2.contains_key(h) && m2[h].depth >= m0[h].depth by {
        assert(m1.contains_key(h) && m1[h].depth >= m0[h].depth);
    }
}

/// What a transposition probe yields: a sufficiently deep entry's score,
/// if its flag lets it answer within the window — an exact entry always,
/// an upper bound at or below `alpha`, a lower bound at or above `beta`.
pub open spec fn spec_tt_probe(
    m: Map<u64, SearchResult>,
    hash: u64,
    depth: u32,
    alpha: int,
    beta: int,
) -> Option<i64> {
    if m.contains_key(hash) && m[hash].depth >= depth {
        let e = m[hash];
        if e.flag == SearchFlag::Exact {
            Some(e.score)
        } else if e.flag == SearchFlag::UpperBound && e.score <= alpha {
            Some(e.score)
        } else if e.flag == SearchFlag::Lowerbound && e.score >= beta {
            Some(e.score)
        } else {
            None
        }
    } else {
        None
    }
}

/// What negamax returns at depth zero: the table probe's answer if the
/// cached entry can speak, else plain quiescence.
pub open spec fn spec_negamax_leaf(
    ps: EvaluationPresets,
    m: Map<u64, SearchResult>,
    hash: u64,
    p: Position,
    alpha: int,
    beta: int,
) -> int {
    match spec_tt_probe(m, hash, 0, alpha, beta) {
        Some(s) => s as int,
        None => spec_quiesce(ps, p, alpha, beta, QUIESCE_FUEL as nat),
    }
}

/// The negamax recursion, as one mathematical function from the inputs
/// and the cache to the score and the cache after: a sufficiently deep
/// cached entry answers by its flag's rules; depth zero is quiescence; a
/// deeper node folds over its legal moves, cached best first.
pub open spec fn spec_negamax(
    ps: EvaluationPresets,
    zob: ZobristKeys,
    m: Map<u64, SearchResult>,
    p: Position,
    depth: u32,
    hmc: u16,
    alpha: int,
    beta: int,
) -> (int, Map<u64, SearchResult>)
    decreases depth, 1int, 0int,
{
    let hash = spec_hash(zob, p);
    match spec_tt_probe(m, hash, depth, alpha, beta) {
        Some(s) => (s as int, m),
        None => {
            if depth == 0 {
                (spec_quiesce(ps, p, alpha, beta, QUIESCE_FUEL as nat), m)
            } else {
                spec_negamax_moves(
                    ps,
                    zob,
                    m,
                    p,
                    depth,
                    hmc,
                    spec_ordered_moves(m, hash, p.board),
                    0,
                    alpha,
                    beta,
                    None,
                    false,
                )
            }
        },
    }
}

/// Folds negamax over the moves from index `i` on, threading the cache:
/// a child score above `beta` cuts off and caches an `UpperBound` entry;
/// one above `alpha` raises it and remembers the move; when the moves run
/// out, the final `alpha` is cached — `Exact` when some move raised it,
/// `Lowerbound` when none (in particular on a node without moves) — aged
/// with this node's half-move count.
pub open spec fn spec_negamax_moves(
    ps: EvaluationPresets,
    zob: ZobristKeys,
    m: Map<u64, SearchResult>,
    p: Position,
    depth: u32,
    hmc: u16,
    moves: Seq<chess::ChessMove>,
    i: nat,
    alpha: int,
    beta: int,
    best: Option<MoveKey>,
    improved: bool,
) -> (int, Map<u64, SearchResult>)
    decreases depth, 0int, moves.len() - i,
{
    if depth == 0 {
        (alpha, m)
    } else if i >= moves.len() {
        let flag = if improved {
            SearchFlag::Exact
        } else {
            SearchFlag::Lowerbound
        };
        (
            alpha,
            spec_add(
                m,
                spec_hash(zob, p),
                SearchResult { depth, score: alpha as i64, flag, age: hmc, best_move: best },
            ),
        )
    } else {
        let child = pos_of(make_move_of(p.board, moves[i as int]));
        let rec = spec_negamax(
            ps,
            zob,
            m,
            child,
            (depth - 1) as u32,
            (hmc + 1) as u16,
            -beta,
            -alpha,
        );
        let s = -rec.0;
        if s > beta {
            (
                beta,
                spec_add(
                    rec.1,
                    spec_hash(zob, p),
                    SearchResult {
                        depth,
                        score: s as i64,
                        flag: SearchFlag::UpperBound,
                        age: hmc,
                        best_move: Some(spec_move_key(moves[i as int])),
                    },
                ),
            )
        } else if s > alpha {
            spec_negamax_moves(
                ps,
                zob,
                rec.1,
                p,
                depth,
                hmc,
                moves,
                i + 1,
                s,
                beta,
                Some(spec_move_key(moves[i as int])),
                true,
            )
        } else {
            spec_negamax_moves(
                ps,
                zob,
                rec.1,
                p,
                depth,
                hmc,
                moves,
                i + 1,
                alpha,
                beta,
                best,
                improved,
            )
        }
    }
}

/// Negamax with alpha-beta pruning over the shared transposition table.
///
/// The result and the cache after the call are exactly what the
/// [`spec_negamax`] recursion computes from the cache before it: the
/// probe-by-flag semantics at every depth, quiescence at depth zero, and
/// the cutoff and caching behavior of every deeper node, entries aged
/// with the half-move count of the node that stores them.  The table only
/// ever grows, and entries only ever deepen.
pub fn nega_max_alpha_beta_internal(
    tt: &mut TranspositionTable,
    zob: &ZobristKeys,
    ps: &EvaluationPresets,
    p: &Position,
    depth: u32,
    half_move_count: u16,
    alpha: i64,
    beta: i64,
) -> (r: i64)
    requires
        old(tt).wf(),
        zob.wf(),
        ps.wf(),
        p.wf(),
        SCORE_MIN <= alpha <= beta <= SCORE_MAX,
        half_move_count + depth <= u16::MAX,
    ensures
        final(tt).wf(),
        tt_extends(old(tt)@, final(tt)@),
        SCORE_MIN <= r <= SCORE_MAX,
        r == spec_negamax(
            *ps,
            *zob,
            old(tt)@,
            *p,
            depth,
            half_move_count,
            alpha as int,
            beta as int,
        ).0,
        final(tt)@ == spec_negamax(
            *ps,
            *zob,
            old(tt)@,
            *p,
            depth,
            half_move_count,
            alpha as int,
            beta as int,
        ).1,
        depth == 0 ==> final(tt)@ == old(tt)@ && r == spec_negamax_leaf(
            *ps,
            old(tt)@,
            spec_hash(*zob, *p),
            *p,
            alpha as int,
            beta as int,
        ),
    decreases depth,
{
    let hash = hash_board(zob, p);
    match tt.get(hash, depth) {
        Some(stored) => {
            match stored.flag {
                SearchFlag::Exact => {
                    return stored.score;
                },
                SearchFlag::UpperBound => {
                    if stored.score <= alpha {
                        return stored.score;
                    }
                },
                SearchFlag::Lowerbound => {
                    if stored.score >= beta {
                        return stored.score;
                    }
                },
            }
        },
        None => {},
    }
    if depth == 0 {
        return quiesce(ps, p, alpha, beta, QUIESCE_FUEL);
    }
    let ghost m_entry = tt@;
    let ghost target = spec_negamax(
        *ps,
        *zob,
        m_entry,
        *p,
        depth,
        half_move_count,
        alpha as int,
        beta as int,
    );
    let moves = tt.legal_moves(hash, p);
    proof {
        assert(target == spec_negamax_moves(
            *ps,
            *zob,
            m_entry,
            *p,
            depth,
            half_move_count,
            moves@,
            0,
            alpha as int,
            beta as int,
            None,
            false,
        ));
    }
    let mut best_move: Option<MoveKey> = None;
    let mut improved = false;
    let mut a: i64 = alpha;
    let mut i: usize = 0;
    let n = moves.len();
    while i < n
        invariant
            tt.wf(),
            zob.wf(),
            ps.wf(),
            p.wf(),
            depth >= 1,
            half_move_count + depth <= u16::MAX,
            m_entry == old(tt)@,
            tt_extends(m_entry, tt@),
            i <= n,
            n == moves@.len(),
            forall|j: int| 0 <= j < n ==> moves_of(p.board).contains(#[trigger] moves@[j]),
            SCORE_MIN <= a <= beta,
            SCORE_MIN <= beta <= SCORE_MAX,
            hash == spec_hash(*zob, *p),
            target == spec_negamax(
                *ps,
                *zob,
                m_entry,
                *p,
                depth,
                half_move_count,
                alpha as int,
                beta as int,
            ),
            target == spec_negamax_moves(
                *ps,
                *zob,
                tt@,
                *p,
                depth,
                half_move_count,
                moves@,
                i as nat,
                a as int,
                beta as int,
                best_move,
                improved,
            ),
        decreases n - i,
    {
        let ghost m_iter = tt@;
        let ghost a_prev: int = a as int;
        let ghost best_prev = best_move;
        let ghost improved_prev = improved;
        let mv = moves[i];
        let child = p.apply_move(mv);
        let s = -nega_max_alpha_beta_internal(
            tt,
            zob,
            ps,
            &child,
            depth - 1,
            half_move_count + 1,
            -beta,
            -a,
        );
        proof {
            lemma_extends_trans(m_entry, m_iter, tt@);
            assert(s == -spec_negamax(
                *ps,
                *zob,
                m_iter,
                pos_of(make_move_of(p.board, moves@[i as int])),
                (depth - 1) as u32,
                (half_move_count + 1) as u16,
                -(beta as int),
                -a_prev,
            ).0);
        }
        if s > beta {
            let ghost m_cut = tt@;
            tt.add(
                hash,
                SearchResult::new(
                    depth,
                    s,
                    SearchFlag::UpperBound,
                    half_move_count,
                    Some(move_key(&mv)),
                ),
            );
            proof {
                lemma_add_extends(
                    m_cut,
                    hash,
                    (SearchResult {
                        depth,
                        score: s,
                        flag: SearchFlag::UpperBound,
                        age: half_move_count,
                        best_move: Some(spec_move_key(mv)),
                    }),
                );
                lemma_extends_trans(m_entry, m_cut, tt@);
                assert(spec_negamax_moves(
                    *ps,
                    *zob,
                    m_iter,
                    *p,
                    depth,
                    half_move_count,
                    moves@,
                    i as nat,
                    a_prev,
                    beta as int,
                    best_prev,
                    improved_prev,
                ) == (beta as int, tt@));
            }
            return beta;
        }
        if s > a {
            a = s;
            best_move = Some(move_key(&mv));
            improved = true;
        }
        proof {
            assert(spec_negamax_moves(
                *ps,
                *zob,
                m_iter,
                *p,
                depth,
                half_move_count,
                moves@,
                i as nat,
                a_prev,
                beta as int,
                best_prev,
                improved_prev,
            ) == spec_negamax_moves(
                *ps,
                *zob,
                tt@,
                *p,
                depth,
                half_move_count,
                moves@,
                i as nat + 1,
                a as int,
                beta as int,
                best_move,
                improved,
            ));
        }
        i = i + 1;
    }
    let flag = if improved {
        SearchFlag::Exact
    } else {
        SearchFlag::Lowerbound
    };
    let ghost m_end = tt@;
    tt.add(hash, SearchResult::new(depth, a, flag, half_move_count, best_move));
    proof {
        lemma_add_extends(
            m_end,
            hash,
            (SearchResult { depth, score: a, flag, age: half_move_count, best_move }),
        );
        lemma_extends_trans(m_entry, m_end, tt@);
        assert(spec_negamax_moves(
            *ps,
            *zob,
            m_end,
            *p,
            depth,
            half_move_count,
            moves@,
            n as nat,
            a as int,
            beta as int,
            best_move,
            improved,
        ) == (a as int, tt@));
    }
    a
}

/// With nothing cached for the position, depth-zero negamax is exactly
/// quiescence over the same window: the table probe has nothing to say.
pub proof fn lemma_negamax_leaf_is_quiesce(
    ps: EvaluationPresets,
    m: Map<u64, SearchResult>,
    hash: u64,
    p: Position,
    alpha: int,
    beta: int,
)
    requires
        !m.contains_key(hash),
    ensures
        spec_negamax_leaf(ps, m, hash, p, alpha, beta) == spec_quiesce(
            ps,
            p,
            alpha,
            beta,
            QUIESCE_FUEL as nat,
        ),
{
}

/// Negamax over the full score window: exactly the internal search with
/// the sentinel window, already in fixed point.
pub fn nega_max_alpha_beta(
    tt: &mut TranspositionTable,
    zob: &ZobristKeys,
    ps: &EvaluationPresets,
    p: &Position,
    depth: u32,
    half_move_count: u16,
) -> (r: i64)
    requires
        old(tt).wf(),
        zob.wf(),
        ps.wf(),
        p.wf(),
        half_move_count + depth <= u16::MAX,
    ensures
        final(tt).wf(),
        tt_extends(old(tt)@, final(tt)@),
        SCORE_MIN <= r <= SCORE_MAX,
        r == spec_negamax(
            *ps,
            *zob,
            old(tt)@,
            *p,
            depth,
            half_move_count,
            SCORE_MIN as int,
            SCORE_MAX as int,
        ).0,
        final(tt)@ == spec_negamax(
            *ps,
            *zob,
            old(tt)@,
            *p,
            depth,
            half_move_count,
            SCORE_MIN as int,
            SCORE_MAX as int,
        ).1,
        depth == 0 ==> final(tt)@ == old(tt)@ && r == spec_negamax_leaf(
            *ps,
            old(tt)@,
            spec_hash(*zob, *p),
            *p,
            SCORE_MIN as int,
            SCORE_MAX as int,
        ),
{
    nega_max_alpha_beta_internal(tt, zob, ps, p, depth, half_move_count, SCORE_MIN, SCORE_MAX)
}

/// Every entry the search adds or replaces carries the half-move count
/// of the node that stored it: the searched node itself stores `hmc`,
/// its children `hmc + 1`, and so on — never past `hmc + depth` — and a
/// stored entry's depth never exceeds the node's remaining depth.
pub proof fn lemma_negamax_ages(
    ps: EvaluationPresets,
    zob: ZobristKeys,
    m: Map<u64, SearchResult>,
    p: Position,
    depth: u32,
    hmc: u16,
    alpha: int,
    beta: int,
)
    requires
        hmc + depth <= u16::MAX,
    ensures
        forall|h: u64|
            #[trigger] spec_negamax(ps, zob, m, p, depth, hmc, alpha, beta).1.contains_key(h) ==> {
                let e = spec_negamax(ps, zob, m, p, depth, hmc, alpha, beta).1[h];
                (m.contains_key(h) && e == m[h]) || (hmc <= e.age <= hmc + depth && 1 <= e.depth
                    <= depth)
            },
    decreases depth, 1int, 0int,
{
    let hash = spec_hash(zob, p);
    if spec_tt_probe(m, hash, depth, alpha, beta) is None && depth > 0 {
        lemma_negamax_moves_ages(
            ps,
            zob,
            m,
            p,
            depth,
            hmc,
            spec_ordered_moves(m, hash, p.board),
            0,
            alpha,
            beta,
            None,
            false,
        );
    }
}

/// Helper for [`lemma_negamax_ages`], move by move.
proof fn lemma_negamax_moves_ages(
    ps: EvaluationPresets,
    zob: ZobristKeys,
    m: Map<u64, SearchResult>,
    p: Position,
    depth: u32,
    hmc: u16,
    moves: Seq<chess::ChessMove>,
    i: nat,
    alpha: int,
    beta: int,
    best: Option<MoveKey>,
    improved: bool,
)
    requires
        hmc + depth <= u16::MAX,
        depth >= 1,
    ensures
        forall|h: u64|
            #[trigger] spec_negamax_moves(
                ps,
                zob,
                m,
                p,
                depth,
                hmc,
                moves,
                i,
                alpha,
                beta,
                best,
                improved,
            ).1.contains_key(h) ==> {
                let e = spec_negamax_moves(
                    ps,
                    zob,
                    m,
                    p,
                    depth,
                    hmc,
                    moves,
                    i,
                    alpha,
                    beta,
                    best,
                    improved,
                ).1[h];
                (m.contains_key(h) && e == m[h]) || (hmc <= e.age <= hmc + depth && 1 <= e.depth
                    <= depth)
            },
    decreases depth, 0int, moves.len() - i,
{
    if i < moves.len() {
        let child = pos_of(make_move_of(p.board, moves[i as int]));
        let rec = spec_negamax(ps, zob, m, child, (depth - 1) as u32, (hmc + 1) as u16, -beta, -alpha);
        lemma_negamax_ages(ps, zob, m, child, (depth - 1) as u32, (hmc + 1) as u16, -beta, -alpha);
        let s = -rec.0;
        if s > beta {
        } else if s > alpha {
            lemma_negamax_moves_ages(
                ps,
                zob,
                rec.1,
                p,
                depth,
                hmc,
                moves,
                i + 1,
                s,
                beta,
                Some(spec_move_key(moves[i as int])),
                true,
            );
        } else {
            lemma_negamax_moves_ages(
                ps,
                zob,
                rec.1,
                p,
                depth,
                hmc,
                moves,
                i + 1,
                alpha,
                beta,
                best,
                improved,
            );
        }
    }
}

/// The material weights of the blunder search: the classic pawn-knight-
/// bishop-rook-queen values, in fixed point.
pub open spec fn spec_default_weights() -> Seq<i64> {
    seq![10000i64, 30000i64, 30000i64, 50000i64, 90000i64, 0i64]
}

/// The material weights of the blunder search.
pub fn default_piece_weights() -> (r: Vec<i64>)
    ensures
        r@ == spec_default_weights(),
{
    let mut w: Vec<i64> = Vec::new();
    w.push(10000);
    w.push(30000);
    w.push(30000);
    w.push(50000);
    w.push(90000);
    w.push(0);
    proof {
        assert(w@ =~= spec_default_weights());
    }
    w
}

/// The blunder score: plain negamax over material alone, with no pruning —
/// the mover-positive material balance at depth zero, else the best
/// negated child score (the loss sentinel when there is no move).
pub open spec fn spec_blunder(p: Position, depth: u32) -> int
    decreases depth, 1int, 0int,
{
    if depth == 0 {
        spec_sign(p) * spec_material(p, spec_default_weights())
    } else {
        spec_blunder_moves(p, moves_of(p.board), 0, SCORE_MIN as int, depth)
    }
}

/// Folds the blunder search over the moves from index `i` on.
pub open spec fn spec_blunder_moves(
    p: Position,
    moves: Seq<chess::ChessMove>,
    i: nat,
    best: int,
    depth: u32,
) -> int
    decreases depth, 0int, moves.len() - i,
{
    if i >= moves.len() || depth == 0 {
        best
    } else {
        let child = pos_of(make_move_of(p.board, moves[i as int]));
        let s = -spec_blunder(child, (depth - 1) as u32);
        if s > best {
            spec_blunder_moves(p, moves, i + 1, s, depth)
        } else {
            spec_blunder_moves(p, moves, i + 1, best, depth)
        }
    }
}

/// The blunder score of a position: material-only negamax to a fixed
/// depth, used by the anti-optimal strategy to find the worst move.
pub fn blunder_score(p: &Position, depth: u32) -> (r: i64)
    requires
        p.wf(),
    ensures
        r == spec_blunder(*p, depth),
        SCORE_MIN <= r <= SCORE_MAX,
    decreases depth,
{
    if depth == 0 {
        let w = default_piece_weights();
        let m = eval_material(p, &w);
        let r: i64 = if p.white_to_move {
            m
        } else {
            -m
        };
        return r;
    }
    let moves = legal_moves(&p.board);
    let mut best: i64 = SCORE_MIN;
    let mut i: usize = 0;
    let n = moves.len();
    while i < n
        invariant
            p.wf(),
            depth >= 1,
            i <= n,
            n == moves@.len(),
            moves@ == moves_of(p.board),
            SCORE_MIN <= best <= SCORE_MAX,
            spec_blunder_moves(*p, moves@, i as nat, best as int, depth) == spec_blunder_moves(
                *p,
                moves@,
                0,
                SCORE_MIN as int,
                depth,
            ),
        decreases n - i,
    {
        let mv = moves[i];
        proof {
            assert(moves_of(p.board).contains(moves@[i as int])) by {
                assert(moves_of(p.board)[i as int] == moves@[i as int]);
            }
        }
        let child = p.apply_move(mv);
        let s = -blunder_score(&child, depth - 1);
        if s > best {
            best = s;
        }
        i = i + 1;
    }
    best
}

} // verus!
