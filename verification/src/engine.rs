//! The search engine driver: iterative deepening over the root moves.
//!
//! Each depth scores every legal root move by negamax through the shared
//! transposition table, short-circuiting moves flagged as immediate
//! checkmate to the maximum score.  A depth's row is kept only when every
//! move reported before the wall-clock budget ran out — an interrupted
//! depth is discarded whole and deepening stops.  Once a depth beats the
//! baseline score by the improvement threshold, deeper search is skipped.
//! A zero budget yields no rows at all; the move selector then falls back
//! to a random legal move.

use vstd::prelude::*;

use crate::rules::{legal_moves, make_move_of, move_source, moves_of, pos_of, Position};
use crate::search::{
    lemma_extends_trans, nega_max_alpha_beta, spec_is_checkmate, spec_negamax, spec_negamax_leaf,
    tt_extends,
};
use crate::evaluation::spec_piece_kind_at;
use crate::presets::EvaluationPresets;
use crate::transposition_table::{move_key, spec_move_key, MoveKey, SearchResult, TranspositionTable};
use crate::zobrist::{spec_hash, ZobristKeys};
use crate::{SCORE_MAX, SCORE_MIN};

verus! {

/// The deepest iteration the driver will attempt.
pub const MAX_DEPTH: u32 = 100;

/// A depth whose best score beats the baseline by this much ends the
/// search early: the position is decisively resolved (twenty pawns, in
/// fixed point).
pub const SCORE_IMPROVEMENT_THRESHOLD: i64 = 200_000;

/// Relies on `std::time::SystemTime::now`: the wall clock, in milliseconds
/// since the epoch.  Nothing is assumed of the value: the clock may jump.
#[verifier::external_body]
fn now_millis() -> u64 {
    match std::time::SystemTime::now().duration_since(std::time::UNIX_EPOCH) {
        Ok(d) => d.as_millis() as u64,
        Err(_) => 0,
    }
}

/// One legal move at the search root, with the plain values the engine
/// and selector read.
#[derive(Clone, Copy)]
pub struct RootMove {
    /// The rules engine's move, as handed back by move generation.
    pub mv: chess::ChessMove,
    /// The move's identifying squares and promotion.
    pub key: MoveKey,
    /// The kind of the piece being moved.
    pub piece: u8,
    /// Whether the move checkmates immediately.
    pub is_mate: bool,
}

/// The piece kind a move picks up from its source square (a pawn if the
/// square reads empty, which a legal move's never does).
pub open spec fn spec_root_piece(p: Position, mv: chess::ChessMove) -> u8 {
    match spec_piece_kind_at(p, crate::rules::source_of(mv) as u64) {
        Some(k) => k,
        None => 0,
    }
}

/// The root-move list describes exactly the legal moves of the position.
pub open spec fn root_matches(p: Position, root: Seq<RootMove>) -> bool {
    &&& root.len() == moves_of(p.board).len()
    &&& forall|i: int|
        0 <= i < root.len() ==> {
            let rm = #[trigger] root[i];
            &&& rm.mv == moves_of(p.board)[i]
            &&& rm.key == spec_move_key(rm.mv)
            &&& rm.piece == spec_root_piece(p, rm.mv)
            &&& rm.piece < 6
            &&& rm.is_mate == spec_is_checkmate(pos_of(make_move_of(p.board, rm.mv)))
        }
}

/// The root-move list a position determines: its legal moves in order,
/// each with its key, moved piece and mate flag.
pub open spec fn spec_root_list(p: Position) -> Seq<RootMove> {
    Seq::new(
        moves_of(p.board).len(),
        |i: int|
            RootMove {
                mv: moves_of(p.board)[i],
                key: spec_move_key(moves_of(p.board)[i]),
                piece: spec_root_piece(p, moves_of(p.board)[i]),
                is_mate: spec_is_checkmate(pos_of(make_move_of(p.board, moves_of(p.board)[i]))),
            },
    )
}

/// Every listed move is legal in the position and carries a piece kind.
pub open spec fn root_ok(p: Position, root: Seq<RootMove>) -> bool {
    forall|i: int|
        0 <= i < root.len() ==> {
            let rm = #[trigger] root[i];
            moves_of(p.board).contains(rm.mv) && rm.piece < 6
        }
}

/// The legal moves of a position, with their selector metadata: moved
/// piece, identifying key, and whether they mate on the spot.
pub fn root_moves(p: &Position) -> (r: Vec<RootMove>)
    requires
        p.wf(),
    ensures
        root_matches(*p, r@),
        root_ok(*p, r@),
        r@ == spec_root_list(*p),
{
    let moves = legal_moves(&p.board);
    let mut r: Vec<RootMove> = Vec::new();
    let mut i: usize = 0;
    let n = moves.len();
    while i < n
        invariant
            p.wf(),
            i <= n,
            n == moves@.len(),
            moves@ == moves_of(p.board),
            r@.len() == i,
            forall|j: int|
                0 <= j < i ==> {
                    let rm = #[trigger] r@[j];
                    &&& rm.mv == moves_of(p.board)[j]
                    &&& rm.key == spec_move_key(rm.mv)
                    &&& rm.piece == spec_root_piece(*p, rm.mv)
                    &&& rm.piece < 6
                    &&& rm.is_mate == spec_is_checkmate(pos_of(make_move_of(p.board, rm.mv)))
                },
        decreases n - i,
    {
        let mv = moves[i];
        proof {
            assert(moves_of(p.board).contains(moves@[i as int])) by {
                assert(moves_of(p.board)[i as int] == moves@[i as int]);
            }
        }
        let src = move_source(&mv);
        let piece: u8 = match crate::evaluation::piece_kind_at(p, src as u64) {
            Some(k) => k,
            None => 0,
        };
        let child = p.apply_move(mv);
        let child_moves = legal_moves(&child.board);
        let is_mate = child_moves.len() == 0 && child.checkers != 0;
        let key = move_key(&mv);
        r.push(RootMove { mv, key, piece, is_mate });
        i = i + 1;
    }
    proof {
        assert forall|i: int| 0 <= i < r@.len() implies {
            let rm = #[trigger] r@[i];
            moves_of(p.board).contains(rm.mv) && rm.piece < 6
        } by {
            assert(moves_of(p.board)[i] == r@[i].mv);
        }
        assert(r@ =~= spec_root_list(*p));
    }
    r
}

/// One root move's score at one depth.
#[derive(Clone, Copy, Debug)]
pub struct MoveScore {
    /// The move's index in the root-move list.
    pub root_index: usize,
    /// The kind of the piece being moved, for the hit filter.
    pub piece: u8,
    /// The move's fixed-point score.
    pub score: i64,
    /// Whether the move checkmates immediately.
    pub is_mate: bool,
}

/// A completed depth's row: one score per root move, in order, with
/// mating moves pinned at the maximum score.
pub open spec fn row_ok(row: Seq<MoveScore>, root: Seq<RootMove>) -> bool {
    &&& row.len() == root.len()
    &&& forall|i: int|
        0 <= i < row.len() ==> {
            let e = #[trigger] row[i];
            &&& e.root_index == i
            &&& e.piece == root[i].piece
            &&& e.is_mate == root[i].is_mate
            &&& SCORE_MIN <= e.score <= SCORE_MAX
            &&& (root[i].is_mate ==> e.score == SCORE_MAX)
        }
}

/// The exact depth-zero score of one root move against a cache state:
/// the maximum score for a move announcing mate, else the negated
/// depth-zero negamax (a table probe, then quiescence) of the position
/// after the move.
pub open spec fn spec_depth_zero_score(
    ps: EvaluationPresets,
    zob: ZobristKeys,
    m: Map<u64, SearchResult>,
    p: Position,
    rm: RootMove,
) -> int {
    if rm.is_mate {
        SCORE_MAX as int
    } else {
        let child = pos_of(make_move_of(p.board, rm.mv));
        -spec_negamax_leaf(
            ps,
            m,
            spec_hash(zob, child),
            child,
            SCORE_MIN as int,
            SCORE_MAX as int,
        )
    }
}

/// The scores of the root moves from index `i` on at one depth, threading
/// the cache: a mate-flagged move scores the maximum outright; any other
/// scores the negated full-window negamax of the position after it, each
/// search reading the cache its predecessors left.
pub open spec fn spec_row(
    ps: EvaluationPresets,
    zob: ZobristKeys,
    m: Map<u64, SearchResult>,
    p: Position,
    root: Seq<RootMove>,
    i: nat,
    depth: u32,
    hmc: u16,
) -> (Seq<int>, Map<u64, SearchResult>)
    decreases root.len() - i,
{
    if i >= root.len() {
        (Seq::empty(), m)
    } else {
        let rm = root[i as int];
        let child = pos_of(make_move_of(p.board, rm.mv));
        let rec = spec_negamax(
            ps,
            zob,
            m,
            child,
            depth,
            (hmc + 1) as u16,
            SCORE_MIN as int,
            SCORE_MAX as int,
        );
        let s: int = if rm.is_mate {
            SCORE_MAX as int
        } else {
            -rec.0
        };
        let m1 = if rm.is_mate {
            m
        } else {
            rec.1
        };
        let rest = spec_row(ps, zob, m1, p, root, i + 1, depth, hmc);
        (seq![s] + rest.0, rest.1)
    }
}

/// The plain scores of a row.
pub open spec fn row_scores(row: Seq<MoveScore>) -> Seq<int> {
    row.map_values(|e: MoveScore| e.score as int)
}

/// Whether a row holds exactly the scores the verified scorer computes at
/// this depth against the given cache state.
pub open spec fn row_from(
    ps: EvaluationPresets,
    zob: ZobristKeys,
    m: Map<u64, SearchResult>,
    p: Position,
    root: Seq<RootMove>,
    depth: u32,
    hmc: u16,
    row: Seq<MoveScore>,
) -> bool {
    row_scores(row) == spec_row(ps, zob, m, p, root, 0, depth, hmc).0
}

/// Scores every root move at one depth, or reports that the budget ran
/// out first (in which case the partial row is discarded, never returned).
/// A zero budget never completes a row.
pub fn score_root_moves(
    tt: &mut TranspositionTable,
    zob: &ZobristKeys,
    ps: &EvaluationPresets,
    p: &Position,
    root: &Vec<RootMove>,
    depth: u32,
    half_move_count: u16,
    start_ms: u64,
    budget_ms: u64,
) -> (r: Option<Vec<MoveScore>>)
    requires
        old(tt).wf(),
        zob.wf(),
        ps.wf(),
        p.wf(),
        root_ok(*p, root@),
        root@.len() >= 1,
        half_move_count + depth + 1 <= u16::MAX,
    ensures
        final(tt).wf(),
        tt_extends(old(tt)@, final(tt)@),
        r matches Some(row) ==> row_ok(row@, root@),
        r matches Some(row) ==> row_from(*ps, *zob, old(tt)@, *p, root@, depth, half_move_count, row@)
            && final(tt)@ == spec_row(*ps, *zob, old(tt)@, *p, root@, 0, depth, half_move_count).1,
        budget_ms == 0 ==> r is None,
        depth == 0 ==> final(tt)@ == old(tt)@,
        depth == 0 ==> (r matches Some(row) ==> forall|i: int|
            0 <= i < row@.len() ==> (#[trigger] row@[i]).score == spec_depth_zero_score(
                *ps,
                *zob,
                old(tt)@,
                *p,
                root@[i],
            )),
{
    let ghost m0 = tt@;
    let mut row: Vec<MoveScore> = Vec::new();
    let mut i: usize = 0;
    let n = root.len();
    while i < n
        invariant
            tt.wf(),
            zob.wf(),
            ps.wf(),
            p.wf(),
            root_ok(*p, root@),
            m0 == old(tt)@,
            tt_extends(m0, tt@),
            i <= n,
            n == root@.len(),
            n >= 1,
            half_move_count + depth + 1 <= u16::MAX,
            budget_ms > 0 || i == 0,
            spec_row(*ps, *zob, m0, *p, root@, 0, depth, half_move_count).0 == row_scores(row@)
                + spec_row(*ps, *zob, tt@, *p, root@, i as nat, depth, half_move_count).0,
            spec_row(*ps, *zob, m0, *p, root@, 0, depth, half_move_count).1 == spec_row(
                *ps,
                *zob,
                tt@,
                *p,
                root@,
                i as nat,
                depth,
                half_move_count,
            ).1,
            depth == 0 ==> tt@ == m0,
            depth == 0 ==> forall|j: int|
                0 <= j < i ==> (#[trigger] row@[j]).score == spec_depth_zero_score(
                    *ps,
                    *zob,
                    m0,
                    *p,
                    root@[j],
                ),
            row@.len() == i,
            forall|j: int|
                0 <= j < i ==> {
                    let e = #[trigger] row@[j];
                    &&& e.root_index == j
                    &&& e.piece == root@[j].piece
                    &&& e.is_mate == root@[j].is_mate
                    &&& SCORE_MIN <= e.score <= SCORE_MAX
                    &&& (root@[j].is_mate ==> e.score == SCORE_MAX)
                },
        decreases n - i,
    {
        let now = now_millis();
        let elapsed: u64 = if now >= start_ms {
            now - start_ms
        } else {
            0
        };
        if elapsed >= budget_ms {
            return None;
        }
        let rm = root[i];
        let ghost m_iter = tt@;
        let ghost scores_prev = row_scores(row@);
        let score: i64 = if rm.is_mate {
            SCORE_MAX
        } else {
            let child = p.apply_move(rm.mv);
            let s = -nega_max_alpha_beta(tt, zob, ps, &child, depth, half_move_count + 1);
            proof {
                lemma_extends_trans(m0, m_iter, tt@);
            }
            s
        };
        row.push(MoveScore { root_index: i, piece: rm.piece, score, is_mate: rm.is_mate });
        proof {
            assert(spec_row(*ps, *zob, m_iter, *p, root@, i as nat, depth, half_move_count).0
                == seq![score as int] + spec_row(
                *ps,
                *zob,
                tt@,
                *p,
                root@,
                i as nat + 1,
                depth,
                half_move_count,
            ).0);
            assert(spec_row(*ps, *zob, m_iter, *p, root@, i as nat, depth, half_move_count).1
                == spec_row(*ps, *zob, tt@, *p, root@, i as nat + 1, depth, half_move_count).1);
            assert(row_scores(row@) =~= scores_prev.push(score as int));
            assert(row_scores(row@) + spec_row(
                *ps,
                *zob,
                tt@,
                *p,
                root@,
                i as nat + 1,
                depth,
                half_move_count,
            ).0 =~= scores_prev + (seq![score as int] + spec_row(
                *ps,
                *zob,
                tt@,
                *p,
                root@,
                i as nat + 1,
                depth,
                half_move_count,
            ).0));
        }
        i = i + 1;
    }
    proof {
        assert(spec_row(*ps, *zob, tt@, *p, root@, n as nat, depth, half_move_count).0
            == Seq::<int>::empty());
        assert(row_scores(row@) + Seq::<int>::empty() =~= row_scores(row@));
    }
    Some(row)
}

/// The largest score in a non-empty row.
pub fn row_best_score(row: &Vec<MoveScore>) -> (r: i64)
    requires
        row@.len() >= 1,
    ensures
        forall|i: int| 0 <= i < row@.len() ==> #[trigger] row@[i].score <= r,
        exists|i: int| 0 <= i < row@.len() && #[trigger] row@[i].score == r,
{
    let mut best = row[0].score;
    let mut i: usize = 1;
    let n = row.len();
    while i < n
        invariant
            1 <= i <= n,
            n == row@.len(),
            forall|j: int| 0 <= j < i ==> #[trigger] row@[j].score <= best,
            exists|j: int| 0 <= j < i && #[trigger] row@[j].score == best,
        decreases n - i,
    {
        if row[i].score > best {
            best = row[i].score;
        }
        i = i + 1;
    }
    best
}

/// Iteratively deepened search: returns one completed score row per depth,
/// from depth zero up, stopping when the budget expires mid-depth (that
/// depth is discarded), when the improvement threshold is beaten past
/// depth one, or at `max_depth`.  A zero budget returns no rows.
pub fn run_search(
    tt: &mut TranspositionTable,
    zob: &ZobristKeys,
    ps: &EvaluationPresets,
    p: &Position,
    root: &Vec<RootMove>,
    half_move_count: u16,
    budget_ms: u64,
    max_depth: u32,
) -> (r: Vec<Vec<MoveScore>>)
    requires
        old(tt).wf(),
        zob.wf(),
        ps.wf(),
        p.wf(),
        root_ok(*p, root@),
        root@.len() >= 1,
        half_move_count + max_depth + 1 <= u16::MAX,
    ensures
        final(tt).wf(),
        forall|d: int| 0 <= d < r@.len() ==> row_ok(#[trigger] r@[d]@, root@),
        budget_ms == 0 ==> r@.len() == 0,
        forall|d: int|
            0 <= d < r@.len() ==> exists|m: Map<u64, SearchResult>|
                tt_extends(old(tt)@, m) && row_from(
                    *ps,
                    *zob,
                    m,
                    *p,
                    root@,
                    d as u32,
                    half_move_count,
                    (#[trigger] r@[d])@,
                ),
        r@.len() >= 1 ==> forall|i: int|
            0 <= i < r@[0]@.len() ==> (#[trigger] r@[0]@[i]).score == spec_depth_zero_score(
                *ps,
                *zob,
                old(tt)@,
                *p,
                root@[i],
            ),
{
    let start = now_millis();
    let starting_score = nega_max_alpha_beta(tt, zob, ps, p, 0, half_move_count);
    let mut tables: Vec<Vec<MoveScore>> = Vec::new();
    let mut depth: u32 = 0;
    while depth <= max_depth
        invariant
            tt.wf(),
            zob.wf(),
            ps.wf(),
            p.wf(),
            root_ok(*p, root@),
            root@.len() >= 1,
            half_move_count + max_depth + 1 <= u16::MAX,
            depth <= max_depth + 1,
            budget_ms > 0 || tables@.len() == 0,
            depth == 0 ==> tt@ == old(tt)@,
            tt_extends(old(tt)@, tt@),
            tables@.len() == depth,
            forall|d: int|
                0 <= d < tables@.len() ==> exists|m: Map<u64, SearchResult>|
                    tt_extends(old(tt)@, m) && row_from(
                        *ps,
                        *zob,
                        m,
                        *p,
                        root@,
                        d as u32,
                        half_move_count,
                        (#[trigger] tables@[d])@,
                    ),
            tables@.len() >= 1 ==> forall|i: int|
                0 <= i < tables@[0]@.len() ==> (#[trigger] tables@[0]@[i]).score
                    == spec_depth_zero_score(*ps, *zob, old(tt)@, *p, root@[i]),
            SCORE_MIN <= starting_score <= SCORE_MAX,
            forall|d: int| 0 <= d < tables@.len() ==> row_ok(#[trigger] tables@[d]@, root@),
        decreases max_depth + 1 - depth,
    {
        let ghost m_call = tt@;
        match score_root_moves(tt, zob, ps, p, root, depth, half_move_count, start, budget_ms) {
            None => {
                proof {
                    lemma_extends_trans(old(tt)@, m_call, tt@);
                }
                return tables;
            },
            Some(scores) => {
                let ghost before = tables@;
                let best = row_best_score(&scores);
                tables.push(scores);
                proof {
                    lemma_extends_trans(old(tt)@, m_call, tt@);
                    if depth == 0 {
                        assert(tables@[0] == scores);
                    } else {
                        assert(tables@[0] == before[0]);
                    }
                    assert(row_from(
                        *ps,
                        *zob,
                        m_call,
                        *p,
                        root@,
                        depth,
                        half_move_count,
                        scores@,
                    ));
                    assert forall|d: int| 0 <= d < tables@.len() implies exists|m: Map<
                        u64,
                        SearchResult,
                    >|
                        tt_extends(old(tt)@, m) && row_from(
                            *ps,
                            *zob,
                            m,
                            *p,
                            root@,
                            d as u32,
                            half_move_count,
                            (#[trigger] tables@[d])@,
                        ) by {
                        if d < before.len() {
                            assert(tables@[d] == before[d]);
                        } else {
                            assert(tables@[d] == scores);
                            assert(tt_extends(old(tt)@, m_call) && row_from(
                                *ps,
                                *zob,
                                m_call,
                                *p,
                                root@,
                                d as u32,
                                half_move_count,
                                tables@[d]@,
                            ));
                        }
                    }
                }
                if depth > 1 && best > starting_score + SCORE_IMPROVEMENT_THRESHOLD {
                    return tables;
                }
            },
        }
        depth = depth + 1;
    }
    tables
}

} // verus!
