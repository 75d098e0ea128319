//! The move selector: turns per-depth score rows into one chosen move.
//!
//! Degenerate turns resolve without search: a single legal move is played
//! at once, and a position found in the opponent's weighted book plays a
//! book move drawn by weight.  Otherwise the engine's deepest usable row
//! (capped by the personality's sampled target depth) is filtered by the
//! per-piece move-hit probability, and the winner is drawn uniformly from
//! the candidates tied at the maximum score.  When no row or no survivor
//! remains, a uniformly random legal move is played — the selector always
//! produces a legal move.

use vstd::prelude::*;

use crate::engine::{root_moves, root_ok, row_ok, run_search, spec_root_list, MoveScore, RootMove};
use crate::presets::{EvaluationPresets, HIT_SCALE};
use crate::randomness::{build_walker, rand_below, walker_next};
use crate::rules::{make_move_of, moves_of, pos_of, Position};
use crate::search::{blunder_score, spec_blunder};
use crate::transposition_table::{
    same_move_key, spec_expired, MoveKey, TranspositionTable, HALF_MOVE_CUTOFF,
};
use crate::zobrist::ZobristKeys;
use crate::{SCORE_MAX, SCORE_MIN};

verus! {

/// One book move for the current position: a root-move index and its
/// recorded weight.
#[derive(Clone, Copy, Debug)]
pub struct BookMove {
    /// Index into the root-move list.
    pub index: usize,
    /// The move's frequency weight in the book.
    pub weight: u32,
}

/// A usable book: few enough entries for the weighted sampler, every
/// index a legal move, every weight within the sampler's bounds.
pub open spec fn book_ok(book: Seq<BookMove>, n_moves: int) -> bool {
    &&& 1 <= book.len() <= 100
    &&& forall|j: int|
        0 <= j < book.len() ==> (#[trigger] book[j]).index < n_moves && book[j].weight <= 10000
}

/// How a turn resolves before any search is spent.
#[derive(Clone, Copy, Debug, PartialEq, Eq, Structural)]
pub enum TurnPlan {
    /// Play this root move at once.
    Immediate(usize),
    /// No shortcut applies: run the search engine.
    RunSearch,
}

/// Decides the pre-search shortcuts: a lone legal move is played at once,
/// then a usable book resolves by weighted draw; anything else goes to
/// the search engine.
pub fn plan_turn(n_moves: usize, book: &Vec<BookMove>) -> (r: TurnPlan)
    requires
        n_moves >= 1,
    ensures
        n_moves == 1 ==> r == TurnPlan::Immediate(0usize),
        r matches TurnPlan::Immediate(i) ==> i < n_moves,
        n_moves > 1 && book_ok(book@, n_moves as int) ==> (r matches TurnPlan::Immediate(i)
            && (exists|j: int| 0 <= j < book@.len() && (#[trigger] book@[j]).index == i)),
        n_moves > 1 && !book_ok(book@, n_moves as int) ==> r == TurnPlan::RunSearch,
{
    if n_moves == 1 {
        return TurnPlan::Immediate(0);
    }
    if book.len() < 1 || book.len() > 100 {
        return TurnPlan::RunSearch;
    }
    let mut weights: Vec<u32> = Vec::new();
    let mut j: usize = 0;
    let nb = book.len();
    while j < nb
        invariant
            n_moves > 1,
            j <= nb,
            nb == book@.len(),
            1 <= nb <= 100,
            weights@.len() == j,
            forall|l: int| 0 <= l < j ==> #[trigger] weights@[l] == book@[l].weight,
            forall|l: int|
                0 <= l < j ==> (#[trigger] book@[l]).index < n_moves && book@[l].weight <= 10000,
        decreases nb - j,
    {
        let b = book[j];
        if b.index >= n_moves || b.weight > 10000 {
            proof {
                assert(!book_ok(book@, n_moves as int)) by {
                    if book_ok(book@, n_moves as int) {
                        assert(book@[j as int].index < n_moves && book@[j as int].weight <= 10000);
                    }
                }
            }
            return TurnPlan::RunSearch;
        }
        weights.push(b.weight);
        j = j + 1;
    }
    proof {
        assert(book_ok(book@, n_moves as int));
    }
    let table = build_walker(&weights);
    let pick = walker_next(&table);
    TurnPlan::Immediate(book[pick].index)
}

/// The root moves that do not carry the given key, in order.
pub open spec fn spec_without_key(root: Seq<RootMove>, k: MoveKey) -> Seq<RootMove>
    decreases root.len(),
{
    if root.len() == 0 {
        root
    } else {
        let rest = spec_without_key(root.drop_last(), k);
        if root.last().key != k {
            rest.push(root.last())
        } else {
            rest
        }
    }
}

/// Nothing kept by the key filter carries the filtered key.
proof fn lemma_without_key_excludes(root: Seq<RootMove>, k: MoveKey, j: int)
    requires
        0 <= j < spec_without_key(root, k).len(),
    ensures
        spec_without_key(root, k)[j].key != k,
        root.contains(spec_without_key(root, k)[j]),
    decreases root.len(),
{
    let rest = spec_without_key(root.drop_last(), k);
    if root.last().key != k {
        if j < rest.len() {
            lemma_without_key_excludes(root.drop_last(), k, j);
            assert(root.contains(rest[j])) by {
                let w = choose|w: int|
                    0 <= w < root.drop_last().len() && #[trigger] root.drop_last()[w] == rest[j];
                assert(root[w] == rest[j]);
            }
        } else {
            assert(root[root.len() - 1] == root.last());
        }
    } else {
        lemma_without_key_excludes(root.drop_last(), k, j);
        assert(root.contains(rest[j])) by {
            let w = choose|w: int|
                0 <= w < root.drop_last().len() && #[trigger] root.drop_last()[w] == rest[j];
            assert(root[w] == rest[j]);
        }
    }
}

/// Drops the player's immediately preceding move from the candidates (the
/// anti-repetition heuristic); with no preceding move the candidates stay
/// as they are.
pub fn filter_last_move(root: &Vec<RootMove>, last: Option<MoveKey>) -> (r: Vec<RootMove>)
    ensures
        match last {
            None => r@ == root@,
            Some(k) => r@ == spec_without_key(root@, k),
        },
        forall|j: int| 0 <= j < r@.len() ==> root@.contains(#[trigger] r@[j]),
{
    let mut out: Vec<RootMove> = Vec::new();
    let mut i: usize = 0;
    let n = root.len();
    while i < n
        invariant
            i <= n,
            n == root@.len(),
            match last {
                None => out@ == root@.subrange(0, i as int),
                Some(k) => out@ == spec_without_key(root@.subrange(0, i as int), k),
            },
            forall|j: int| 0 <= j < out@.len() ==> root@.contains(#[trigger] out@[j]),
        decreases n - i,
    {
        let rm = root[i];
        proof {
            assert(root@.contains(root@[i as int])) by {
                assert(root@[i as int] == root@[i as int]);
            }
        }
        let keep: bool = match last {
            None => true,
            Some(k) => !same_move_key(&rm.key, &k),
        };
        if keep {
            out.push(rm);
        }
        proof {
            assert(root@.subrange(0, i as int + 1).drop_last() =~= root@.subrange(0, i as int));
            assert(root@.subrange(0, i as int + 1).last() == root@[i as int]);
            if let Some(k) = last {
                assert(spec_without_key(root@.subrange(0, i as int + 1), k) == if root@[i
                    as int].key != k {
                    spec_without_key(root@.subrange(0, i as int), k).push(root@[i as int])
                } else {
                    spec_without_key(root@.subrange(0, i as int), k)
                });
            } else {
                assert(root@.subrange(0, i as int + 1) =~= root@.subrange(0, i as int).push(
                    root@[i as int],
                ));
            }
        }
        i = i + 1;
    }
    proof {
        assert(root@.subrange(0, n as int) =~= root@);
    }
    out
}

/// Whether every piece kind survives the hit filter with certainty.
pub open spec fn all_hit_full(ps: EvaluationPresets) -> bool {
    forall|k: int| 0 <= k < 6 ==> #[trigger] ps.move_hit@[k] == HIT_SCALE
}

/// A selector-usable stack of score rows: each row scores each root move,
/// in root order.
pub open spec fn tables_ok(tables: Seq<Seq<MoveScore>>, n_root: int) -> bool {
    forall|d: int|
        0 <= d < tables.len() ==> {
            let row = #[trigger] tables[d];
            row.len() == n_root && forall|i: int|
                0 <= i < row.len() ==> (#[trigger] row[i]).root_index == i && row[i].piece < 6
        }
}

/// The depth row the selector consults: the sampled target depth, capped
/// by the deepest row the engine completed.
pub open spec fn spec_pick_depth(tables_len: int, target_depth: int) -> int {
    if target_depth < tables_len {
        target_depth
    } else {
        tables_len - 1
    }
}

/// Picks the move to play from the engine's score rows: consults the row
/// at the sampled target depth (capped by the deepest completed row),
/// keeps each candidate with its piece's hit probability, and draws
/// uniformly among the survivors tied at the maximum score.  With no rows
/// or no survivors, draws uniformly among all root moves.  With full hit
/// rates the chosen move's score is the row's maximum.
pub fn select_move(
    ps: &EvaluationPresets,
    tables: &Vec<Vec<MoveScore>>,
    target_depth: usize,
    n_root: usize,
) -> (r: usize)
    requires
        ps.wf(),
        n_root >= 1,
        tables_ok(tables@.map_values(|row: Vec<MoveScore>| row@), n_root as int),
    ensures
        r < n_root,
        tables@.len() > 0 && all_hit_full(*ps) ==> {
            let row = tables@[spec_pick_depth(tables@.len() as int, target_depth as int)]@;
            forall|i: int| 0 <= i < row.len() ==> (#[trigger] row[i]).score <= row[r as int].score
        },
{
    let ghost rows = tables@.map_values(|row: Vec<MoveScore>| row@);
    if tables.len() == 0 {
        return rand_below(n_root);
    }
    let d: usize = if target_depth < tables.len() {
        target_depth
    } else {
        tables.len() - 1
    };
    let row = &tables[d];
    proof {
        assert(rows[d as int] == row@);
        assert(row@.len() == n_root);
    }
    let mut survivors: Vec<usize> = Vec::new();
    let mut i: usize = 0;
    let n = row.len();
    while i < n
        invariant
            ps.wf(),
            i <= n,
            n == row@.len(),
            n == n_root,
            forall|j: int| 0 <= j < row@.len() ==> (#[trigger] row@[j]).piece < 6,
            forall|j: int| 0 <= j < survivors@.len() ==> #[trigger] survivors@[j] < n,
            all_hit_full(*ps) ==> survivors@.len() == i && forall|j: int|
                0 <= j < survivors@.len() ==> #[trigger] survivors@[j] == j,
        decreases n - i,
    {
        let hit = ps.move_hit[row[i].piece as usize];
        let draw = rand_below(HIT_SCALE as usize);
        if (draw as u32) < hit {
            survivors.push(i);
        }
        i = i + 1;
    }
    if survivors.len() == 0 {
        return rand_below(n_root);
    }
    let mut best: i64 = row[survivors[0]].score;
    let mut j: usize = 1;
    let ns = survivors.len();
    while j < ns
        invariant
            1 <= j <= ns,
            ns == survivors@.len(),
            n == row@.len(),
            n == n_root,
            forall|l: int| 0 <= l < survivors@.len() ==> #[trigger] survivors@[l] < n,
            forall|l: int| 0 <= l < j ==> (#[trigger] row@[survivors@[l] as int]).score <= best,
            exists|l: int| 0 <= l < j && (#[trigger] row@[survivors@[l] as int]).score == best,
        decreases ns - j,
    {
        if row[survivors[j]].score > best {
            best = row[survivors[j]].score;
        }
        j = j + 1;
    }
    let mut ties: Vec<usize> = Vec::new();
    let mut l: usize = 0;
    while l < ns
        invariant
            l <= ns,
            ns == survivors@.len(),
            n == row@.len(),
            n == n_root,
            forall|q: int| 0 <= q < survivors@.len() ==> #[trigger] survivors@[q] < n,
            forall|q: int| 0 <= q < ties@.len() ==> #[trigger] ties@[q] < n,
            forall|q: int|
                0 <= q < ties@.len() ==> (#[trigger] row@[ties@[q] as int]).score == best,
            (exists|q: int| 0 <= q < l && (#[trigger] row@[survivors@[q] as int]).score == best)
                <==> ties@.len() > 0,
        decreases ns - l,
    {
        if row[survivors[l]].score == best {
            ties.push(survivors[l]);
        }
        l = l + 1;
    }
    if ties.len() == 0 {
        return rand_below(n_root);
    }
    let pick = ties[rand_below(ties.len())];
    proof {
        assert(row@[pick as int].score == best);
        if all_hit_full(*ps) {
            assert forall|q: int| 0 <= q < row@.len() implies (#[trigger] row@[q]).score
                <= best by {
                assert(survivors@[q] == q);
                assert(row@[survivors@[q] as int].score <= best);
            }
            assert(rows[spec_pick_depth(tables@.len() as int, target_depth as int)] == row@);
        }
    }
    pick
}

/// Among full-hit candidates, a unique maximum-scored mating move is the
/// one the selector picks: anything the selector returns with the row's
/// maximum score must be that move.
pub proof fn lemma_mate_move_selected(row: Seq<MoveScore>, r: int, m: int)
    requires
        0 <= m < row.len(),
        0 <= r < row.len(),
        row[m].score == SCORE_MAX,
        forall|i: int| 0 <= i < row.len() && i != m ==> (#[trigger] row[i]).score < SCORE_MAX,
        forall|i: int| 0 <= i < row.len() ==> (#[trigger] row[i]).score <= row[r].score,
    ensures
        r == m,
{
    if r != m {
        assert(row[m].score <= row[r].score);
        assert(row[r].score < SCORE_MAX);
    }
}

/// Whether some listed move moves a piece of the given kind.
pub open spec fn kind_present(root: Seq<RootMove>, k: u8) -> bool {
    exists|i: int| 0 <= i < root.len() && (#[trigger] root[i]).piece == k
}

/// A uniformly random legal move.
pub fn bogo_move_choice(n_moves: usize) -> (r: usize)
    requires
        n_moves >= 1,
    ensures
        r < n_moves,
{
    rand_below(n_moves)
}

/// A random move of a random piece kind: draws uniformly among the piece
/// kinds that have a move, then uniformly among that kind's moves.
pub fn bogo_piece_choice(root: &Vec<RootMove>) -> (r: usize)
    requires
        root@.len() >= 1,
        forall|i: int| 0 <= i < root@.len() ==> (#[trigger] root@[i]).piece < 6,
    ensures
        r < root@.len(),
{
    let mut kinds: Vec<u8> = Vec::new();
    let mut k: u8 = 0;
    while k < 6
        invariant
            k <= 6,
            root@.len() >= 1,
            forall|i: int| 0 <= i < root@.len() ==> (#[trigger] root@[i]).piece < 6,
            forall|q: int| 0 <= q < kinds@.len() ==> kind_present(root@, #[trigger] kinds@[q]),
        decreases 6 - k,
    {
        let mut found = false;
        let mut i: usize = 0;
        let n = root.len();
        while i < n
            invariant
                i <= n,
                n == root@.len(),
                found ==> kind_present(root@, k),
            decreases n - i,
        {
            if root[i].piece == k {
                found = true;
            }
            i = i + 1;
        }
        if found {
            kinds.push(k);
        }
        k = k + 1;
    }
    if kinds.len() == 0 {
        return rand_below(root.len());
    }
    let kind = kinds[rand_below(kinds.len())];
    let mut of_kind: Vec<usize> = Vec::new();
    let mut i: usize = 0;
    let n = root.len();
    while i < n
        invariant
            i <= n,
            n == root@.len(),
            forall|q: int| 0 <= q < of_kind@.len() ==> #[trigger] of_kind@[q] < n,
        decreases n - i,
    {
        if root[i].piece == kind {
            of_kind.push(i);
        }
        i = i + 1;
    }
    if of_kind.len() == 0 {
        return rand_below(root.len());
    }
    of_kind[rand_below(of_kind.len())]
}

/// What the anti-optimal strategy minimizes: the mover-positive blunder
/// score of the position after a move.
pub open spec fn spec_blundy_val(p: Position, mv: chess::ChessMove) -> int {
    -spec_blunder(pos_of(make_move_of(p.board, mv)), 1)
}

/// The anti-optimal strategy: after the opening moves, plays a random
/// move among those (knights excluded) whose one-ply blunder score is
/// worst; in the opening plays at random; falls back to a random move
/// when only knight moves exist.
pub fn blundy_choice(p: &Position, root: &Vec<RootMove>, half_move_count: u16) -> (r: usize)
    requires
        p.wf(),
        root_ok(*p, root@),
        root@.len() >= 1,
    ensures
        r < root@.len(),
        !(1 <= half_move_count < 4) && (exists|i: int|
            0 <= i < root@.len() && (#[trigger] root@[i]).piece != 1) ==> (root@[r as int].piece
            != 1 && forall|i: int|
            0 <= i < root@.len() && (#[trigger] root@[i]).piece != 1 ==> spec_blundy_val(
                *p,
                root@[i].mv,
            ) >= spec_blundy_val(*p, root@[r as int].mv)),
{
    if half_move_count >= 1 && half_move_count < 4 {
        return rand_below(root.len());
    }
    let mut worst: i64 = SCORE_MAX + 1;
    let mut ties: Vec<usize> = Vec::new();
    let mut i: usize = 0;
    let n = root.len();
    while i < n
        invariant
            p.wf(),
            root_ok(*p, root@),
            i <= n,
            n == root@.len(),
            SCORE_MIN <= worst <= SCORE_MAX + 1,
            forall|q: int| 0 <= q < ties@.len() ==> #[trigger] ties@[q] < n,
            forall|q: int|
                0 <= q < ties@.len() ==> (#[trigger] root@[ties@[q] as int]).piece != 1
                    && spec_blundy_val(*p, root@[ties@[q] as int].mv) == worst,
            forall|q: int|
                0 <= q < i && (#[trigger] root@[q]).piece != 1 ==> spec_blundy_val(*p, root@[q].mv)
                    >= worst,
            ties@.len() == 0 ==> worst == SCORE_MAX + 1,
            (exists|q: int| 0 <= q < i && (#[trigger] root@[q]).piece != 1) <==> ties@.len() > 0,
        decreases n - i,
    {
        let rm = root[i];
        if rm.piece != 1 {
            proof {
                assert(moves_of(p.board).contains(root@[i as int].mv));
            }
            let child = p.apply_move(rm.mv);
            let s = -blunder_score(&child, 1);
            proof {
                assert(s == spec_blundy_val(*p, root@[i as int].mv));
            }
            if s == worst {
                ties.push(i);
            } else if s < worst {
                worst = s;
                ties = Vec::new();
                ties.push(i);
            }
            proof {
                assert(ties@.len() > 0);
                assert(root@[i as int].piece != 1);
            }
        }
        i = i + 1;
    }
    if ties.len() == 0 {
        return rand_below(root.len());
    }
    ties[rand_below(ties.len())]
}

/// One decided turn: the move to play together with what the decision
/// drew on, so callers can see how the choice relates to the search.
pub struct TurnDecision {
    /// The move to play, when the position has one.
    pub chosen: Option<RootMove>,
    /// The list the decision drew from: the legal moves, with the
    /// player's previous move excluded on the search path.
    pub candidates: Vec<RootMove>,
    /// The engine's per-depth score rows over `candidates` (empty when a
    /// shortcut decided, or when the budget expired before depth zero).
    pub rows: Vec<Vec<MoveScore>>,
    /// The target depth sampled from the personality's depth
    /// distribution, when the search ran.
    pub target_depth: usize,
    /// The row the selector consulted, when rows exist: the sampled
    /// target depth capped by the deepest completed row.
    pub consulted_depth: usize,
    /// Where the chosen move stands in `candidates`, when one was chosen.
    pub chosen_index: usize,
}

/// The full turn decision for the search personality: resolves the lone
/// legal move or a book hit at once, else excludes the player's previous
/// move, runs the time-budgeted iterative search, prunes the aged cache
/// entries once the search is done, and selects from the score rows.
/// Succeeds exactly when the position has a legal move, always plays a
/// legal move, and — with full hit rates — plays a move whose score tops
/// the consulted row.
pub fn decide_move(
    tt: &mut TranspositionTable,
    zob: &ZobristKeys,
    ps: &EvaluationPresets,
    p: &Position,
    book: &Vec<BookMove>,
    last: Option<MoveKey>,
    half_move_count: u16,
    budget_ms: u64,
    max_depth: u32,
) -> (r: TurnDecision)
    requires
        old(tt).wf(),
        zob.wf(),
        ps.wf(),
        p.wf(),
        half_move_count + max_depth + 1 <= u16::MAX,
    ensures
        final(tt).wf(),
        r.chosen is Some <==> moves_of(p.board).len() >= 1,
        r.chosen matches Some(rm) ==> moves_of(p.board).contains(rm.mv),
        r.chosen matches Some(rm) ==> r.chosen_index < r.candidates@.len() && r.candidates@[
            r.chosen_index as int
        ] == rm,
        root_ok(*p, r.candidates@),
        forall|d: int| 0 <= d < r.rows@.len() ==> row_ok(#[trigger] r.rows@[d]@, r.candidates@),
        r.rows@.len() > 0 ==> r.consulted_depth < r.rows@.len() && r.consulted_depth
            == spec_pick_depth(r.rows@.len() as int, r.target_depth as int) && r.target_depth
            < ps.depth_levels@.len(),
        r.rows@.len() > 0 && all_hit_full(*ps) ==> (r.chosen is Some && forall|i: int|
            0 <= i < r.rows@[r.consulted_depth as int]@.len() ==> (#[trigger] r.rows@[
                r.consulted_depth as int
            ]@[i]).score <= r.rows@[r.consulted_depth as int]@[r.chosen_index as int].score),
        moves_of(p.board).len() == 1 ==> final(tt)@ == old(tt)@ && (r.chosen matches Some(rm)
            && rm.mv == moves_of(p.board)[0]),
        moves_of(p.board).len() > 1 && book_ok(book@, moves_of(p.board).len() as int)
            ==> (final(tt)@ == old(tt)@ && r.rows@.len() == 0 && r.chosen is Some && (exists|
        j: int|
            0 <= j < book@.len() && (#[trigger] book@[j]).index == r.chosen_index)),
        (moves_of(p.board).len() > 1 && !book_ok(book@, moves_of(p.board).len() as int)
            && half_move_count > HALF_MOVE_CUTOFF) ==> forall|h: u64|
            #[trigger] final(tt)@.contains_key(h) ==> final(tt)@[h].age + HALF_MOVE_CUTOFF
                > half_move_count,
        match last {
            Some(k) => (moves_of(p.board).len() > 1 && !book_ok(
                book@,
                moves_of(p.board).len() as int,
            ) && spec_without_key(spec_root_list(*p), k).len() > 0 && r.chosen is Some) ==> (
            r.chosen matches Some(rm) && rm.key != k),
            None => true,
        },
{
    let root = root_moves(p);
    if root.len() == 0 {
        return TurnDecision {
            chosen: None,
            candidates: root,
            rows: Vec::new(),
            target_depth: 0,
            consulted_depth: 0,
            chosen_index: 0,
        };
    }
    proof {
        assert(root@[0].mv == moves_of(p.board)[0]);
    }
    match plan_turn(root.len(), book) {
        TurnPlan::Immediate(i) => {
            proof {
                assert(moves_of(p.board).contains(root@[i as int].mv)) by {
                    assert(moves_of(p.board)[i as int] == root@[i as int].mv);
                }
            }
            let chosen = Some(root[i]);
            return TurnDecision {
                chosen,
                candidates: root,
                rows: Vec::new(),
                target_depth: 0,
                consulted_depth: 0,
                chosen_index: i,
            };
        },
        TurnPlan::RunSearch => {},
    }
    let filtered = filter_last_move(&root, last);
    let ghost fv = filtered@;
    let ghost rv = root@;
    let candidates = if filtered.len() == 0 {
        root
    } else {
        filtered
    };
    proof {
        assert forall|i: int| 0 <= i < candidates@.len() implies {
            let rm = #[trigger] candidates@[i];
            moves_of(p.board).contains(rm.mv) && rm.piece < 6
        } by {
            assert(root@.contains(candidates@[i]));
            let w = choose|w: int| 0 <= w < root@.len() && root@[w] == candidates@[i];
            assert(moves_of(p.board).contains(root@[w].mv));
        }
    }
    let tables = run_search(tt, zob, ps, p, &candidates, half_move_count, budget_ms, max_depth);
    // Once per completed turn: drop cache entries whose age fell out of
    // the sliding window.
    let ghost m_pre_trim = tt@;
    tt.trim(half_move_count);
    proof {
        if half_move_count > HALF_MOVE_CUTOFF {
            assert forall|h: u64| #[trigger] tt@.contains_key(h) implies tt@[h].age
                + HALF_MOVE_CUTOFF > half_move_count by {
                assert(!spec_expired(m_pre_trim[h], half_move_count, HALF_MOVE_CUTOFF));
                assert(tt@[h] == m_pre_trim[h]);
            }
        }
    }
    let target = ps.get_random_depth();
    proof {
        let ghost rows = tables@.map_values(|row: Vec<MoveScore>| row@);
        assert forall|d: int| 0 <= d < rows.len() implies {
            let row = #[trigger] rows[d];
            row.len() == candidates@.len() && forall|i: int|
                0 <= i < row.len() ==> (#[trigger] row[i]).root_index == i && row[i].piece < 6
        } by {
            assert(row_ok(tables@[d]@, candidates@));
            assert(rows[d] == tables@[d]@);
        }
        assert(tables_ok(rows, candidates@.len() as int));
    }
    let idx = select_move(ps, &tables, target, candidates.len());
    let consulted: usize = if tables.len() == 0 {
        0
    } else if target < tables.len() {
        target
    } else {
        tables.len() - 1
    };
    proof {
        assert(moves_of(p.board).contains(candidates@[idx as int].mv));
        match last {
            Some(k) => {
                if fv.len() > 0 {
                    assert(candidates@ == spec_without_key(rv, k));
                    lemma_without_key_excludes(rv, k, idx as int);
                }
            },
            None => {},
        }
        if tables@.len() > 0 {
            assert(consulted as int == spec_pick_depth(tables@.len() as int, target as int));
        }
    }
    let chosen = Some(candidates[idx]);
    TurnDecision {
        chosen,
        candidates,
        rows: tables,
        target_depth: target,
        consulted_depth: consulted,
        chosen_index: idx,
    }
}

} // verus!
