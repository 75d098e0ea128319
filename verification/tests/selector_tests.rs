//! Tests of the move selector and the simple strategies: the
//! single-move fast path, book draws, the hit filter, max-score
//! selection, fallbacks, and the anti-optimal strategy.

use std::str::FromStr;

use uchess_engine::engine::{root_moves, run_search};
use uchess_engine::presets::{EvaluationPresets, PieceSquarePhases, PieceSquareTables};
use uchess_engine::rules::Position;
use uchess_engine::selector::{
    blundy_choice, bogo_move_choice, bogo_piece_choice, decide_move, filter_last_move, plan_turn,
    select_move, BookMove, TurnPlan,
};
use uchess_engine::transposition_table::TranspositionTable;
use uchess_engine::zobrist::ZobristKeys;

fn zero_table() -> Vec<i64> {
    vec![0i64; 64]
}

fn zero_tables() -> PieceSquareTables {
    PieceSquareTables {
        pawn: zero_table(),
        knight: zero_table(),
        bishop: zero_table(),
        rook: zero_table(),
        queen: zero_table(),
        king: zero_table(),
    }
}

fn preset_with_hits(hits: Vec<u32>) -> EvaluationPresets {
    EvaluationPresets::new(
        vec![10000, 30000, 30000, 50000, 90000, 0],
        PieceSquarePhases {
            opening: zero_tables(),
            middle_game: zero_tables(),
            end_game: zero_tables(),
        },
        hits,
        vec![10000],
        0,
        1,
        2,
    )
    .expect("valid preset")
}

fn position(fen: &str) -> Position {
    let board = chess::Board::from_str(fen).expect("valid FEN");
    Position::from_board(&board)
}

#[test]
fn single_legal_move_is_played_without_search() {
    assert_eq!(plan_turn(1, &Vec::new()), TurnPlan::Immediate(0));
    // Black's only legal move is Kh7.
    let p = position("7k/8/8/8/8/8/6Q1/K7 b - - 0 1");
    let ps = preset_with_hits(vec![10000; 6]);
    let zob = ZobristKeys::new();
    let mut tt = TranspositionTable::new();
    let decision = decide_move(&mut tt, &zob, &ps, &p, &Vec::new(), None, 4, 5_000, 2);
    let chosen = decision.chosen.expect("a legal move exists");
    assert_eq!(chosen.key.from, 63);
    assert_eq!(chosen.key.to, 55);
    // The fast path ran no search: no rows, and the table was never touched.
    assert!(decision.rows.is_empty());
    assert_eq!(tt.size(), 0);
}

#[test]
fn no_legal_move_yields_no_move() {
    // Stalemate: Black has nothing to play.
    let p = position("7k/5Q2/6K1/8/8/8/8/8 b - - 0 1");
    let ps = preset_with_hits(vec![10000; 6]);
    let zob = ZobristKeys::new();
    let mut tt = TranspositionTable::new();
    assert!(decide_move(&mut tt, &zob, &ps, &p, &Vec::new(), None, 4, 1_000, 1).chosen.is_none());
}

#[test]
fn book_moves_are_drawn_from_the_book() {
    let book = vec![BookMove { index: 3, weight: 10 }, BookMove { index: 7, weight: 1 }];
    for _ in 0..20 {
        match plan_turn(20, &book) {
            TurnPlan::Immediate(i) => assert!(i == 3 || i == 7),
            TurnPlan::RunSearch => panic!("a usable book resolves the turn"),
        }
    }
    // A zero-weight entry is never drawn.
    let lopsided = vec![BookMove { index: 2, weight: 100 }, BookMove { index: 5, weight: 0 }];
    for _ in 0..50 {
        match plan_turn(20, &lopsided) {
            TurnPlan::Immediate(i) => assert_eq!(i, 2),
            TurnPlan::RunSearch => panic!("a usable book resolves the turn"),
        }
    }
    // An unusable book (index out of range) sends the turn to search.
    let bad = vec![BookMove { index: 99, weight: 1 }];
    assert_eq!(plan_turn(20, &bad), TurnPlan::RunSearch);
    assert_eq!(plan_turn(20, &Vec::new()), TurnPlan::RunSearch);
}

#[test]
fn the_previous_move_is_excluded() {
    let p = position("rnbqkbnr/pppppppp/8/8/8/8/PPPPPPPP/RNBQKBNR w KQkq - 0 1");
    let root = root_moves(&p);
    let some_key = root[5].key;
    let filtered = filter_last_move(&root, Some(some_key));
    assert_eq!(filtered.len(), root.len() - 1);
    assert!(filtered.iter().all(|rm| {
        rm.key.from != some_key.from || rm.key.to != some_key.to
    }));
    let untouched = filter_last_move(&root, None);
    assert_eq!(untouched.len(), root.len());
}

#[test]
fn mate_in_one_is_selected() {
    // Any personality with full hit rates must play Ra8#.
    let p = position("6k1/8/6K1/8/8/8/8/R7 w - - 0 1");
    let ps = preset_with_hits(vec![10000; 6]);
    let zob = ZobristKeys::new();
    let mut tt = TranspositionTable::new();
    let decision = decide_move(&mut tt, &zob, &ps, &p, &Vec::new(), None, 4, 10_000, 2);
    let chosen = decision.chosen.expect("a legal move exists");
    assert!(chosen.is_mate, "the mating move must be chosen");
    assert_eq!(chosen.key.from, 0);
    assert_eq!(chosen.key.to, 56);
    // The decision reports what it drew on: the chosen move tops the
    // consulted row.
    assert!(!decision.rows.is_empty());
    let row = &decision.rows[decision.consulted_depth];
    assert!(row.iter().all(|e| e.score <= row[decision.chosen_index].score));
    assert_eq!(
        decision.candidates[decision.chosen_index].key.to,
        chosen.key.to
    );
}

#[test]
fn chosen_move_has_the_best_score_at_the_consulted_depth() {
    // Full hit rates remove the filter's randomness: the chosen move's
    // score at the consulted depth is the row maximum.
    let p = position("rnbqkbnr/pppppppp/8/8/8/8/PPPPPPPP/RNBQKBNR w KQkq - 0 1");
    let ps = preset_with_hits(vec![10000; 6]);
    let zob = ZobristKeys::new();
    let mut tt = TranspositionTable::new();
    let root = root_moves(&p);
    let tables = run_search(&mut tt, &zob, &ps, &p, &root, 0, 20_000, 1);
    assert!(tables.len() >= 2, "depth one completes under a generous budget");
    let target = 1usize;
    let idx = select_move(&ps, &tables, target, root.len());
    let row = &tables[1];
    let best = row.iter().map(|e| e.score).max().unwrap();
    assert_eq!(row[idx].score, best);
}

#[test]
fn empty_tables_fall_back_to_a_random_legal_move() {
    // A zero-second deadline: the engine produced nothing, the selector
    // must still pick a legal move and never fail.
    let p = position("rnbqkbnr/pppppppp/8/8/8/8/PPPPPPPP/RNBQKBNR w KQkq - 0 1");
    let ps = preset_with_hits(vec![10000; 6]);
    let zob = ZobristKeys::new();
    let mut tt = TranspositionTable::new();
    let root = root_moves(&p);
    let tables = run_search(&mut tt, &zob, &ps, &p, &root, 0, 0, 100);
    assert_eq!(tables.len(), 0);
    for _ in 0..10 {
        let idx = select_move(&ps, &tables, 3, root.len());
        assert!(idx < root.len());
    }
    let decision = decide_move(&mut tt, &zob, &ps, &p, &Vec::new(), None, 0, 0, 100);
    assert!(decision.rows.is_empty(), "no time, no rows");
    let chosen = decision.chosen.expect("a legal move exists even with no time");
    let legal: Vec<chess::ChessMove> = chess::MoveGen::new_legal(
        &chess::Board::from_str("rnbqkbnr/pppppppp/8/8/8/8/PPPPPPPP/RNBQKBNR w KQkq - 0 1")
            .unwrap(),
    )
    .collect();
    assert!(legal.contains(&chosen.mv));
}

#[test]
fn zero_hit_rates_still_produce_a_legal_move() {
    // The hit filter eliminates every candidate: uniform fallback.
    let p = position("rnbqkbnr/pppppppp/8/8/8/8/PPPPPPPP/RNBQKBNR w KQkq - 0 1");
    let ps = preset_with_hits(vec![0; 6]);
    let zob = ZobristKeys::new();
    let mut tt = TranspositionTable::new();
    let root = root_moves(&p);
    let tables = run_search(&mut tt, &zob, &ps, &p, &root, 0, 5_000, 1);
    for _ in 0..10 {
        let idx = select_move(&ps, &tables, 1, root.len());
        assert!(idx < root.len());
    }
}

#[test]
fn random_strategies_stay_within_the_move_list() {
    let p = position("rnbqkbnr/pppppppp/8/8/8/8/PPPPPPPP/RNBQKBNR w KQkq - 0 1");
    let root = root_moves(&p);
    for _ in 0..20 {
        assert!(bogo_move_choice(root.len()) < root.len());
        assert!(bogo_piece_choice(&root) < root.len());
    }
}

#[test]
fn the_blunder_strategy_hangs_its_queen() {
    // White queen can be taken if it steps to h5; the worst non-knight
    // move by one-ply material search gives the queen away.
    let p = position("rnb1kbnr/pppp1ppp/8/4p3/6P1/5P2/PPPPP2P/RNBQKBNR b - - 0 1");
    let root = root_moves(&p);
    let idx = blundy_choice(&p, &root, 4);
    assert!(idx < root.len());
    // Qh4 walks into mate-threat-free capture-free... the key claim is
    // the contract's: the move is a worst-scoring non-knight move.
    assert!(root[idx].piece != 1, "knights are never moved");
}

#[test]
fn the_blunder_strategy_opens_at_random() {
    let p = position("rnbqkbnr/pppppppp/8/8/8/8/PPPPPPPP/RNBQKBNR w KQkq - 0 1");
    let root = root_moves(&p);
    for hmc in 1u16..4 {
        let idx = blundy_choice(&p, &root, hmc);
        assert!(idx < root.len());
    }
}

#[test]
fn the_previous_move_is_not_repeated() {
    // Black's king has exactly two moves, g7 and h7.  With h7 named as
    // the previous move, g7 is the only candidate left to the search.
    let p = position("5R1k/8/8/8/8/8/8/K7 b - - 0 1");
    let root = root_moves(&p);
    assert_eq!(root.len(), 2);
    let last = root
        .iter()
        .find(|rm| rm.key.to == 55)
        .expect("h7 is one of the moves")
        .key;
    let ps = preset_with_hits(vec![10000; 6]);
    let zob = ZobristKeys::new();
    let mut tt = TranspositionTable::new();
    let decision = decide_move(&mut tt, &zob, &ps, &p, &Vec::new(), Some(last), 8, 5_000, 1);
    let chosen = decision.chosen.expect("a legal move exists");
    assert_eq!(chosen.key.to, 54, "the previous move h7 must be excluded");
    assert_eq!(decision.candidates.len(), 1);
}
