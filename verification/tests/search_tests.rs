//! Tests of the searches: quiescence terminal values, the depth-zero
//! negamax law, the blunder search, hashing and the fingerprint.

use std::str::FromStr;

use uchess_engine::engine::{root_moves, run_search};
use uchess_engine::fingerprint::pgn_parser_hash;
use uchess_engine::game::{game_over, in_check, DrawReason, EndType, PlayerTeam};
use uchess_engine::presets::{EvaluationPresets, PieceSquarePhases, PieceSquareTables};
use uchess_engine::rules::Position;
use uchess_engine::search::{
    blunder_score, nega_max_alpha_beta, nega_max_alpha_beta_internal, quiesce, QUIESCE_FUEL,
};
use uchess_engine::transposition_table::{SearchFlag, SearchResult, TranspositionTable};
use uchess_engine::zobrist::{hash_board, ZobristKeys, BLACK_TO_MOVE_KEY};
use uchess_engine::{SCORE_MAX, SCORE_MIN};

fn zero_table() -> Vec<i64> {
    vec![0i64; 64]
}

fn zero_tables() -> PieceSquareTables {
    PieceSquareTables {
        pawn: zero_table(),
        knight: zero_table(),
        bishop: zero_table(),
        rook: zero_table(),
        queen: zero_table(),
        king: zero_table(),
    }
}

fn flat_preset() -> EvaluationPresets {
    EvaluationPresets::new(
        vec![10000, 30000, 30000, 50000, 90000, 0],
        PieceSquarePhases {
            opening: zero_tables(),
            middle_game: zero_tables(),
            end_game: zero_tables(),
        },
        vec![10000; 6],
        vec![10000],
        0,
        1,
        2,
    )
    .expect("valid preset")
}

fn position(fen: &str) -> Position {
    let board = chess::Board::from_str(fen).expect("valid FEN");
    Position::from_board(&board)
}

#[test]
fn quiesce_scores_checkmate_as_the_loss_sentinel() {
    // Fool's mate: White is checkmated.
    let p = position("rnb1kbnr/pppp1ppp/8/4p3/6Pq/5P2/PPPPP2P/RNBQKBNR w - - 0 3");
    let ps = flat_preset();
    assert_eq!(quiesce(&ps, &p, SCORE_MIN, SCORE_MAX, QUIESCE_FUEL), SCORE_MIN);
}

#[test]
fn quiesce_scores_stalemate_as_zero() {
    let p = position("7k/5Q2/6K1/8/8/8/8/8 b - - 0 1");
    let ps = flat_preset();
    assert_eq!(quiesce(&ps, &p, SCORE_MIN, SCORE_MAX, QUIESCE_FUEL), 0);
}

#[test]
fn negamax_at_depth_zero_equals_quiescence() {
    let fens = [
        "rnbqkbnr/pppppppp/8/8/8/8/PPPPPPPP/RNBQKBNR w KQkq - 0 1",
        "4k3/8/8/3pP3/8/8/8/4K3 w - - 0 1",
        "r3k3/1pp2ppp/2n5/8/2B5/5N2/PPP2PPP/4K2R b - - 0 1",
    ];
    let ps = flat_preset();
    let zob = ZobristKeys::new();
    for fen in fens {
        let p = position(fen);
        let mut tt = TranspositionTable::new();
        let by_search = nega_max_alpha_beta(&mut tt, &zob, &ps, &p, 0, 4);
        let by_quiesce = quiesce(&ps, &p, SCORE_MIN, SCORE_MAX, QUIESCE_FUEL);
        assert_eq!(by_search, by_quiesce, "depth-zero law failed for {fen}");
    }
}

#[test]
fn blunder_score_at_depth_zero_is_signed_material() {
    // White is a knight up; from Black's point of view that is minus a
    // knight.
    let p = position("k7/8/8/8/8/8/N7/K7 b - - 0 1");
    assert_eq!(blunder_score(&p, 0), -30000);
    let q = position("k7/8/8/8/8/8/N7/K7 w - - 0 1");
    assert_eq!(blunder_score(&q, 0), 30000);
}

#[test]
fn blunder_score_with_no_moves_is_the_loss_sentinel() {
    // Stalemate: no legal move at depth one.
    let p = position("7k/5Q2/6K1/8/8/8/8/8 b - - 0 1");
    assert_eq!(blunder_score(&p, 1), SCORE_MIN);
}

#[test]
fn zobrist_hash_is_reproducible_and_reads_the_turn() {
    let z1 = ZobristKeys::new();
    let z2 = ZobristKeys::new();
    let board = chess::Board::default();
    let p = Position::from_board(&board);
    assert_eq!(hash_board(&z1, &p), hash_board(&z2, &p));
    // Passing the turn keeps the placement: the hashes differ by exactly
    // the side-to-move key.
    let passed = board.null_move().expect("not in check");
    let q = Position::from_board(&passed);
    assert_eq!(hash_board(&z1, &p) ^ hash_board(&z1, &q), BLACK_TO_MOVE_KEY);
}

#[test]
fn zobrist_hash_ignores_castling_rights() {
    let a = position("rnbqkbnr/pppppppp/8/8/8/8/PPPPPPPP/RNBQKBNR w KQkq - 0 1");
    let b = position("rnbqkbnr/pppppppp/8/8/8/8/PPPPPPPP/RNBQKBNR w - - 0 1");
    let z = ZobristKeys::new();
    assert_eq!(hash_board(&z, &a), hash_board(&z, &b));
}

#[test]
fn fingerprint_matches_known_values() {
    let placement = b"rnbqkbnr/pppppppp/8/8/8/8/PPPPPPPP/RNBQKBNR".to_vec();
    assert_eq!(pgn_parser_hash(&placement), "iNSCQ");
    assert_eq!(pgn_parser_hash(&b"abc".to_vec()), "7RMfW");
    assert_eq!(pgn_parser_hash(&placement).len(), 5);
}

#[test]
fn mating_moves_short_circuit_to_the_maximum_score() {
    // White mates with Ra8; the rook's other moves do not mate.
    let p = position("6k1/8/6K1/8/8/8/8/R7 w - - 0 1");
    let root = root_moves(&p);
    assert!(root.iter().any(|rm| rm.is_mate), "position has a mate in one");
    let ps = flat_preset();
    let zob = ZobristKeys::new();
    let mut tt = TranspositionTable::new();
    let tables = run_search(&mut tt, &zob, &ps, &p, &root, 4, 10_000, 1);
    assert!(tables.len() >= 1, "at least depth zero completes");
    for row in &tables {
        assert_eq!(row.len(), root.len());
        for (i, entry) in row.iter().enumerate() {
            assert_eq!(entry.root_index, i);
            if root[i].is_mate {
                assert_eq!(entry.score, SCORE_MAX);
            }
        }
    }
}

#[test]
fn search_fills_the_shared_table() {
    let p = position("4k3/8/8/3pP3/8/8/8/4K3 w - - 0 1");
    let ps = flat_preset();
    let zob = ZobristKeys::new();
    let mut tt = TranspositionTable::new();
    let root = root_moves(&p);
    let _ = run_search(&mut tt, &zob, &ps, &p, &root, 4, 10_000, 2);
    assert!(tt.size() > 0, "deep search caches positions");
}

#[test]
fn zero_budget_produces_no_rows() {
    let p = position("rnbqkbnr/pppppppp/8/8/8/8/PPPPPPPP/RNBQKBNR w KQkq - 0 1");
    let ps = flat_preset();
    let zob = ZobristKeys::new();
    let mut tt = TranspositionTable::new();
    let root = root_moves(&p);
    let tables = run_search(&mut tt, &zob, &ps, &p, &root, 0, 0, 100);
    assert_eq!(tables.len(), 0);
}

#[test]
fn deep_search_is_a_function_of_position_and_cache() {
    // The search result and the cache it leaves behind are determined by
    // the position and the cache it started from.
    let p = position("4k3/8/8/3pP3/8/8/8/4K3 w - - 0 1");
    let ps = flat_preset();
    let zob = ZobristKeys::new();
    let mut t1 = TranspositionTable::new();
    let mut t2 = TranspositionTable::new();
    let a = nega_max_alpha_beta(&mut t1, &zob, &ps, &p, 2, 4);
    let b = nega_max_alpha_beta(&mut t2, &zob, &ps, &p, 2, 4);
    assert_eq!(a, b);
    assert_eq!(t1.size(), t2.size());
    assert!(t1.size() > 0);
}

#[test]
fn deep_search_answers_from_a_sufficient_cached_entry() {
    let p = position("4k3/8/8/3pP3/8/8/8/4K3 w - - 0 1");
    let ps = flat_preset();
    let zob = ZobristKeys::new();
    let h = hash_board(&zob, &p);
    // An exact entry deep enough answers outright, with no search and no
    // new stores.
    let mut tt = TranspositionTable::new();
    tt.add(h, SearchResult::new(9, 777, SearchFlag::Exact, 0, None));
    assert_eq!(nega_max_alpha_beta(&mut tt, &zob, &ps, &p, 3, 4), 777);
    assert_eq!(tt.size(), 1);
    // An upper-bound entry answers only when its score is at or below
    // the probe's alpha.
    let mut tb = TranspositionTable::new();
    tb.add(h, SearchResult::new(9, 700, SearchFlag::UpperBound, 0, None));
    assert_eq!(
        nega_max_alpha_beta_internal(&mut tb, &zob, &ps, &p, 3, 4, 800, 900),
        700
    );
    assert_eq!(tb.size(), 1);
    // A lower-bound entry answers only when its score reaches the
    // probe's beta.
    let mut tc = TranspositionTable::new();
    tc.add(h, SearchResult::new(9, 950, SearchFlag::Lowerbound, 0, None));
    assert_eq!(
        nega_max_alpha_beta_internal(&mut tc, &zob, &ps, &p, 3, 4, 800, 900),
        950
    );
    assert_eq!(tc.size(), 1);
}

#[test]
fn cached_flags_follow_the_alpha_improvement_rule() {
    let ps = flat_preset();
    let zob = ZobristKeys::new();
    // A node with no legal move raises alpha with nothing: the cached
    // entry is a lower bound at the incoming alpha, aged with the node's
    // half-move count.
    let stale = position("7k/5Q2/6K1/8/8/8/8/8 b - - 0 1");
    let mut tt = TranspositionTable::new();
    let r = nega_max_alpha_beta_internal(&mut tt, &zob, &ps, &stale, 1, 4, 100, 200);
    assert_eq!(r, 100);
    let e = tt.get(hash_board(&zob, &stale), 1).expect("entry cached");
    assert_eq!(e.score, 100);
    assert!(matches!(e.flag, SearchFlag::Lowerbound));
    assert_eq!(e.age, 4);
    // On a quiet node some move raises a wide-open alpha: exact.
    let quiet = position("4k3/8/8/3pP3/8/8/8/4K3 w - - 0 1");
    let mut tq = TranspositionTable::new();
    let rq = nega_max_alpha_beta_internal(&mut tq, &zob, &ps, &quiet, 1, 4, -1_000_000, 1_000_000);
    let eq = tq.get(hash_board(&zob, &quiet), 1).expect("entry cached");
    assert_eq!(eq.score, rq);
    assert!(matches!(eq.flag, SearchFlag::Exact));
    assert_eq!(eq.age, 4);
}

#[test]
fn game_over_reports_mate_stalemate_and_material() {
    // Fool's mate: White is mated, Black wins.
    let mated = position("rnb1kbnr/pppp1ppp/8/4p3/6Pq/5P2/PPPPP2P/RNBQKBNR w - - 0 3");
    assert_eq!(game_over(&mated), Some(EndType::Checkmate(PlayerTeam::Black)));
    // White, the side to move, is the one in check.
    assert!(in_check(&mated, PlayerTeam::White));
    assert!(!in_check(&mated, PlayerTeam::Black));
    // Stalemate.
    let stale = position("7k/5Q2/6K1/8/8/8/8/8 b - - 0 1");
    assert_eq!(game_over(&stale), Some(EndType::Draw(DrawReason::Stalemate)));
    // Two bare kings cannot mate.
    let bare = position("4k3/8/8/8/8/8/8/4K3 w - - 0 1");
    assert_eq!(game_over(&bare), Some(EndType::Draw(DrawReason::InsufficientMaterial)));
    // King and lone bishop cannot mate either.
    let bishop = position("4k3/8/8/8/8/8/8/2B1K3 w - - 0 1");
    assert_eq!(game_over(&bishop), Some(EndType::Draw(DrawReason::InsufficientMaterial)));
    // The starting position is not over.
    let start = position("rnbqkbnr/pppppppp/8/8/8/8/PPPPPPPP/RNBQKBNR w KQkq - 0 1");
    assert_eq!(game_over(&start), None);
    assert_eq!(PlayerTeam::White.other(), PlayerTeam::Black);
}
