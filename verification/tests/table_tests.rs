//! Tests of the transposition table: depth-aware insertion, lookup,
//! eviction and best-move ordering.

use std::str::FromStr;

use uchess_engine::rules::Position;
use uchess_engine::transposition_table::{
    move_key, MoveKey, SearchFlag, SearchResult, TranspositionTable,
};
use uchess_engine::{SCORE_MAX, SCORE_MIN};

fn entry(depth: u32, score: i64, age: u16) -> SearchResult {
    SearchResult::new(depth, score, SearchFlag::Exact, age, None)
}

#[test]
fn add_and_get_round_trip() {
    let mut tt = TranspositionTable::new();
    assert_eq!(tt.size(), 0);
    tt.add(42, entry(3, 1234, 7));
    assert_eq!(tt.size(), 1);
    let e = tt.get(42, 3).expect("stored entry");
    assert_eq!(e.depth, 3);
    assert_eq!(e.score, 1234);
    assert_eq!(e.age, 7);
    assert!(matches!(e.flag, SearchFlag::Exact));
}

#[test]
fn lookup_never_returns_shallower_entry() {
    let mut tt = TranspositionTable::new();
    tt.add(9, entry(2, 55, 0));
    assert!(tt.get(9, 3).is_none());
    assert!(tt.get(9, 2).is_some());
    assert!(tt.get(9, 1).is_some());
    assert!(tt.get(8, 0).is_none());
}

#[test]
fn shallower_insert_after_deeper_is_noop() {
    let mut tt = TranspositionTable::new();
    tt.add(7, entry(5, 100, 1));
    tt.add(7, entry(3, -999, 2));
    let e = tt.get(7, 1).expect("entry kept");
    assert_eq!(e.depth, 5);
    assert_eq!(e.score, 100);
    assert_eq!(e.age, 1);
    // The same depth does not overwrite either.
    tt.add(7, entry(5, -999, 2));
    assert_eq!(tt.get(7, 1).unwrap().score, 100);
}

#[test]
fn deeper_insert_overwrites() {
    let mut tt = TranspositionTable::new();
    tt.add(7, entry(2, 100, 1));
    tt.add(7, entry(6, 200, 2));
    let e = tt.get(7, 1).expect("entry kept");
    assert_eq!(e.depth, 6);
    assert_eq!(e.score, 200);
}

#[test]
fn sentinel_scores_are_never_stored() {
    let mut tt = TranspositionTable::new();
    tt.add(1, entry(4, SCORE_MAX, 0));
    tt.add(2, entry(4, SCORE_MIN, 0));
    assert_eq!(tt.size(), 0);
    assert!(tt.get(1, 0).is_none());
    assert!(tt.get(2, 0).is_none());
}

#[test]
fn eviction_keeps_only_ages_within_horizon() {
    let mut tt = TranspositionTable::new();
    for age in 0u16..=20 {
        tt.add(age as u64, entry(1, age as i64, age));
    }
    assert_eq!(tt.size(), 21);
    tt.evict(20, 10);
    let mut survivors = 0;
    for age in 0u16..=20 {
        if let Some(e) = tt.get(age as u64, 0) {
            let distance = if e.age > 20 { e.age - 20 } else { 20 - e.age };
            assert!(distance <= 10, "survivor age {} outside horizon", e.age);
            survivors += 1;
        } else {
            assert!(age <= 10, "age {} should have survived", age);
        }
    }
    assert_eq!(survivors, 10);
    assert_eq!(tt.size(), 10);
}

#[test]
fn trim_is_noop_before_cutoff() {
    let mut tt = TranspositionTable::new();
    tt.add(1, entry(1, 5, 0));
    tt.trim(10);
    assert_eq!(tt.size(), 1);
    tt.trim(11);
    assert_eq!(tt.size(), 0);
}

#[test]
fn legal_moves_brings_cached_best_move_to_front() {
    let board = chess::Board::from_str(
        "rnbqkbnr/pppppppp/8/8/8/8/PPPPPPPP/RNBQKBNR w KQkq - 0 1",
    )
    .expect("valid FEN");
    let p = Position::from_board(&board);
    let mut tt = TranspositionTable::new();
    let plain: Vec<chess::ChessMove> = chess::MoveGen::new_legal(&board).collect();
    // Cache e2-e4 as the remembered best move.
    let e2e4 = chess::ChessMove::new(
        chess::Square::from_str("e2").unwrap(),
        chess::Square::from_str("e4").unwrap(),
        None,
    );
    let key = move_key(&e2e4);
    tt.add(77, SearchResult::new(2, 50, SearchFlag::Exact, 0, Some(key)));
    let ordered = tt.legal_moves(77, &p);
    assert_eq!(ordered.len(), plain.len());
    assert_eq!(ordered[0], e2e4);
    let mut sorted_a = ordered.clone();
    let mut sorted_b = plain.clone();
    sorted_a.sort();
    sorted_b.sort();
    assert_eq!(sorted_a, sorted_b);
}

#[test]
fn legal_moves_without_cached_entry_keeps_order() {
    let board = chess::Board::default();
    let p = Position::from_board(&board);
    let tt = TranspositionTable::new();
    let plain: Vec<chess::ChessMove> = chess::MoveGen::new_legal(&board).collect();
    let ordered = tt.legal_moves(1, &p);
    assert_eq!(ordered, plain);
}

#[test]
fn move_keys_identify_moves() {
    let a = chess::ChessMove::new(
        chess::Square::from_str("e2").unwrap(),
        chess::Square::from_str("e4").unwrap(),
        None,
    );
    let k = move_key(&a);
    assert_eq!(k.from, 12);
    assert_eq!(k.to, 28);
    assert!(k.promotion.is_none());
    let promo = chess::ChessMove::new(
        chess::Square::from_str("a7").unwrap(),
        chess::Square::from_str("a8").unwrap(),
        Some(chess::Piece::Queen),
    );
    let pk = move_key(&promo);
    assert_eq!(pk.from, 48);
    assert_eq!(pk.to, 56);
    assert_eq!(pk.promotion, Some(4));
    let _ = MoveKey { from: 0, to: 1, promotion: None };
}

#[test]
fn eviction_keeps_entries_newer_than_the_reference() {
    // Search stores child nodes one ply ahead, so ages past the
    // reference exist; they are never evicted.
    let mut tt = TranspositionTable::new();
    tt.add(1, entry(1, 5, 25));
    tt.add(2, entry(1, 5, 9));
    tt.evict(20, 10);
    assert!(tt.get(1, 0).is_some());
    assert!(tt.get(2, 0).is_none());
}
