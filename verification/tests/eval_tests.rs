//! Tests of the static evaluator: material with pawn discounts, game
//! phase, exact values on small positions, and evaluation symmetry.

use std::str::FromStr;

use uchess_engine::evaluation::{eval, eval_material, GamePhase};
use uchess_engine::presets::{EvaluationPresets, PieceSquarePhases, PieceSquareTables};
use uchess_engine::rules::Position;
use uchess_engine::SCORE_SCALE;

fn zero_table() -> Vec<i64> {
    vec![0i64; 64]
}

fn zero_tables() -> PieceSquareTables {
    PieceSquareTables {
        pawn: zero_table(),
        knight: zero_table(),
        bishop: zero_table(),
        rook: zero_table(),
        queen: zero_table(),
        king: zero_table(),
    }
}

fn zero_phases() -> PieceSquarePhases {
    PieceSquarePhases {
        opening: zero_tables(),
        middle_game: zero_tables(),
        end_game: zero_tables(),
    }
}

fn standard_weights() -> Vec<i64> {
    vec![10000, 30000, 30000, 50000, 90000, 0]
}

fn flat_preset() -> EvaluationPresets {
    EvaluationPresets::new(
        standard_weights(),
        zero_phases(),
        vec![10000; 6],
        vec![10000],
        0,
        1,
        2,
    )
    .expect("valid preset")
}

fn position(fen: &str) -> Position {
    let board = chess::Board::from_str(fen).expect("valid FEN");
    Position::from_board(&board)
}

#[test]
fn material_is_zero_at_the_start() {
    let p = position("rnbqkbnr/pppppppp/8/8/8/8/PPPPPPPP/RNBQKBNR w KQkq - 0 1");
    assert_eq!(eval_material(&p, &standard_weights()), 0);
}

#[test]
fn material_counts_an_extra_knight() {
    let p = position("k7/8/8/8/8/8/N7/K7 w - - 0 1");
    assert_eq!(eval_material(&p, &standard_weights()), 30000);
}

#[test]
fn doubled_and_isolated_pawns_count_half() {
    // Two stacked pawns on the a-file: both isolated, the front one
    // doubled; the discount drops both to half a pawn.
    let p = position("4k3/8/8/8/8/P7/P7/4K3 w - - 0 1");
    assert_eq!(eval_material(&p, &standard_weights()), 3 * 5000);
    // A lone centre pawn is isolated: half a pawn.
    let q = position("4k3/8/8/8/8/8/4P3/4K3 w - - 0 1");
    assert_eq!(eval_material(&q, &standard_weights()), 5000);
    // Two connected pawns are neither doubled nor isolated.
    let r = position("4k3/8/8/8/8/8/4PP2/4K3 w - - 0 1");
    assert_eq!(eval_material(&r, &standard_weights()), 2 * 10000);
}

#[test]
fn game_phase_follows_the_piece_counts() {
    // The full starting position has eight minor pieces: middlegame by
    // the formula.
    let start = position("rnbqkbnr/pppppppp/8/8/8/8/PPPPPPPP/RNBQKBNR w KQkq - 0 1");
    assert_eq!(GamePhase::new(&start), GamePhase::MiddleGame);
    // Full pawn mass, exactly four minors, six majors: opening.
    let opening = position("r1bqkb1r/pppppppp/8/8/8/8/PPPPPPPP/R1BQKB1R w KQkq - 0 1");
    assert_eq!(GamePhase::new(&opening), GamePhase::Opening);
    // A king-and-pawn ending.
    let endgame = position("4k3/8/8/8/8/8/4P3/4K3 w - - 0 1");
    assert_eq!(GamePhase::new(&endgame), GamePhase::EndGame);
}

#[test]
fn eval_exact_on_a_pawn_endgame() {
    // Material: one isolated pawn = half a pawn.  Positional: all-zero
    // tables.  Mobility: White has six moves, Black five.  No checks.
    let p = position("4k3/8/8/8/8/8/4P3/4K3 w - - 0 1");
    let ps = flat_preset();
    assert_eq!(eval(&ps, &p), 5000 + (6 - 5) * SCORE_SCALE);
}

#[test]
fn eval_counts_the_check_bonus() {
    // A white rook gives check: one checking piece, White-positive.
    let checked = position("4k3/4R3/8/8/8/8/8/4K3 b - - 0 1");
    let base = EvaluationPresets::new(
        standard_weights(),
        zero_phases(),
        vec![10000; 6],
        vec![10000],
        0,
        1,
        2,
    )
    .unwrap();
    let bonus = EvaluationPresets::new(
        standard_weights(),
        zero_phases(),
        vec![10000; 6],
        vec![10000],
        70000,
        1,
        2,
    )
    .unwrap();
    let without = eval(&base, &checked);
    let with = eval(&bonus, &checked);
    assert_eq!(with - without, 70000);
}

fn mirror_board(b: &chess::Board) -> chess::Board {
    let mut builder = chess::BoardBuilder::new();
    for sq in chess::ALL_SQUARES {
        if let Some(piece) = b.piece_on(sq) {
            let color = b.color_on(sq).unwrap();
            let rank = chess::Rank::from_index(7 - sq.get_rank().to_index());
            let file = chess::File::from_index(7 - sq.get_file().to_index());
            builder.piece(chess::Square::make_square(rank, file), piece, !color);
        }
    }
    builder.side_to_move(!b.side_to_move());
    (&builder).try_into().expect("mirrored position is valid")
}

#[test]
fn evaluation_flips_sign_under_mirroring() {
    let fens = [
        "rnbqkbnr/pppppppp/8/8/4P3/8/PPPP1PPP/RNBQKBNR b - - 0 1",
        "r3k3/1pp2ppp/2n5/8/2B5/5N2/PPP2PPP/4K2R w - - 0 1",
        "4k3/8/8/3pP3/8/8/8/4K3 w - - 0 1",
    ];
    let ps = flat_preset();
    for fen in fens {
        let board = chess::Board::from_str(fen).expect("valid FEN");
        let mirrored = mirror_board(&board);
        let p = Position::from_board(&board);
        let q = Position::from_board(&mirrored);
        assert_eq!(eval(&ps, &p), -eval(&ps, &q), "symmetry failed for {fen}");
    }
}
