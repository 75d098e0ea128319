//! Tests of preset validation and the bitboard helpers.

use uchess_engine::bitboards::{
    doubled_pawns, east_one, file_fill, isolated_pawns, north_fill, popcount, south_fill, west_one,
};
use uchess_engine::presets::{
    EvaluationPresets, PieceSquarePhases, PieceSquareTables, PresetError,
};

fn zero_table() -> Vec<i64> {
    vec![0i64; 64]
}

fn zero_tables() -> PieceSquareTables {
    PieceSquareTables {
        pawn: zero_table(),
        knight: zero_table(),
        bishop: zero_table(),
        rook: zero_table(),
        queen: zero_table(),
        king: zero_table(),
    }
}

fn zero_phases() -> PieceSquarePhases {
    PieceSquarePhases {
        opening: zero_tables(),
        middle_game: zero_tables(),
        end_game: zero_tables(),
    }
}

fn weights() -> Vec<i64> {
    vec![10000, 30000, 30000, 50000, 90000, 0]
}

fn err_of(r: Result<EvaluationPresets, PresetError>) -> PresetError {
    match r {
        Ok(_) => panic!("preset unexpectedly accepted"),
        Err(e) => e,
    }
}

#[test]
fn a_valid_preset_is_accepted() {
    let ps = EvaluationPresets::new(
        weights(),
        zero_phases(),
        vec![10000; 6],
        vec![1, 2, 3],
        70000,
        500,
        2000,
    )
    .expect("valid preset");
    assert_eq!(ps.piece_weights, weights());
    assert_eq!(ps.check_bonus, 70000);
    for _ in 0..20 {
        assert!(ps.get_random_depth() < 3);
        let d = ps.get_thinking_duration();
        assert!((500..2000).contains(&d));
    }
}

#[test]
fn each_malformed_field_is_reported() {
    let e = EvaluationPresets::new(vec![1, 2], zero_phases(), vec![10000; 6], vec![1], 0, 1, 2);
    assert_eq!(err_of(e), PresetError::BadPieceWeights);

    let mut short = zero_phases();
    short.end_game.queen = vec![0; 63];
    let e = EvaluationPresets::new(weights(), short, vec![10000; 6], vec![1], 0, 1, 2);
    assert_eq!(err_of(e), PresetError::BadSquareTables);

    let e = EvaluationPresets::new(weights(), zero_phases(), vec![10001; 6], vec![1], 0, 1, 2);
    assert_eq!(err_of(e), PresetError::BadMoveHit);

    let e = EvaluationPresets::new(weights(), zero_phases(), vec![10000; 6], Vec::new(), 0, 1, 2);
    assert_eq!(err_of(e), PresetError::BadDepthLevels);

    let e = EvaluationPresets::new(
        weights(),
        zero_phases(),
        vec![10000; 6],
        vec![1],
        1_000_000_000,
        1,
        2,
    );
    assert_eq!(err_of(e), PresetError::BadCheckBonus);

    let e = EvaluationPresets::new(weights(), zero_phases(), vec![10000; 6], vec![1], 0, 5, 5);
    assert_eq!(err_of(e), PresetError::BadThinkingTime);
}

#[test]
fn popcount_counts_bits() {
    assert_eq!(popcount(0), 0);
    assert_eq!(popcount(u64::MAX), 64);
    assert_eq!(popcount(0b1011_0001), 4);
    for x in [0x0123_4567_89ab_cdefu64, 0xfedc_ba98_7654_3210u64, 1u64 << 63] {
        assert_eq!(popcount(x), x.count_ones() as u64);
    }
}

#[test]
fn fills_span_their_files() {
    // A single pawn on e2 (bit 12).
    let e2 = 1u64 << 12;
    let e_file = 0x1010_1010_1010_1010u64;
    assert_eq!(file_fill(e2), e_file);
    assert_eq!(north_fill(e2), e_file & !(1u64 << 4));
    assert_eq!(south_fill(e2), (1u64 << 4) | (1u64 << 12));
    assert_eq!(south_fill(e2) | north_fill(e2), e_file);
    assert_eq!(east_one(e2), 1u64 << 13);
    assert_eq!(west_one(e2), 1u64 << 11);
    // Shifts never wrap across files.
    let h1 = 1u64 << 7;
    assert_eq!(east_one(h1), 0);
    let a1 = 1u64;
    assert_eq!(west_one(a1), 0);
}

#[test]
fn doubled_and_isolated_pawn_sets() {
    // White pawns a2 (8) and a3 (16): the front pawn of the pair is
    // doubled; both are isolated.
    let pawns = (1u64 << 8) | (1u64 << 16);
    assert_eq!(doubled_pawns(pawns, true), 1u64 << 16);
    assert_eq!(doubled_pawns(pawns, false), 1u64 << 8);
    assert_eq!(isolated_pawns(pawns), pawns);
    // Connected pawns e2, f2 are neither.
    let connected = (1u64 << 12) | (1u64 << 13);
    assert_eq!(doubled_pawns(connected, true), 0);
    assert_eq!(isolated_pawns(connected), 0);
}
