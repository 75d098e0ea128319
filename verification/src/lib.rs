//! A verified chess move-search engine: a static position evaluator, a
//! depth-aware transposition table, an iteratively deepened negamax search
//! with alpha-beta pruning and quiescence, and a personality-driven move
//! selector.  The rules of chess themselves (legal move generation, move
//! application, check detection) come from the `chess` crate through a small
//! trusted interface; everything built on top of that interface is verified.

use vstd::prelude::*;

pub mod bitboards;
pub mod engine;
pub mod evaluation;
pub mod fingerprint;
pub mod game;
pub mod presets;
pub mod randomness;
pub mod rules;
pub mod selector;
pub mod search;
pub mod symmetry;
pub mod transposition_table;
pub mod zobrist;

verus! {

/// Scores are fixed-point integers: one pawn of advantage is `SCORE_SCALE`.
pub const SCORE_SCALE: i64 = 10000;

/// The sentinel "win" score: the upper end of every alpha-beta window, and
/// the score given to a root move that checkmates immediately.  Ordinary
/// evaluations stay strictly below it.
pub const SCORE_MAX: i64 = 1_000_000_000_000;

/// The sentinel "loss" score: `-SCORE_MAX`, so negation never overflows.
pub const SCORE_MIN: i64 = -1_000_000_000_000;

} // verus!
