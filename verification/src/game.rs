//! Game-over detection over a position snapshot: checkmate and stalemate
//! from the legal-move count and the checking pieces, and the
//! insufficient-material draw from the piece counts.

use vstd::prelude::*;

use crate::bitboards::{popcnt, popcount};
use crate::rules::{legal_moves, moves_of, Position};
use crate::search::{spec_is_checkmate, spec_is_stalemate};

verus! {

/// One side of the board.
#[derive(Clone, Copy, Debug, PartialEq, Eq, Structural)]
pub enum PlayerTeam {
    White,
    Black,
}

impl PlayerTeam {
    /// The opposing side.
    pub fn other(&self) -> (r: PlayerTeam)
        ensures
            r == (match self {
                PlayerTeam::White => PlayerTeam::Black,
                PlayerTeam::Black => PlayerTeam::White,
            }),
    {
        match self {
            PlayerTeam::White => PlayerTeam::Black,
            PlayerTeam::Black => PlayerTeam::White,
        }
    }
}

/// Why a finished game is drawn.
#[derive(Clone, Copy, Debug, PartialEq, Eq, Structural)]
pub enum DrawReason {
    Stalemate,
    InsufficientMaterial,
}

/// How a finished game ended: a win for one side, or a draw.
#[derive(Clone, Copy, Debug, PartialEq, Eq, Structural)]
pub enum EndType {
    Checkmate(PlayerTeam),
    Draw(DrawReason),
}

/// Whether neither side can force mate: no pawn, rook or queen remains,
/// and the minor pieces are a lone bishop, a lone knight, or less.
pub open spec fn spec_insufficient_material(p: Position) -> bool {
    popcnt(p.pawns) == 0 && popcnt(p.rooks) == 0 && popcnt(p.queens) == 0 && ((popcnt(p.bishops)
        < 2 && popcnt(p.knights) == 0) || (popcnt(p.knights) < 2 && popcnt(p.bishops) == 0))
}

/// Whether neither side can force mate.
pub fn check_insufficient_material(p: &Position) -> (r: bool)
    ensures
        r == spec_insufficient_material(*p),
{
    popcount(p.pawns) == 0 && popcount(p.rooks) == 0 && popcount(p.queens) == 0 && ((popcount(
        p.bishops,
    ) < 2 && popcount(p.knights) == 0) || (popcount(p.knights) < 2 && popcount(p.bishops) == 0))
}

/// How a finished game ended, if it is over: mate against the side to
/// move, a stalemate, or an insufficient-material draw — else `None`,
/// the game goes on.
pub open spec fn spec_game_over(p: Position) -> Option<EndType> {
    if spec_is_checkmate(p) {
        Some(
            EndType::Checkmate(
                if p.white_to_move {
                    PlayerTeam::Black
                } else {
                    PlayerTeam::White
                },
            ),
        )
    } else if spec_is_stalemate(p) {
        Some(EndType::Draw(DrawReason::Stalemate))
    } else if spec_insufficient_material(p) {
        Some(EndType::Draw(DrawReason::InsufficientMaterial))
    } else {
        None
    }
}

/// Whether the game in a position is over, and how.
pub fn game_over(p: &Position) -> (r: Option<EndType>)
    ensures
        r == spec_game_over(*p),
{
    let moves = legal_moves(&p.board);
    if moves.len() == 0 {
        if p.checkers != 0 {
            let winner = if p.white_to_move {
                PlayerTeam::Black
            } else {
                PlayerTeam::White
            };
            Some(EndType::Checkmate(winner))
        } else {
            Some(EndType::Draw(DrawReason::Stalemate))
        }
    } else if check_insufficient_material(p) {
        Some(EndType::Draw(DrawReason::InsufficientMaterial))
    } else {
        None
    }
}

/// Whether the given side's pieces are the ones giving check: the side to
/// move is in check from them.
pub fn in_check(p: &Position, team: PlayerTeam) -> (r: bool)
    ensures
        r == (match team {
            PlayerTeam::White => p.checkers & p.black != 0,
            PlayerTeam::Black => p.checkers & p.white != 0,
        }),
{
    match team {
        PlayerTeam::White => p.checkers & p.black != 0,
        PlayerTeam::Black => p.checkers & p.white != 0,
    }
}

} // verus!
