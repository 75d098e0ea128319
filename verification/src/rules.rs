//! The interface to the rules engine (the `chess` crate).
//!
//! The engine's board and move types are declared opaque, and everything the
//! search reads from them goes through a small set of trusted wrappers, one
//! per rules-engine function.  Each wrapper names its result with an
//! uninterpreted spec function, so that to the verifier the rules engine is a
//! fixed (if unknown) mathematical function of the position: two calls on
//! equal inputs yield equal results, which is what lets the search carry
//! exact contracts.
//!
//! A [`Position`] pairs the opaque board with the plain values the evaluator
//! reads from it (piece bitboards, side to move, checking pieces).  Positions
//! are built only by [`Position::from_board`] and [`Position::apply_move`],
//! whose contracts say the plain fields are exactly what the rules engine
//! reports for the carried board; [`Position::wf`] records that fact.

use vstd::prelude::*;

verus! {

/// The rules engine's board type, opaque to verification.
#[verifier::external_type_specification]
#[verifier::external_body]
pub struct ExBoard(chess::Board);

/// The rules engine's move type, opaque to verification.
#[verifier::external_type_specification]
#[verifier::external_body]
pub struct ExChessMove(chess::ChessMove);

/// Piece-kind indices, in the rules engine's own order.
pub const PAWN: u8 = 0;

pub const KNIGHT: u8 = 1;

pub const BISHOP: u8 = 2;

pub const ROOK: u8 = 3;

pub const QUEEN: u8 = 4;

pub const KING: u8 = 5;

/// What `chess::Board::pieces` returns: the bitboard of one piece kind.
pub uninterp spec fn pieces_bb_of(b: chess::Board, kind: u8) -> u64;

/// What `chess::Board::color_combined` returns: the bitboard of one color.
pub uninterp spec fn color_bb_of(b: chess::Board, white: bool) -> u64;

/// What `chess::Board::side_to_move` returns, as "is it White's turn".
pub uninterp spec fn white_of(b: chess::Board) -> bool;

/// What `chess::Board::checkers` returns: the pieces giving check to the
/// side to move.
pub uninterp spec fn checkers_of(b: chess::Board) -> u64;

/// What `chess::MoveGen::new_legal` enumerates: the legal moves, in the
/// generator's order.
pub uninterp spec fn moves_of(b: chess::Board) -> Seq<chess::ChessMove>;

/// What `chess::Board::make_move_new` returns on a legal move.
pub uninterp spec fn make_move_of(b: chess::Board, mv: chess::ChessMove) -> chess::Board;

/// What `chess::Board::null_move` returns: the same position with the turn
/// passed, or `None` when the side to move is in check.
pub uninterp spec fn null_of(b: chess::Board) -> Option<chess::Board>;

/// What `chess::ChessMove::get_source` returns, as a square index.
pub uninterp spec fn source_of(mv: chess::ChessMove) -> u8;

/// What `chess::ChessMove::get_dest` returns, as a square index.
pub uninterp spec fn dest_of(mv: chess::ChessMove) -> u8;

/// What `chess::ChessMove::get_promotion` returns, as a piece-kind index.
pub uninterp spec fn promo_of(mv: chess::ChessMove) -> Option<u8>;

/// Relies on `chess::Board::pieces`: hands back the raw bitboard of one
/// piece kind.
#[verifier::external_body]
fn board_pieces(b: &chess::Board, kind: u8) -> (r: u64)
    requires
        kind < 6,
    ensures
        r == pieces_bb_of(*b, kind),
{
    match kind {
        0 => b.pieces(chess::Piece::Pawn).0,
        1 => b.pieces(chess::Piece::Knight).0,
        2 => b.pieces(chess::Piece::Bishop).0,
        3 => b.pieces(chess::Piece::Rook).0,
        4 => b.pieces(chess::Piece::Queen).0,
        _ => b.pieces(chess::Piece::King).0,
    }
}

/// Relies on `chess::Board::color_combined`: the bitboard of every piece of
/// one color.
#[verifier::external_body]
fn board_color(b: &chess::Board, white: bool) -> (r: u64)
    ensures
        r == color_bb_of(*b, white),
{
    if white {
        b.color_combined(chess::Color::White).0
    } else {
        b.color_combined(chess::Color::Black).0
    }
}

/// Relies on `chess::Board::side_to_move`.
#[verifier::external_body]
fn board_white_to_move(b: &chess::Board) -> (r: bool)
    ensures
        r == white_of(*b),
{
    match b.side_to_move() {
        chess::Color::White => true,
        chess::Color::Black => false,
    }
}

/// Relies on `chess::Board::checkers`: the bitboard of pieces giving check
/// to the side to move.
#[verifier::external_body]
fn board_checkers(b: &chess::Board) -> (r: u64)
    ensures
        r == checkers_of(*b),
{
    b.checkers().0
}

/// Relies on `chess::MoveGen::new_legal`: enumerates exactly the legal moves
/// of the position.
#[verifier::external_body]
pub fn legal_moves(b: &chess::Board) -> (r: Vec<chess::ChessMove>)
    ensures
        r@ == moves_of(*b),
{
    chess::MoveGen::new_legal(b).collect()
}

/// Relies on `chess::Board::make_move_new`.  Its source panics when the
/// move's source square is empty, so only legal moves are admitted.
#[verifier::external_body]
fn board_make_move(b: &chess::Board, mv: chess::ChessMove) -> (r: chess::Board)
    requires
        moves_of(*b).contains(mv),
    ensures
        r == make_move_of(*b, mv),
{
    b.make_move_new(mv)
}

/// Relies on `chess::Board::null_move`: its source returns `None` exactly
/// when the side to move is in check, else a copy of the board with only
/// the turn, en-passant rights and check bookkeeping changed — every
/// piece and color bitboard is carried over and the side to move flips.
#[verifier::external_body]
fn board_null_move(b: &chess::Board) -> (r: Option<chess::Board>)
    ensures
        r == null_of(*b),
        r is Some <==> checkers_of(*b) == 0,
        r matches Some(b2) ==> {
            &&& forall|k: u8| k < 6 ==> pieces_bb_of(b2, k) == pieces_bb_of(*b, k)
            &&& color_bb_of(b2, true) == color_bb_of(*b, true)
            &&& color_bb_of(b2, false) == color_bb_of(*b, false)
            &&& white_of(b2) == !white_of(*b)
        },
{
    b.null_move()
}

/// Relies on `chess::ChessMove::get_source` and `chess::Square::to_int`;
/// squares built by the crate's safe constructors index 0..64.
#[verifier::external_body]
pub fn move_source(mv: &chess::ChessMove) -> (r: u8)
    ensures
        r == source_of(*mv),
        r < 64,
{
    mv.get_source().to_int()
}

/// Relies on `chess::ChessMove::get_dest` and `chess::Square::to_int`;
/// squares built by the crate's safe constructors index 0..64.
#[verifier::external_body]
pub fn move_dest(mv: &chess::ChessMove) -> (r: u8)
    ensures
        r == dest_of(*mv),
        r < 64,
{
    mv.get_dest().to_int()
}

/// Relies on `chess::ChessMove::get_promotion` and `chess::Piece::to_index`.
#[verifier::external_body]
pub fn move_promotion(mv: &chess::ChessMove) -> (r: Option<u8>)
    ensures
        r == promo_of(*mv),
        r matches Some(k) ==> k < 6,
{
    match mv.get_promotion() {
        None => None,
        Some(p) => Some(p.to_index() as u8),
    }
}

/// A snapshot of a board: the opaque rules-engine handle together with the
/// plain values the evaluator reads from it.
#[derive(Clone, Copy)]
pub struct Position {
    /// The rules engine's own board, used for every call back into it.
    pub board: chess::Board,
    /// Bitboard of pawns of both colors.
    pub pawns: u64,
    /// Bitboard of knights of both colors.
    pub knights: u64,
    /// Bitboard of bishops of both colors.
    pub bishops: u64,
    /// Bitboard of rooks of both colors.
    pub rooks: u64,
    /// Bitboard of queens of both colors.
    pub queens: u64,
    /// Bitboard of kings of both colors.
    pub kings: u64,
    /// Bitboard of all white pieces.
    pub white: u64,
    /// Bitboard of all black pieces.
    pub black: u64,
    /// Whether it is White's turn.
    pub white_to_move: bool,
    /// Bitboard of the pieces giving check to the side to move.
    pub checkers: u64,
}

/// The snapshot the rules engine reports for a board.
pub open spec fn pos_of(b: chess::Board) -> Position {
    Position {
        board: b,
        pawns: pieces_bb_of(b, PAWN),
        knights: pieces_bb_of(b, KNIGHT),
        bishops: pieces_bb_of(b, BISHOP),
        rooks: pieces_bb_of(b, ROOK),
        queens: pieces_bb_of(b, QUEEN),
        kings: pieces_bb_of(b, KING),
        white: color_bb_of(b, true),
        black: color_bb_of(b, false),
        white_to_move: white_of(b),
        checkers: checkers_of(b),
    }
}

impl Position {
    /// The plain fields are exactly the rules engine's report on `board`.
    pub open spec fn wf(self) -> bool {
        self == pos_of(self.board)
    }

    /// The snapshot of a rules-engine board.
    pub fn from_board(b: &chess::Board) -> (r: Position)
        ensures
            r == pos_of(*b),
            r.wf(),
    {
        Position {
            board: *b,
            pawns: board_pieces(b, PAWN),
            knights: board_pieces(b, KNIGHT),
            bishops: board_pieces(b, BISHOP),
            rooks: board_pieces(b, ROOK),
            queens: board_pieces(b, QUEEN),
            kings: board_pieces(b, KING),
            white: board_color(b, true),
            black: board_color(b, false),
            white_to_move: board_white_to_move(b),
            checkers: board_checkers(b),
        }
    }

    /// The position after a legal move.
    pub fn apply_move(&self, mv: chess::ChessMove) -> (r: Position)
        requires
            moves_of(self.board).contains(mv),
        ensures
            r == pos_of(make_move_of(self.board, mv)),
            r.wf(),
    {
        let b2 = board_make_move(&self.board, mv);
        Position::from_board(&b2)
    }

    /// The position with the turn passed, or `None` when the side to move is
    /// in check.  Passing the turn keeps every piece where it stands and
    /// flips the side to move.
    pub fn pass_turn(&self) -> (r: Option<Position>)
        ensures
            match r {
                Some(q) => null_of(self.board) matches Some(b2) && q == pos_of(b2) && q.wf(),
                None => null_of(self.board) is None,
            },
            r is Some <==> checkers_of(self.board) == 0,
            self.wf() ==> match r {
                Some(q) => {
                    &&& q.pawns == self.pawns
                    &&& q.knights == self.knights
                    &&& q.bishops == self.bishops
                    &&& q.rooks == self.rooks
                    &&& q.queens == self.queens
                    &&& q.kings == self.kings
                    &&& q.white == self.white
                    &&& q.black == self.black
                    &&& q.white_to_move == !self.white_to_move
                },
                None => true,
            },
    {
        match board_null_move(&self.board) {
            Some(b2) => Some(Position::from_board(&b2)),
            None => None,
        }
    }

    /// The bitboard of one color.
    pub fn color_bb(&self, white: bool) -> (r: u64)
        ensures
            r == spec_color_bb(*self, white),
    {
        if white {
            self.white
        } else {
            self.black
        }
    }

}

/// The bitboard of one color.
pub open spec fn spec_color_bb(p: Position, white: bool) -> u64 {
    if white {
        p.white
    } else {
        p.black
    }
}

} // verus!
