//! Positions and moves.
//!
//! A position is a `cozy_chess::Board`, carried through as an opaque value.
//! Everything the search learns about a position it learns by asking
//! `cozy_chess`. Each question has a name that contracts can use, and the
//! function that asks it is trusted to return what the name stands for;
//! nothing else in this crate is taken on trust about a position.
//!
//! Moves, sides and kinds of pieces are plain data of this crate, so that
//! contracts can look into them. They are rewritten from and to those of
//! `cozy_chess` at each call.

use cozy_chess::Board;
use vstd::prelude::*;

verus! {

/// `cozy_chess::Board`, as a type whose values the verifier cannot look
/// into.
#[verifier::external_type_specification]
#[verifier::external_body]
pub struct ExBoard(Board);

/// The kind of a chess piece, in the order `cozy_chess` lists them.
#[derive(Clone, Copy, Debug, PartialEq, Eq, Hash, Structural)]
pub enum Piece {
    Pawn,
    Knight,
    Bishop,
    Rook,
    Queen,
    King,
}

/// A side.
#[derive(Clone, Copy, Debug, PartialEq, Eq, Hash, Structural)]
pub enum Color {
    White,
    Black,
}

/// Whether a game has ended, and how.
#[derive(Clone, Copy, Debug, PartialEq, Eq, Hash, Structural)]
pub enum GameStatus {
    /// The side to move is checkmated.
    Won,
    /// Stalemate, or a hundred half-moves without capture or pawn move.
    Drawn,
    Ongoing,
}

/// A move: the squares it leaves and reaches, and the piece a pawn turns
/// into on the last rank. Squares are numbered rank by rank from the first,
/// `a1 = 0`, `b1 = 1`, ..., `h8 = 63`. Castling is written as the king
/// moving onto its own rook.
#[derive(Clone, Copy, Debug, PartialEq, Eq, Hash, Structural)]
pub struct Move {
    pub from: u8,
    pub to: u8,
    pub promotion: Option<Piece>,
}

/// The legal moves of a position, in the order `Board::generate_moves`
/// reports them.
pub uninterp spec fn legal_moves_of(board: Board) -> Seq<Move>;

/// The position that `Board::play_unchecked` leaves after a move.
pub uninterp spec fn successor_of(board: Board, mv: Move) -> Board;

/// What `Board::status` says of a position.
pub uninterp spec fn status_of(board: Board) -> GameStatus;

/// The side that `Board::side_to_move` names.
pub uninterp spec fn side_to_move_of(board: Board) -> Color;

/// How many pieces of one kind a side has: the size of
/// `Board::colored_pieces`.
pub uninterp spec fn piece_count_of(board: Board, color: Color, piece: Piece) -> nat;

/// The position with the turn passed and nothing moved, as `Board::null_move`
/// gives it; `None` where the side to move is in check.
pub uninterp spec fn passed_of(board: Board) -> Option<Board>;

impl Color {
    /// The opponent of a side.
    pub open spec fn other(self) -> Color {
        match self {
            Color::White => Color::Black,
            Color::Black => Color::White,
        }
    }

    /// The opponent of a side.
    pub fn opponent(self) -> (c: Color)
        ensures
            c == self.other(),
    {
        match self {
            Color::White => Color::Black,
            Color::Black => Color::White,
        }
    }
}

/// All legal moves of `board`.
///
/// Trusted: the result is what `Board::generate_moves` hands to its
/// listener, in that order, each `cozy_chess::Move` rewritten field by
/// field: a square as its index, a piece as the piece of the same name.
#[verifier::external_body]
pub(crate) fn legal_moves(board: &Board) -> (moves: Vec<Move>)
    ensures
        moves@ == legal_moves_of(*board),
{
    let mut found: Vec<Move> = Vec::new();
    let rewrite = |m: cozy_chess::Move| Move {
        from: m.from as u8,
        to: m.to as u8,
        promotion: m.promotion.map(|p| match p {
            cozy_chess::Piece::Pawn => Piece::Pawn,
            cozy_chess::Piece::Knight => Piece::Knight,
            cozy_chess::Piece::Bishop => Piece::Bishop,
            cozy_chess::Piece::Rook => Piece::Rook,
            cozy_chess::Piece::Queen => Piece::Queen,
            cozy_chess::Piece::King => Piece::King,
        }),
    };
    board.generate_moves(|piece_moves| { found.extend(piece_moves.into_iter().map(rewrite)); false });
    found
}

/// The position after `mv`, which must be legal in `board`.
///
/// Trusted: the result is a copy of `board` on which
/// `Board::play_unchecked` was called with the same move, rewritten field
/// by field. That method may panic on an illegal move, and so does
/// `Square::index` on an index that no legal move has; hence the
/// precondition.
#[verifier::external_body]
pub(crate) fn play(board: &Board, mv: Move) -> (next: Board)
    requires
        legal_moves_of(*board).contains(mv),
    ensures
        next == successor_of(*board, mv),
{
    let mut next = board.clone();
    next.play_unchecked(cozy_chess::Move {
        from: cozy_chess::Square::index(mv.from as usize),
        to: cozy_chess::Square::index(mv.to as usize),
        promotion: mv.promotion.map(|p| match p {
            Piece::Pawn => cozy_chess::Piece::Pawn,
            Piece::Knight => cozy_chess::Piece::Knight,
            Piece::Bishop => cozy_chess::Piece::Bishop,
            Piece::Rook => cozy_chess::Piece::Rook,
            Piece::Queen => cozy_chess::Piece::Queen,
            Piece::King => cozy_chess::Piece::King,
        }),
    });
    next
}

/// Whether the game at `board` has ended.
///
/// Trusted: the result is the variant of the same name that `Board::status`
/// returns.
#[verifier::external_body]
pub(crate) fn status(board: &Board) -> (s: GameStatus)
    ensures
        s == status_of(*board),
{
    match board.status() {
        cozy_chess::GameStatus::Won => GameStatus::Won,
        cozy_chess::GameStatus::Drawn => GameStatus::Drawn,
        cozy_chess::GameStatus::Ongoing => GameStatus::Ongoing,
    }
}

/// The side to move at `board`.
///
/// Trusted: the result is the variant of the same name that
/// `Board::side_to_move` returns.
#[verifier::external_body]
pub(crate) fn side_to_move(board: &Board) -> (c: Color)
    ensures
        c == side_to_move_of(*board),
{
    match board.side_to_move() {
        cozy_chess::Color::White => Color::White,
        cozy_chess::Color::Black => Color::Black,
    }
}

/// The number of `color`'s pieces of kind `piece` on `board`.
///
/// Trusted: the result is the size of the square set that
/// `Board::colored_pieces` returns, which holds at most the 64 squares of
/// the board.
#[verifier::external_body]
pub(crate) fn piece_count(board: &Board, color: Color, piece: Piece) -> (n: u32)
    ensures
        n == piece_count_of(*board, color, piece),
        n <= 64,
{
    let side = match color {
        Color::White => cozy_chess::Color::White,
        Color::Black => cozy_chess::Color::Black,
    };
    let kind = match piece {
        Piece::Pawn => cozy_chess::Piece::Pawn,
        Piece::Knight => cozy_chess::Piece::Knight,
        Piece::Bishop => cozy_chess::Piece::Bishop,
        Piece::Rook => cozy_chess::Piece::Rook,
        Piece::Queen => cozy_chess::Piece::Queen,
        Piece::King => cozy_chess::Piece::King,
    };
    board.colored_pieces(side, kind).len()
}

/// `board` with the turn passed to the opponent, if passing is allowed.
///
/// Trusted: the result is what `Board::null_move` returns.
#[verifier::external_body]
pub(crate) fn pass_turn(board: &Board) -> (passed: Option<Board>)
    ensures
        passed == passed_of(*board),
{
    board.null_move()
}

} // verus!
