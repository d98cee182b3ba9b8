//! Static evaluation: the score of a position for the side to move, without
//! looking ahead.

use crate::position::{
    legal_moves, legal_moves_of, pass_turn, passed_of, piece_count, piece_count_of, side_to_move,
    side_to_move_of, status, status_of, Color, GameStatus, Piece,
};
use cozy_chess::Board;
use vstd::prelude::*;

verus! {

/// The score of a lost position. Its negation is the score of a won one. No
/// heuristic score reaches either.
pub const MATE_SCORE: i32 = 20_000;

/// The weight of the difference in mobility, in centipawns a move.
pub const MOBILITY_WEIGHT: i32 = 10;

/// The material of one side in centipawns.
pub open spec fn material_of(board: Board, player: Color) -> nat {
    100 * piece_count_of(board, player, Piece::Pawn)
        + 320 * piece_count_of(board, player, Piece::Knight)
        + 330 * piece_count_of(board, player, Piece::Bishop)
        + 500 * piece_count_of(board, player, Piece::Rook)
        + 900 * piece_count_of(board, player, Piece::Queen)
}

/// The mobility of one side: the number of its legal moves if it is to
/// move, else the number it would have if the side to move passed, and
/// none where passing is not allowed.
pub open spec fn mobility_of(board: Board, player: Color) -> int {
    if player == side_to_move_of(board) {
        legal_moves_of(board).len() as int
    } else {
        match passed_of(board) {
            Some(passed) => legal_moves_of(passed).len() as int,
            None => 0,
        }
    }
}

/// Material and weighted mobility of the side to move, less those of its
/// opponent.
pub open spec fn heuristic_of(board: Board) -> int {
    let us = side_to_move_of(board);
    let them = us.other();
    material_of(board, us) - material_of(board, them) + MOBILITY_WEIGHT * (mobility_of(board, us)
        - mobility_of(board, them))
}

/// `v` moved into the range from `low` to `high`.
pub open spec fn clamp(v: int, low: int, high: int) -> int {
    if v < low {
        low
    } else if v > high {
        high
    } else {
        v
    }
}

/// The score of a position for the side to move: `-MATE_SCORE` if it is
/// checkmated, 0 for a draw, else the heuristic, kept strictly between the
/// two decisive scores.
pub open spec fn evaluation_of(board: Board) -> int {
    match status_of(board) {
        GameStatus::Won => -MATE_SCORE,
        GameStatus::Drawn => 0,
        GameStatus::Ongoing => clamp(heuristic_of(board), 1 - MATE_SCORE, MATE_SCORE - 1),
    }
}

/// Material value for the given player, in centipawns.
pub fn count_material(board: &Board, player: Color) -> (score: i32)
    ensures
        score == material_of(*board, player),
        0 <= score <= 137_600,
{
    let pawns: u32 = piece_count(board, player, Piece::Pawn);
    let knights: u32 = piece_count(board, player, Piece::Knight);
    let bishops: u32 = piece_count(board, player, Piece::Bishop);
    let rooks: u32 = piece_count(board, player, Piece::Rook);
    let queens: u32 = piece_count(board, player, Piece::Queen);
    let score: u32 = pawns * 100 + knights * 320 + bishops * 330 + rooks * 500 + queens * 900;
    score as i32
}

/// The number of legal moves of the side to move.
pub fn count_moves(board: &Board) -> (n: usize)
    ensures
        n == legal_moves_of(*board).len(),
{
    legal_moves(board).len()
}

/// Mobility of the given player: the number of legal moves it has, or would
/// have after a pass of its opponent.
pub fn calculate_mobility(board: &Board, player: Color) -> (n: usize)
    ensures
        n == mobility_of(*board, player),
{
    if player == side_to_move(board) {
        count_moves(board)
    } else {
        match pass_turn(board) {
            Some(passed) => count_moves(&passed),
            None => 0,
        }
    }
}

/// Evaluates the board from the perspective of the side to move.
pub fn evaluate(board: &Board) -> (score: i32)
    ensures
        score == evaluation_of(*board),
        -MATE_SCORE <= score <= MATE_SCORE,
        score == -MATE_SCORE <==> status_of(*board) == GameStatus::Won,
        score != MATE_SCORE,
{
    match status(board) {
        GameStatus::Won => -MATE_SCORE,
        GameStatus::Drawn => 0,
        GameStatus::Ongoing => {
            let us = side_to_move(board);
            let them = us.opponent();
            let material_diff: i32 = count_material(board, us) - count_material(board, them);
            let our_mobility: i128 = calculate_mobility(board, us) as i128;
            let their_mobility: i128 = calculate_mobility(board, them) as i128;
            let mobility_diff: i128 = our_mobility - their_mobility;
            let weight: i128 = MOBILITY_WEIGHT as i128;
            assert(weight == 10);
            let eval: i128 = material_diff as i128 + mobility_diff * weight;
            if eval < (1 - MATE_SCORE) as i128 {
                1 - MATE_SCORE
            } else if eval > (MATE_SCORE - 1) as i128 {
                MATE_SCORE - 1
            } else {
                eval as i32
            }
        },
    }
}

} // verus!
