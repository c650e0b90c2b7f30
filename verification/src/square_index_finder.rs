//! Finding a square by its name or by its file and rank, as free functions.

use vstd::prelude::*;
use crate::chess_board::{ChessBoard, SquareIndex, parse_notation, square_at};

verus! {

/// The square named by `notation`, or `None` where it names none.
pub fn from_notation(notation: &str) -> (square: Option<SquareIndex>)
    ensures
        match parse_notation(notation@) {
            Some(index) => square == Some(index as u8),
            None => square is None,
        },
        notation@.len() < 2 || !('1' <= notation@[1] && notation@[1] <= '8') ==> square is None,
{
    ChessBoard::square_from_notation(notation)
}

/// The index that a file and a rank add up to, with no check that either
/// lies on the board.
pub fn from_file_and_rank(file: SquareIndex, rank: SquareIndex) -> (index: SquareIndex)
    requires
        square_at(file as int, rank as int) <= u8::MAX,
    ensures
        index == square_at(file as int, rank as int),
{
    rank * 8 + file
}

} // verus!
