//! What a FEN string says of the board: the model that the decoder is
//! proved against.
//!
//! Only the first field of the string, up to its first space, is read. A
//! cursor starts on file 0 of rank 7. A digit moves it that many files on,
//! a `/` takes it to file 0 of the rank below, and any other character is
//! put down as a piece where the cursor stands, which then moves one file
//! on. The cursor is free to leave the board; what it would put down out
//! there is dropped.

use vstd::prelude::*;
use crate::chess_board::{on_board, square_at};

verus! {

/// The length of the first field of a text: the index of its first space,
/// or the length of the text where it has none.
pub open spec fn field_end(text: Seq<char>) -> int
    decreases text.len(),
{
    if text.len() == 0 {
        0
    } else {
        let before = field_end(text.drop_last());
        if before < text.len() - 1 {
            before
        } else if text.last() == ' ' {
            text.len() - 1
        } else {
            text.len() as int
        }
    }
}

/// The piece placement of a FEN string: its first field.
pub open spec fn placement_field(fen: Seq<char>) -> Seq<char> {
    fen.take(field_end(fen))
}

/// Whether a character of the placement skips empty squares.
pub open spec fn is_skip(c: char) -> bool {
    '0' <= c && c <= '9'
}

/// Whether a character of the placement is put on the board as a piece.
pub open spec fn is_symbol(c: char) -> bool {
    !is_skip(c) && c != '/'
}

/// The rank of the cursor after a placement has been read.
pub open spec fn cursor_rank(field: Seq<char>) -> int
    decreases field.len(),
{
    if field.len() == 0 {
        7
    } else if field.last() == '/' {
        cursor_rank(field.drop_last()) - 1
    } else {
        cursor_rank(field.drop_last())
    }
}

/// The file of the cursor after a placement has been read.
pub open spec fn cursor_file(field: Seq<char>) -> int
    decreases field.len(),
{
    if field.len() == 0 {
        0
    } else if field.last() == '/' {
        0
    } else if is_skip(field.last()) {
        cursor_file(field.drop_last()) + (field.last() as int - '0' as int)
    } else {
        cursor_file(field.drop_last()) + 1
    }
}

/// The board without a piece.
pub open spec fn empty_squares() -> Seq<Option<char>> {
    Seq::new(64, |i: int| None)
}

/// The occupants of the sixty-four squares after a placement has been read.
pub open spec fn placed(field: Seq<char>) -> Seq<Option<char>>
    decreases field.len(),
{
    if field.len() == 0 {
        empty_squares()
    } else {
        let before = field.drop_last();
        let file = cursor_file(before);
        let rank = cursor_rank(before);
        if is_symbol(field.last()) && on_board(file, rank) {
            placed(before).update(square_at(file, rank), Some(field.last()))
        } else {
            placed(before)
        }
    }
}

/// The first field ends at the first space: no space lies before its end,
/// and a space stands there unless the text ends there.
pub proof fn lemma_field_end(text: Seq<char>)
    ensures
        0 <= field_end(text) <= text.len(),
        forall|j: int| 0 <= j < field_end(text) ==> text[j] != ' ',
        field_end(text) < text.len() ==> text[field_end(text)] == ' ',
    decreases text.len(),
{
    if text.len() > 0 {
        let before = text.drop_last();
        lemma_field_end(before);
        assert forall|j: int| 0 <= j < field_end(text) implies text[j] != ' ' by {
            if j < before.len() {
                assert(text[j] == before[j]);
            }
        }
    }
}

/// An index before which no space lies, and at which the text ends or a
/// space stands, is the end of the first field.
pub proof fn lemma_field_ends_at(text: Seq<char>, end: int)
    requires
        0 <= end <= text.len(),
        forall|j: int| 0 <= j < end ==> text[j] != ' ',
        end < text.len() ==> text[end] == ' ',
    ensures
        field_end(text) == end,
{
    lemma_field_end(text);
}

/// The cursor never moves left of file 0, and never above rank 7.
pub proof fn lemma_cursor_bounds(field: Seq<char>)
    ensures
        cursor_file(field) >= 0,
        cursor_rank(field) <= 7,
    decreases field.len(),
{
    if field.len() > 0 {
        lemma_cursor_bounds(field.drop_last());
    }
}

/// Reading a placement always leaves sixty-four squares.
pub proof fn lemma_placed_len(field: Seq<char>)
    ensures
        placed(field).len() == 64,
    decreases field.len(),
{
    if field.len() > 0 {
        lemma_placed_len(field.drop_last());
    }
}

/// A placement made of digits and `/` alone leaves every square empty.
pub proof fn lemma_no_symbol_no_piece(field: Seq<char>)
    requires
        forall|j: int| 0 <= j < field.len() ==> !is_symbol(#[trigger] field[j]),
    ensures
        placed(field) == empty_squares(),
    decreases field.len(),
{
    if field.len() > 0 {
        lemma_no_symbol_no_piece(field.drop_last());
    }
}

/// A FEN string whose first field is made of digits and `/` alone gives a
/// board on which every square is empty, whatever its other fields hold.
pub proof fn lemma_fen_without_pieces(fen: Seq<char>)
    requires
        forall|j: int| 0 <= j < field_end(fen) ==> !is_symbol(#[trigger] fen[j]),
    ensures
        placed(placement_field(fen)) == empty_squares(),
{
    lemma_field_end(fen);
    lemma_no_symbol_no_piece(placement_field(fen));
}

} // verus!
