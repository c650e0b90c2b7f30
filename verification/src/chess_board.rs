//! The board: sixty-four squares in row-major order, the arithmetic that
//! names them, and the decoding of a FEN piece placement.

use vstd::prelude::*;
use vstd::std_specs::iter::IteratorSpec;
use vstd::string::StrSliceExecFns;
use crate::chess_move::{ChessMove, move_from};
use crate::fen::{
    cursor_file, cursor_rank, empty_squares, lemma_cursor_bounds, lemma_field_ends_at, placed,
    placement_field,
};
use crate::piece::{Piece, piece_moves, symbol_of};

verus! {

/// The index of a square: rank by rank from `a1`, which is 0, to `h8`,
/// which is 63.
pub type SquareIndex = u8;

/// The index of a file, 0 for file `a`.
pub type FileIndex = u8;

/// The index of a rank, 0 for rank 1.
pub type RankIndex = u8;

/// The number of ranks of the board.
pub const TOTAL_RANKS: RankIndex = 8;

/// The number of files of the board.
pub const TOTAL_FILES: FileIndex = 8;

/// The number of squares of the board.
pub const TOTAL_SQUARES: SquareIndex = 64;

/// Whether a file and a rank name a square of the board.
pub open spec fn on_board(file: int, rank: int) -> bool {
    0 <= file < 8 && 0 <= rank < 8
}

/// The index of the square on a file and a rank: ranks follow one another,
/// eight squares each.
pub open spec fn square_at(file: int, rank: int) -> int {
    rank * 8 + file
}

/// The file of a square.
pub open spec fn file_of(index: int) -> int {
    index % 8
}

/// The rank of a square.
pub open spec fn rank_of(index: int) -> int {
    index / 8
}

/// The letter of a file, `a` for file 0.
pub open spec fn file_letter(file: int) -> char {
    ('a' as int + file) as char
}

/// The digit of a rank, `1` for rank 0.
pub open spec fn rank_digit(rank: int) -> char {
    ('1' as int + rank) as char
}

/// The algebraic name of a square: its file letter, then its rank digit.
pub open spec fn notation_of(index: int) -> Seq<char> {
    seq![file_letter(file_of(index)), rank_digit(rank_of(index))]
}

/// The square that a text names: exactly two characters, a file letter
/// `a`-`h` and a rank digit `1`-`8`.
pub open spec fn parse_notation(text: Seq<char>) -> Option<int> {
    if text.len() == 2 && 'a' <= text[0] && text[0] <= 'h' && '1' <= text[1] && text[1] <= '8' {
        Some(square_at(text[0] as int - 'a' as int, text[1] as int - '1' as int))
    } else {
        None
    }
}

/// Taking a square apart and putting it together again changes nothing, and
/// neither does the converse.
pub proof fn lemma_file_and_rank_round_trip(file: int, rank: int)
    requires
        on_board(file, rank),
    ensures
        0 <= square_at(file, rank) < 64,
        file_of(square_at(file, rank)) == file,
        rank_of(square_at(file, rank)) == rank,
{
}

/// Every square is the one on its own file and rank.
pub proof fn lemma_square_of_its_file_and_rank(index: int)
    requires
        0 <= index < 64,
    ensures
        on_board(file_of(index), rank_of(index)),
        square_at(file_of(index), rank_of(index)) == index,
{
}

/// Reading the name of a square gives that square back.
pub proof fn lemma_notation_round_trip(index: int)
    requires
        0 <= index < 64,
    ensures
        parse_notation(notation_of(index)) == Some(index),
{
}

/// A text is the name of the square it parses to, and of no other.
pub proof fn lemma_parsed_text_is_the_name(text: Seq<char>)
    ensures
        match parse_notation(text) {
            Some(index) => 0 <= index < 64 && text == notation_of(index),
            None => forall|index: int| 0 <= index < 64 ==> text != #[trigger] notation_of(index),
        },
{
    match parse_notation(text) {
        Some(index) => {
            assert(text =~= notation_of(index));
        },
        None => {
            assert forall|index: int| 0 <= index < 64 implies text != #[trigger] notation_of(
                index,
            ) by {
                lemma_notation_round_trip(index);
            }
        },
    }
}

/// A text whose second character is missing or is no digit from `1` to `8`
/// names no square.
pub proof fn lemma_bad_rank_names_no_square(text: Seq<char>)
    requires
        text.len() < 2 || !('1' <= text[1] && text[1] <= '8'),
    ensures
        parse_notation(text) is None,
{
}

/// The board: a slot for each of the sixty-four squares, and for each square
/// a flag that marks it as highlighted.
pub struct ChessBoard {
    board: [Option<Piece>; 64],
    highlit: [bool; 64],
}

/// What a board holds: the symbol of the piece on each square, if any, and
/// the highlight of each square. Both have sixty-four entries.
pub struct BoardView {
    pub occupants: Seq<Option<char>>,
    pub highlit: Seq<bool>,
}

/// The moves that a board answers for a square with: those of the piece
/// that stands there, none for an empty square.
pub open spec fn moves_on(occupants: Seq<Option<char>>, square: SquareIndex) -> Seq<ChessMove> {
    match occupants[square as int] {
        Some(symbol) => piece_moves(symbol, square),
        None => Seq::empty(),
    }
}

/// No square highlighted.
pub open spec fn no_highlights() -> Seq<bool> {
    Seq::new(64, |i: int| false)
}

impl View for ChessBoard {
    type V = BoardView;

    closed spec fn view(&self) -> BoardView {
        BoardView {
            occupants: Seq::new(64, |i: int| symbol_of(self.board@[i])),
            highlit: self.highlit@,
        }
    }
}

impl ChessBoard {
    /// A board always has sixty-four squares.
    pub proof fn lemma_sixty_four_squares(&self)
        ensures
            self@.occupants.len() == 64,
            self@.highlit.len() == 64,
    {
    }

    /// The empty board, with no square highlighted.
    pub fn new() -> (board: ChessBoard)
        ensures
            board@.occupants == empty_squares(),
            board@.highlit == no_highlights(),
    {
        let board = ChessBoard { board: [None; 64], highlit: [false; 64] };
        proof {
            assert(board@.occupants =~= empty_squares());
            assert(board@.highlit =~= no_highlights());
        }
        board
    }

    /// Decodes the piece placement of a FEN string, its first field. The
    /// string is not validated: a piece that the placement puts off the
    /// board, to the right of file `h` or below rank 1, is dropped.
    pub fn from_fen(fen: &str) -> (board: ChessBoard)
        ensures
            board@.occupants == placed(placement_field(fen@)),
            board@.highlit == no_highlights(),
    {
        let mut board = ChessBoard::new();
        let mut file: FileIndex = 0;
        let mut rank: RankIndex = TOTAL_RANKS - 1;
        let mut below: bool = false;
        let ghost mut read: int = 0;
        let mut placements = fen.chars();
        loop
            invariant_except_break
                placements.remaining() == fen@.skip(read),
                file <= 8,
                file < 8 ==> file == cursor_file(fen@.take(read)),
                file == 8 ==> cursor_file(fen@.take(read)) >= 8,
                rank < 8,
                !below ==> rank == cursor_rank(fen@.take(read)),
                below ==> cursor_rank(fen@.take(read)) < 0,
            invariant
                0 <= read <= fen@.len(),
                forall|j: int| 0 <= j < read ==> fen@[j] != ' ',
                board@.occupants == placed(fen@.take(read)),
                board@.highlit == no_highlights(),
            ensures
                read < fen@.len() ==> fen@[read] == ' ',
            decreases fen@.len() - read,
        {
            let piece_placement: char = match placements.next() {
                Some(c) => c,
                None => { break; },
            };
            proof {
                assert(fen@.skip(read)[0] == fen@[read]);
                assert(fen@.skip(read).drop_first() =~= fen@.skip(read + 1));
            }
            if piece_placement == ' ' {
                break;
            }
            proof {
                assert(fen@.take(read + 1).drop_last() =~= fen@.take(read));
                assert(fen@.take(read + 1).last() == piece_placement);
                lemma_cursor_bounds(fen@.take(read));
            }
            match piece_placement.to_digit(10) {
                Some(skip) => {
                    if skip >= (TOTAL_FILES - file) as u32 {
                        file = TOTAL_FILES;
                    } else {
                        file += skip as u8;
                    }
                },
                None => {
                    if piece_placement == '/' {
                        if rank == 0 {
                            below = true;
                        } else {
                            rank -= 1;
                        }
                        file = 0;
                    } else {
                        if !below {
                            match ChessBoard::square_from_file_and_rank(file, rank) {
                                Some(ix) => {
                                    board.board[ix as usize] = Some(Piece::new(piece_placement));
                                    proof {
                                        assert(board@.occupants =~= placed(fen@.take(read + 1)));
                                    }
                                },
                                None => {},
                            }
                        }
                        if file < TOTAL_FILES {
                            file += 1;
                        }
                    }
                },
            }
            proof {
                read = read + 1;
            }
        }
        proof {
            lemma_field_ends_at(fen@, read);
        }
        board
    }

    /// The piece on a square, or `None` where the square is empty.
    pub fn get_piece(&self, square_index: SquareIndex) -> (slot: &Option<Piece>)
        requires
            square_index < 64,
        ensures
            symbol_of(*slot) == self@.occupants[square_index as int],
    {
        &self.board[square_index as usize]
    }

    /// The eight slots of a rank, from file `a` to file `h`. Ranks are
    /// counted from 1 here.
    pub fn get_pieces_on_rank(&self, rank: usize) -> (slots: &[Option<Piece>])
        requires
            1 <= rank <= 8,
        ensures
            slots@.len() == 8,
            forall|file: int|
                0 <= file < 8 ==> symbol_of(#[trigger] slots@[file]) == self@.occupants[square_at(
                    file,
                    rank - 1,
                )],
    {
        let files: usize = TOTAL_FILES as usize;
        let start: usize = (rank - 1) * files;
        let slots = vstd::slice::slice_subrange(self.board.as_slice(), start, start + files);
        proof {
            assert forall|file: int| 0 <= file < 8 implies symbol_of(#[trigger] slots@[file])
                == self@.occupants[square_at(file, rank - 1)] by {
                assert(slots@[file] == self.board@[start + file]);
            }
        }
        slots
    }

    /// The square named by `notation`, or `None` where it names none.
    pub fn square_from_notation(notation: &str) -> (square: Option<SquareIndex>)
        ensures
            match parse_notation(notation@) {
                Some(index) => square == Some(index as u8),
                None => square is None,
            },
            notation@.len() < 2 || !('1' <= notation@[1] && notation@[1] <= '8') ==> square is None,
    {
        if notation.unicode_len() != 2 {
            return None;
        }
        let file: char = notation.get_char(0);
        let rank: char = notation.get_char(1);
        if 'a' <= file && file <= 'h' && '1' <= rank && rank <= '8' {
            let file_ix: u8 = file as u8 - 97;
            let rank_ix: u8 = rank as u8 - 49;
            Some(rank_ix * 8 + file_ix)
        } else {
            None
        }
    }

    /// The algebraic name of a square, or `None` for an index off the board.
    pub fn square_to_notation(index: SquareIndex) -> (notation: Option<String>)
        ensures
            index < 64 ==> notation is Some && notation->0@ == notation_of(index as int),
            index >= 64 ==> notation is None,
    {
        if index >= TOTAL_SQUARES {
            return None;
        }
        let (file_ix, rank_ix) = ChessBoard::square_to_file_and_rank(index);
        let file: char = (97u8 + file_ix) as char;
        let rank: char = (49u8 + rank_ix) as char;
        let mut notation = String::new();
        notation.push(file);
        notation.push(rank);
        proof {
            assert(notation@ =~= notation_of(index as int));
        }
        Some(notation)
    }

    /// The square on a file and a rank, or `None` unless both lie on the
    /// board.
    pub fn square_from_file_and_rank(file: FileIndex, rank: RankIndex) -> (square: Option<
        SquareIndex,
    >)
        ensures
            on_board(file as int, rank as int) ==> square == Some(
                square_at(file as int, rank as int) as u8,
            ),
            !on_board(file as int, rank as int) ==> square is None,
    {
        if file < TOTAL_FILES && rank < TOTAL_RANKS {
            Some(rank * TOTAL_FILES + file)
        } else {
            None
        }
    }

    /// The file and the rank of a square.
    pub fn square_to_file_and_rank(square_index: SquareIndex) -> (pair: (FileIndex, RankIndex))
        ensures
            pair.0 == file_of(square_index as int),
            pair.1 == rank_of(square_index as int),
    {
        let file_ix: u8 = square_index % TOTAL_FILES;
        let rank_ix: u8 = square_index / TOTAL_RANKS;
        (file_ix, rank_ix)
    }

    /// The moves of the piece on a square; none where the square is empty.
    pub fn generate_moves(&self, index: SquareIndex) -> (moves: Vec<ChessMove>)
        requires
            index < 64,
        ensures
            moves@ == moves_on(self@.occupants, index),
            self@.occupants[index as int] is None ==> moves@.len() == 0,
            forall|k: int| 0 <= k < moves@.len() ==> move_from(#[trigger] moves@[k], index),
    {
        if let Some(piece) = self.get_piece(index) {
            piece.generate_moves(self, index)
        } else {
            vec![]
        }
    }

    /// Takes the highlight off every square.
    pub fn reset_highlights(&mut self)
        ensures
            final(self)@.occupants == old(self)@.occupants,
            final(self)@.highlit == no_highlights(),
    {
        self.highlit = [false; 64];
        proof {
            assert(self@.highlit =~= no_highlights());
        }
    }

    /// Sets or clears the highlight of one square.
    pub fn highlight_square(&mut self, index: SquareIndex, highlight: bool)
        requires
            index < 64,
        ensures
            final(self)@.occupants == old(self)@.occupants,
            final(self)@.highlit == old(self)@.highlit.update(index as int, highlight),
    {
        self.highlit[index as usize] = highlight;
    }

    /// Whether a square is highlighted.
    pub fn is_highlit(&self, index: SquareIndex) -> (highlit: bool)
        requires
            index < 64,
        ensures
            highlit == self@.highlit[index as int],
    {
        self.highlit[index as usize]
    }
}

} // verus!
