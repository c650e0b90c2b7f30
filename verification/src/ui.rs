//! What is shown of a board and a session, as plain values: the look of
//! each square, the list of moves as text, and the place of the cursor.

use vstd::prelude::*;
use vstd::string::StringExecFns;
use unicode_width::UnicodeWidthStr;
use crate::app::App;
use crate::chess_board::{BoardView, ChessBoard, TOTAL_FILES, TOTAL_RANKS, notation_of, square_at};
use crate::chess_move::ChessMove;
use crate::piece::{glyph_of, symbol_of};
use crate::text::{ascii_uppercase, unicode_lowercase};

verus! {

/// The colour in which a piece is drawn.
#[derive(Clone, Copy, Debug, PartialEq, Eq)]
pub enum PieceColour {
    Black,
    White,
}

/// How one square is drawn: the glyph of its piece, or a blank; the colour
/// of the glyph; and the red, green and blue of its background.
#[derive(Clone, Copy, Debug, PartialEq, Eq)]
pub struct SquareStyle {
    pub glyph: char,
    pub piece_colour: PieceColour,
    pub square_colour: (u8, u8, u8),
}

/// The background of a square. `column` counts the files from 0 and
/// `rank` the ranks from 1; squares for which the two add up to an even
/// number are light. A highlighted square is drawn brighter.
pub open spec fn square_colour_of(column: int, rank: int, highlit: bool) -> (u8, u8, u8) {
    if (column + rank) % 2 == 0 {
        if highlit {
            (255u8, 189u8, 123u8)
        } else {
            (168u8, 123u8, 80u8)
        }
    } else {
        if highlit {
            (240u8, 179u8, 64u8)
        } else {
            (100u8, 70u8, 25u8)
        }
    }
}

/// How the square in `column` of `rank` is drawn on a board; `rank` counts
/// from 1.
pub open spec fn style_of(board: BoardView, column: int, rank: int) -> SquareStyle {
    let square = square_at(column, rank - 1);
    SquareStyle {
        glyph: match board.occupants[square] {
            Some(symbol) => glyph_of(ascii_uppercase(symbol)),
            None => ' ',
        },
        piece_colour: match board.occupants[square] {
            Some(symbol) => if unicode_lowercase(symbol) {
                PieceColour::Black
            } else {
                PieceColour::White
            },
            None => PieceColour::White,
        },
        square_colour: square_colour_of(column, rank, board.highlit[square]),
    }
}

/// The squares of one rank as they are drawn, from file `a` to file `h`.
pub open spec fn rank_styles(board: BoardView, rank: int) -> Seq<SquareStyle> {
    Seq::new(8, |column: int| style_of(board, column, rank))
}

/// The names of the destinations of `moves`, with a comma between one and
/// the next.
pub open spec fn joined_destinations(moves: Seq<ChessMove>) -> Seq<char>
    decreases moves.len(),
{
    if moves.len() == 0 {
        Seq::empty()
    } else if moves.len() == 1 {
        notation_of(moves[0].destination as int)
    } else {
        joined_destinations(moves.drop_last()) + seq![','] + notation_of(
            moves.last().destination as int,
        )
    }
}

/// The number of terminal columns that a text takes up.
pub uninterp spec fn display_width(text: Seq<char>) -> nat;

/// `UnicodeWidthStr::width` of the crate unicode-width: the displayed width
/// of a text in columns. Nothing is claimed of the number but that it
/// depends on the text alone.
#[verifier::external_body]
fn text_width(text: &str) -> (width: usize)
    ensures
        width == display_width(text@),
{
    UnicodeWidthStr::width(text)
}

/// Whether the cursor behind an input of some width still has a place on
/// the screen, in an area whose corner is at (`area_x`, `area_y`). Widths
/// are counted in sixteen bits, as the positions of the screen are.
pub open spec fn cursor_fits(area_x: u16, area_y: u16, input_width: nat) -> bool {
    area_x + input_width % 65536 + 1 <= u16::MAX && area_y + 2 <= u16::MAX
}

/// The place of the cursor behind an input of some width: one column
/// inside the area and behind the input, two rows below the top.
pub open spec fn cursor_at(area_x: u16, area_y: u16, input_width: nat) -> (u16, u16) {
    ((area_x + input_width % 65536 + 1) as u16, (area_y + 2) as u16)
}

/// The background of a square; see [`square_colour_of`].
pub fn square_colour(column: usize, rank: u8, highlit: bool) -> (colour: (u8, u8, u8))
    ensures
        colour == square_colour_of(column as int, rank as int, highlit),
{
    if (column % 2 + (rank as usize) % 2) % 2 == 0 {
        if highlit {
            (255, 189, 123)
        } else {
            (168, 123, 80)
        }
    } else {
        if highlit {
            (240, 179, 64)
        } else {
            (100, 70, 25)
        }
    }
}

/// The eight ranks of a board as they are drawn, rank 8 first, each from
/// file `a` to file `h`.
pub fn draw_chessboard(chessboard: &ChessBoard) -> (lines: Vec<Vec<SquareStyle>>)
    ensures
        lines@.len() == 8,
        forall|line: int|
            0 <= line < 8 ==> (#[trigger] lines@[line])@ == rank_styles(chessboard@, 8 - line),
{
    let mut lines: Vec<Vec<SquareStyle>> = Vec::new();
    let mut rank: u8 = TOTAL_RANKS;
    while rank >= 1
        invariant
            rank <= 8,
            lines@.len() == 8 - rank,
            forall|line: int|
                0 <= line < lines@.len() ==> (#[trigger] lines@[line])@ == rank_styles(
                    chessboard@,
                    8 - line,
                ),
        decreases rank,
    {
        let slots = chessboard.get_pieces_on_rank(rank as usize);
        let mut line: Vec<SquareStyle> = Vec::new();
        let mut i: usize = 0;
        while i < TOTAL_FILES as usize
            invariant
                1 <= rank <= 8,
                i <= 8,
                slots@.len() == 8,
                forall|file: int|
                    0 <= file < 8 ==> symbol_of(#[trigger] slots@[file])
                        == chessboard@.occupants[square_at(file, rank - 1)],
                line@.len() == i,
                forall|column: int|
                    0 <= column < i ==> #[trigger] line@[column] == style_of(
                        chessboard@,
                        column,
                        rank as int,
                    ),
            decreases 8 - i,
        {
            let mut glyph: char = ' ';
            let mut piece_colour = PieceColour::White;
            assert(symbol_of(slots@[i as int]) == chessboard@.occupants[square_at(
                i as int,
                rank - 1,
            )]);
            if let Some(piece) = &slots[i] {
                glyph = piece.get_graphic();
                piece_colour = if piece.is_black() {
                    PieceColour::Black
                } else {
                    PieceColour::White
                };
            }
            let square_index = ChessBoard::square_from_file_and_rank(i as u8, rank - 1).unwrap();
            let square_colour = square_colour(i, rank, chessboard.is_highlit(square_index));
            line.push(SquareStyle { glyph, piece_colour, square_colour });
            i += 1;
        }
        proof {
            assert(line@ =~= rank_styles(chessboard@, rank as int));
        }
        lines.push(line);
        rank -= 1;
    }
    lines
}

/// The destinations of `moves` by name, separated by commas. Every move
/// must end on the board.
pub fn moves_text(moves: &Vec<ChessMove>) -> (text: String)
    requires
        forall|k: int| 0 <= k < moves@.len() ==> (#[trigger] moves@[k]).destination < 64,
    ensures
        text@ == joined_destinations(moves@),
{
    let mut text = String::new();
    let mut i: usize = 0;
    while i < moves.len()
        invariant
            i <= moves.len(),
            forall|k: int| 0 <= k < moves@.len() ==> (#[trigger] moves@[k]).destination < 64,
            text@ == joined_destinations(moves@.take(i as int)),
        decreases moves.len() - i,
    {
        assert(moves@[i as int].destination < 64);
        let notation = ChessBoard::square_to_notation(moves[i].destination).unwrap();
        if i > 0 {
            text.push(',');
        }
        let ghost before = text@;
        text.append(notation.as_str());
        proof {
            assert(moves@.take(i + 1).drop_last() =~= moves@.take(i as int));
            if i == 0 {
                assert(before + notation@ =~= notation@);
            } else {
                assert(text@ =~= joined_destinations(moves@.take(i as int)) + seq![','] + notation@);
            }
        }
        i += 1;
    }
    proof {
        assert(moves@.take(i as int) =~= moves@);
    }
    text
}

/// The place of the cursor behind an input that is `input_width` columns
/// wide, in an area whose corner is at (`area_x`, `area_y`).
pub fn cursor_position(area_x: u16, area_y: u16, input_width: usize) -> (position: (u16, u16))
    requires
        cursor_fits(area_x, area_y, input_width as nat),
    ensures
        position == cursor_at(area_x, area_y, input_width as nat),
{
    let columns: u16 = (input_width % 65536) as u16;
    (area_x + columns + 1, area_y + 2)
}

/// The place of the cursor behind the text typed so far, or `None` where
/// that place is off the screen.
pub fn input_cursor(app: &App, area_x: u16, area_y: u16) -> (position: Option<(u16, u16)>)
    ensures
        position == if cursor_fits(area_x, area_y, display_width(app@.input)) {
            Some(cursor_at(area_x, area_y, display_width(app@.input)))
        } else {
            None
        },
{
    let width = text_width(app.input());
    if area_y <= u16::MAX - 2 && (width % 65536) < (u16::MAX - area_x) as usize {
        Some(cursor_position(area_x, area_y, width))
    } else {
        None
    }
}

} // verus!
