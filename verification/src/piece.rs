//! Pieces: what a symbol of the board stands for.

use vstd::prelude::*;
use crate::chess_board::{ChessBoard, SquareIndex};
use crate::chess_move::{
    ChessMove, DiagonalSlidingMoves, JumpingMoves, MoveGenerator, PieceMoves,
    StraightSlidingMoves, diagonal_directions, jump_directions, lemma_moves_stay_on_board,
    move_from, moves_along, straight_directions,
};
use crate::text::{ascii_uppercase, unicode_lowercase};

verus! {

/// A piece, known by its symbol alone: the letter tells the kind, its case
/// the colour.
#[derive(Clone, Copy, Debug)]
pub struct Piece {
    symbol: char,
}

/// The symbol in a slot of the board, if a piece stands there.
pub open spec fn symbol_of(slot: Option<Piece>) -> Option<char> {
    match slot {
        Some(piece) => Some(piece.symbol()),
        None => None,
    }
}

/// The chess glyph that is drawn for a symbol; a blank for any symbol that
/// is not one of the twelve piece letters.
pub open spec fn glyph_of(symbol: char) -> char {
    if symbol == 'R' {
        '\u{265C}'
    } else if symbol == 'r' {
        '\u{2656}'
    } else if symbol == 'N' {
        '\u{265E}'
    } else if symbol == 'n' {
        '\u{2658}'
    } else if symbol == 'B' {
        '\u{265D}'
    } else if symbol == 'b' {
        '\u{2657}'
    } else if symbol == 'K' {
        '\u{265A}'
    } else if symbol == 'k' {
        '\u{2654}'
    } else if symbol == 'Q' {
        '\u{265B}'
    } else if symbol == 'q' {
        '\u{2655}'
    } else if symbol == 'P' {
        '\u{265F}'
    } else if symbol == 'p' {
        '\u{2659}'
    } else {
        ' '
    }
}

/// The rules of the piece with a symbol, in the order in which they are
/// applied: rooks, bishops and queens slide up to seven squares, kings one,
/// knights leap once. Any other symbol, the pawns' among them, has none.
pub open spec fn generators_for(symbol: char) -> Seq<PieceMoves> {
    if symbol == 'R' || symbol == 'r' {
        seq![PieceMoves::Straight(StraightSlidingMoves { max_moves: 7 })]
    } else if symbol == 'N' || symbol == 'n' {
        seq![PieceMoves::Jumping(JumpingMoves { max_moves: 1 })]
    } else if symbol == 'B' || symbol == 'b' {
        seq![PieceMoves::Diagonal(DiagonalSlidingMoves { max_moves: 7 })]
    } else if symbol == 'Q' || symbol == 'q' {
        seq![
            PieceMoves::Straight(StraightSlidingMoves { max_moves: 7 }),
            PieceMoves::Diagonal(DiagonalSlidingMoves { max_moves: 7 }),
        ]
    } else if symbol == 'K' || symbol == 'k' {
        seq![
            PieceMoves::Straight(StraightSlidingMoves { max_moves: 1 }),
            PieceMoves::Diagonal(DiagonalSlidingMoves { max_moves: 1 }),
        ]
    } else {
        Seq::empty()
    }
}

/// The moves of several rules, one rule after another.
pub open spec fn moves_of(generators: Seq<PieceMoves>, source: SquareIndex) -> Seq<ChessMove>
    decreases generators.len(),
{
    if generators.len() == 0 {
        Seq::empty()
    } else {
        moves_of(generators.drop_last(), source) + generators.last().moves_from(source)
    }
}

/// The moves of the piece with a symbol from a square.
pub open spec fn piece_moves(symbol: char, source: SquareIndex) -> Seq<ChessMove> {
    if symbol == 'R' || symbol == 'r' {
        moves_along(source, 7, straight_directions())
    } else if symbol == 'N' || symbol == 'n' {
        moves_along(source, 1, jump_directions())
    } else if symbol == 'B' || symbol == 'b' {
        moves_along(source, 7, diagonal_directions())
    } else if symbol == 'Q' || symbol == 'q' {
        moves_along(source, 7, straight_directions()) + moves_along(
            source,
            7,
            diagonal_directions(),
        )
    } else if symbol == 'K' || symbol == 'k' {
        moves_along(source, 1, straight_directions()) + moves_along(
            source,
            1,
            diagonal_directions(),
        )
    } else {
        Seq::empty()
    }
}

/// Applying the rules of a symbol one after another gives the moves of its
/// piece.
pub proof fn lemma_rules_give_piece_moves(symbol: char, source: SquareIndex)
    ensures
        moves_of(generators_for(symbol), source) == piece_moves(symbol, source),
{
    let generators = generators_for(symbol);
    if generators.len() == 1 {
        assert(generators.drop_last() =~= Seq::empty());
        assert(moves_of(generators.drop_last(), source) =~= Seq::empty());
        assert(moves_of(generators, source) =~= generators[0].moves_from(source));
    } else if generators.len() == 2 {
        let first = generators.drop_last();
        assert(first.len() == 1);
        assert(first.drop_last() =~= Seq::empty());
        assert(moves_of(first.drop_last(), source) =~= Seq::empty());
        assert(moves_of(first, source) =~= generators[0].moves_from(source));
        assert(moves_of(generators, source) =~= generators[0].moves_from(source)
            + generators[1].moves_from(source));
    }
}

/// Every move of a piece starts at its source and ends on the board.
pub proof fn lemma_piece_moves_stay_on_board(symbol: char, source: SquareIndex)
    ensures
        forall|k: int|
            0 <= k < piece_moves(symbol, source).len() ==> move_from(
                #[trigger] piece_moves(symbol, source)[k],
                source,
            ),
{
    lemma_moves_stay_on_board(source, 7, straight_directions());
    lemma_moves_stay_on_board(source, 7, diagonal_directions());
    lemma_moves_stay_on_board(source, 1, straight_directions());
    lemma_moves_stay_on_board(source, 1, diagonal_directions());
    lemma_moves_stay_on_board(source, 1, jump_directions());
}

impl Piece {
    /// The symbol that the piece was made from.
    pub closed spec fn symbol(&self) -> char {
        self.symbol
    }

    /// The piece with a symbol. Any character will do.
    pub fn new(symbol: char) -> (piece: Piece)
        ensures
            piece.symbol() == symbol,
    {
        Piece { symbol }
    }

    /// The glyph of the piece, looked up under the upper-case form of its
    /// symbol.
    pub fn get_graphic(self: &Piece) -> (glyph: char)
        ensures
            glyph == glyph_of(ascii_uppercase(self.symbol())),
    {
        match self.symbol.to_ascii_uppercase() {
            'R' => '\u{265C}',
            'r' => '\u{2656}',
            'N' => '\u{265E}',
            'n' => '\u{2658}',
            'B' => '\u{265D}',
            'b' => '\u{2657}',
            'K' => '\u{265A}',
            'k' => '\u{2654}',
            'Q' => '\u{265B}',
            'q' => '\u{2655}',
            'P' => '\u{265F}',
            'p' => '\u{2659}',
            _ => ' ',
        }
    }

    /// The rules of the piece with a symbol.
    pub fn get_move_generators(symbol: char) -> (generators: Vec<PieceMoves>)
        ensures
            generators@ == generators_for(symbol),
    {
        let generators: Vec<PieceMoves> = match symbol {
            'R' | 'r' => vec![PieceMoves::Straight(StraightSlidingMoves::new(7))],
            'N' | 'n' => vec![PieceMoves::Jumping(JumpingMoves::new(1))],
            'B' | 'b' => vec![PieceMoves::Diagonal(DiagonalSlidingMoves::new(7))],
            'Q' | 'q' => vec![
                PieceMoves::Straight(StraightSlidingMoves::new(7)),
                PieceMoves::Diagonal(DiagonalSlidingMoves::new(7)),
            ],
            'K' | 'k' => vec![
                PieceMoves::Straight(StraightSlidingMoves::new(1)),
                PieceMoves::Diagonal(DiagonalSlidingMoves::new(1)),
            ],
            _ => vec![],
        };
        assert(generators@ =~= generators_for(symbol));
        generators
    }

    /// A piece is black when its symbol is a lower-case letter.
    pub fn is_black(self: &Piece) -> (black: bool)
        ensures
            black == unicode_lowercase(self.symbol()),
            (self.symbol() as u32) < 128 ==> black == ('a' <= self.symbol() && self.symbol()
                <= 'z'),
    {
        self.symbol.is_lowercase()
    }

    /// A piece is white when it is not black.
    pub fn is_white(self: &Piece) -> (white: bool)
        ensures
            white == !unicode_lowercase(self.symbol()),
            (self.symbol() as u32) < 128 ==> white == !('a' <= self.symbol() && self.symbol()
                <= 'z'),
    {
        !self.is_black()
    }

    /// The moves of the piece from `source`: those of each of its rules, in
    /// the order of the rules, with nothing removed.
    pub fn generate_moves(
        self: &Piece,
        chess_board: &ChessBoard,
        source: SquareIndex,
    ) -> (moves: Vec<ChessMove>)
        ensures
            moves@ == piece_moves(self.symbol(), source),
            forall|k: int| 0 <= k < moves@.len() ==> move_from(#[trigger] moves@[k], source),
    {
        let generators = Piece::get_move_generators(self.symbol);
        let mut moves: Vec<ChessMove> = Vec::new();
        let mut i: usize = 0;
        while i < generators.len()
            invariant
                i <= generators.len(),
                moves@ == moves_of(generators@.take(i as int), source),
            decreases generators.len() - i,
        {
            let mut generated = generators[i].generate_moves(chess_board, source);
            moves.append(&mut generated);
            proof {
                assert(generators@.take(i + 1).drop_last() =~= generators@.take(i as int));
            }
            i += 1;
        }
        proof {
            assert(generators@.take(i as int) =~= generators@);
            lemma_rules_give_piece_moves(self.symbol(), source);
            lemma_piece_moves_stay_on_board(self.symbol(), source);
        }
        moves
    }

    /// Two pieces are enemies when they differ in colour.
    pub fn is_enemy(&self, other: &Piece) -> (enemy: bool)
        ensures
            enemy == (unicode_lowercase(self.symbol()) != unicode_lowercase(other.symbol())),
    {
        self.is_black() == other.is_white()
    }
}

} // verus!
