//! The state of a session: the text typed so far, the square that was asked
//! about, and the moves found for it.

use vstd::prelude::*;
use crate::chess_board::{ChessBoard, SquareIndex, moves_on, parse_notation};
use crate::chess_move::{ChessMove, move_from};

verus! {

/// A session. The typed text is open to the caller; the moves and the
/// selected square are reached through the methods.
pub struct App {
    pub ui_buffer: String,
    available_moves: Vec<ChessMove>,
    selected_square: Option<SquareIndex>,
}

/// What a session holds: the text typed so far, the moves found for the
/// selected square, and that square.
pub struct AppView {
    pub input: Seq<char>,
    pub moves: Seq<ChessMove>,
    pub selected: Option<SquareIndex>,
}

/// The modifier keys held down with a key.
#[derive(Clone, Copy, Debug)]
pub enum Modifiers {
    Plain,
    Control,
    Other,
}

/// The key that was pressed, as far as a session tells keys apart.
#[derive(Clone, Copy, Debug)]
pub enum KeyCode {
    Backspace,
    Enter,
    Char(char),
    Other,
}

/// One key press.
#[derive(Clone, Copy, Debug)]
pub struct KeyPress {
    pub modifiers: Modifiers,
    pub code: KeyCode,
}

/// Whether some move of `moves` ends on `square`.
pub open spec fn is_destination(moves: Seq<ChessMove>, square: int) -> bool {
    exists|k: int| 0 <= k < moves.len() && #[trigger] moves[k].destination == square
}

/// The highlights that show where `moves` end: a square is highlighted
/// exactly when a move ends on it.
pub open spec fn destinations_highlit(moves: Seq<ChessMove>) -> Seq<bool> {
    Seq::new(64, |square: int| is_destination(moves, square))
}

/// Whether a key press ends the session: Control and `c`.
pub open spec fn is_quit(key: KeyPress) -> bool {
    key.modifiers is Control && key.code == KeyCode::Char('c')
}

impl View for App {
    type V = AppView;

    closed spec fn view(&self) -> AppView {
        AppView {
            input: self.ui_buffer@,
            moves: self.available_moves@,
            selected: self.selected_square,
        }
    }
}

impl App {
    /// Whether the session holds nothing but, possibly, typed text.
    pub open spec fn is_idle(&self) -> bool {
        self@.moves == Seq::<ChessMove>::empty() && self@.selected is None
    }

    /// The text typed so far.
    pub fn input(&self) -> (text: &str)
        ensures
            text@ == self@.input,
    {
        self.ui_buffer.as_str()
    }

    /// A session in which nothing has been typed or asked yet.
    pub fn new() -> (app: Self)
        ensures
            app@.input == Seq::<char>::empty(),
            app.is_idle(),
    {
        App { ui_buffer: String::new(), available_moves: Vec::new(), selected_square: None }
    }

    /// Adds a move at the end of the moves found.
    pub fn add_available_move(&mut self, available_move: &ChessMove)
        ensures
            final(self)@.moves == old(self)@.moves.push(*available_move),
            final(self)@.selected == old(self)@.selected,
            final(self)@.input == old(self)@.input,
    {
        self.available_moves.push(*available_move);
    }

    /// The moves found for the selected square, in the order they were
    /// added.
    pub fn available_moves(&self) -> (moves: &Vec<ChessMove>)
        ensures
            moves@ == self@.moves,
    {
        &self.available_moves
    }

    /// Forgets the typed text, the moves and the selected square.
    pub fn clear_input(&mut self)
        ensures
            final(self)@.input == Seq::<char>::empty(),
            final(self).is_idle(),
    {
        self.ui_buffer.clear();
        self.available_moves.clear();
        self.selected_square = None;
    }

    /// Selects a square.
    pub fn set_selected_square(&mut self, square: u8)
        ensures
            final(self)@.selected == Some(square),
            final(self)@.moves == old(self)@.moves,
            final(self)@.input == old(self)@.input,
    {
        self.selected_square = Some(square);
    }

    /// The selected square, if one is selected.
    pub fn get_selected_square(&self) -> (square: Option<SquareIndex>)
        ensures
            square == self@.selected,
    {
        self.selected_square
    }

    /// Answers the typed text: the text, the moves and the highlights of
    /// the last answer are forgotten; then, where the text names a square,
    /// that square is selected, the moves of its piece are kept and their
    /// destinations highlighted.
    pub fn submit(&mut self, chessboard: &mut ChessBoard)
        ensures
            final(self)@.input == Seq::<char>::empty(),
            final(chessboard)@.occupants == old(chessboard)@.occupants,
            match parse_notation(old(self)@.input) {
                Some(square) => {
                    &&& final(self)@.selected == Some(square as u8)
                    &&& final(self)@.moves == moves_on(old(chessboard)@.occupants, square as u8)
                },
                None => final(self).is_idle(),
            },
            final(chessboard)@.highlit == destinations_highlit(final(self)@.moves),
    {
        let square_notation = self.ui_buffer.clone();
        self.clear_input();
        chessboard.reset_highlights();
        proof {
            chessboard.lemma_sixty_four_squares();
            assert(chessboard@.highlit =~= destinations_highlit(self@.moves));
        }
        if let Some(square) = ChessBoard::square_from_notation(square_notation.as_str()) {
            let moves = chessboard.generate_moves(square);
            self.set_selected_square(square);
            let mut i: usize = 0;
            while i < moves.len()
                invariant
                    i <= moves.len(),
                    forall|k: int| 0 <= k < moves@.len() ==> move_from(#[trigger] moves@[k], square),
                    self@.moves == moves@.take(i as int),
                    self@.selected == Some(square),
                    self@.input == Seq::<char>::empty(),
                    chessboard@.occupants == old(chessboard)@.occupants,
                    chessboard@.highlit == destinations_highlit(moves@.take(i as int)),
                decreases moves.len() - i,
            {
                let m = &moves[i];
                assert(move_from(moves@[i as int], square));
                chessboard.highlight_square(m.destination, true);
                self.add_available_move(m);
                proof {
                    let before = moves@.take(i as int);
                    let after = moves@.take(i + 1);
                    assert(after =~= before.push(*m));
                    assert forall|s: int| 0 <= s < 64 implies destinations_highlit(before).update(
                        m.destination as int,
                        true,
                    )[s] == #[trigger] destinations_highlit(after)[s] by {
                        if is_destination(before, s) {
                            let k = choose|k: int|
                                0 <= k < before.len() && #[trigger] before[k].destination == s;
                            assert(after[k].destination == s);
                        }
                        if s == m.destination {
                            assert(after[i as int].destination == s);
                        }
                        if is_destination(after, s) {
                            let k = choose|k: int|
                                0 <= k < after.len() && #[trigger] after[k].destination == s;
                            if k < i {
                                assert(before[k].destination == s);
                            }
                        }
                    }
                    assert(chessboard@.highlit =~= destinations_highlit(after));
                }
                i += 1;
            }
            proof {
                assert(moves@.take(i as int) =~= moves@);
            }
        }
    }

    /// Takes one key press and says whether the session ends with it.
    /// Control and `c` ends it. Without a modifier, Backspace takes the last
    /// character off the typed text, a character key adds its character,
    /// and Enter answers the text. Any other key changes nothing.
    pub fn handle_key(&mut self, chessboard: &mut ChessBoard, key: KeyPress) -> (quit: bool)
        ensures
            quit == is_quit(key),
            final(chessboard)@.occupants == old(chessboard)@.occupants,
            match (key.modifiers, key.code) {
                (Modifiers::Plain, KeyCode::Backspace) => {
                    &&& final(self)@.input == if old(self)@.input.len() > 0 {
                        old(self)@.input.drop_last()
                    } else {
                        old(self)@.input
                    }
                    &&& final(self)@.moves == old(self)@.moves
                    &&& final(self)@.selected == old(self)@.selected
                    &&& final(chessboard)@ == old(chessboard)@
                },
                (Modifiers::Plain, KeyCode::Char(c)) => {
                    &&& final(self)@.input == old(self)@.input.push(c)
                    &&& final(self)@.moves == old(self)@.moves
                    &&& final(self)@.selected == old(self)@.selected
                    &&& final(chessboard)@ == old(chessboard)@
                },
                (Modifiers::Plain, KeyCode::Enter) => {
                    &&& final(self)@.input == Seq::<char>::empty()
                    &&& match parse_notation(old(self)@.input) {
                        Some(square) => {
                            &&& final(self)@.selected == Some(square as u8)
                            &&& final(self)@.moves == moves_on(
                                old(chessboard)@.occupants,
                                square as u8,
                            )
                        },
                        None => final(self).is_idle(),
                    }
                    &&& final(chessboard)@.highlit == destinations_highlit(final(self)@.moves)
                },
                _ => {
                    &&& final(self)@.input == old(self)@.input
                    &&& final(self)@.moves == old(self)@.moves
                    &&& final(self)@.selected == old(self)@.selected
                    &&& final(chessboard)@ == old(chessboard)@
                },
            },
    {
        match (key.modifiers, key.code) {
            (Modifiers::Control, KeyCode::Char('c')) => {
                return true;
            },
            (Modifiers::Plain, KeyCode::Backspace) => {
                self.ui_buffer.pop();
            },
            (Modifiers::Plain, KeyCode::Enter) => {
                self.submit(chessboard);
            },
            (Modifiers::Plain, KeyCode::Char(c)) => {
                self.ui_buffer.push(c);
            },
            _ => {},
        }
        false
    }
}

} // verus!
