//! A chess board read from a FEN string, with geometric move enumeration:
//! for the piece on a square, the squares it could reach along its
//! direction vectors on an otherwise unobstructed board.

pub mod text;
pub mod fen;
pub mod chess_board;
pub mod chess_move;
pub mod piece;
pub mod rays;
pub mod app;
pub mod ui;
pub mod square_index_finder;
