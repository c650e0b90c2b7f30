use rusty_chess::app::App;
use rusty_chess::chess_board::ChessBoard;
use rusty_chess::chess_move::ChessMove;
use rusty_chess::ui::{
    cursor_position, draw_chessboard, input_cursor, moves_text, square_colour, PieceColour,
    SquareStyle,
};

#[test]
fn square_colours_go_by_parity_and_highlight() {
    assert_eq!(square_colour(0, 1, false), (100, 70, 25));
    assert_eq!(square_colour(0, 1, true), (240, 179, 64));
    assert_eq!(square_colour(1, 1, false), (168, 123, 80));
    assert_eq!(square_colour(1, 1, true), (255, 189, 123));
    assert_eq!(square_colour(7, 8, false), (100, 70, 25));
    assert_eq!(square_colour(0, 8, true), (255, 189, 123));
    assert_eq!(square_colour(7, 255, false), (168, 123, 80));
    assert_eq!(square_colour(usize::MAX, 255, false), (168, 123, 80));
    assert_eq!(square_colour(usize::MAX, 0, true), (240, 179, 64));
}

#[test]
fn board_is_drawn_from_rank_eight_down() {
    let mut board = ChessBoard::from_fen("r6K/8/8/8/8/8/8/Qn6");
    board.highlight_square(0, true);
    board.highlight_square(57, true);
    let lines = draw_chessboard(&board);
    assert_eq!(lines.len(), 8);
    assert!(lines.iter().all(|line| line.len() == 8));
    assert_eq!(
        lines[0][0],
        SquareStyle { glyph: '\u{265C}', piece_colour: PieceColour::Black, square_colour: (168, 123, 80) }
    );
    assert_eq!(
        lines[0][1],
        SquareStyle { glyph: ' ', piece_colour: PieceColour::White, square_colour: (240, 179, 64) }
    );
    assert_eq!(
        lines[0][7],
        SquareStyle { glyph: '\u{265A}', piece_colour: PieceColour::White, square_colour: (100, 70, 25) }
    );
    assert_eq!(
        lines[7][0],
        SquareStyle { glyph: '\u{265B}', piece_colour: PieceColour::White, square_colour: (240, 179, 64) }
    );
    assert_eq!(
        lines[7][1],
        SquareStyle { glyph: '\u{265E}', piece_colour: PieceColour::Black, square_colour: (168, 123, 80) }
    );
    for line in 1..7 {
        for column in 0..8 {
            let light = (column + 8 - line) % 2 == 0;
            let colour = if light { (168, 123, 80) } else { (100, 70, 25) };
            assert_eq!(
                lines[line][column],
                SquareStyle { glyph: ' ', piece_colour: PieceColour::White, square_colour: colour }
            );
        }
    }
}

#[test]
fn moves_are_listed_by_destination() {
    assert_eq!(moves_text(&vec![]), "");
    assert_eq!(moves_text(&vec![ChessMove { source: 0, destination: 63 }]), "h8");
    let board = ChessBoard::from_fen("8/8/8/8/8/8/8/n7");
    assert_eq!(moves_text(&board.generate_moves(0)), "b3,c2");
    let moves = vec![
        ChessMove { source: 9, destination: 0 },
        ChessMove { source: 9, destination: 0 },
        ChessMove { source: 200, destination: 28 },
    ];
    assert_eq!(moves_text(&moves), "a1,a1,e4");
}

#[test]
fn cursor_stands_behind_the_input() {
    assert_eq!(cursor_position(23, 3, 0), (24, 5));
    assert_eq!(cursor_position(23, 3, 2), (26, 5));
    assert_eq!(cursor_position(0, 0, 65534), (65535, 2));
    assert_eq!(cursor_position(10, 65533, 65536 + 4), (15, 65535));
}

#[test]
fn input_cursor_measures_the_typed_text() {
    let mut app = App::new();
    assert_eq!(input_cursor(&app, 23, 3), Some((24, 5)));
    app.ui_buffer.push_str("e4");
    assert_eq!(input_cursor(&app, 23, 3), Some((26, 5)));
    app.ui_buffer.push_str("\u{65e5}\u{672c}");
    assert_eq!(input_cursor(&app, 23, 3), Some((30, 5)));
    app.ui_buffer.push('\u{301}');
    assert_eq!(input_cursor(&app, 23, 3), Some((30, 5)));
}

#[test]
fn input_cursor_is_none_off_the_screen() {
    let mut app = App::new();
    app.ui_buffer.push_str("e4");
    assert_eq!(input_cursor(&app, 65532, 0), Some((65535, 2)));
    assert_eq!(input_cursor(&app, 65533, 0), None);
    assert_eq!(input_cursor(&app, 0, 65533), Some((3, 65535)));
    assert_eq!(input_cursor(&app, 0, 65534), None);
    assert_eq!(input_cursor(&app, 65535, 65535), None);
}
