use rusty_chess::app::{App, KeyCode, KeyPress, Modifiers};
use rusty_chess::chess_board::ChessBoard;
use rusty_chess::chess_move::ChessMove;

fn plain(code: KeyCode) -> KeyPress {
    KeyPress { modifiers: Modifiers::Plain, code }
}

fn type_text(app: &mut App, board: &mut ChessBoard, text: &str) {
    for c in text.chars() {
        assert!(!app.handle_key(board, plain(KeyCode::Char(c))));
    }
}

fn highlit(board: &ChessBoard) -> Vec<u8> {
    (0..64u8).filter(|index| board.is_highlit(*index)).collect()
}

#[test]
fn new_session_holds_nothing() {
    let app = App::new();
    assert_eq!(app.ui_buffer, "");
    assert_eq!(app.input(), "");
    assert!(app.available_moves().is_empty());
    assert_eq!(app.get_selected_square(), None);
}

#[test]
fn moves_are_kept_in_the_order_they_are_added() {
    let mut app = App::new();
    let first = ChessMove { source: 1, destination: 2 };
    let second = ChessMove { source: 1, destination: 9 };
    app.add_available_move(&first);
    app.add_available_move(&second);
    app.add_available_move(&first);
    assert_eq!(app.available_moves(), &vec![first, second, first]);
}

#[test]
fn selected_square_is_set_and_read() {
    let mut app = App::new();
    app.set_selected_square(12);
    assert_eq!(app.get_selected_square(), Some(12));
    app.set_selected_square(200);
    assert_eq!(app.get_selected_square(), Some(200));
}

#[test]
fn clear_input_forgets_everything() {
    let mut app = App::new();
    app.ui_buffer.push_str("e4");
    app.set_selected_square(28);
    app.add_available_move(&ChessMove { source: 28, destination: 36 });
    app.clear_input();
    assert_eq!(app.ui_buffer, "");
    assert!(app.available_moves().is_empty());
    assert_eq!(app.get_selected_square(), None);
}

#[test]
fn character_keys_are_typed_and_backspace_takes_them_back() {
    let mut app = App::new();
    let mut board = ChessBoard::new();
    type_text(&mut app, &mut board, "e4x");
    assert_eq!(app.input(), "e4x");
    assert!(!app.handle_key(&mut board, plain(KeyCode::Backspace)));
    assert_eq!(app.input(), "e4");
    assert!(!app.handle_key(&mut board, plain(KeyCode::Backspace)));
    assert!(!app.handle_key(&mut board, plain(KeyCode::Backspace)));
    assert_eq!(app.input(), "");
    assert!(!app.handle_key(&mut board, plain(KeyCode::Backspace)));
    assert_eq!(app.input(), "");
}

#[test]
fn control_c_ends_the_session() {
    let mut app = App::new();
    let mut board = ChessBoard::new();
    type_text(&mut app, &mut board, "a1");
    let quit = KeyPress { modifiers: Modifiers::Control, code: KeyCode::Char('c') };
    assert!(app.handle_key(&mut board, quit));
    assert_eq!(app.input(), "a1");
    assert!(!app.handle_key(&mut board, plain(KeyCode::Char('c'))));
    assert_eq!(app.input(), "a1c");
}

#[test]
fn keys_with_other_modifiers_change_nothing() {
    let mut app = App::new();
    let mut board = ChessBoard::from_fen("8/8/8/8/8/8/8/R7");
    type_text(&mut app, &mut board, "a1");
    let keys = [
        KeyPress { modifiers: Modifiers::Control, code: KeyCode::Char('x') },
        KeyPress { modifiers: Modifiers::Control, code: KeyCode::Enter },
        KeyPress { modifiers: Modifiers::Control, code: KeyCode::Backspace },
        KeyPress { modifiers: Modifiers::Other, code: KeyCode::Char('c') },
        KeyPress { modifiers: Modifiers::Other, code: KeyCode::Enter },
        KeyPress { modifiers: Modifiers::Plain, code: KeyCode::Other },
    ];
    for key in keys {
        assert!(!app.handle_key(&mut board, key));
        assert_eq!(app.input(), "a1");
        assert!(app.available_moves().is_empty());
        assert_eq!(app.get_selected_square(), None);
        assert!(highlit(&board).is_empty());
    }
}

#[test]
fn enter_answers_the_typed_square() {
    let mut app = App::new();
    let mut board = ChessBoard::from_fen("8/8/8/8/8/8/8/N6R");
    type_text(&mut app, &mut board, "h1");
    assert!(!app.handle_key(&mut board, plain(KeyCode::Enter)));
    assert_eq!(app.input(), "");
    assert_eq!(app.get_selected_square(), Some(7));
    let destinations: Vec<u8> = app.available_moves().iter().map(|m| m.destination).collect();
    assert_eq!(destinations, vec![15, 23, 31, 39, 47, 55, 63, 6, 5, 4, 3, 2, 1, 0]);
    assert_eq!(highlit(&board), vec![0, 1, 2, 3, 4, 5, 6, 15, 23, 31, 39, 47, 55, 63]);

    type_text(&mut app, &mut board, "a1");
    assert!(!app.handle_key(&mut board, plain(KeyCode::Enter)));
    assert_eq!(app.get_selected_square(), Some(0));
    let destinations: Vec<u8> = app.available_moves().iter().map(|m| m.destination).collect();
    assert_eq!(destinations, vec![17, 10]);
    assert_eq!(highlit(&board), vec![10, 17]);
    assert!(board.get_piece(0).is_some());
    assert!(board.get_piece(7).is_some());
}

#[test]
fn enter_on_an_empty_square_selects_it_without_moves() {
    let mut app = App::new();
    let mut board = ChessBoard::from_fen("8/8/8/8/8/8/8/R7");
    board.highlight_square(5, true);
    type_text(&mut app, &mut board, "b2");
    app.handle_key(&mut board, plain(KeyCode::Enter));
    assert_eq!(app.get_selected_square(), Some(9));
    assert!(app.available_moves().is_empty());
    assert!(highlit(&board).is_empty());
}

#[test]
fn enter_on_text_that_names_no_square_clears_the_answer() {
    let mut app = App::new();
    let mut board = ChessBoard::from_fen("8/8/8/8/8/8/8/R7");
    type_text(&mut app, &mut board, "a1");
    app.handle_key(&mut board, plain(KeyCode::Enter));
    assert_eq!(app.available_moves().len(), 14);
    for text in ["dan", "", "a9", "a1 "] {
        type_text(&mut app, &mut board, text);
        app.handle_key(&mut board, plain(KeyCode::Enter));
        assert_eq!(app.input(), "");
        assert_eq!(app.get_selected_square(), None);
        assert!(app.available_moves().is_empty());
        assert!(highlit(&board).is_empty());
    }
}

#[test]
fn submit_is_what_enter_does() {
    let mut app = App::new();
    let mut board = ChessBoard::from_fen("8/8/8/3k4/8/8/8/8");
    app.ui_buffer.push_str("d5");
    app.submit(&mut board);
    assert_eq!(app.ui_buffer, "");
    assert_eq!(app.get_selected_square(), Some(35));
    assert_eq!(highlit(&board), vec![26, 27, 28, 34, 36, 42, 43, 44]);
}
