use rusty_chess::chess_board::ChessBoard;

fn symbols(board: &ChessBoard) -> Vec<(u8, char)> {
    let mut found = Vec::new();
    for index in 0..64u8 {
        if let Some(piece) = board.get_piece(index) {
            found.push((index, piece.get_graphic()));
        }
    }
    found
}

#[test]
fn new_board_is_empty_and_unlit() {
    let board = ChessBoard::new();
    for index in 0..64u8 {
        assert!(board.get_piece(index).is_none());
        assert!(!board.is_highlit(index));
    }
}

#[test]
fn empty_fen_gives_an_empty_board() {
    let board = ChessBoard::from_fen("8/8/8/8/8/8/8/8 w KQkq - 0 1");
    for index in 0..64u8 {
        assert!(board.get_piece(index).is_none());
        assert!(!board.is_highlit(index));
        assert!(board.generate_moves(index).is_empty());
    }
}

#[test]
fn empty_string_gives_an_empty_board() {
    let board = ChessBoard::from_fen("");
    assert!(symbols(&board).is_empty());
}

#[test]
fn starting_position_is_decoded() {
    let board = ChessBoard::from_fen("rnbqkbnr/pppppppp/8/8/8/8/PPPPPPPP/RNBQKBNR w KQkq - 0 1");
    let back_rank = ['\u{265C}', '\u{265E}', '\u{265D}', '\u{265B}', '\u{265A}', '\u{265D}', '\u{265E}', '\u{265C}'];
    for file in 0..8u8 {
        let white = board.get_piece(file).unwrap();
        assert_eq!(white.get_graphic(), back_rank[file as usize]);
        assert!(white.is_white());
        let black = board.get_piece(56 + file).unwrap();
        assert_eq!(black.get_graphic(), back_rank[file as usize]);
        assert!(black.is_black());
        let white_pawn = board.get_piece(8 + file).unwrap();
        assert_eq!(white_pawn.get_graphic(), '\u{265F}');
        assert!(white_pawn.is_white());
        let black_pawn = board.get_piece(48 + file).unwrap();
        assert_eq!(black_pawn.get_graphic(), '\u{265F}');
        assert!(black_pawn.is_black());
    }
    for index in 16..48u8 {
        assert!(board.get_piece(index).is_none());
    }
}

#[test]
fn digits_skip_that_many_files() {
    let board = ChessBoard::from_fen("3r4/8/2K2q2/8/8/8/8/1N5B");
    assert_eq!(
        symbols(&board),
        vec![
            (1, '\u{265E}'),
            (7, '\u{265D}'),
            (42, '\u{265A}'),
            (45, '\u{265B}'),
            (59, '\u{265C}'),
        ]
    );
}

#[test]
fn zero_skips_nothing() {
    let board = ChessBoard::from_fen("0r0n");
    assert_eq!(symbols(&board), vec![(56, '\u{265C}'), (57, '\u{265E}')]);
}

#[test]
fn only_the_first_field_is_read() {
    let board = ChessBoard::from_fen("8/8/8/8/8/8/8/R7 rnbq/k");
    assert_eq!(symbols(&board), vec![(0, '\u{265C}')]);
    let board = ChessBoard::from_fen(" rnbqkbnr");
    assert!(symbols(&board).is_empty());
}

#[test]
fn pieces_right_of_the_board_are_dropped() {
    let board = ChessBoard::from_fen("9r/rnbqkbnrq/7kq");
    let found = symbols(&board);
    let indices: Vec<u8> = found.iter().map(|(index, _)| *index).collect();
    assert_eq!(indices, vec![47, 48, 49, 50, 51, 52, 53, 54, 55]);
    assert!(board.get_piece(56).is_none());
    assert!(board.get_piece(63).is_none());
    assert!(board.get_piece(40).is_none());
}

#[test]
fn many_digits_do_not_overflow() {
    let fen = "9".repeat(100) + "r/k";
    let board = ChessBoard::from_fen(&fen);
    assert_eq!(symbols(&board), vec![(48, '\u{265A}')]);
}

#[test]
fn pieces_below_the_board_are_dropped() {
    let board = ChessBoard::from_fen("r/r/r/r/r/r/r/r/q/q/q");
    let indices: Vec<u8> = symbols(&board).iter().map(|(index, _)| *index).collect();
    assert_eq!(indices, vec![0, 8, 16, 24, 32, 40, 48, 56]);
    let slashes = "/".repeat(300) + "k";
    let board = ChessBoard::from_fen(&slashes);
    assert!(symbols(&board).is_empty());
}

#[test]
fn a_later_piece_replaces_an_earlier_one_on_its_square() {
    let board = ChessBoard::from_fen("r/8/8/8/8/8/8/8");
    assert_eq!(board.get_piece(56).unwrap().get_graphic(), '\u{265C}');
    let board = ChessBoard::from_fen("8/8/8/8/8/8/8/7xQ");
    assert_eq!(symbols(&board), vec![(7, ' ')]);
}

#[test]
fn unknown_symbols_are_placed_as_they_are() {
    let board = ChessBoard::from_fen("x\u{e9}-");
    assert_eq!(symbols(&board), vec![(56, ' '), (57, ' '), (58, ' ')]);
    assert!(board.get_piece(56).unwrap().is_black());
    assert!(board.get_piece(57).unwrap().is_black());
    assert!(board.get_piece(58).unwrap().is_white());
}

#[test]
fn get_pieces_on_rank_counts_ranks_from_one() {
    let board = ChessBoard::from_fen("rnbqkbnr/8/8/8/8/8/8/4K3");
    let first = board.get_pieces_on_rank(1);
    assert_eq!(first.len(), 8);
    for (file, slot) in first.iter().enumerate() {
        assert_eq!(slot.is_some(), file == 4);
    }
    assert_eq!(first[4].unwrap().get_graphic(), '\u{265A}');
    let eighth = board.get_pieces_on_rank(8);
    assert_eq!(eighth.len(), 8);
    let glyphs: Vec<char> = eighth.iter().map(|slot| slot.unwrap().get_graphic()).collect();
    assert_eq!(
        glyphs,
        vec!['\u{265C}', '\u{265E}', '\u{265D}', '\u{265B}', '\u{265A}', '\u{265D}', '\u{265E}', '\u{265C}']
    );
    for rank in 2..=7usize {
        assert!(board.get_pieces_on_rank(rank).iter().all(|slot| slot.is_none()));
    }
}

#[test]
fn highlights_are_set_read_and_reset() {
    let mut board = ChessBoard::from_fen("8/8/8/8/8/8/8/R7");
    board.highlight_square(0, true);
    board.highlight_square(63, true);
    board.highlight_square(10, true);
    board.highlight_square(10, false);
    for index in 0..64u8 {
        assert_eq!(board.is_highlit(index), index == 0 || index == 63);
    }
    board.reset_highlights();
    for index in 0..64u8 {
        assert!(!board.is_highlit(index));
    }
    assert!(board.get_piece(0).is_some());
}

#[test]
fn board_moves_are_those_of_the_piece() {
    let board = ChessBoard::from_fen("8/8/8/8/8/8/8/R7");
    let moves = board.generate_moves(0);
    let destinations: Vec<u8> = moves.iter().map(|m| m.destination).collect();
    assert_eq!(destinations, vec![1, 2, 3, 4, 5, 6, 7, 8, 16, 24, 32, 40, 48, 56]);
    assert!(moves.iter().all(|m| m.source == 0));
    assert!(board.generate_moves(1).is_empty());
}
