use usirun::rules::{all_ascii, in_range, Board, Color, Move, SfenError};

const RULES_START: &str = "lnsgkgsnl/1r5b1/ppppppppp/9/9/9/PPPPPPPPP/1B5R1/LNSGKGSNL b - 1";

fn rules_move(text: &str) -> Move {
    Move::from_sfen(text.as_bytes()).expect("a move")
}

fn rules_board(sfen: &str) -> Board {
    Board::from_sfen(sfen).expect("a position")
}

#[test]
fn colors_flip() {
    assert_eq!(Color::White, Color::Black.flip());
    assert_eq!(Color::Black, Color::White.flip());
}

#[test]
fn moves_are_read_from_sfen() {
    for text in ["9a1i", "9a1i+", "S*5e", "7g7f", "1a9i", "K*1a", "P*9i"] {
        let m = Move::from_sfen(text.as_bytes());
        assert!(m.is_some(), "{}", text);
        assert_eq!(text.as_bytes().to_vec(), m.unwrap().to_sfen(), "{}", text);
    }
    assert_eq!(b"P*5e".to_vec(), rules_move("P*5e+").to_sfen());
}

#[test]
fn texts_that_are_no_moves_are_refused() {
    let ng_cases = [
        "9j1i", "9a1j", "9a1", "9aj", "j1i", "9a1i1", "9a1i-", "S+5e", "S 5e", "Z*5e", "S+9j", "",
        "0a1i", "7g7f++", "p*5e", "+P*5e", "resign", "7g7f ", "７g7f",
    ];
    for text in ng_cases {
        assert!(Move::from_sfen(text.as_bytes()).is_none(), "{}", text);
    }
    assert!(Move::from_sfen(b"1\xe2\x82\xac").is_none());
    assert!(Move::from_sfen(b"\xc3\xa9123").is_none());
    assert!(Move::from_sfen(b"7g7\xff").is_none());
}

#[test]
fn moves_are_compared_by_their_notation() {
    assert!(rules_move("7g7f").same_as(&rules_move("7g7f")));
    assert!(!rules_move("7g7f").same_as(&rules_move("7g7f+")));
    assert!(rules_move("P*5e").same_as(&rules_move("P*5e+")));
    assert!(rules_move("3c3d").copy().same_as(&rules_move("3c3d")));
    assert_eq!(b"3c3d".as_slice(), rules_move("3c3d").as_bytes());
}

#[test]
fn a_new_board_is_empty() {
    let board = Board::new();
    assert_eq!(Color::Black, board.side_to_move());
    assert_eq!(1, board.ply());
    assert_eq!(None, board.last_move());
    assert_eq!(b"9/9/9/9/9/9/9/9/9 b - 1".to_vec(), board.to_sfen());
}

#[test]
fn a_position_is_set_from_sfen() {
    let board = rules_board(RULES_START);
    assert_eq!(Color::Black, board.side_to_move());
    assert_eq!(1, board.ply());
    assert_eq!(None, board.last_move());
    assert_eq!(RULES_START.as_bytes().to_vec(), board.to_sfen());

    let board = rules_board("8k/9/8K/9/9/9/9/9/9 w 2G 42");
    assert_eq!(Color::White, board.side_to_move());
    assert_eq!(42, board.ply());

    let board = rules_board(
        "lnsgkgsnl/1r5b1/ppppppppp/9/9/9/PPPPPPPPP/1B5R1/LNSGKGSNL b - 1 moves 7g7f 3c3d",
    );
    assert_eq!(Color::Black, board.side_to_move());
    assert_eq!(3, board.ply());
    assert_eq!(Some(b"3c3d".to_vec()), board.last_move());
}

#[test]
fn texts_that_are_no_positions_are_refused() {
    let cases = [
        ("", SfenError::MissingDataFields),
        ("lnsgkgsnl/1r5b1/ppppppppp/9/9/9/PPPPPPPPP/1B5R1/LNSGKGSNL b -", SfenError::MissingDataFields),
        ("lnsgkgsnl/1r5b1/ppppppppp/9/9/9/PPPPPPPPP/1B5R1/LNSGKGSNL", SfenError::MissingDataFields),
        ("lnsgkgsnl/1r5b1/ppppxpppp/9/9/9/PPPPPPPPP/1B5R1/LNSGKGSNL b - 1", SfenError::IllegalPieceType),
        ("4k4/9/9/9/9/9/9/9/4K4 b x 1", SfenError::IllegalPieceType),
        ("lnsg+kgsnl/1r5b1/ppppppppp/9/9/9/PPPPPPPPP/1B5R1/LNSGKGSNL b - 1", SfenError::IllegalPieceType),
        ("lnsgkgsnl/1r5b1/ppppppppp/9/9/9/PPPPPPPPP/1B5R1/LNSGKGSNL x - 1", SfenError::IllegalSideToMove),
        ("lnsgkgsnl/1r5b1/ppppppppp/9/9/9/PPPPPPPPP/1B5R1/LNSGKGSNL b - one", SfenError::IllegalMoveCount),
        ("lnsgkgsnl/1r5b1/ppppppppp/9/9/9/PPPPPPPPP/1B5R1/LNSGKGSNL b - 65536", SfenError::IllegalMoveCount),
        ("lnsgkgsnl/1r5b1/ppppppppp/9/9/9/PPPPPPPPP/1B5R1/LNSGKGSNL b - 1 moves 7g7x", SfenError::IllegalMove),
        ("lnsgkgsnl/1r5b1/ppppppppp/9/9/9/PPPPPPPPP/1B5R1/LNSGKGSNL/9 b - 1", SfenError::IllegalBoardState),
        ("lnsgkgsnl1/1r5b1/ppppppppp/9/9/9/PPPPPPPPP/1B5R1/LNSGKGSNL b - 1", SfenError::IllegalBoardState),
    ];
    let mut board = rules_board(RULES_START);
    for (text, error) in cases {
        assert_eq!(Err(error), board.set_sfen(text), "{}", text);
        assert_eq!(RULES_START.as_bytes().to_vec(), board.to_sfen());
    }
}

#[test]
fn positions_out_of_range_are_not_read() {
    let cases = [
        "lnsgkgsnl/1r5b1/ppppppppp/9/9/9/PPPPPPPPP/1B5R1/LNSGKGSNL b P 1",
        "lnsgkgsnl/1r5b1/ppppppppp/9/9/9/PPPPPPPPP/1B5R1/LNSGKGSNL b 999P 1",
        "9/9/9/9/9/9/9/9/9 b 41P 1",
        "9/9/9/9/9/9/9/9/9 b 300 1",
        "lnsgkgsnl/1r5b1/ppppppppp/ppppppppp/9/9/PPPPPPPPP/1B5R1/LNSGKGSNL b - 1",
        "lnsgkgsnl/1r5b1/ppppppppp/9/9/9/PPPPPPPPP/1B5R1/LNSGKGSNL b - 65535 moves 7g7f",
        "lnsgkgsnl/1r5b1/ppppppppp/9/9/9/PPPPPPPPP/1B5R1/LNSGKGSNL b - +1 moves 7g7f",
        "lnsgkgsnl/1r5b1/ppppppppp/9/9/9/PPPPPPPPP/1B5R1/LNSGKGSNL b - 1 moves 7g7\u{ff46}",
        "lnsgkgsnl/1r5b1/ppppppppp/9/9/9/PPPPPPPPP/1B5R1/LNSGKGSNL\u{a0}b - 1",
    ];
    let mut board = rules_board(RULES_START);
    for text in cases {
        assert!(!in_range(text.as_bytes()), "{}", text);
        assert_eq!(Err(SfenError::OutOfRange), board.set_sfen(text), "{}", text);
        assert_eq!(RULES_START.as_bytes().to_vec(), board.to_sfen());
    }
}

#[test]
fn positions_in_range_are_read() {
    let cases = [
        RULES_START,
        "9/9/9/9/9/9/9/9/9 b 40P 1",
        "9/9/9/9/9/9/9/9/9 b 18P4L4N4S4G2B2R2p 1",
        "4k4/9/9/9/9/9/9/9/4K4 w 038P 65535",
        "lnsgkgsnl/1r5b1/ppppppppp/9/9/9/PPPPPPPPP/1B5R1/LNSGKGSNL b - 65534 moves 7g7f",
        "lnsgkgsnl/1r5b1/ppppppppp/9/9/9/PPPPPPPPP/1B5R1/LNSGKGSNL b - 1 moves",
        "lnsgkgsnl/1r5b1/ppppppppp/9/9/9/PPPPPPPPP/1B5R1/LNSGKGSNL b - 1 later 7g7f",
    ];
    for text in cases {
        assert!(in_range(text.as_bytes()), "{}", text);
        assert!(Board::from_sfen(text).is_ok(), "{}", text);
    }
    assert!(in_range(b""));
    assert!(in_range(b"anything at"));
}

#[test]
fn ascii_is_told_from_the_rest() {
    assert!(all_ascii(b""));
    assert!(all_ascii(b"7g7f\x7f\x00"));
    assert!(!all_ascii(b"7g7\x80"));
    assert!(!all_ascii("７".as_bytes()));
}

#[test]
fn an_accepted_move_passes_the_turn() {
    let mut board = rules_board(RULES_START);
    assert!(board.make_move(&rules_move("7g7f")));
    assert_eq!(Color::White, board.side_to_move());
    assert_eq!(2, board.ply());
    assert_eq!(Some(b"7g7f".to_vec()), board.last_move());
    assert_eq!(
        b"lnsgkgsnl/1r5b1/ppppppppp/9/9/9/PPPPPPPPP/1B5R1/LNSGKGSNL b - 1 moves 7g7f".to_vec(),
        board.to_sfen()
    );
    assert!(board.make_move(&rules_move("3c3d")));
    assert!(board.make_move(&rules_move("8h2b+")));
    assert_eq!(Color::White, board.side_to_move());
    assert_eq!(4, board.ply());
    assert_eq!(Some(b"8h2b+".to_vec()), board.last_move());
    assert!(board.make_move(&rules_move("3a2b")));
    assert!(board.make_move(&rules_move("B*5e")));
    assert_eq!(Some(b"B*5e".to_vec()), board.last_move());
    assert_eq!(6, board.ply());
}

#[test]
fn the_verdict_on_a_text_rests_on_the_text_alone() {
    let text = format!("{} moves 7g7f zz", RULES_START);
    assert!(in_range(text.as_bytes()));
    let first = Board::from_sfen(&text).err();
    let mut board = Board::new();
    let second = board.set_sfen(&text).err();
    let third = Board::from_sfen(&text).err();
    assert_eq!(Some(SfenError::IllegalMove), first);
    assert_eq!(first, second);
    assert_eq!(first, third);
}

#[test]
fn a_text_is_read_into_the_position_that_it_describes() {
    let text = format!("{}   moves 7g7f  3c3d 3c3d 2g2f", RULES_START);
    let board = Board::from_sfen(&text).expect("a position");
    assert_eq!(Color::Black, board.side_to_move());
    assert_eq!(3, board.ply());
    assert_eq!(Some(b"3c3d".to_vec()), board.last_move());
    assert_eq!(format!("{} moves 7g7f 3c3d", RULES_START).into_bytes(), board.to_sfen());
    let again = Board::from_sfen(&text).expect("a position");
    assert_eq!(board.to_sfen(), again.to_sfen());
    assert_eq!(board.ply(), again.ply());
    assert_eq!(Err(SfenError::OutOfRange), Board::from_sfen("9/9/9/9/9/9/9/9/9 b 41P 1").map(|_| ()));
    assert_eq!(Err(SfenError::MissingDataFields), Board::from_sfen("9/9/9 b").map(|_| ()));
}

#[test]
fn a_new_board_takes_moves_once_pieces_are_set() {
    let mut board = Board::new();
    assert!(!board.make_move(&rules_move("7g7f")));
    assert_eq!(1, board.ply());
    board.set_sfen(RULES_START).expect("a position");
    assert!(board.make_move(&rules_move("7g7f")));
    assert_eq!(2, board.ply());
}

#[test]
fn a_refused_move_is_told() {
    let mut board = rules_board(RULES_START);
    assert!(!board.make_move(&rules_move("7g7e")));
    assert!(!board.make_move(&rules_move("3c3d")));
    assert!(!board.make_move(&rules_move("P*5e")));
    assert!(!board.make_move(&rules_move("5e5d")));
    assert_eq!(Color::Black, board.side_to_move());
    assert_eq!(1, board.ply());
    assert_eq!(None, board.last_move());
}

#[test]
fn a_declaration_is_judged_by_the_rules() {
    let board = rules_board(RULES_START);
    assert!(!board.try_declare_winning(Color::Black));
    assert!(!board.try_declare_winning(Color::White));
    let board = rules_board("1K7/+N+N+N+N+N+N+N+N+N/+P+P+P+P+P+P+P+P+P/9/9/9/9/9/4k4 b 2R2B 1");
    assert!(board.try_declare_winning(Color::Black));
    assert!(!board.try_declare_winning(Color::White));
}
