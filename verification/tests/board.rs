use chessify::{
    Bitboard, Board, BoardBuilder, CastlingRights, CastlingStatus, ChessifyError, Color, Piece,
    Square, DEFAULT_BOARD_FEN, NUM_PLANES,
};

fn total_bits(board: &Board) -> u32 {
    board.bitboards().iter().map(|b| b.0.count_ones()).sum()
}

fn planes_are_disjoint(board: &Board) -> bool {
    let planes = board.bitboards();
    for p in 0..NUM_PLANES {
        for q in (p + 1)..NUM_PLANES {
            if planes[p].0 & planes[q].0 != 0 {
                return false;
            }
        }
    }
    true
}

#[test]
fn default_fen_round_trip() {
    let board = Board::try_from_fen(DEFAULT_BOARD_FEN).unwrap();
    assert_eq!(DEFAULT_BOARD_FEN, board.to_fen());
    assert_eq!(DEFAULT_BOARD_FEN, Board::default().to_fen());
    assert_eq!(DEFAULT_BOARD_FEN, Board::standard().to_fen());
    assert_eq!(DEFAULT_BOARD_FEN, Board::from_fen(DEFAULT_BOARD_FEN).to_fen());
}

#[test]
fn standard_board_planes() {
    let board = Board::standard();
    let planes = board.bitboards();
    assert_eq!(Bitboard(0x00ff_0000_0000_0000), planes[0]);
    assert_eq!(Bitboard(0x4200_0000_0000_0000), planes[1]);
    assert_eq!(Bitboard(0x2400_0000_0000_0000), planes[2]);
    assert_eq!(Bitboard(0x8100_0000_0000_0000), planes[3]);
    assert_eq!(Bitboard(0x0800_0000_0000_0000), planes[4]);
    assert_eq!(Bitboard(0x1000_0000_0000_0000), planes[5]);
    assert_eq!(Bitboard(0x0000_0000_0000_ff00), planes[6]);
    assert_eq!(Bitboard(0x0000_0000_0000_0042), planes[7]);
    assert_eq!(Bitboard(0x0000_0000_0000_0024), planes[8]);
    assert_eq!(Bitboard(0x0000_0000_0000_0081), planes[9]);
    assert_eq!(Bitboard(0x0000_0000_0000_0008), planes[10]);
    assert_eq!(Bitboard(0x0000_0000_0000_0010), planes[11]);
    assert_eq!(32, board.pieces().len());
    assert_eq!(Some(&(Piece::Rook, Color::Black)), board.pieces().get(&0));
    assert_eq!(Some(&(Piece::King, Color::Black)), board.pieces().get(&4));
    assert_eq!(Some(&(Piece::Pawn, Color::Black)), board.pieces().get(&8));
    assert_eq!(None, board.pieces().get(&16));
    assert_eq!(Some(&(Piece::Pawn, Color::White)), board.pieces().get(&55));
    assert_eq!(Some(&(Piece::Queen, Color::White)), board.pieces().get(&59));
    assert_eq!(Some(&(Piece::Rook, Color::White)), board.pieces().get(&63));
    assert_eq!(Color::White, board.side_to_move());
    assert_eq!(CastlingRights(15), board.castling_rights());
    assert_eq!(None, board.en_passante_square());
    assert_eq!(0, board.halfmove_clock());
    assert_eq!(1, board.fullmove_number());
}

#[test]
fn empty_placement_gives_an_empty_board() {
    let board = Board::try_from_fen("8/8/8/8/8/8/8/8 w - - 0 1").unwrap();
    for plane in board.bitboards().iter() {
        assert_eq!(Bitboard::empty(), *plane);
    }
    assert!(board.pieces().is_empty());
    assert_eq!(Color::White, board.side_to_move());
    assert_eq!(CastlingRights(0), board.castling_rights());
    assert_eq!(None, board.en_passante_square());
    assert_eq!(0, board.halfmove_clock());
    assert_eq!(1, board.fullmove_number());
    assert_eq!("8/8/8/8/8/8/8/8 w - - 0 1", board.to_fen());
}

#[test]
fn position_after_some_moves() {
    let board =
        Board::try_from_fen("r1bqk2r/ppp2ppp/2n2n2/2bpP3/2Bp4/5N2/PPP2PPP/RNBQKR2 w Qkq d6 0 7")
            .unwrap();
    assert_eq!(Color::White, board.side_to_move());
    assert_eq!(
        CastlingStatus::Queenside,
        board.castling_rights().for_color(Color::White)
    );
    assert_eq!(
        CastlingStatus::Both,
        board.castling_rights().for_color(Color::Black)
    );
    assert_eq!(CastlingStatus::Queenside, board.castling_status_for(Color::White));
    assert_eq!(CastlingStatus::Both, board.castling_status_for(Color::Black));
    assert_eq!(Some(Square::from_str("d6")), board.en_passante_square());
    assert_eq!(Some(Square(19)), board.en_passante_square());
    assert_eq!(0, board.halfmove_clock());
    assert_eq!(7, board.fullmove_number());
    assert_eq!(Some(&(Piece::Pawn, Color::White)), board.pieces().get(&28));
    assert_eq!(Some(&(Piece::Bishop, Color::Black)), board.pieces().get(&26));
    assert_eq!(None, board.pieces().get(&1));
    assert_eq!(
        "r1bqk2r/ppp2ppp/2n2n2/2bpP3/2Bp4/5N2/PPP2PPP/RNBQKR2 w Qkq d6 0 7",
        board.to_fen()
    );
}

#[test]
fn fewer_than_four_fields_is_invalid() {
    for text in ["", "   ", "8/8/8/8/8/8/8/8", "8/8/8/8/8/8/8/8 w", "8/8/8/8/8/8/8/8 w -"] {
        match Board::try_from_fen(text) {
            Err(ChessifyError::InvalidFen(held)) => assert_eq!(text, held),
            other => panic!("{:?}", other),
        }
    }
}

#[test]
fn unknown_placement_character_is_invalid() {
    let text = "rnbqkbnr/ppppXppp/8/8/8/8/PPPPPPPP/RNBQKBNR w KQkq - 0 1";
    match Board::try_from_fen(text) {
        Err(ChessifyError::InvalidFen(held)) => assert_eq!(text, held),
        other => panic!("{:?}", other),
    }
    match BoardBuilder::try_from_fen(text) {
        Err(ChessifyError::InvalidFen(held)) => assert_eq!(text, held),
        other => panic!("{:?}", other),
    }
}

#[test]
fn placement_must_cover_eight_ranks_of_eight_squares() {
    let bad = [
        "8/8/8/8/8/8/8 w - - 0 1",
        "8/8/8/8/8/8/8/8/8 w - - 0 1",
        "8/8/8/8/8/8/8/7 w - - 0 1",
        "8/8/8/8/8/8/8/9 w - - 0 1",
        "8/8/8/8/8/8/8/44p w - - 0 1",
        "ppppppppp/8/8/8/8/8/8/8 w - - 0 1",
        "8/8/8/8/8/8/8/0 w - - 0 1",
        "8/8/8/8/8/8/8/8/ w - - 0 1",
        "/8/8/8/8/8/8/8 w - - 0 1",
        "8//8/8/8/8/8/8 w - - 0 1",
    ];
    for text in bad {
        match Board::try_from_fen(text) {
            Err(ChessifyError::InvalidFen(held)) => assert_eq!(text, held),
            other => panic!("{}: {:?}", text, other),
        }
    }
    let board = Board::try_from_fen("44/1111p111/8/8/8/8/8/8 w - - 0 1").unwrap();
    assert_eq!("8/4p3/8/8/8/8/8/8 w - - 0 1", board.to_fen());
}

#[test]
fn each_field_gives_its_own_error() {
    assert_eq!(
        Some(ChessifyError::UnknownColor("x".to_string())),
        Board::try_from_fen("8/8/8/8/8/8/8/8 x - - 0 1").err()
    );
    assert_eq!(
        Some(ChessifyError::InvalidFen("KQx".to_string())),
        Board::try_from_fen("8/8/8/8/8/8/8/8 w KQx - 0 1").err()
    );
    assert_eq!(
        Some(ChessifyError::UnknownSquare("9".to_string())),
        Board::try_from_fen("8/8/8/8/8/8/8/8 w - e9 0 1").err()
    );
    assert_eq!(
        Some(ChessifyError::UnknownSquare("z".to_string())),
        Board::try_from_fen("8/8/8/8/8/8/8/8 w - Z3 0 1").err()
    );
    assert_eq!(
        Some(ChessifyError::UnknownSquare("e".to_string())),
        Board::try_from_fen("8/8/8/8/8/8/8/8 w - e 0 1").err()
    );
    assert_eq!(
        Some(ChessifyError::ParsingError("x".to_string(), "usize".to_string())),
        Board::try_from_fen("8/8/8/8/8/8/8/8 w - - x 1").err()
    );
    assert_eq!(
        Some(ChessifyError::ParsingError("-1".to_string(), "usize".to_string())),
        Board::try_from_fen("8/8/8/8/8/8/8/8 w - - 0 -1").err()
    );
    assert_eq!(
        Some(ChessifyError::ParsingError(
            "99999999999999999999999999".to_string(),
            "usize".to_string()
        )),
        Board::try_from_fen("8/8/8/8/8/8/8/8 w - - 0 99999999999999999999999999").err()
    );
}

#[test]
fn the_first_error_in_the_text_is_returned() {
    let text = "8/8/8/8/8/8/8/X x KQx e9 y z";
    assert_eq!(
        Some(ChessifyError::InvalidFen(text.to_string())),
        Board::try_from_fen(text).err()
    );
    assert_eq!(
        Some(ChessifyError::UnknownColor("x".to_string())),
        Board::try_from_fen("8/8/8/8/8/8/8/8 x KQx e9 y z").err()
    );
    assert_eq!(
        Some(ChessifyError::InvalidFen("KQx".to_string())),
        Board::try_from_fen("8/8/8/8/8/8/8/8 b KQx e9 y z").err()
    );
    assert_eq!(
        Some(ChessifyError::UnknownSquare("9".to_string())),
        Board::try_from_fen("8/8/8/8/8/8/8/8 b KQ e9 y z").err()
    );
    assert_eq!(
        Some(ChessifyError::ParsingError("y".to_string(), "usize".to_string())),
        Board::try_from_fen("8/8/8/8/8/8/8/8 b KQ e3 y z").err()
    );
    assert_eq!(
        Some(ChessifyError::ParsingError("z".to_string(), "usize".to_string())),
        Board::try_from_fen("8/8/8/8/8/8/8/8 b KQ e3 4 z").err()
    );
}

#[test]
fn counters_are_read_from_six_fields_only() {
    let four = Board::try_from_fen("8/8/8/8/8/8/8/8 b Kq e3").unwrap();
    assert_eq!(0, four.halfmove_clock());
    assert_eq!(0, four.fullmove_number());
    assert_eq!(Color::Black, four.side_to_move());
    assert_eq!(CastlingRights(9), four.castling_rights());
    assert_eq!(Some(Square(44)), four.en_passante_square());
    assert_eq!("8/8/8/8/8/8/8/8 b Kq e3 0 0", four.to_fen());

    let five = Board::try_from_fen("8/8/8/8/8/8/8/8 b Kq e3 17").unwrap();
    assert_eq!(0, five.halfmove_clock());
    assert_eq!(0, five.fullmove_number());

    let six = Board::try_from_fen("8/8/8/8/8/8/8/8 b Kq e3 17 42").unwrap();
    assert_eq!(17, six.halfmove_clock());
    assert_eq!(42, six.fullmove_number());

    let seven = Board::try_from_fen("8/8/8/8/8/8/8/8 b Kq e3 17 42 x").unwrap();
    assert_eq!(0, seven.halfmove_clock());
    assert_eq!(0, seven.fullmove_number());

    let plus = Board::try_from_fen("8/8/8/8/8/8/8/8 b Kq e3 +5 007").unwrap();
    assert_eq!(5, plus.halfmove_clock());
    assert_eq!(7, plus.fullmove_number());
}

#[test]
fn fields_are_split_at_any_white_space() {
    let board = Board::try_from_fen("  8/8/8/8/8/8/8/8\tw \n -   -\u{3000}3 9  ").unwrap();
    assert_eq!("8/8/8/8/8/8/8/8 w - - 3 9", board.to_fen());
}

#[test]
fn each_piece_letter_is_placed_and_written_back() {
    let letters = [
        ('P', Piece::Pawn, Color::White, 0usize),
        ('N', Piece::Knight, Color::White, 1),
        ('B', Piece::Bishop, Color::White, 2),
        ('R', Piece::Rook, Color::White, 3),
        ('Q', Piece::Queen, Color::White, 4),
        ('K', Piece::King, Color::White, 5),
        ('p', Piece::Pawn, Color::Black, 6),
        ('n', Piece::Knight, Color::Black, 7),
        ('b', Piece::Bishop, Color::Black, 8),
        ('r', Piece::Rook, Color::Black, 9),
        ('q', Piece::Queen, Color::Black, 10),
        ('k', Piece::King, Color::Black, 11),
    ];
    for (letter, piece, color, plane) in letters {
        for square in [0usize, 7, 27, 36, 56, 63] {
            let rank = square / 8;
            let file = square % 8;
            let mut row = String::new();
            if file > 0 {
                row.push_str(&file.to_string());
            }
            row.push(letter);
            if file < 7 {
                row.push_str(&(7 - file).to_string());
            }
            let mut rows = vec!["8".to_string(); 8];
            rows[rank] = row;
            let placement = rows.join("/");
            let fen = format!("{} w - - 0 1", placement);
            let board = Board::try_from_fen(&fen).unwrap();
            assert_eq!(fen, board.to_fen());
            assert_eq!(1, board.pieces().len());
            assert_eq!(Some(&(piece, color)), board.pieces().get(&square));
            for p in 0..NUM_PLANES {
                let expected = if p == plane { 1u64 << square } else { 0 };
                assert_eq!(Bitboard(expected), board.bitboards()[p]);
            }
            assert_eq!(Some(letter), board.to_fen().chars().nth(fen.find(letter).unwrap()));
        }
    }
}

#[test]
fn planes_and_occupants_describe_the_same_pieces() {
    let fens = [
        DEFAULT_BOARD_FEN,
        "8/8/8/8/8/8/8/8 w - - 0 1",
        "r1bqk2r/ppp2ppp/2n2n2/2bpP3/2Bp4/5N2/PPP2PPP/RNBQKR2 w Qkq d6 0 7",
        "QQQQQQQQ/kkkkkkkk/8/3pP3/8/1n4N1/8/r6R b - a3 12 99",
    ];
    for fen in fens {
        let board = Board::try_from_fen(fen).unwrap();
        assert_eq!(board.pieces().len() as u32, total_bits(&board));
        assert!(planes_are_disjoint(&board));
        for (square, (piece, color)) in board.pieces().iter() {
            let plane = piece.as_index() + 6 * color.as_index();
            assert_ne!(0, board.bitboards()[plane].0 & (1u64 << square));
        }
        assert_eq!(fen, board.to_fen());
    }
}

#[test]
fn empty_and_new_boards() {
    for board in [Board::empty(), Board::new()] {
        assert!(board.pieces().is_empty());
        assert_eq!(0, total_bits(&board));
        assert_eq!(Color::White, board.side_to_move());
        assert_eq!(CastlingRights::none(), board.castling_rights());
        assert_eq!(CastlingStatus::NotAvailable, board.castling_status_for(Color::Black));
        assert_eq!(None, board.en_passante_square());
        assert_eq!(0, board.halfmove_clock());
        assert_eq!(0, board.fullmove_number());
        assert_eq!("8/8/8/8/8/8/8/8 w - - 0 0", board.to_fen());
    }
}

#[test]
fn builder_without_parts_builds_nothing() {
    assert_eq!(
        Some(ChessifyError::BoardSetup("Bitboards not initialized".to_string())),
        BoardBuilder::new().try_build().err()
    );
    assert_eq!(
        Some(ChessifyError::BoardSetup("Bitboards not initialized".to_string())),
        BoardBuilder::default().try_build().err()
    );
}

#[test]
fn builder_from_fen_builds_the_board() {
    let fen = "r1bqk2r/ppp2ppp/2n2n2/2bpP3/2Bp4/5N2/PPP2PPP/RNBQKR2 w Qkq d6 0 7";
    assert_eq!(fen, BoardBuilder::from_fen(fen).build().to_fen());
    assert_eq!(
        fen,
        BoardBuilder::try_from_fen(fen).unwrap().try_build().unwrap().to_fen()
    );
}

#[test]
fn diagram_of_the_standard_board() {
    let expected = "\n   +------------------------+\n \
8 | r  n  b  q  k  b  n  r |\n \
7 | p  p  p  p  p  p  p  p |\n \
6 | .  .  .  .  .  .  .  . |\n \
5 | .  .  .  .  .  .  .  . |\n \
4 | .  .  .  .  .  .  .  . |\n \
3 | .  .  .  .  .  .  .  . |\n \
2 | P  P  P  P  P  P  P  P |\n \
1 | R  N  B  Q  K  B  N  R |\n   \
+------------------------+\n     \
a  b  c  d  e  f  g  h\n\n       To move: W  (0, 1)\n";
    assert_eq!(expected, Board::standard().to_string());
}

#[test]
fn diagram_shows_the_color_and_the_counters() {
    let board = Board::try_from_fen("8/8/8/8/8/8/8/k6K b - - 12 345").unwrap();
    let text = board.to_string();
    assert!(text.ends_with("\n       To move: B  (12, 345)\n"));
    assert!(text.contains(" 1 | k  .  .  .  .  .  .  K |\n"));
    assert!(text.contains(" 8 | .  .  .  .  .  .  .  . |\n"));
}
