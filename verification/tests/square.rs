use chessify::{ChessifyError, File, Rank, Square};

#[test]
fn square_from_str_ok() {
    let h1 = Square::from_str("h1");
    let c8 = Square::from_str("c8");
    let e4 = Square::from_str("E4");
    let a3 = Square::from_str("a3");
    let b2 = Square::from_str("b2");
    let g5 = Square::from_str("g5");
    let d6 = Square::from_str("d6");

    assert_eq!(Square(63), h1);
    assert_eq!(Square::new(2), c8);
    assert_eq!(Square::from_index(36 as usize), e4);
    assert_eq!(63 as usize, h1.index());
    assert_eq!(2, a3.rank().0);
    assert_eq!(1, b2.file().0);
    assert_eq!(4, g5.rank().0);
    assert_eq!(3, d6.file().0);

    assert_eq!("h1".to_string(), h1.to_string());
    assert_eq!("c8".to_string(), c8.to_string());
    assert_eq!("e4".to_string(), e4.to_string());
    assert_eq!("a3".to_string(), a3.to_string());
    assert_eq!("b2".to_string(), b2.to_string());
    assert_eq!("g5".to_string(), g5.to_string());
    assert_eq!("d6".to_string(), d6.to_string());
}

#[test]
#[should_panic]
fn from_str_err_too_short() {
    Square::from_str("a");
}

#[test]
#[should_panic]
fn from_str_err_unknown_rank() {
    Square::from_str("a9");
}

#[test]
fn file_from_str_ok() {
    assert_eq!(0, File::try_from("a").unwrap().0);
    assert_eq!(1, File::try_from("b").unwrap().0);
    assert_eq!(2, File::try_from("c").unwrap().0);
    assert_eq!(3, File::try_from("d").unwrap().0);
    assert_eq!(4, File::try_from("e").unwrap().0);
    assert_eq!(5, File::try_from("f").unwrap().0);
    assert_eq!(5, File::try_from("F").unwrap().0);
    assert_eq!(6, File::try_from("g").unwrap().0);
    assert_eq!(7, File::try_from("h").unwrap().0);
    assert_eq!(7, File::try_from("H").unwrap().0);
}

#[test]
#[should_panic]
fn file_from_str_err() {
    File::try_from("q").unwrap();
}

#[test]
fn rank_from_str_ok() {
    assert_eq!(7, Rank::try_from("1").unwrap().0);
    assert_eq!(6, Rank::try_from("2").unwrap().0);
    assert_eq!(5, Rank::try_from("3").unwrap().0);
    assert_eq!(4, Rank::try_from("4").unwrap().0);
    assert_eq!(3, Rank::try_from("5").unwrap().0);
    assert_eq!(2, Rank::try_from("6").unwrap().0);
    assert_eq!(1, Rank::try_from("7").unwrap().0);
    assert_eq!(0, Rank::try_from("8").unwrap().0);
}

#[test]
#[should_panic]
fn rank_from_str_err() {
    Rank::try_from("9").unwrap();
}

#[test]
fn file_and_rank_ok() {
    let d7 = Square::from_str("d7");
    let f1 = Square::from_str("f1");

    assert_eq!(6u8, d7.rank_as_u8());
    assert_eq!(Rank(6), d7.rank());

    assert_eq!(5u8, f1.file_as_u8());
    assert_eq!(File(5), f1.file());

    let ds = d7.to_string();
    let fs = f1.to_string();
    assert_eq!('d', ds.chars().next().unwrap());
    assert_eq!('1', fs.chars().nth(1).unwrap());
}

#[test]
#[should_panic]
fn from_str_err_unknown_file() {
    Square::from_str("q4");
}

#[test]
fn square_name_round_trip() {
    for i in 0..64usize {
        let square = Square::from_index(i);
        let name = square.to_string();
        assert_eq!(Ok(square), Square::try_from(name.as_str()));
        assert_eq!(i, Square::from_str(name.as_str()).index());
    }
}

#[test]
fn square_corners() {
    assert_eq!(Ok(Square(0)), Square::try_from("a8"));
    assert_eq!(Ok(Square(7)), Square::try_from("h8"));
    assert_eq!(Ok(Square(56)), Square::try_from("a1"));
    assert_eq!(Ok(Square(63)), Square::try_from("h1"));
    assert_eq!(Ok(Square(19)), Square::try_from("d6"));
    assert_eq!(Ok(Square(36)), Square::try_from("e4xyz"));
}

#[test]
fn square_numbers_are_taken_modulo_64() {
    assert_eq!(Square(63), Square::new(63));
    assert_eq!(Square(0), Square::new(64));
    assert_eq!(Square(8), Square::new(200));
    assert_eq!(Square(63), Square::new(255));
    assert_eq!(Square(0), Square::from_index(64));
    assert_eq!(Square(1), Square::from_index(65));
    assert_eq!(Square(40), Square::from_index(1000));
    assert_eq!(Square(63), Square::from_index(usize::MAX));
}

#[test]
fn square_errors_hold_what_could_not_be_read() {
    assert_eq!(
        Err(ChessifyError::UnknownSquare("a".to_string())),
        Square::try_from("a")
    );
    assert_eq!(
        Err(ChessifyError::UnknownSquare("".to_string())),
        Square::try_from("")
    );
    assert_eq!(
        Err(ChessifyError::UnknownSquare("q".to_string())),
        Square::try_from("Q4")
    );
    assert_eq!(
        Err(ChessifyError::UnknownSquare("9".to_string())),
        Square::try_from("a9")
    );
    assert_eq!(
        Err(ChessifyError::UnknownSquare("0".to_string())),
        Square::try_from("h0")
    );
}

#[test]
fn file_and_rank_from_char() {
    assert_eq!(Ok(File(0)), File::try_from('a'));
    assert_eq!(Ok(File(7)), File::try_from('h'));
    assert_eq!(
        Err(ChessifyError::UnknownSquare("A".to_string())),
        File::try_from('A')
    );
    assert_eq!(
        Err(ChessifyError::UnknownSquare("i".to_string())),
        File::try_from('i')
    );
    assert_eq!(Ok(Rank(7)), Rank::try_from('1'));
    assert_eq!(Ok(Rank(0)), Rank::try_from('8'));
    assert_eq!(
        Err(ChessifyError::UnknownSquare("9".to_string())),
        Rank::try_from('9')
    );
    assert_eq!(
        Err(ChessifyError::UnknownSquare("0".to_string())),
        Rank::try_from('0')
    );
}

#[test]
fn file_and_rank_from_text_errors() {
    assert_eq!(
        Err(ChessifyError::UnknownSquare("q".to_string())),
        File::try_from("q")
    );
    assert_eq!(
        Err(ChessifyError::UnknownSquare("ab".to_string())),
        File::try_from("ab")
    );
    assert_eq!(
        Err(ChessifyError::UnknownSquare("".to_string())),
        File::try_from("")
    );
    assert_eq!(
        Err(ChessifyError::UnknownSquare("9".to_string())),
        Rank::try_from("9")
    );
    assert_eq!(
        Err(ChessifyError::UnknownSquare("12".to_string())),
        Rank::try_from("12")
    );
}

#[test]
fn file_and_rank_to_string() {
    assert_eq!("a", File(0).to_string());
    assert_eq!("h", File(7).to_string());
    assert_eq!("1", Rank(0).to_string());
    assert_eq!("8", Rank(7).to_string());
    assert_eq!("201", Rank(200).to_string());
}
