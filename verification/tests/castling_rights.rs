use chessify::{CastlingRights, CastlingStatus, ChessifyError, Color};

#[test]
fn castling_rights_from_str_ok() {
    let cr1: CastlingRights = CastlingRights::from_str("Qk");
    assert_eq!(CastlingRights(6), cr1);

    let cr2: CastlingRights = CastlingRights::from_str("q");
    assert_eq!(CastlingRights(1), cr2);

    let cr3: CastlingRights = CastlingRights::from_str("");
    assert_eq!(CastlingRights::default(), cr3);
}

#[test]
#[should_panic]
fn castling_rights_from_str_err() {
    CastlingRights::from_str("abc");
}

#[test]
fn castling_rights_try_from_str_ok() {
    assert_eq!(CastlingRights(9), CastlingRights::try_from("Kq").unwrap());
}

#[test]
#[should_panic]
fn castling_rights_try_from_str_err() {
    CastlingRights::try_from("KQb").unwrap();
}

#[test]
fn for_color() {
    let cr1 = CastlingRights::from_str("KQkq");
    let wr1 = cr1.for_color(Color::White);
    let br1 = cr1.for_color(Color::Black);

    assert_eq!(CastlingStatus::Both, wr1);
    assert_eq!(CastlingStatus::Both, br1);

    let cr2 = CastlingRights::from_str("k");
    let wr2 = cr2.for_color(Color::White);
    let br2 = cr2.for_color(Color::Black);

    assert_eq!(CastlingStatus::NotAvailable, wr2);
    assert_eq!(CastlingStatus::Kingside, br2);

    let cr3 = CastlingRights::from_str("Qq");
    let wr3 = cr3.for_color(Color::White);
    let br3 = cr3.for_color(Color::Black);

    assert_eq!(CastlingStatus::Queenside, wr3);
    assert_eq!(CastlingStatus::Queenside, br3);
}

#[test]
fn castling_dash_and_empty_grant_nothing() {
    assert_eq!(Ok(CastlingRights(0)), CastlingRights::try_from("-"));
    assert_eq!(Ok(CastlingRights(0)), CastlingRights::try_from(""));
    assert_eq!(CastlingRights(0), CastlingRights::none());
    assert_eq!(CastlingRights(15), CastlingRights::all());
    assert_eq!(Ok(CastlingRights(15)), CastlingRights::try_from("KQkq"));
}

#[test]
fn castling_errors_hold_the_text() {
    assert_eq!(
        Err(ChessifyError::InvalidFen("KQb".to_string())),
        CastlingRights::try_from("KQb")
    );
    assert_eq!(
        Err(ChessifyError::InvalidFen("K-".to_string())),
        CastlingRights::try_from("K-")
    );
    assert_eq!(
        Err(ChessifyError::InvalidFen("--".to_string())),
        CastlingRights::try_from("--")
    );
}

#[test]
fn castling_status_depends_on_the_letters_of_the_color() {
    let letters = ['K', 'Q', 'k', 'q'];
    for subset in 0..16u32 {
        for reversed in [false, true] {
            for doubled in [false, true] {
                let mut text = String::new();
                for (i, letter) in letters.iter().enumerate() {
                    if subset & (1 << i) != 0 {
                        text.push(*letter);
                        if doubled {
                            text.push(*letter);
                        }
                    }
                }
                if reversed {
                    text = text.chars().rev().collect();
                }
                let rights = CastlingRights::try_from(text.as_str()).unwrap();
                let expect = |king: bool, queen: bool| match (king, queen) {
                    (true, true) => CastlingStatus::Both,
                    (true, false) => CastlingStatus::Kingside,
                    (false, true) => CastlingStatus::Queenside,
                    (false, false) => CastlingStatus::NotAvailable,
                };
                assert_eq!(
                    expect(text.contains('K'), text.contains('Q')),
                    rights.for_color(Color::White)
                );
                assert_eq!(
                    expect(text.contains('k'), text.contains('q')),
                    rights.for_color(Color::Black)
                );
            }
        }
    }
}

#[test]
fn castling_status_from_u8() {
    assert_eq!(CastlingStatus::NotAvailable, CastlingStatus::from_u8(0));
    assert_eq!(CastlingStatus::Queenside, CastlingStatus::from_u8(1));
    assert_eq!(CastlingStatus::Kingside, CastlingStatus::from_u8(2));
    assert_eq!(CastlingStatus::Both, CastlingStatus::from_u8(3));
    assert_eq!(
        Err(ChessifyError::UnknownCastlingRights("4".to_string())),
        CastlingStatus::try_from_u8(4)
    );
    assert_eq!(
        Err(ChessifyError::UnknownCastlingRights("255".to_string())),
        CastlingStatus::try_from_u8(255)
    );
}

#[test]
fn castling_status_to_index() {
    assert_eq!(0, CastlingStatus::NotAvailable.to_index());
    assert_eq!(1, CastlingStatus::Kingside.to_index());
    assert_eq!(2, CastlingStatus::Queenside.to_index());
    assert_eq!(3, CastlingStatus::Both.to_index());
}

#[test]
fn castling_rights_to_string_round_trip() {
    assert_eq!("-", CastlingRights(0).to_string());
    assert_eq!("KQkq", CastlingRights(15).to_string());
    assert_eq!("Qk", CastlingRights(6).to_string());
    assert_eq!("Kq", CastlingRights(9).to_string());
    for bits in 0..16u8 {
        let text = CastlingRights(bits).to_string();
        assert_eq!(Ok(CastlingRights(bits)), CastlingRights::try_from(text.as_str()));
    }
}
