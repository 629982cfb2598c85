use chessify::{ChessifyError, Color, COLORS, NUM_COLORS};

#[test]
fn color_as_index() {
    assert_eq!(0, Color::White.as_index());
    assert_eq!(1, Color::Black.as_index());
}

#[test]
fn color_index_lookup() {
    assert_eq!(Color::White, COLORS[0]);
    assert_eq!(Color::Black, COLORS[Color::Black.as_index()]);
}

#[test]
fn color_try_from_str_ok() {
    assert_eq!(Color::White, Color::try_from_str("W").unwrap());
    assert_eq!(Color::White, Color::try_from_str("w").unwrap());
    assert_eq!(Color::Black, Color::try_from_str("B").unwrap());
    assert_eq!(Color::Black, Color::try_from_str("b").unwrap());
}

#[test]
#[should_panic]
fn try_from_str_err_empty() {
    Color::try_from_str("").unwrap();
}

#[test]
#[should_panic]
fn color_try_from_str_err() {
    Color::try_from_str("aaaaaaaaaaaaaaaaaaaaaaaaaaaaabbbbcccc").unwrap();
}

#[test]
fn from_str() {
    assert_eq!(Color::White, Color::from_str("w"));
    assert_eq!(Color::Black, Color::from_str("B"));
}

#[test]
#[should_panic]
fn color_from_str_err() {
    Color::from_str("q");
}

#[test]
fn color_errors_hold_the_text() {
    assert_eq!(
        Err(ChessifyError::UnknownColor("".to_string())),
        Color::try_from_str("")
    );
    assert_eq!(
        Err(ChessifyError::UnknownColor("xw".to_string())),
        Color::try_from_str("xw")
    );
    assert_eq!(Ok(Color::White), Color::try_from_str("w"));
    assert_eq!(Ok(Color::White), Color::try_from_str("W"));
}

#[test]
fn color_reads_the_first_character_only() {
    assert_eq!(Ok(Color::White), Color::try_from_str("white"));
    assert_eq!(Ok(Color::Black), Color::try_from_str("Bxyz"));
}

#[test]
fn color_to_string() {
    assert_eq!("W", Color::White.to_string());
    assert_eq!("B", Color::Black.to_string());
    assert_eq!(2, NUM_COLORS);
}
