use chessify::fields::{is_space, split_fields};
use chessify::numeral::{decimal_string, digit_of, parse_usize, push_decimal};
use chessify::placement::{parse_placement, parse_rank, piece_from_letter, split_ranks};
use chessify::text::{chars_of, string_of, string_of_char, to_ascii_lower};
use chessify::{Color, Piece};

fn chars(s: &str) -> Vec<char> {
    s.chars().collect()
}

#[test]
fn white_space_is_what_the_standard_library_calls_white_space() {
    for code in 0..=0x10FFFFu32 {
        if let Some(c) = char::from_u32(code) {
            assert_eq!(c.is_whitespace(), is_space(c), "U+{:04X}", code);
        }
    }
}

#[test]
fn fields_are_the_runs_between_white_space() {
    let samples = [
        "",
        " ",
        "a",
        " a",
        "a ",
        "  ab  cd\te\n\nf  ",
        "rnbqkbnr/pppppppp/8/8/8/8/PPPPPPPP/RNBQKBNR w KQkq - 0 1",
        "x\u{A0}y\u{2003}z\u{85}w",
        "\u{3000}\u{1680}",
    ];
    for sample in samples {
        let text = chars(sample);
        let found: Vec<String> = split_fields(&text)
            .iter()
            .map(|(from, to)| text[*from..*to].iter().collect())
            .collect();
        let expected: Vec<String> = sample.split_whitespace().map(String::from).collect();
        assert_eq!(expected, found);
    }
}

#[test]
fn fields_of_a_fen_string() {
    let text = chars("8/8 w  - -");
    assert_eq!(vec![(0, 3), (4, 5), (7, 8), (9, 10)], split_fields(&text));
}

#[test]
fn decimal_numerals_are_written() {
    assert_eq!("0", decimal_string(0));
    assert_eq!("7", decimal_string(7));
    assert_eq!("10", decimal_string(10));
    assert_eq!("345", decimal_string(345));
    assert_eq!(usize::MAX.to_string(), decimal_string(usize::MAX));
    let mut s = String::from("n=");
    push_decimal(&mut s, 1024);
    assert_eq!("n=1024", s);
    assert_eq!('0', digit_of(0));
    assert_eq!('9', digit_of(9));
}

#[test]
fn decimal_numerals_are_read() {
    let samples = [
        "", "0", "1", "42", "007", "+5", "+", "-1", "++1", "1+", " 1", "1 ", "1_000", "12a", "a12",
        "18446744073709551615", "18446744073709551616", "99999999999999999999999999",
        "000000000000000000000000000001", "4294967295", "4294967296", "٣",
    ];
    for sample in samples {
        assert_eq!(
            sample.parse::<usize>().ok(),
            parse_usize(&chars(sample)),
            "{:?}",
            sample
        );
    }
    assert_eq!(Some(42), parse_usize(&chars("42")));
    assert_eq!(None, parse_usize(&chars("4x")));
}

#[test]
fn decimal_round_trip() {
    for n in [0usize, 1, 9, 10, 99, 100, 12345, usize::MAX - 1, usize::MAX] {
        assert_eq!(Some(n), parse_usize(&chars(&decimal_string(n))));
    }
}

#[test]
fn characters_and_strings() {
    assert_eq!(vec!['a', 'é', '8'], chars_of("aé8"));
    assert_eq!(Vec::<char>::new(), chars_of(""));
    assert_eq!("aé8", string_of(&['a', 'é', '8']));
    assert_eq!("x", string_of_char('x'));
    assert_eq!('q', to_ascii_lower('Q'));
    assert_eq!('q', to_ascii_lower('q'));
    assert_eq!('z', to_ascii_lower('Z'));
    assert_eq!('a', to_ascii_lower('A'));
    assert_eq!('[', to_ascii_lower('['));
    assert_eq!('@', to_ascii_lower('@'));
    assert_eq!('É', to_ascii_lower('É'));
    assert_eq!('4', to_ascii_lower('4'));
}

#[test]
fn letters_of_pieces() {
    assert_eq!(Some((Piece::Knight, Color::White)), piece_from_letter('N'));
    assert_eq!(Some((Piece::King, Color::Black)), piece_from_letter('k'));
    assert_eq!(None, piece_from_letter('x'));
    assert_eq!(None, piece_from_letter('1'));
    for piece in chessify::PIECES {
        for color in chessify::COLORS {
            assert_eq!(Some((piece, color)), piece_from_letter(piece.to_char(color)));
        }
    }
}

#[test]
fn ranks_are_split_at_slashes() {
    assert_eq!(vec![(0, 0)], split_ranks(&chars("")));
    assert_eq!(vec![(0, 1)], split_ranks(&chars("8")));
    assert_eq!(vec![(0, 0), (1, 1)], split_ranks(&chars("/")));
    assert_eq!(vec![(0, 2), (3, 3), (4, 5)], split_ranks(&chars("pp//8")));
}

#[test]
fn a_rank_is_read_square_by_square() {
    assert_eq!(Some(vec![None; 8]), parse_rank(&chars("8")));
    assert_eq!(
        Some(vec![
            None,
            None,
            Some((Piece::Pawn, Color::Black)),
            None,
            Some((Piece::Queen, Color::White))
        ]),
        parse_rank(&chars("2p1Q"))
    );
    assert_eq!(Some(vec![]), parse_rank(&chars("")));
    assert_eq!(None, parse_rank(&chars("2x")));
    assert_eq!(None, parse_rank(&chars("9")));
    assert_eq!(None, parse_rank(&chars("0")));
    assert_eq!(Some(vec![None; 16]), parse_rank(&chars("88")));
}

#[test]
fn a_placement_is_read_rank_by_rank() {
    let squares = parse_placement(&chars("r7/8/8/8/8/8/8/7K")).unwrap();
    assert_eq!(64, squares.len());
    assert_eq!(Some((Piece::Rook, Color::Black)), squares[0]);
    assert_eq!(Some((Piece::King, Color::White)), squares[63]);
    assert_eq!(62, squares.iter().filter(|s| s.is_none()).count());
    assert_eq!(None, parse_placement(&chars("r7/8/8/8/8/8/8")));
    assert_eq!(None, parse_placement(&chars("r7/8/8/8/8/8/8/8K")));
}
