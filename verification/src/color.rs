//! The two colors.

use crate::error::{ChessifyError, ChessifyErrorView};
use crate::text::{string_of, string_of_char};
use vstd::prelude::*;

verus! {

/// The two sides of a game of chess.
#[derive(Copy, Clone, Debug, Eq, Hash, PartialEq, PartialOrd, Structural)]
pub enum Color {
    White,
    Black,
}

/// How many colors there are.
pub const NUM_COLORS: usize = 2;

/// The colors, each at the place that [`Color::as_index`] gives it.
pub const COLORS: [Color; NUM_COLORS] = [Color::White, Color::Black];

/// The color that a text names: its first character decides, `w` or `W` for
/// White and `b` or `B` for Black. A text that is empty or starts with any
/// other character names no color.
pub open spec fn color_of_text(text: Seq<char>) -> Option<Color> {
    if text.len() == 0 {
        None
    } else if text[0] == 'w' || text[0] == 'W' {
        Some(Color::White)
    } else if text[0] == 'b' || text[0] == 'B' {
        Some(Color::Black)
    } else {
        None
    }
}

/// What reading a color from `text` yields: the color it names, or an
/// unknown-color error that holds the whole text.
pub open spec fn color_parse(text: Seq<char>) -> Result<Color, ChessifyErrorView> {
    match color_of_text(text) {
        Some(c) => Ok(c),
        None => Err(ChessifyErrorView::UnknownColor(text)),
    }
}

impl Color {
    /// The place of the color in a table: 0 for White, 1 for Black.
    pub open spec fn ordinal(self) -> nat {
        match self {
            Color::White => 0,
            Color::Black => 1,
        }
    }

    /// The letter that stands for the color in a FEN string.
    pub open spec fn fen_letter(self) -> char {
        match self {
            Color::White => 'w',
            Color::Black => 'b',
        }
    }

    /// The letter that stands for the color in a board diagram.
    pub open spec fn initial(self) -> char {
        match self {
            Color::White => 'W',
            Color::Black => 'B',
        }
    }

    /// The index of the color, for table lookups.
    pub fn as_index(&self) -> (r: usize)
        ensures
            r == self.ordinal(),
            r < NUM_COLORS,
            COLORS[r as int] == *self,
    {
        match self {
            Color::White => 0,
            Color::Black => 1,
        }
    }

    /// The color that `s` names. The caller must know that it names one.
    pub fn from_str(s: &str) -> (r: Color)
        requires
            color_of_text(s@) is Some,
        ensures
            color_of_text(s@) == Some(r),
    {
        Color::try_from_str(s).unwrap()
    }

    /// The color that `s` names, or an unknown-color error that holds `s`.
    pub fn try_from_str(s: &str) -> (r: Result<Color, ChessifyError>)
        ensures
            match r {
                Ok(c) => color_parse(s@) == Ok::<Color, ChessifyErrorView>(c),
                Err(e) => color_parse(s@) == Err::<Color, ChessifyErrorView>(e@),
            },
    {
        broadcast use vstd::string::group_string_axioms;

        let mut chars = s.chars();
        match chars.next() {
            Some('w') | Some('W') => Ok(Color::White),
            Some('b') | Some('B') => Ok(Color::Black),
            _ => Err(ChessifyError::UnknownColor(s.to_owned())),
        }
    }

    /// The color that the characters `text` name, or an unknown-color error
    /// that holds them.
    pub fn try_from_chars(text: &[char]) -> (r: Result<Color, ChessifyError>)
        ensures
            match r {
                Ok(c) => color_parse(text@) == Ok::<Color, ChessifyErrorView>(c),
                Err(e) => color_parse(text@) == Err::<Color, ChessifyErrorView>(e@),
            },
    {
        if text.len() > 0 {
            let c = text[0];
            if c == 'w' || c == 'W' {
                return Ok(Color::White);
            }
            if c == 'b' || c == 'B' {
                return Ok(Color::Black);
            }
        }
        Err(ChessifyError::UnknownColor(string_of(text)))
    }

    /// The letter that stands for the color in a FEN string: `w` or `b`.
    pub fn to_fen_char(&self) -> (r: char)
        ensures
            r == self.fen_letter(),
    {
        match self {
            Color::White => 'w',
            Color::Black => 'b',
        }
    }

    /// The letter that stands for the color in a board diagram: `W` or `B`.
    pub fn to_char(&self) -> (r: char)
        ensures
            r == self.initial(),
    {
        match self {
            Color::White => 'W',
            Color::Black => 'B',
        }
    }

    /// The color as it is shown beside a board diagram: `W` or `B`.
    pub fn to_string(&self) -> (r: String)
        ensures
            r@ == seq![self.initial()],
    {
        string_of_char(self.to_char())
    }
}

} // verus!
