//! Files, ranks and squares, and their names.

use crate::error::{ChessifyError, ChessifyErrorView};
use crate::numeral::{decimal_string, decimal_text, digit_char};
use crate::text::{ascii_lower, chars_of, string_of, string_of_char, to_ascii_lower};
use vstd::prelude::*;
use vstd::std_specs::convert::TryFromSpecImpl;
use vstd::string::StringExecFns;

verus! {

/// A file of the board: a column, counted from 0 for file `a` to 7 for file
/// `h`.
#[derive(Debug, Clone, Copy, Eq, Hash, PartialEq, PartialOrd, Structural)]
pub struct File(pub u8);

/// A rank of the board: a row, as a number from 0 to 7.
///
/// A rank that is read from a digit counts the rows from the top of the
/// board, so that `8` gives 0 and `1` gives 7. The rank of a square, see
/// [`Square::rank`], counts them from the bottom.
#[derive(Debug, Clone, Copy, Eq, Hash, PartialEq, PartialOrd, Structural)]
pub struct Rank(pub u8);

/// A square of the board, as a number from 0 to 63.
///
/// The squares are counted row by row from the top of the board, and from
/// left to right within a row:
///
/// ```text
///  a8 b8 c8 d8 e8 f8 g8 h8
///  a7 b7 c7 d7 e7 f7 g7 h7
///  a6 b6 c6 d6 e6 f6 g6 h6
///  a5 b5 c5 d5 e5 f5 g5 h5
///  a4 b4 c4 d4 e4 f4 g4 h4
///  a3 b3 c3 d3 e3 f3 g3 h3
///  a2 b2 c2 d2 e2 f2 g2 h2
///  a1 b1 c1 d1 e1 f1 g1 h1
/// ```
///
/// so that `a8` is square 0 and `h1` is square 63.
#[derive(Debug, Clone, Copy, Eq, Hash, PartialEq, Structural)]
pub struct Square(pub u8);

/// The file that a lower-case letter names: `a` to `h`.
pub open spec fn file_of_char(c: char) -> Option<File> {
    if 'a' <= c && c <= 'h' {
        Some(File((c as int - 'a' as int) as u8))
    } else {
        None
    }
}

/// The file that a text names: the text is one letter, `a` to `h`, in either
/// case.
pub open spec fn file_of_text(text: Seq<char>) -> Option<File> {
    if text.len() == 1 {
        file_of_char(ascii_lower(text[0]))
    } else {
        None
    }
}

/// The rank that a digit names, counted from the top of the board: `8` is
/// row 0 and `1` is row 7.
pub open spec fn rank_of_char(c: char) -> Option<Rank> {
    if '1' <= c && c <= '8' {
        Some(Rank(('8' as int - c as int) as u8))
    } else {
        None
    }
}

/// The rank that a text names: the text is one digit, `1` to `8`.
pub open spec fn rank_of_text(text: Seq<char>) -> Option<Rank> {
    if text.len() == 1 {
        rank_of_char(text[0])
    } else {
        None
    }
}

/// The square that a text names: its first character is a file letter in
/// either case, its second a rank digit. What follows the two is not read.
pub open spec fn square_of_text(text: Seq<char>) -> Option<Square> {
    if text.len() < 2 {
        None
    } else {
        match (file_of_char(ascii_lower(text[0])), rank_of_char(text[1])) {
            (Some(file), Some(rank)) => Some(Square((rank.0 * 8 + file.0) as u8)),
            _ => None,
        }
    }
}

/// What reading a square from `text` yields: the square it names, or an
/// unknown-square error. The error holds the whole text where that is
/// shorter than two characters, else the first character in lower case where
/// that is no file letter, else the second character.
pub open spec fn square_parse(text: Seq<char>) -> Result<Square, ChessifyErrorView> {
    if text.len() < 2 {
        Err(ChessifyErrorView::UnknownSquare(text))
    } else if file_of_char(ascii_lower(text[0])) is None {
        Err(ChessifyErrorView::UnknownSquare(seq![ascii_lower(text[0])]))
    } else if rank_of_char(text[1]) is None {
        Err(ChessifyErrorView::UnknownSquare(seq![text[1]]))
    } else {
        Ok(square_of_text(text).unwrap())
    }
}

impl File {
    /// The letter of the file, `a` for file 0 up to `h` for file 7.
    pub open spec fn letter(self) -> char
        recommends
            self.0 < 8,
    {
        ('a' as int + self.0) as char
    }

    /// The letter of the file as a string. There are eight files: the number
    /// of the file must be below 8.
    pub fn to_string(&self) -> (r: String)
        requires
            self.0 < 8,
        ensures
            r@ == seq![self.letter()],
    {
        string_of_char((97u8 + self.0) as char)
    }
}

impl TryFrom<char> for File {
    type Error = ChessifyError;

    /// The file that the lower-case letter `c` names, or an unknown-square
    /// error that holds `c`.
    fn try_from(c: char) -> (r: Result<Self, ChessifyError>)
        ensures
            match r {
                Ok(file) => file_of_char(c) == Some(file),
                Err(e) => file_of_char(c) is None && e@ == ChessifyErrorView::UnknownSquare(
                    seq![c],
                ),
            },
    {
        if 'a' <= c && c <= 'h' {
            Ok(File(c as u8 - 97u8))
        } else {
            Err(ChessifyError::UnknownSquare(string_of_char(c)))
        }
    }
}

/// The error of this conversion holds a string, and a string has no value in
/// a specification apart from its view. So the conversion promises nothing
/// through the trait, and says what it returns on `try_from` itself.
impl TryFromSpecImpl<char> for File {
    open spec fn obeys_try_from_spec() -> bool {
        false
    }

    open spec fn try_from_spec(c: char) -> Result<Self, ChessifyError> {
        arbitrary()
    }
}

impl TryFrom<&str> for File {
    type Error = ChessifyError;

    /// The file that `s` names, or an unknown-square error that holds `s`.
    fn try_from(s: &str) -> (r: Result<Self, ChessifyError>)
        ensures
            match r {
                Ok(file) => file_of_text(s@) == Some(file),
                Err(e) => file_of_text(s@) is None && e@ == ChessifyErrorView::UnknownSquare(s@),
            },
    {
        let chars = chars_of(s);
        if chars.len() == 1 {
            let c = to_ascii_lower(chars[0]);
            if 'a' <= c && c <= 'h' {
                return Ok(File(c as u8 - 97u8));
            }
        }
        Err(ChessifyError::UnknownSquare(s.to_owned()))
    }
}

/// The error of this conversion holds a string, and a string has no value in
/// a specification apart from its view. So the conversion promises nothing
/// through the trait, and says what it returns on `try_from` itself.
impl TryFromSpecImpl<&str> for File {
    open spec fn obeys_try_from_spec() -> bool {
        false
    }

    open spec fn try_from_spec(s: &str) -> Result<Self, ChessifyError> {
        arbitrary()
    }
}

impl Rank {
    /// The rank as a string: the decimal numeral of one more than its number,
    /// which must leave room for that one.
    pub fn to_string(&self) -> (r: String)
        requires
            self.0 < 255,
        ensures
            r@ == decimal_text((self.0 + 1) as nat),
    {
        decimal_string((self.0 + 1) as usize)
    }
}

impl TryFrom<char> for Rank {
    type Error = ChessifyError;

    /// The rank that the digit `c` names, counted from the top of the board,
    /// or an unknown-square error that holds `c`.
    fn try_from(c: char) -> (r: Result<Self, ChessifyError>)
        ensures
            match r {
                Ok(rank) => rank_of_char(c) == Some(rank),
                Err(e) => rank_of_char(c) is None && e@ == ChessifyErrorView::UnknownSquare(
                    seq![c],
                ),
            },
    {
        if '1' <= c && c <= '8' {
            Ok(Rank(56u8 - c as u8))
        } else {
            Err(ChessifyError::UnknownSquare(string_of_char(c)))
        }
    }
}

/// The error of this conversion holds a string, and a string has no value in
/// a specification apart from its view. So the conversion promises nothing
/// through the trait, and says what it returns on `try_from` itself.
impl TryFromSpecImpl<char> for Rank {
    open spec fn obeys_try_from_spec() -> bool {
        false
    }

    open spec fn try_from_spec(c: char) -> Result<Self, ChessifyError> {
        arbitrary()
    }
}

impl TryFrom<&str> for Rank {
    type Error = ChessifyError;

    /// The rank that `s` names, counted from the top of the board, or an
    /// unknown-square error that holds `s`.
    fn try_from(s: &str) -> (r: Result<Self, ChessifyError>)
        ensures
            match r {
                Ok(rank) => rank_of_text(s@) == Some(rank),
                Err(e) => rank_of_text(s@) is None && e@ == ChessifyErrorView::UnknownSquare(s@),
            },
    {
        let chars = chars_of(s);
        if chars.len() == 1 {
            let c = chars[0];
            if '1' <= c && c <= '8' {
                return Ok(Rank(56u8 - c as u8));
            }
        }
        Err(ChessifyError::UnknownSquare(s.to_owned()))
    }
}

/// The error of this conversion holds a string, and a string has no value in
/// a specification apart from its view. So the conversion promises nothing
/// through the trait, and says what it returns on `try_from` itself.
impl TryFromSpecImpl<&str> for Rank {
    open spec fn obeys_try_from_spec() -> bool {
        false
    }

    open spec fn try_from_spec(s: &str) -> Result<Self, ChessifyError> {
        arbitrary()
    }
}

impl Square {
    /// Whether the square lies on the board: its number is below 64.
    pub open spec fn wf(self) -> bool {
        self.0 < 64
    }

    /// The name of the square: the letter of its file, then the digit of its
    /// rank as a player counts it, `1` at the bottom.
    pub open spec fn name(self) -> Seq<char>
        recommends
            self.wf(),
    {
        seq![File(self.0 % 8).letter(), digit_char((8 - self.0 / 8) as nat)]
    }

    /// The square with the number `b`, of which only the lowest six bits
    /// count: a number above 63 is taken modulo 64.
    pub fn new(b: u8) -> (r: Self)
        ensures
            r.0 == b % 64,
            r.wf(),
    {
        assert(b & 63 == b % 64) by (bit_vector);
        Square(b & 63)
    }

    /// The square with the index `i`, of which only the lowest six bits
    /// count: an index above 63 is taken modulo 64.
    pub fn from_index(i: usize) -> (r: Self)
        ensures
            r.0 == i % 64,
            r.wf(),
    {
        assert((i as u8) & 63 == i % 64) by (bit_vector);
        Square((#[verifier::truncate] (i as u8)) & 63)
    }

    /// The number of the square's file, 0 for file `a`.
    pub fn file_as_u8(&self) -> (r: u8)
        ensures
            r == self.0 % 8,
    {
        self.0 % 8
    }

    /// The number of the square's rank counted from the bottom of the board,
    /// 0 for the first rank.
    pub fn rank_as_u8(&self) -> (r: u8)
        requires
            self.wf(),
        ensures
            r == 7 - self.0 / 8,
    {
        7 - (self.0 / 8)
    }

    /// The file of the square.
    pub fn file(&self) -> (r: File)
        ensures
            r == File((self.0 % 8) as u8),
    {
        File(self.0 % 8)
    }

    /// The rank of the square, counted from the bottom of the board.
    pub fn rank(&self) -> (r: Rank)
        requires
            self.wf(),
        ensures
            r == Rank((7 - self.0 / 8) as u8),
    {
        Rank(7 - (self.0 / 8))
    }

    /// The number of the square as an index.
    pub fn index(&self) -> (r: usize)
        ensures
            r == self.0,
    {
        self.0 as usize
    }

    /// The square that `s` names. The caller must know that it names one.
    pub fn from_str(s: &str) -> (r: Self)
        requires
            square_of_text(s@) is Some,
        ensures
            square_of_text(s@) == Some(r),
    {
        Square::try_from(s).unwrap()
    }

    /// The square that the characters `text` name, or an unknown-square
    /// error.
    pub fn try_from_chars(text: &[char]) -> (r: Result<Self, ChessifyError>)
        ensures
            match r {
                Ok(square) => square_parse(text@) == Ok::<Square, ChessifyErrorView>(square),
                Err(e) => square_parse(text@) == Err::<Square, ChessifyErrorView>(e@),
            },
            r is Ok <==> square_of_text(text@) is Some,
            r is Ok ==> square_of_text(text@) == Some(r->Ok_0) && r->Ok_0.wf(),
    {
        if text.len() < 2 {
            return Err(ChessifyError::UnknownSquare(string_of(text)));
        }
        let file = match File::try_from(to_ascii_lower(text[0])) {
            Ok(file) => file,
            Err(e) => {
                return Err(e);
            },
        };
        let rank = match Rank::try_from(text[1]) {
            Ok(rank) => rank,
            Err(e) => {
                return Err(e);
            },
        };
        Ok(Square(rank.0 * 8 + file.0))
    }

    /// The name of the square as a string, such as `e4`.
    pub fn to_string(&self) -> (r: String)
        requires
            self.wf(),
        ensures
            r@ == self.name(),
            square_of_text(r@) == Some(*self),
    {
        let mut s = self.file().to_string();
        let rank = self.rank().to_string();
        proof {
            lemma_square_name_round_trip(*self);
            assert(decimal_text((8 - self.0 / 8) as nat) =~= seq![
                digit_char((8 - self.0 / 8) as nat),
            ]);
        }
        s.append(rank.as_str());
        s
    }
}

impl TryFrom<&str> for Square {
    type Error = ChessifyError;

    /// The square that `s` names, or an unknown-square error.
    fn try_from(s: &str) -> (r: Result<Self, ChessifyError>)
        ensures
            match r {
                Ok(square) => square_parse(s@) == Ok::<Square, ChessifyErrorView>(square),
                Err(e) => square_parse(s@) == Err::<Square, ChessifyErrorView>(e@),
            },
            r is Ok <==> square_of_text(s@) is Some,
            r is Ok ==> square_of_text(s@) == Some(r->Ok_0) && r->Ok_0.wf(),
    {
        let chars = chars_of(s);
        Square::try_from_chars(chars.as_slice())
    }
}

/// The error of this conversion holds a string, and a string has no value in
/// a specification apart from its view. So the conversion promises nothing
/// through the trait, and says what it returns on `try_from` itself.
impl TryFromSpecImpl<&str> for Square {
    open spec fn obeys_try_from_spec() -> bool {
        false
    }

    open spec fn try_from_spec(s: &str) -> Result<Self, ChessifyError> {
        arbitrary()
    }
}

/// Reading the name of a square gives the square back: for every square of
/// the board, the text that names it is read as that square.
pub proof fn lemma_square_name_round_trip(square: Square)
    requires
        square.wf(),
    ensures
        square_of_text(square.name()) == Some(square),
        square_parse(square.name()) == Ok::<Square, ChessifyErrorView>(square),
{
}

} // verus!
