//! The six kinds of piece and their letters.

use crate::color::Color;
use crate::text::string_of_char;
use vstd::prelude::*;

verus! {

/// The six kinds of chess piece.
#[derive(Clone, Copy, Debug, Eq, Hash, PartialEq, PartialOrd, Structural)]
pub enum Piece {
    Pawn,
    Knight,
    Bishop,
    Rook,
    Queen,
    King,
}

/// How many kinds of piece there are.
pub const NUM_PIECES: usize = 6;

/// The kinds of piece, each at the place that [`Piece::as_index`] gives it.
pub const PIECES: [Piece; NUM_PIECES] = [
    Piece::Pawn,
    Piece::Knight,
    Piece::Bishop,
    Piece::Rook,
    Piece::Queen,
    Piece::King,
];

/// The piece and color that a letter stands for: `PNBRQK` for the white
/// pieces, `pnbrqk` for the black ones, nothing for any other character.
pub open spec fn piece_of_letter(c: char) -> Option<(Piece, Color)> {
    if c == 'P' {
        Some((Piece::Pawn, Color::White))
    } else if c == 'N' {
        Some((Piece::Knight, Color::White))
    } else if c == 'B' {
        Some((Piece::Bishop, Color::White))
    } else if c == 'R' {
        Some((Piece::Rook, Color::White))
    } else if c == 'Q' {
        Some((Piece::Queen, Color::White))
    } else if c == 'K' {
        Some((Piece::King, Color::White))
    } else if c == 'p' {
        Some((Piece::Pawn, Color::Black))
    } else if c == 'n' {
        Some((Piece::Knight, Color::Black))
    } else if c == 'b' {
        Some((Piece::Bishop, Color::Black))
    } else if c == 'r' {
        Some((Piece::Rook, Color::Black))
    } else if c == 'q' {
        Some((Piece::Queen, Color::Black))
    } else if c == 'k' {
        Some((Piece::King, Color::Black))
    } else {
        None
    }
}

impl Piece {
    /// The place of the piece in a table: 0 for the pawn up to 5 for the king.
    pub open spec fn ordinal(self) -> nat {
        match self {
            Piece::Pawn => 0,
            Piece::Knight => 1,
            Piece::Bishop => 2,
            Piece::Rook => 3,
            Piece::Queen => 4,
            Piece::King => 5,
        }
    }

    /// The letter of the piece in the given color: upper case for White,
    /// lower case for Black.
    pub open spec fn letter(self, color: Color) -> char {
        match (self, color) {
            (Piece::Pawn, Color::White) => 'P',
            (Piece::Knight, Color::White) => 'N',
            (Piece::Bishop, Color::White) => 'B',
            (Piece::Rook, Color::White) => 'R',
            (Piece::Queen, Color::White) => 'Q',
            (Piece::King, Color::White) => 'K',
            (Piece::Pawn, Color::Black) => 'p',
            (Piece::Knight, Color::Black) => 'n',
            (Piece::Bishop, Color::Black) => 'b',
            (Piece::Rook, Color::Black) => 'r',
            (Piece::Queen, Color::Black) => 'q',
            (Piece::King, Color::Black) => 'k',
        }
    }

    /// The index of the piece, for table lookups.
    pub fn as_index(&self) -> (r: usize)
        ensures
            r == self.ordinal(),
            r < NUM_PIECES,
            PIECES[r as int] == *self,
    {
        match self {
            Piece::Pawn => 0,
            Piece::Knight => 1,
            Piece::Bishop => 2,
            Piece::Rook => 3,
            Piece::Queen => 4,
            Piece::King => 5,
        }
    }

    /// The letter of the piece in the given color, as a character.
    pub fn to_char(&self, color: Color) -> (r: char)
        ensures
            r == self.letter(color),
    {
        match color {
            Color::White => match self {
                Piece::Pawn => 'P',
                Piece::Knight => 'N',
                Piece::Bishop => 'B',
                Piece::Rook => 'R',
                Piece::Queen => 'Q',
                Piece::King => 'K',
            },
            Color::Black => match self {
                Piece::Pawn => 'p',
                Piece::Knight => 'n',
                Piece::Bishop => 'b',
                Piece::Rook => 'r',
                Piece::Queen => 'q',
                Piece::King => 'k',
            },
        }
    }

    /// The letter of the piece in the given color, as a string of one
    /// character.
    pub fn to_string(&self, color: Color) -> (r: String)
        ensures
            r@ == seq![self.letter(color)],
    {
        string_of_char(self.to_char(color))
    }
}

/// A letter and the piece it stands for name each other: reading the letter
/// of a piece gives the piece back, and a character that reads as a piece is
/// that piece's letter.
pub proof fn lemma_piece_letters(piece: Piece, color: Color, c: char)
    ensures
        piece_of_letter(piece.letter(color)) == Some((piece, color)),
        piece_of_letter(c) == Some((piece, color)) ==> c == piece.letter(color),
{
}

} // verus!
