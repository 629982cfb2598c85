//! The errors of the library.

use vstd::prelude::*;

verus! {

/// The ways in which reading or assembling a position can fail.
///
/// Each variant that carries text holds the text that could not be understood.
#[derive(Debug, Eq, PartialEq)]
pub enum ChessifyError {
    /// A required part of a board was never supplied; holds the reason.
    BoardSetup(String),
    /// The text is not a FEN string; holds the offending text.
    InvalidFen(String),
    /// A value could not be read as the named kind; holds the value and the kind.
    ParsingError(String, String),
    /// The text does not describe castling rights.
    UnknownCastlingRights(String),
    /// The text does not name a color.
    UnknownColor(String),
    /// The text does not name a square.
    UnknownSquare(String),
    /// Any other failure.
    Unknown,
}

/// The mathematical content of a [`ChessifyError`]: the same variants, with
/// each text as a sequence of characters.
pub enum ChessifyErrorView {
    BoardSetup(Seq<char>),
    InvalidFen(Seq<char>),
    ParsingError(Seq<char>, Seq<char>),
    UnknownCastlingRights(Seq<char>),
    UnknownColor(Seq<char>),
    UnknownSquare(Seq<char>),
    Unknown,
}

impl View for ChessifyError {
    type V = ChessifyErrorView;

    open spec fn view(&self) -> ChessifyErrorView {
        match self {
            ChessifyError::BoardSetup(s) => ChessifyErrorView::BoardSetup(s@),
            ChessifyError::InvalidFen(s) => ChessifyErrorView::InvalidFen(s@),
            ChessifyError::ParsingError(s, t) => ChessifyErrorView::ParsingError(s@, t@),
            ChessifyError::UnknownCastlingRights(s) => ChessifyErrorView::UnknownCastlingRights(s@),
            ChessifyError::UnknownColor(s) => ChessifyErrorView::UnknownColor(s@),
            ChessifyError::UnknownSquare(s) => ChessifyErrorView::UnknownSquare(s@),
            ChessifyError::Unknown => ChessifyErrorView::Unknown,
        }
    }
}

} // verus!
