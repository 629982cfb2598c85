//! A chess position: where the pieces stand, whose turn it is, which castling
//! moves remain and where a pawn may be taken in passing, together with the
//! reading and writing of positions in Forsyth-Edwards Notation.

pub mod bitboard;
pub mod board;
pub mod castling_rights;
pub mod color;
pub mod error;
pub mod fen;
pub mod fields;
pub mod numeral;
pub mod piece;
pub mod placement;
pub mod planes;
pub mod square;
pub mod text;

pub use bitboard::Bitboard;
pub use board::{Board, BoardBuilder, BoardBuilderView};
pub use castling_rights::{CastlingRights, CastlingStatus};
pub use color::{Color, COLORS, NUM_COLORS};
pub use error::{ChessifyError, ChessifyErrorView};
pub use fen::{Position, DEFAULT_BOARD_FEN};
pub use piece::{Piece, NUM_PIECES, PIECES};
pub use placement::Occupant;
pub use planes::NUM_PLANES;
pub use square::{File, Rank, Square};
