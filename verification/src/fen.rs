//! The grammar of a FEN string: what a text is read as, and what is
//! written for a position.

use crate::castling_rights::{castling_parse, lemma_castling_round_trip, CastlingRights};
use crate::color::{color_parse, Color};
use crate::error::ChessifyErrorView;
use crate::fields::{fields, is_whitespace, lemma_fields_first, lemma_fields_skip_space};
use crate::numeral::{decimal_text, lemma_decimal_round_trip, number_of_text};
use crate::piece::Piece;
use crate::placement::{
    lemma_placement_round_trip, lemma_rank_text_empty, lemma_rank_text_pieces, placement_text,
    rank_text, ranks_text, squares_of_char, squares_of_placement, Occupant,
};
use crate::square::{lemma_square_name_round_trip, square_parse, Square};
use vstd::prelude::*;

verus! {

/// The standard starting position of a game of chess, as a FEN string.
pub const DEFAULT_BOARD_FEN: &'static str = "rnbqkbnr/pppppppp/8/8/8/8/PPPPPPPP/RNBQKBNR w KQkq - 0 1";

/// A position as a mathematical value: what a board holds, apart from how
/// it holds it.
pub struct Position {
    /// What stands on each of the 64 squares, square 0 (`a8`) first.
    pub squares: Seq<Occupant>,
    /// The color that moves next.
    pub side_to_move: Color,
    /// The castling rights of both colors.
    pub castling_rights: CastlingRights,
    /// The square on which a pawn may be taken in passing, if there is one.
    pub en_passant_square: Option<Square>,
    /// The number of half-moves since a pawn moved or a piece was taken.
    pub halfmove_clock: usize,
    /// The number of the move, as the FEN string gave it.
    pub fullmove_number: usize,
}

/// The piece that stands on a file of the first or the eighth rank at the
/// start of a game.
pub open spec fn back_rank(file: int) -> Piece {
    if file == 0 || file == 7 {
        Piece::Rook
    } else if file == 1 || file == 6 {
        Piece::Knight
    } else if file == 2 || file == 5 {
        Piece::Bishop
    } else if file == 3 {
        Piece::Queen
    } else {
        Piece::King
    }
}

/// What stands on square `i` at the start of a game: Black's pieces on the
/// eighth rank and Black's pawns on the seventh, White's pawns on the second
/// rank and White's pieces on the first.
pub open spec fn standard_occupant(i: int) -> Occupant {
    if i < 8 {
        Some((back_rank(i), Color::Black))
    } else if i < 16 {
        Some((Piece::Pawn, Color::Black))
    } else if i < 48 {
        None
    } else if i < 56 {
        Some((Piece::Pawn, Color::White))
    } else {
        Some((back_rank(i - 56), Color::White))
    }
}

impl Position {
    /// Whether the position is well formed: it has 64 squares, its castling
    /// rights are made of the four bits, and its en-passant square, where it
    /// has one, lies on the board.
    pub open spec fn wf(self) -> bool {
        &&& self.squares.len() == 64
        &&& self.castling_rights.wf()
        &&& match self.en_passant_square {
            Some(square) => square.wf(),
            None => true,
        }
    }

    /// The position at the start of a game: the pieces on their home
    /// squares, White to move, every castling right, no en-passant square,
    /// the half-move clock at zero and the first move to come.
    pub open spec fn standard() -> Position {
        Position {
            squares: Seq::new(64, |i: int| standard_occupant(i)),
            side_to_move: Color::White,
            castling_rights: CastlingRights(15),
            en_passant_square: None,
            halfmove_clock: 0,
            fullmove_number: 1,
        }
    }

    /// The position of an empty board: no piece, White to move, no castling
    /// right, no en-passant square, both counters at zero.
    pub open spec fn empty() -> Position {
        Position {
            squares: Seq::new(64, |i: int| None::<(Piece, Color)>),
            side_to_move: Color::White,
            castling_rights: CastlingRights(0),
            en_passant_square: None,
            halfmove_clock: 0,
            fullmove_number: 0,
        }
    }
}

/// The kind of value that a counter of a FEN string is read as.
pub open spec fn counter_kind() -> Seq<char> {
    "usize"@
}

/// What reading the en-passant field yields: no square for a lone `-`, else
/// the square that the text names, else the error of reading that square.
pub open spec fn en_passant_parse(text: Seq<char>) -> Result<Option<Square>, ChessifyErrorView> {
    if text == seq!['-'] {
        Ok(None)
    } else {
        match square_parse(text) {
            Ok(square) => Ok(Some(square)),
            Err(e) => Err(e),
        }
    }
}

/// What reading a counter yields: the number that the text denotes as an
/// unsigned decimal numeral, where it denotes one that fits the machine
/// word, else a parsing error that holds the text.
pub open spec fn counter_parse(text: Seq<char>) -> Result<usize, ChessifyErrorView> {
    match number_of_text(text) {
        Some(n) => if n <= usize::MAX {
            Ok(n as usize)
        } else {
            Err(ChessifyErrorView::ParsingError(text, counter_kind()))
        },
        None => Err(ChessifyErrorView::ParsingError(text, counter_kind())),
    }
}

/// What reading the two counters yields. They are read, the half-move clock
/// first, from the fifth and sixth field of a text of exactly six fields; a
/// text of any other number of fields leaves both at zero.
pub open spec fn counters_parse(parts: Seq<Seq<char>>) -> Result<(usize, usize), ChessifyErrorView> {
    if parts.len() == 6 {
        match counter_parse(parts[4]) {
            Err(e) => Err(e),
            Ok(halfmove) => match counter_parse(parts[5]) {
                Err(e) => Err(e),
                Ok(fullmove) => Ok((halfmove, fullmove)),
            },
        }
    } else {
        Ok((0usize, 0usize))
    }
}

/// What reading a FEN string yields.
///
/// The text is split into fields at white space. With fewer than four
/// fields it is an invalid-FEN error that holds the whole text, and so it is
/// where the first field is no placement. The second field is read as the
/// color to move, the third as the castling rights, the fourth as the
/// en-passant square, and the counters as [`counters_parse`] says; the
/// first of them that fails gives its own error.
pub open spec fn fen_parse(text: Seq<char>) -> Result<Position, ChessifyErrorView> {
    let parts = fields(text);
    if parts.len() < 4 {
        Err(ChessifyErrorView::InvalidFen(text))
    } else {
        match squares_of_placement(parts[0]) {
            None => Err(ChessifyErrorView::InvalidFen(text)),
            Some(squares) => match color_parse(parts[1]) {
                Err(e) => Err(e),
                Ok(side_to_move) => match castling_parse(parts[2]) {
                    Err(e) => Err(e),
                    Ok(castling_rights) => match en_passant_parse(parts[3]) {
                        Err(e) => Err(e),
                        Ok(en_passant_square) => match counters_parse(parts) {
                            Err(e) => Err(e),
                            Ok((halfmove_clock, fullmove_number)) => Ok(
                                Position {
                                    squares,
                                    side_to_move,
                                    castling_rights,
                                    en_passant_square,
                                    halfmove_clock,
                                    fullmove_number,
                                },
                            ),
                        },
                    },
                },
            },
        }
    }
}

/// Every position that is read from a FEN string is well formed: it has 64
/// squares, its castling rights are made of the four bits, and its
/// en-passant square, where it has one, lies on the board.
pub proof fn lemma_fen_parse_wf(text: Seq<char>)
    requires
        fen_parse(text) is Ok,
    ensures
        fen_parse(text)->Ok_0.wf(),
{
    let parts = fields(text);
    let rights = parts[2];
    if rights != seq!['-'] {
        crate::castling_rights::lemma_status_depends_on_letters(rights);
    }
}

/// The text of the en-passant field: the name of the square, or `-` where
/// there is none.
pub open spec fn en_passant_text(square: Option<Square>) -> Seq<char> {
    match square {
        Some(square) => square.name(),
        None => seq!['-'],
    }
}

/// A word, a space, and what follows.
pub open spec fn spaced(word: Seq<char>, rest: Seq<char>) -> Seq<char> {
    word + (seq![' '] + rest)
}

/// The FEN string of a position: its six fields with one space between each
/// two.
pub open spec fn fen_text(position: Position) -> Seq<char> {
    spaced(
        placement_text(position.squares),
        spaced(
            seq![position.side_to_move.fen_letter()],
            spaced(
                position.castling_rights.letters(),
                spaced(
                    en_passant_text(position.en_passant_square),
                    spaced(
                        decimal_text(position.halfmove_clock as nat),
                        decimal_text(position.fullmove_number as nat),
                    ),
                ),
            ),
        ),
    )
}

/// A word that is not empty and holds no white space, written before a space
/// and a text, is the first field of the whole, and the fields of the text
/// follow it.
pub proof fn lemma_fields_spaced(word: Seq<char>, rest: Seq<char>)
    requires
        word.len() > 0,
        forall|i: int| 0 <= i < word.len() ==> !is_whitespace(#[trigger] word[i]),
    ensures
        fields(spaced(word, rest)) == seq![word] + fields(rest),
{
    lemma_fields_first(word, seq![' '] + rest);
    lemma_fields_skip_space(' ', rest);
}

/// The six fields of the FEN string of a position are the texts of its six
/// parts.
pub proof fn lemma_fields_of_fen_text(position: Position)
    requires
        position.wf(),
    ensures
        fields(fen_text(position)) == seq![
            placement_text(position.squares),
            seq![position.side_to_move.fen_letter()],
            position.castling_rights.letters(),
            en_passant_text(position.en_passant_square),
            decimal_text(position.halfmove_clock as nat),
            decimal_text(position.fullmove_number as nat),
        ],
{
    let w0 = placement_text(position.squares);
    let w1 = seq![position.side_to_move.fen_letter()];
    let w2 = position.castling_rights.letters();
    let w3 = en_passant_text(position.en_passant_square);
    let w4 = decimal_text(position.halfmove_clock as nat);
    let w5 = decimal_text(position.fullmove_number as nat);
    lemma_placement_round_trip(position.squares);
    assert forall|i: int| 0 <= i < w0.len() implies !is_whitespace(#[trigger] w0[i]) by {
        assert(w0[i] == '/' || squares_of_char(w0[i]) is Some);
    }
    lemma_castling_round_trip(position.castling_rights);
    assert forall|i: int| 0 <= i < w2.len() implies !is_whitespace(#[trigger] w2[i]) by {
        assert(w2[i] == '-' || crate::castling_rights::is_castling_letter(w2[i]));
    }
    assert forall|i: int| 0 <= i < w3.len() implies !is_whitespace(#[trigger] w3[i]) by {}
    lemma_decimal_round_trip(position.halfmove_clock as nat);
    lemma_decimal_round_trip(position.fullmove_number as nat);
    assert forall|i: int| 0 <= i < w4.len() implies !is_whitespace(#[trigger] w4[i]) by {
        assert(crate::numeral::is_digit(w4[i]));
    }
    assert forall|i: int| 0 <= i < w5.len() implies !is_whitespace(#[trigger] w5[i]) by {
        assert(crate::numeral::is_digit(w5[i]));
    }
    let none = Seq::<char>::empty();
    lemma_fields_first(w5, none);
    assert(w5 + none =~= w5);
    assert(fields(none) =~= Seq::<Seq<char>>::empty());
    assert(fields(w5) =~= seq![w5]);
    let t4 = spaced(w4, w5);
    lemma_fields_spaced(w4, w5);
    assert(fields(t4) =~= seq![w4, w5]);
    let t3 = spaced(w3, t4);
    lemma_fields_spaced(w3, t4);
    assert(fields(t3) =~= seq![w3, w4, w5]);
    let t2 = spaced(w2, t3);
    lemma_fields_spaced(w2, t3);
    assert(fields(t2) =~= seq![w2, w3, w4, w5]);
    let t1 = spaced(w1, t2);
    lemma_fields_spaced(w1, t2);
    assert(fields(t1) =~= seq![w1, w2, w3, w4, w5]);
    lemma_fields_spaced(w0, t1);
    assert(fields(fen_text(position)) =~= seq![w0, w1, w2, w3, w4, w5]);
}

/// Reading the FEN string of a position gives the position back: for every
/// well-formed position, the text written for it is read without error, as
/// that position.
pub proof fn lemma_fen_round_trip(position: Position)
    requires
        position.wf(),
    ensures
        fen_parse(fen_text(position)) == Ok::<Position, ChessifyErrorView>(position),
{
    lemma_fields_of_fen_text(position);
    let parts = fields(fen_text(position));
    lemma_placement_round_trip(position.squares);
    assert(color_parse(parts[1]) == Ok::<Color, ChessifyErrorView>(position.side_to_move));
    lemma_castling_round_trip(position.castling_rights);
    match position.en_passant_square {
        Some(square) => {
            lemma_square_name_round_trip(square);
            assert(square.name() != seq!['-']) by {
                assert(square.name().len() == 2);
                assert(seq!['-'].len() == 1);
            }
        },
        None => {},
    }
    lemma_decimal_round_trip(position.halfmove_clock as nat);
    lemma_decimal_round_trip(position.fullmove_number as nat);
    let read = fen_parse(fen_text(position));
    assert(read is Ok);
    assert(read->Ok_0.squares == position.squares);
    assert(read->Ok_0 == position);
}

/// Writing a position that was read and reading it again gives the same
/// position: the FEN string of what a text was read as is read as the same
/// position, whatever form the text had.
pub proof fn lemma_fen_normal_form(text: Seq<char>)
    requires
        fen_parse(text) is Ok,
    ensures
        fen_parse(fen_text(fen_parse(text)->Ok_0)) == fen_parse(text),
{
    lemma_fen_parse_wf(text);
    lemma_fen_round_trip(fen_parse(text)->Ok_0);
}

/// The placement of the starting position is the first field of the standard
/// FEN string.
proof fn lemma_standard_placement()
    ensures
        placement_text(Position::standard().squares)
            == "rnbqkbnr/pppppppp/8/8/8/8/PPPPPPPP/RNBQKBNR"@,
{
    let sq = Position::standard().squares;
    reveal_strlit("rnbqkbnr/pppppppp/8/8/8/8/PPPPPPPP/RNBQKBNR");
    let lit = "rnbqkbnr/pppppppp/8/8/8/8/PPPPPPPP/RNBQKBNR"@;
    let r0 = sq.subrange(0, 8);
    let r1 = sq.subrange(8, 16);
    let r2 = sq.subrange(16, 24);
    let r3 = sq.subrange(24, 32);
    let r4 = sq.subrange(32, 40);
    let r5 = sq.subrange(40, 48);
    let r6 = sq.subrange(48, 56);
    let r7 = sq.subrange(56, 64);
    lemma_rank_text_pieces(r0);
    lemma_rank_text_pieces(r1);
    lemma_rank_text_empty(r2);
    lemma_rank_text_empty(r3);
    lemma_rank_text_empty(r4);
    lemma_rank_text_empty(r5);
    lemma_rank_text_pieces(r6);
    lemma_rank_text_pieces(r7);
    assert(rank_text(r0) =~= seq!['r', 'n', 'b', 'q', 'k', 'b', 'n', 'r']);
    assert(rank_text(r1) =~= seq!['p', 'p', 'p', 'p', 'p', 'p', 'p', 'p']);
    assert(rank_text(r6) =~= seq!['P', 'P', 'P', 'P', 'P', 'P', 'P', 'P']);
    assert(rank_text(r7) =~= seq!['R', 'N', 'B', 'Q', 'K', 'B', 'N', 'R']);
    assert(rank_text(r2) =~= seq!['8']);
    assert(ranks_text(sq, 1) =~= lit.take(8));
    assert(ranks_text(sq, 2) =~= lit.take(17));
    assert(ranks_text(sq, 3) =~= lit.take(19));
    assert(ranks_text(sq, 4) =~= lit.take(21));
    assert(ranks_text(sq, 5) =~= lit.take(23));
    assert(ranks_text(sq, 6) =~= lit.take(25));
    assert(ranks_text(sq, 7) =~= lit.take(34));
    assert(ranks_text(sq, 8) =~= lit.take(43));
    assert(lit.take(43) =~= lit);
}

/// The standard FEN string is the FEN string of the starting position, and
/// is read as that position.
pub proof fn lemma_standard_fen()
    ensures
        Position::standard().wf(),
        fen_text(Position::standard()) == DEFAULT_BOARD_FEN@,
        fen_parse(DEFAULT_BOARD_FEN@) == Ok::<Position, ChessifyErrorView>(Position::standard()),
{
    let p = Position::standard();
    lemma_standard_placement();
    reveal_strlit("rnbqkbnr/pppppppp/8/8/8/8/PPPPPPPP/RNBQKBNR");
    reveal_strlit("rnbqkbnr/pppppppp/8/8/8/8/PPPPPPPP/RNBQKBNR w KQkq - 0 1");
    let lit = DEFAULT_BOARD_FEN@;
    assert(lit.len() == 56);
    let w0 = placement_text(p.squares);
    assert(w0 =~= lit.take(43));
    assert(15u8 & 8 != 0 && 15u8 & 4 != 0 && 15u8 & 2 != 0 && 15u8 & 1 != 0) by (bit_vector);
    let w2 = p.castling_rights.letters();
    assert(w2 =~= seq!['K', 'Q', 'k', 'q']);
    assert(decimal_text(0) =~= seq!['0']);
    assert(decimal_text(1) =~= seq!['1']);
    let t4 = spaced(decimal_text(0), decimal_text(1));
    assert(t4 =~= lit.skip(53));
    let t3 = spaced(seq!['-'], t4);
    assert(t3 =~= lit.skip(51));
    let t2 = spaced(w2, t3);
    assert(t2 =~= lit.skip(46));
    let t1 = spaced(seq!['w'], t2);
    assert(t1 =~= lit.skip(44));
    assert(spaced(w0, t1) =~= lit);
    lemma_fen_round_trip(p);
}

} // verus!
