//! The board: its planes and occupants, its builder, and its reading from
//! and writing to FEN strings and diagrams.

use crate::bitboard::{lemma_bit_bounds, Bitboard};
use crate::castling_rights::{CastlingRights, CastlingStatus};
use crate::color::Color;
use crate::error::{ChessifyError, ChessifyErrorView};
use crate::fen::{
    en_passant_text, fen_parse, fen_text, lemma_fen_round_trip, lemma_standard_fen, spaced,
    Position, DEFAULT_BOARD_FEN,
};
use crate::fields::{fields, split_fields};
use crate::numeral::{decimal_text, digit_char, parse_usize, push_decimal};
use crate::piece::Piece;
use crate::placement::{parse_placement, placement_text, push_placement_text, Occupant};
use crate::planes::{
    lemma_planes_partition_occupants, lemma_squares_of_occupant_map, map_of_squares, occupant_map,
    planes_of_squares, planes_represent, squares_of_map, squares_of_occupants, total_bits,
    NUM_PLANES,
};
use crate::square::Square;
use crate::text::{chars_of, string_of};
use std::collections::HashMap;
use vstd::prelude::*;
use vstd::slice::slice_subrange;
use vstd::string::StringExecFns;

verus! {

/// A chess position: the pieces on the board as twelve planes and as a map
/// from squares to occupants, the color to move, the castling rights, the
/// en-passant square and the two counters.
///
/// A board is made whole and is never changed afterwards. Its planes and its
/// map always describe the same pieces.
#[derive(Debug)]
pub struct Board {
    bitboards: [Bitboard; NUM_PLANES],
    pieces: HashMap<usize, (Piece, Color)>,
    side_to_move: Color,
    castling_rights: CastlingRights,
    en_passante_square: Option<Square>,
    halfmove_clock: usize,
    fullmove_number: usize,
}

/// Collects the parts of a [`Board`]. The pieces, the color to move and the
/// castling rights are required; a builder that lacks one of them builds
/// nothing.
#[derive(Debug)]
pub struct BoardBuilder {
    bitboards: Option<[Bitboard; NUM_PLANES]>,
    pieces: HashMap<usize, (Piece, Color)>,
    side_to_move: Option<Color>,
    castling_rights: Option<CastlingRights>,
    en_passante_square: Option<Square>,
    halfmove_clock: usize,
    fullmove_number: usize,
}

/// What a [`BoardBuilder`] holds, as a mathematical value.
pub struct BoardBuilderView {
    /// What stands on each of the 64 squares, once the pieces were given.
    pub squares: Option<Seq<Occupant>>,
    /// The color that moves next, once it was given.
    pub side_to_move: Option<Color>,
    /// The castling rights, once they were given.
    pub castling_rights: Option<CastlingRights>,
    /// The en-passant square, if there is one.
    pub en_passant_square: Option<Square>,
    /// The half-move clock.
    pub halfmove_clock: usize,
    /// The number of the move.
    pub fullmove_number: usize,
}

impl BoardBuilderView {
    /// The builder that holds nothing yet.
    pub open spec fn empty() -> BoardBuilderView {
        BoardBuilderView {
            squares: None,
            side_to_move: None,
            castling_rights: None,
            en_passant_square: None,
            halfmove_clock: 0,
            fullmove_number: 0,
        }
    }

    /// The builder that holds every part of `position`.
    pub open spec fn of(position: Position) -> BoardBuilderView {
        BoardBuilderView {
            squares: Some(position.squares),
            side_to_move: Some(position.side_to_move),
            castling_rights: Some(position.castling_rights),
            en_passant_square: position.en_passant_square,
            halfmove_clock: position.halfmove_clock,
            fullmove_number: position.fullmove_number,
        }
    }

    /// What building yields: the position made of the parts, or a
    /// board-setup error for the first required part that is missing, the
    /// pieces before the color to move and that before the castling rights.
    pub open spec fn build(self) -> Result<Position, ChessifyErrorView> {
        match self.squares {
            None => Err(ChessifyErrorView::BoardSetup("Bitboards not initialized"@)),
            Some(squares) => match self.side_to_move {
                None => Err(ChessifyErrorView::BoardSetup("Side to move not initialized"@)),
                Some(side_to_move) => match self.castling_rights {
                    None => Err(ChessifyErrorView::BoardSetup(""@)),
                    Some(castling_rights) => Ok(
                        Position {
                            squares,
                            side_to_move,
                            castling_rights,
                            en_passant_square: self.en_passant_square,
                            halfmove_clock: self.halfmove_clock,
                            fullmove_number: self.fullmove_number,
                        },
                    ),
                },
            },
        }
    }
}

/// The three characters that show one square in a diagram: the letter of its
/// piece, or a dot, between two spaces.
pub open spec fn diagram_cell(occupant: Occupant) -> Seq<char> {
    seq![
        ' ',
        match occupant {
            Some((piece, color)) => piece.letter(color),
            None => '.',
        },
        ' ',
    ]
}

/// The cells of some squares, one after the other.
pub open spec fn diagram_cells(squares: Seq<Occupant>) -> Seq<char>
    decreases squares.len(),
{
    if squares.len() == 0 {
        Seq::empty()
    } else {
        diagram_cells(squares.drop_last()) + diagram_cell(squares.last())
    }
}

/// One row of a diagram: the number of the rank as a player counts it, a
/// bar, the cells of its eight squares, a bar and a line feed. Row 0 is the
/// eighth rank.
pub open spec fn diagram_row(squares: Seq<Occupant>, row: int) -> Seq<char> {
    seq![' ', digit_char((8 - row) as nat), ' ', '|'] + diagram_cells(
        squares.subrange(8 * row, 8 * row + 8),
    ) + seq!['|', '\n']
}

/// The first `n` rows of a diagram.
pub open spec fn diagram_rows(squares: Seq<Occupant>, n: nat) -> Seq<char>
    decreases n,
{
    if n == 0 {
        Seq::empty()
    } else {
        diagram_rows(squares, (n - 1) as nat) + diagram_row(squares, n - 1)
    }
}

/// The diagram of a position: a frame around the eight rows, the letters of
/// the files below it, and a line with the color to move and the two
/// counters.
pub open spec fn diagram(position: Position) -> Seq<char> {
    "\n   +------------------------+\n"@ + diagram_rows(position.squares, 8)
        + "   +------------------------+\n"@ + "     a  b  c  d  e  f  g  h\n"@
        + "\n       To move: "@ + seq![position.side_to_move.initial()] + "  ("@ + decimal_text(
        position.halfmove_clock as nat,
    ) + ", "@ + decimal_text(position.fullmove_number as nat) + ")\n"@
}

impl View for Board {
    type V = Position;

    /// The position that the board holds.
    closed spec fn view(&self) -> Position {
        Position {
            squares: squares_of_map(self.pieces@),
            side_to_move: self.side_to_move,
            castling_rights: self.castling_rights,
            en_passant_square: self.en_passante_square,
            halfmove_clock: self.halfmove_clock,
            fullmove_number: self.fullmove_number,
        }
    }
}

impl Board {
    /// What holds of every board: its planes and its map describe the same
    /// 64 squares, the map speaks of no other square, and the position is
    /// well formed.
    #[verifier::type_invariant]
    closed spec fn inv(&self) -> bool {
        &&& planes_represent(self.bitboards@, squares_of_map(self.pieces@))
        &&& self.pieces@ == occupant_map(squares_of_map(self.pieces@))
        &&& self@.wf()
    }

    /// The twelve planes of the board: the white pieces from pawn to king,
    /// then the black ones. A square belongs to a plane exactly when the
    /// piece of that plane stands on it.
    ///
    /// No square belongs to two planes, and the planes hold as many squares
    /// all together as [`Board::pieces`] has entries.
    pub fn bitboards(&self) -> (r: &[Bitboard; NUM_PLANES])
        ensures
            planes_represent(r@, self@.squares),
            forall|p: int, q: int, i: int|
                0 <= p < q < 12 ==> !(#[trigger] r@[p].contains(i) && #[trigger] r@[q].contains(i)),
            total_bits(r@, 12) == occupant_map(self@.squares).len(),
    {
        proof {
            use_type_invariant(self);
            lemma_planes_partition_occupants(self.bitboards@, self@.squares);
        }
        &self.bitboards
    }

    /// The occupants of the board: the number of each occupied square,
    /// mapped to what stands on it.
    pub fn pieces(&self) -> (r: &HashMap<usize, (Piece, Color)>)
        ensures
            r@ == occupant_map(self@.squares),
            r@.dom().finite(),
            self@.wf(),
    {
        proof {
            use_type_invariant(self);
        }
        &self.pieces
    }

    /// The color that moves next.
    pub fn side_to_move(&self) -> (r: Color)
        ensures
            r == self@.side_to_move,
    {
        self.side_to_move
    }

    /// The castling rights of both colors.
    pub fn castling_rights(&self) -> (r: CastlingRights)
        ensures
            r == self@.castling_rights,
            r.wf(),
    {
        proof {
            use_type_invariant(self);
        }
        self.castling_rights
    }

    /// The castling status of one color.
    pub fn castling_status_for(&self, c: Color) -> (r: CastlingStatus)
        ensures
            r == self@.castling_rights.status(c),
    {
        self.castling_rights.for_color(c)
    }

    /// The square on which a pawn may be taken in passing, if there is one.
    pub fn en_passante_square(&self) -> (r: Option<Square>)
        ensures
            r == self@.en_passant_square,
            r is Some ==> r->Some_0.wf(),
    {
        proof {
            use_type_invariant(self);
        }
        self.en_passante_square
    }

    /// The number of half-moves since a pawn moved or a piece was taken.
    pub fn halfmove_clock(&self) -> (r: usize)
        ensures
            r == self@.halfmove_clock,
    {
        self.halfmove_clock
    }

    /// The number of the move.
    pub fn fullmove_number(&self) -> (r: usize)
        ensures
            r == self@.fullmove_number,
    {
        self.fullmove_number
    }

    /// The board without any piece: White to move, no castling right, no
    /// en-passant square, both counters at zero.
    pub fn empty() -> (r: Self)
        ensures
            r@ == Position::empty(),
            r@.wf(),
    {
        let bitboards = [Bitboard::empty();NUM_PLANES];
        let pieces: HashMap<usize, (Piece, Color)> = HashMap::new();
        proof {
            lemma_bit_bounds();
            assert(squares_of_map(pieces@) =~= Position::empty().squares);
            assert(pieces@ =~= occupant_map(squares_of_map(pieces@)));
        }
        Board {
            bitboards,
            pieces,
            side_to_move: Color::White,
            castling_rights: CastlingRights::none(),
            en_passante_square: None,
            halfmove_clock: 0,
            fullmove_number: 0,
        }
    }

    /// The board without any piece, as [`Board::empty`] gives it.
    pub fn new() -> (r: Self)
        ensures
            r@ == Position::empty(),
            r@.wf(),
    {
        Board::empty()
    }

    /// The board at the start of a game, read from [`DEFAULT_BOARD_FEN`].
    pub fn standard() -> (r: Self)
        ensures
            r@ == Position::standard(),
            r@.wf(),
    {
        Board::default()
    }

    /// The board that the FEN string `fen` describes. The caller must know
    /// that it describes one.
    pub fn from_fen(fen: &str) -> (r: Self)
        requires
            fen_parse(fen@) is Ok,
        ensures
            fen_parse(fen@) == Ok::<Position, ChessifyErrorView>(r@),
            r@.wf(),
    {
        BoardBuilder::from_fen(fen).build()
    }

    /// The board that the FEN string `fen` describes, or the error of
    /// reading it.
    pub fn try_from_fen(fen: &str) -> (r: Result<Self, ChessifyError>)
        ensures
            match r {
                Ok(board) => fen_parse(fen@) == Ok::<Position, ChessifyErrorView>(board@)
                    && board@.wf(),
                Err(e) => fen_parse(fen@) == Err::<Position, ChessifyErrorView>(e@),
            },
    {
        match BoardBuilder::try_from_fen(fen) {
            Ok(builder) => builder.try_build(),
            Err(e) => Err(e),
        }
    }

    /// The diagram of the board as a string.
    pub fn to_string(&self) -> (r: String)
        ensures
            r@ == diagram(self@),
    {
        proof {
            use_type_invariant(self);
        }
        let squares = squares_of_occupants(&self.pieces);
        let mut s = "\n   +------------------------+\n".to_owned();
        let ghost head = s@;
        let mut row: usize = 0;
        assert(s@ =~= head + diagram_rows(squares@, 0));
        while row < 8
            invariant
                row <= 8,
                squares@.len() == 64,
                s@ == head + diagram_rows(squares@, row as nat),
            decreases 8 - row,
        {
            push_diagram_row(&mut s, squares.as_slice(), row);
            assert(s@ =~= head + diagram_rows(squares@, (row + 1) as nat));
            row += 1;
        }
        s.append("   +------------------------+\n");
        s.append("     a  b  c  d  e  f  g  h\n");
        s.append("\n       To move: ");
        s.push(self.side_to_move.to_char());
        s.append("  (");
        push_decimal(&mut s, self.halfmove_clock);
        s.append(", ");
        push_decimal(&mut s, self.fullmove_number);
        s.append(")\n");
        s
    }

    /// The FEN string of the board: the placement of the pieces, the color
    /// to move, the castling rights, the en-passant square and the two
    /// counters, with one space between each two.
    pub fn to_fen(&self) -> (r: String)
        ensures
            r@ == fen_text(self@),
            fen_parse(r@) == Ok::<Position, ChessifyErrorView>(self@),
    {
        proof {
            use_type_invariant(self);
            lemma_fen_round_trip(self@);
        }
        let squares = squares_of_occupants(&self.pieces);
        let ghost w5 = decimal_text(self.fullmove_number as nat);
        let ghost t4 = spaced(decimal_text(self.halfmove_clock as nat), w5);
        let ghost t3 = spaced(en_passant_text(self.en_passante_square), t4);
        let ghost t2 = spaced(self.castling_rights.letters(), t3);
        let ghost t1 = spaced(seq![self.side_to_move.fen_letter()], t2);
        let mut s = String::new();
        push_placement_text(&mut s, squares.as_slice());
        proof {
            lemma_written(Seq::empty(), placement_text(self@.squares), t1);
        }
        s.push(' ');
        s.push(self.side_to_move.to_fen_char());
        proof {
            lemma_written(s@.drop_last(), seq![self.side_to_move.fen_letter()], t2);
        }
        s.push(' ');
        let rights = self.castling_rights.to_string();
        let ghost before = s@;
        s.append(rights.as_str());
        proof {
            lemma_written(before, self.castling_rights.letters(), t3);
        }
        s.push(' ');
        let ghost before = s@;
        match self.en_passante_square {
            Some(square) => {
                let name = square.to_string();
                s.append(name.as_str());
            },
            None => {
                s.push('-');
                assert(s@ =~= before + seq!['-']);
            },
        }
        proof {
            lemma_written(before, en_passant_text(self.en_passante_square), t4);
        }
        s.push(' ');
        let ghost before = s@;
        push_decimal(&mut s, self.halfmove_clock);
        proof {
            lemma_written(before, decimal_text(self.halfmove_clock as nat), w5);
        }
        s.push(' ');
        push_decimal(&mut s, self.fullmove_number);
        assert(s@ == fen_text(self@));
        s
    }
}

impl Default for Board {
    /// The board at the start of a game, read from [`DEFAULT_BOARD_FEN`].
    fn default() -> (r: Self)
        ensures
            r@ == Position::standard(),
            r@.wf(),
    {
        proof {
            lemma_standard_fen();
        }
        BoardBuilder::from_fen(DEFAULT_BOARD_FEN).build()
    }
}

impl Default for BoardBuilder {
    /// The builder that holds nothing yet.
    fn default() -> (r: Self)
        ensures
            r@ == BoardBuilderView::empty(),
    {
        BoardBuilder::new()
    }
}

/// Appends one row of the diagram of a board of 64 squares to `out`.
fn push_diagram_row(out: &mut String, squares: &[Occupant], row: usize)
    requires
        squares@.len() == 64,
        row < 8,
    ensures
        final(out)@ == old(out)@ + diagram_row(squares@, row as int),
{
    let ghost start = out@;
    let ghost cells = squares@.subrange(8 * row, 8 * row + 8);
    out.push(' ');
    out.push(crate::numeral::digit_of((8 - row) as u8));
    out.push(' ');
    out.push('|');
    let ghost head = out@;
    assert(head =~= start + seq![' ', digit_char((8 - row) as nat), ' ', '|']);
    let mut file: usize = 0;
    assert(cells.take(0) =~= Seq::<Occupant>::empty());
    assert(out@ =~= head + diagram_cells(cells.take(0)));
    while file < 8
        invariant
            file <= 8,
            row < 8,
            squares@.len() == 64,
            cells == squares@.subrange(8 * row, 8 * row + 8),
            out@ == head + diagram_cells(cells.take(file as int)),
        decreases 8 - file,
    {
        let occupant = squares[8 * row + file];
        let shown = match occupant {
            Some((piece, color)) => piece.to_char(color),
            None => '.',
        };
        let ghost before = out@;
        out.push(' ');
        out.push(shown);
        out.push(' ');
        proof {
            assert(cells.take(file + 1).drop_last() =~= cells.take(file as int));
            assert(cells.take(file + 1).last() == occupant);
            assert(out@ =~= before + diagram_cell(occupant));
            assert(out@ =~= head + diagram_cells(cells.take(file + 1)));
        }
        file += 1;
    }
    assert(cells.take(8) =~= cells);
    out.push('|');
    out.push('\n');
    assert(out@ =~= start + diagram_row(squares@, row as int));
}

/// A text that is written word by word: once a word has been written behind
/// what stands already, what is still to come is a space and the rest.
proof fn lemma_written(done: Seq<char>, word: Seq<char>, rest: Seq<char>)
    ensures
        done + spaced(word, rest) == (done + word).push(' ') + rest,
        Seq::<char>::empty() + word == word,
        done.push(word[0]) == done + seq![word[0]],
{
    assert(done + spaced(word, rest) =~= (done + word).push(' ') + rest);
    assert(Seq::<char>::empty() + word =~= word);
    assert(done.push(word[0]) =~= done + seq![word[0]]);
}

impl View for BoardBuilder {
    type V = BoardBuilderView;

    /// The parts that the builder holds. It holds the squares once it holds
    /// the planes.
    closed spec fn view(&self) -> BoardBuilderView {
        BoardBuilderView {
            squares: if self.bitboards is Some {
                Some(squares_of_map(self.pieces@))
            } else {
                None
            },
            side_to_move: self.side_to_move,
            castling_rights: self.castling_rights,
            en_passant_square: self.en_passante_square,
            halfmove_clock: self.halfmove_clock,
            fullmove_number: self.fullmove_number,
        }
    }
}

impl BoardBuilder {
    /// What holds of every builder: its planes, once given, and its map
    /// describe the same 64 squares, the map speaks of no other square, and
    /// the castling rights and the en-passant square that it holds are well
    /// formed.
    #[verifier::type_invariant]
    closed spec fn inv(&self) -> bool {
        &&& match self.bitboards {
            Some(planes) => planes_represent(planes@, squares_of_map(self.pieces@)),
            None => true,
        }
        &&& self.pieces@ == occupant_map(squares_of_map(self.pieces@))
        &&& match self.castling_rights {
            Some(rights) => rights.wf(),
            None => true,
        }
        &&& match self.en_passante_square {
            Some(square) => square.wf(),
            None => true,
        }
    }

    /// The builder that holds nothing yet.
    pub fn new() -> (r: Self)
        ensures
            r@ == BoardBuilderView::empty(),
    {
        let pieces: HashMap<usize, (Piece, Color)> = HashMap::new();
        proof {
            assert(pieces@ =~= occupant_map(squares_of_map(pieces@)));
        }
        BoardBuilder {
            bitboards: None,
            pieces,
            side_to_move: None,
            castling_rights: None,
            en_passante_square: None,
            halfmove_clock: 0,
            fullmove_number: 0,
        }
    }

    /// The board made of the parts of the builder. The caller must know
    /// that no required part is missing.
    pub fn build(self) -> (r: Board)
        requires
            self@.build() is Ok,
        ensures
            self@.build() == Ok::<Position, ChessifyErrorView>(r@),
            r@.wf(),
    {
        self.try_build().unwrap()
    }

    /// The board made of the parts of the builder, or a board-setup error
    /// where a required part is missing.
    pub fn try_build(self) -> (r: Result<Board, ChessifyError>)
        ensures
            match r {
                Ok(board) => self@.build() == Ok::<Position, ChessifyErrorView>(board@)
                    && board@.wf(),
                Err(e) => self@.build() == Err::<Position, ChessifyErrorView>(e@),
            },
    {
        proof {
            use_type_invariant(&self);
        }
        let bitboards = match self.bitboards {
            Some(bitboards) => bitboards,
            None => {
                return Err(ChessifyError::BoardSetup("Bitboards not initialized".to_owned()));
            },
        };
        let side_to_move = match self.side_to_move {
            Some(side_to_move) => side_to_move,
            None => {
                return Err(ChessifyError::BoardSetup("Side to move not initialized".to_owned()));
            },
        };
        let castling_rights = match self.castling_rights {
            Some(castling_rights) => castling_rights,
            None => {
                return Err(ChessifyError::BoardSetup("".to_owned()));
            },
        };
        Ok(
            Board {
                bitboards,
                pieces: self.pieces,
                side_to_move,
                castling_rights,
                en_passante_square: self.en_passante_square,
                halfmove_clock: self.halfmove_clock,
                fullmove_number: self.fullmove_number,
            },
        )
    }

    /// The builder that holds the parts of the position that the FEN string
    /// `fen` describes. The caller must know that it describes one.
    pub fn from_fen(fen: &str) -> (r: BoardBuilder)
        requires
            fen_parse(fen@) is Ok,
        ensures
            r@ == BoardBuilderView::of(fen_parse(fen@)->Ok_0),
    {
        BoardBuilder::try_from_fen(fen).unwrap()
    }

    /// The builder that holds the parts of the position that the FEN string
    /// `fen` describes, or the error of reading it.
    pub fn try_from_fen(fen: &str) -> (r: Result<BoardBuilder, ChessifyError>)
        ensures
            match r {
                Ok(builder) => fen_parse(fen@) is Ok && builder@ == BoardBuilderView::of(
                    fen_parse(fen@)->Ok_0,
                ),
                Err(e) => fen_parse(fen@) == Err::<Position, ChessifyErrorView>(e@),
            },
    {
        let chars = chars_of(fen);
        let text = chars.as_slice();
        let parts = split_fields(text);
        if parts.len() < 4 {
            return Err(ChessifyError::InvalidFen(fen.to_owned()));
        }
        let ghost words = fields(fen@);
        let placement = slice_subrange(text, parts[0].0, parts[0].1);
        let active_color = slice_subrange(text, parts[1].0, parts[1].1);
        let castling = slice_subrange(text, parts[2].0, parts[2].1);
        let en_passant = slice_subrange(text, parts[3].0, parts[3].1);
        assert(placement@ == words[0]);
        assert(active_color@ == words[1]);
        assert(castling@ == words[2]);
        assert(en_passant@ == words[3]);

        let squares = match parse_placement(placement) {
            Some(squares) => squares,
            None => {
                return Err(ChessifyError::InvalidFen(fen.to_owned()));
            },
        };
        let side_to_move = match Color::try_from_chars(active_color) {
            Ok(color) => color,
            Err(e) => {
                return Err(e);
            },
        };
        let castling_rights = match CastlingRights::try_from_chars(castling) {
            Ok(rights) => rights,
            Err(e) => {
                return Err(e);
            },
        };
        let en_passante_square = if en_passant.len() == 1 && en_passant[0] == '-' {
            assert(en_passant@ =~= seq!['-']);
            None
        } else {
            assert(en_passant@ != seq!['-']) by {
                if en_passant@ == seq!['-'] {
                    assert(en_passant@.len() == 1 && en_passant@[0] == '-');
                }
            }
            match Square::try_from_chars(en_passant) {
                Ok(square) => Some(square),
                Err(e) => {
                    return Err(e);
                },
            }
        };
        let mut halfmove_clock: usize = 0;
        let mut fullmove_number: usize = 0;
        if parts.len() == 6 {
            let halfmove = slice_subrange(text, parts[4].0, parts[4].1);
            let fullmove = slice_subrange(text, parts[5].0, parts[5].1);
            assert(halfmove@ == words[4]);
            assert(fullmove@ == words[5]);
            halfmove_clock = match parse_usize(halfmove) {
                Some(n) => n,
                None => {
                    return Err(
                        ChessifyError::ParsingError(string_of(halfmove), "usize".to_owned()),
                    );
                },
            };
            fullmove_number = match parse_usize(fullmove) {
                Some(n) => n,
                None => {
                    return Err(
                        ChessifyError::ParsingError(string_of(fullmove), "usize".to_owned()),
                    );
                },
            };
        }
        let bitboards = planes_of_squares(squares.as_slice());
        let pieces = map_of_squares(squares.as_slice());
        proof {
            lemma_squares_of_occupant_map(squares@);
        }
        Ok(
            BoardBuilder {
                bitboards: Some(bitboards),
                pieces,
                side_to_move: Some(side_to_move),
                castling_rights: Some(castling_rights),
                en_passante_square,
                halfmove_clock,
                fullmove_number,
            },
        )
    }
}

} // verus!
