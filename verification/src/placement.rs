//! The first field of a FEN string: the placement of the pieces, rank by
//! rank.

use crate::color::Color;
use crate::numeral::digit_char;
use crate::piece::{piece_of_letter, Piece};
use vstd::prelude::*;

verus! {

/// What stands on a square: a piece of a color, or nothing.
pub type Occupant = Option<(Piece, Color)>;

/// The squares that one character of a rank describes: a digit from 1 to 8
/// that many empty squares, the letter of a piece one square with that piece.
/// Any other character describes nothing.
pub open spec fn squares_of_char(c: char) -> Option<Seq<Occupant>> {
    if '1' <= c && c <= '8' {
        Some(Seq::new((c as int - '0' as int) as nat, |i: int| None::<(Piece, Color)>))
    } else if piece_of_letter(c) is Some {
        Some(seq![piece_of_letter(c)])
    } else {
        None
    }
}

/// The squares that the text of one rank describes, from file `a` on: those
/// of its characters, one after the other. A text with a character that
/// describes nothing describes nothing.
pub open spec fn squares_of_rank(text: Seq<char>) -> Option<Seq<Occupant>>
    decreases text.len(),
{
    if text.len() == 0 {
        Some(Seq::empty())
    } else {
        match (squares_of_rank(text.drop_last()), squares_of_char(text.last())) {
            (Some(before), Some(last)) => Some(before + last),
            _ => None,
        }
    }
}

/// The texts that the slashes of `text` separate, in order. A text with `n`
/// slashes has `n + 1` of them, and any of them may be empty.
pub open spec fn rank_texts(text: Seq<char>) -> Seq<Seq<char>>
    decreases text.len(),
{
    if text.len() == 0 {
        seq![Seq::empty()]
    } else {
        let before = rank_texts(text.drop_last());
        if text.last() == '/' {
            before.push(Seq::empty())
        } else {
            before.update(before.len() - 1, before.last().push(text.last()))
        }
    }
}

/// Whether the text of one rank describes exactly the eight squares of a
/// rank.
pub open spec fn is_rank(text: Seq<char>) -> bool {
    match squares_of_rank(text) {
        Some(squares) => squares.len() == 8,
        None => false,
    }
}

/// Whether `text` places pieces on a whole board: it is made of eight ranks
/// with slashes between them, the eighth rank first, and each of them
/// describes eight squares.
pub open spec fn is_placement(text: Seq<char>) -> bool {
    &&& rank_texts(text).len() == 8
    &&& forall|r: int| 0 <= r < 8 ==> is_rank(#[trigger] rank_texts(text)[r])
}

/// The 64 squares that a placement describes, square 0 first, or nothing
/// where the text is no placement.
pub open spec fn squares_of_placement(text: Seq<char>) -> Option<Seq<Occupant>> {
    if is_placement(text) {
        Some(
            Seq::new(
                64,
                |i: int| squares_of_rank(rank_texts(text)[i / 8]).unwrap()[i % 8],
            ),
        )
    } else {
        None
    }
}

/// The squares of a rank text that begins with `text.take(k)` begin with the
/// squares of that beginning; and where the beginning describes nothing, the
/// whole text describes nothing.
pub proof fn lemma_squares_of_rank_prefix(text: Seq<char>, k: int)
    requires
        0 <= k <= text.len(),
    ensures
        squares_of_rank(text.take(k)) is None ==> squares_of_rank(text) is None,
        squares_of_rank(text) is Some ==> squares_of_rank(text.take(k)).unwrap().len()
            <= squares_of_rank(text).unwrap().len(),
    decreases text.len(),
{
    if k == text.len() {
        assert(text.take(k) =~= text);
    } else {
        assert(text.drop_last().take(k) =~= text.take(k));
        lemma_squares_of_rank_prefix(text.drop_last(), k);
    }
}

/// There is at least one rank text, whatever the text.
pub proof fn lemma_rank_texts_len(text: Seq<char>)
    ensures
        rank_texts(text).len() >= 1,
    decreases text.len(),
{
    if text.len() > 0 {
        lemma_rank_texts_len(text.drop_last());
    }
}

/// How many empty squares stand at the front of `squares` before the first
/// piece, or before the end where there is no piece.
pub open spec fn empty_run(squares: Seq<Occupant>) -> nat
    decreases squares.len(),
{
    if squares.len() == 0 || squares[0] is Some {
        0
    } else {
        1 + empty_run(squares.drop_first())
    }
}

/// The text of one rank: the letter of each piece, and for each longest run
/// of empty squares the digit of its length.
pub open spec fn rank_text(squares: Seq<Occupant>) -> Seq<char>
    decreases squares.len(),
    via rank_text_decreases
{
    if squares.len() == 0 {
        Seq::empty()
    } else {
        match squares[0] {
            Some((piece, color)) => seq![piece.letter(color)] + rank_text(squares.drop_first()),
            None => seq![digit_char(empty_run(squares))] + rank_text(
                squares.skip(empty_run(squares) as int),
            ),
        }
    }
}

#[via_fn]
proof fn rank_text_decreases(squares: Seq<Occupant>) {
    lemma_empty_run_bounds(squares);
}

/// The text of the first `n` ranks of a board, with a slash between each two.
pub open spec fn ranks_text(squares: Seq<Occupant>, n: nat) -> Seq<char>
    decreases n,
{
    if n == 0 {
        Seq::empty()
    } else if n == 1 {
        rank_text(squares.subrange(0, 8))
    } else {
        ranks_text(squares, (n - 1) as nat).push('/') + rank_text(
            squares.subrange(8 * (n - 1), 8 * (n - 1) + 8),
        )
    }
}

/// The placement of a board of 64 squares: the text of its eight ranks, the
/// eighth first, with a slash between each two.
pub open spec fn placement_text(squares: Seq<Occupant>) -> Seq<char>
    recommends
        squares.len() == 64,
{
    ranks_text(squares, 8)
}

/// The first run of empty squares is no longer than the sequence, is not
/// empty where the sequence starts with an empty square, and holds empty
/// squares only; what follows it is the end of the sequence or a piece.
pub proof fn lemma_empty_run_bounds(squares: Seq<Occupant>)
    ensures
        empty_run(squares) <= squares.len(),
        squares.len() > 0 && squares[0] is None ==> empty_run(squares) >= 1,
        forall|i: int| 0 <= i < empty_run(squares) ==> (#[trigger] squares[i]) is None,
        empty_run(squares) < squares.len() ==> squares[empty_run(squares) as int] is Some,
    decreases squares.len(),
{
    if squares.len() > 0 && squares[0] is None {
        let rest = squares.drop_first();
        lemma_empty_run_bounds(rest);
        assert forall|i: int| 0 <= i < empty_run(squares) implies (#[trigger] squares[i])
            is None by {
            if i > 0 {
                assert(squares[i] == rest[i - 1]);
            }
        }
    }
}

/// A run of `n` empty squares, followed by a piece or by the end of the
/// sequence, is the first run of empty squares.
pub proof fn lemma_empty_run_is(squares: Seq<Occupant>, n: int)
    requires
        0 <= n <= squares.len(),
        forall|i: int| 0 <= i < n ==> (#[trigger] squares[i]) is None,
        n < squares.len() ==> squares[n] is Some,
    ensures
        empty_run(squares) == n,
    decreases n,
{
    if n > 0 {
        let rest = squares.drop_first();
        lemma_empty_run_is(rest, n - 1);
    }
}

/// The text of a rank without an empty square is the letters of its pieces.
pub proof fn lemma_rank_text_pieces(squares: Seq<Occupant>)
    requires
        forall|i: int| 0 <= i < squares.len() ==> (#[trigger] squares[i]) is Some,
    ensures
        rank_text(squares) == Seq::new(
            squares.len(),
            |i: int| squares[i].unwrap().0.letter(squares[i].unwrap().1),
        ),
    decreases squares.len(),
{
    if squares.len() > 0 {
        let rest = squares.drop_first();
        lemma_rank_text_pieces(rest);
    }
}

/// The text of a rank without a piece is the digit of its length.
pub proof fn lemma_rank_text_empty(squares: Seq<Occupant>)
    requires
        squares.len() > 0,
        forall|i: int| 0 <= i < squares.len() ==> (#[trigger] squares[i]) is None,
    ensures
        rank_text(squares) == seq![digit_char(squares.len())],
{
    lemma_empty_run_is(squares, squares.len() as int);
    assert(rank_text(squares.skip(squares.len() as int)) =~= Seq::<char>::empty());
}

/// The squares of two rank texts, one written after the other, are the
/// squares of the first followed by those of the second.
pub proof fn lemma_squares_of_rank_concat(a: Seq<char>, b: Seq<char>)
    ensures
        squares_of_rank(a + b) == match (squares_of_rank(a), squares_of_rank(b)) {
            (Some(x), Some(y)) => Some(x + y),
            _ => None::<Seq<Occupant>>,
        },
    decreases b.len(),
{
    if b.len() > 0 {
        assert((a + b).drop_last() =~= a + b.drop_last());
        lemma_squares_of_rank_concat(a, b.drop_last());
    }
}

/// A rank text of one character describes what that character describes.
pub proof fn lemma_squares_of_single(c: char)
    ensures
        squares_of_rank(seq![c]) == squares_of_char(c),
{
    let text = seq![c];
    assert(squares_of_rank(text.drop_last()) == Some(Seq::<Occupant>::empty()));
}

/// Reading the text of a rank gives its squares back, for every rank of at
/// most eight squares; and the text holds neither a slash nor anything but
/// digits and the letters of pieces.
pub proof fn lemma_rank_round_trip(squares: Seq<Occupant>)
    requires
        squares.len() <= 8,
    ensures
        squares_of_rank(rank_text(squares)) == Some(squares),
        forall|i: int|
            0 <= i < rank_text(squares).len() ==> squares_of_char(
                #[trigger] rank_text(squares)[i],
            ) is Some,
        squares.len() > 0 ==> rank_text(squares).len() > 0,
    decreases squares.len(),
{
    if squares.len() > 0 {
        lemma_empty_run_bounds(squares);
        match squares[0] {
            Some((piece, color)) => {
                let head = seq![piece.letter(color)];
                let rest = squares.drop_first();
                lemma_rank_round_trip(rest);
                lemma_squares_of_rank_concat(head, rank_text(rest));
                lemma_squares_of_single(piece.letter(color));
            },
            None => {
                let n = empty_run(squares);
                let head = seq![digit_char(n)];
                let rest = squares.skip(n as int);
                lemma_rank_round_trip(rest);
                lemma_squares_of_rank_concat(head, rank_text(rest));
                lemma_squares_of_single(digit_char(n));
            },
        }
    }
}

/// A text without a slash, written after another text, lengthens the last
/// rank text of that text and leaves those before it.
pub proof fn lemma_rank_texts_extend(a: Seq<char>, b: Seq<char>)
    requires
        forall|i: int| 0 <= i < b.len() ==> #[trigger] b[i] != '/',
    ensures
        rank_texts(a + b) == rank_texts(a).update(
            rank_texts(a).len() - 1,
            rank_texts(a).last() + b,
        ),
    decreases b.len(),
{
    lemma_rank_texts_len(a);
    if b.len() > 0 {
        assert((a + b).drop_last() =~= a + b.drop_last());
        lemma_rank_texts_extend(a, b.drop_last());
        let before = rank_texts(a + b.drop_last());
        assert(before.last().push(b.last()) =~= rank_texts(a).last() + b);
    }
}

/// The rank texts of the first `n` ranks of a board, written with slashes
/// between them, are the texts of those ranks.
pub proof fn lemma_rank_texts_of_ranks_text(squares: Seq<Occupant>, n: nat)
    requires
        squares.len() == 64,
        1 <= n <= 8,
    ensures
        rank_texts(ranks_text(squares, n)).len() == n,
        forall|r: int|
            0 <= r < n ==> #[trigger] rank_texts(ranks_text(squares, n))[r] == rank_text(
                squares.subrange(8 * r, 8 * r + 8),
            ),
    decreases n,
{
    let row = rank_text(squares.subrange(8 * (n - 1), 8 * (n - 1) + 8));
    lemma_rank_round_trip(squares.subrange(8 * (n - 1), 8 * (n - 1) + 8));
    if n == 1 {
        let none = Seq::<char>::empty();
        lemma_rank_texts_extend(none, row);
    } else {
        let before = ranks_text(squares, (n - 1) as nat);
        lemma_rank_texts_of_ranks_text(squares, (n - 1) as nat);
        let slashed = before.push('/');
        assert(slashed.drop_last() =~= before);
        lemma_rank_texts_extend(slashed, row);
    }
}

/// Reading the placement of a board gives its squares back: the text written
/// for 64 squares is a placement and describes those squares.
pub proof fn lemma_placement_round_trip(squares: Seq<Occupant>)
    requires
        squares.len() == 64,
    ensures
        is_placement(placement_text(squares)),
        squares_of_placement(placement_text(squares)) == Some(squares),
        placement_text(squares).len() > 0,
        forall|i: int|
            0 <= i < placement_text(squares).len() ==> (#[trigger] placement_text(squares)[i]
                == '/' || squares_of_char(placement_text(squares)[i]) is Some),
{
    let text = placement_text(squares);
    lemma_rank_texts_of_ranks_text(squares, 8);
    assert forall|r: int| 0 <= r < 8 implies is_rank(#[trigger] rank_texts(text)[r]) by {
        lemma_rank_round_trip(squares.subrange(8 * r, 8 * r + 8));
    }
    let read = squares_of_placement(text).unwrap();
    assert forall|i: int| 0 <= i < 64 implies read[i] == squares[i] by {
        let r = i / 8;
        lemma_rank_round_trip(squares.subrange(8 * r, 8 * r + 8));
    }
    lemma_ranks_text_chars(squares, 8);
}

/// A board of 64 squares with one piece, on square `at`, and nothing else.
pub open spec fn single_piece(piece: Piece, color: Color, at: int) -> Seq<Occupant> {
    Seq::new(
        64,
        |i: int|
            if i == at {
                Some((piece, color))
            } else {
                None
            },
    )
}

/// The text of a rank whose only piece stands on `file`: the number of the
/// empty files before it, where there are any, its letter, and the number of
/// the empty files behind it, where there are any.
pub open spec fn single_piece_rank_text(piece: Piece, color: Color, file: int) -> Seq<char> {
    (if file > 0 {
        seq![digit_char(file as nat)]
    } else {
        Seq::<char>::empty()
    }) + seq![piece.letter(color)] + (if file < 7 {
        seq![digit_char((7 - file) as nat)]
    } else {
        Seq::<char>::empty()
    })
}

/// The text of a rank of eight squares whose only piece stands on `file`.
pub proof fn lemma_single_piece_rank(row: Seq<Occupant>, piece: Piece, color: Color, file: int)
    requires
        row.len() == 8,
        0 <= file < 8,
        forall|i: int| 0 <= i < 8 && i != file ==> (#[trigger] row[i]) is None,
        row[file] == Some((piece, color)),
    ensures
        rank_text(row) == single_piece_rank_text(piece, color, file),
{
    let from = row.skip(file);
    let behind = from.drop_first();
    if file < 7 {
        lemma_rank_text_empty(behind);
    } else {
        assert(rank_text(behind) =~= Seq::<char>::empty());
    }
    if file > 0 {
        lemma_empty_run_is(row, file);
        assert(rank_text(row) == seq![digit_char(file as nat)] + rank_text(from));
    } else {
        assert(from =~= row);
    }
}

/// One piece on an otherwise empty board is written where it stands and is
/// read back from there: for each of the twelve letters and each square, the
/// placement shows the letter in the rank of the square, between the counts
/// of the empty files on either side, shows `8` for every other rank, and is
/// read as the board it was written for.
pub proof fn lemma_single_piece_placement(piece: Piece, color: Color, at: int)
    requires
        0 <= at < 64,
    ensures
        squares_of_placement(placement_text(single_piece(piece, color, at))) == Some(
            single_piece(piece, color, at),
        ),
        rank_texts(placement_text(single_piece(piece, color, at))).len() == 8,
        forall|r: int|
            0 <= r < 8 ==> #[trigger] rank_texts(
                placement_text(single_piece(piece, color, at)),
            )[r] == if r == at / 8 {
                single_piece_rank_text(piece, color, at % 8)
            } else {
                seq!['8']
            },
{
    let squares = single_piece(piece, color, at);
    let text = placement_text(squares);
    let rank = at / 8;
    let file = at % 8;
    lemma_placement_round_trip(squares);
    lemma_rank_texts_of_ranks_text(squares, 8);
    assert forall|r: int| 0 <= r < 8 implies #[trigger] rank_texts(text)[r] == if r == rank {
        single_piece_rank_text(piece, color, file)
    } else {
        seq!['8']
    } by {
        lemma_single_piece_row(piece, color, rank, file, r);
    }
}

/// The text of row `r` of a board whose only piece stands on the file `file`
/// of the row `rank`.
proof fn lemma_single_piece_row(piece: Piece, color: Color, rank: int, file: int, r: int)
    requires
        0 <= rank < 8,
        0 <= file < 8,
        0 <= r < 8,
    ensures
        rank_text(single_piece(piece, color, 8 * rank + file).subrange(8 * r, 8 * r + 8)) == if r
            == rank {
            single_piece_rank_text(piece, color, file)
        } else {
            seq!['8']
        },
{
    let row = single_piece(piece, color, 8 * rank + file).subrange(8 * r, 8 * r + 8);
    if r == rank {
        lemma_single_piece_rank(row, piece, color, file);
    } else {
        lemma_rank_text_empty(row);
    }
}

/// The text of the first `n` ranks of a board is not empty and holds only
/// slashes, digits from 1 to 8 and the letters of pieces.
pub proof fn lemma_ranks_text_chars(squares: Seq<Occupant>, n: nat)
    requires
        squares.len() == 64,
        1 <= n <= 8,
    ensures
        ranks_text(squares, n).len() > 0,
        forall|i: int|
            0 <= i < ranks_text(squares, n).len() ==> (#[trigger] ranks_text(squares, n)[i] == '/'
                || squares_of_char(ranks_text(squares, n)[i]) is Some),
    decreases n,
{
    lemma_rank_round_trip(squares.subrange(8 * (n - 1), 8 * (n - 1) + 8));
    if n > 1 {
        lemma_ranks_text_chars(squares, (n - 1) as nat);
    }
}

/// The piece that the letter `c` stands for, if it is the letter of one.
pub fn piece_from_letter(c: char) -> (r: Option<(Piece, Color)>)
    ensures
        r == piece_of_letter(c),
{
    match c {
        'P' => Some((Piece::Pawn, Color::White)),
        'N' => Some((Piece::Knight, Color::White)),
        'B' => Some((Piece::Bishop, Color::White)),
        'R' => Some((Piece::Rook, Color::White)),
        'Q' => Some((Piece::Queen, Color::White)),
        'K' => Some((Piece::King, Color::White)),
        'p' => Some((Piece::Pawn, Color::Black)),
        'n' => Some((Piece::Knight, Color::Black)),
        'b' => Some((Piece::Bishop, Color::Black)),
        'r' => Some((Piece::Rook, Color::Black)),
        'q' => Some((Piece::Queen, Color::Black)),
        'k' => Some((Piece::King, Color::Black)),
        _ => None,
    }
}

/// Where the rank texts of `text` stand: for each of them, in order, the
/// index of its first character and the index just behind its last.
pub fn split_ranks(text: &[char]) -> (r: Vec<(usize, usize)>)
    ensures
        r@.len() == rank_texts(text@).len(),
        forall|k: int|
            0 <= k < r@.len() ==> {
                &&& (#[trigger] r@[k]).0 <= r@[k].1 <= text@.len()
                &&& text@.subrange(r@[k].0 as int, r@[k].1 as int) == rank_texts(text@)[k]
            },
{
    let n = text.len();
    let mut out: Vec<(usize, usize)> = Vec::new();
    let mut start: usize = 0;
    let mut i: usize = 0;
    while i < n
        invariant
            n == text@.len(),
            start <= i <= n,
            out@.len() + 1 == rank_texts(text@.take(i as int)).len(),
            forall|k: int|
                0 <= k < out@.len() ==> {
                    &&& (#[trigger] out@[k]).0 <= out@[k].1 <= n
                    &&& text@.subrange(out@[k].0 as int, out@[k].1 as int) == rank_texts(
                        text@.take(i as int),
                    )[k]
                },
            text@.subrange(start as int, i as int) == rank_texts(text@.take(i as int)).last(),
        decreases n - i,
    {
        assert(text@.take(i + 1).drop_last() =~= text@.take(i as int));
        if text[i] == '/' {
            out.push((start, i));
            start = i + 1;
        }
        i += 1;
    }
    assert(text@.take(n as int) =~= text@);
    out.push((start, n));
    out
}

/// The squares that the text of one rank describes, or nothing where one of
/// its characters describes nothing.
pub fn parse_rank(text: &[char]) -> (r: Option<Vec<Occupant>>)
    ensures
        match r {
            Some(squares) => squares_of_rank(text@) == Some(squares@),
            None => squares_of_rank(text@) is None,
        },
{
    let mut squares: Vec<Occupant> = Vec::new();
    let mut i: usize = 0;
    while i < text.len()
        invariant
            i <= text.len(),
            squares_of_rank(text@.take(i as int)) == Some(squares@),
        decreases text.len() - i,
    {
        let c = text[i];
        let ghost before = squares@;
        assert(text@.take(i + 1).drop_last() =~= text@.take(i as int));
        if '1' <= c && c <= '8' {
            let count: u8 = c as u8 - 48u8;
            let mut k: u8 = 0;
            while k < count
                invariant
                    k <= count,
                    squares@ == before + Seq::new(k as nat, |j: int| None::<(Piece, Color)>),
                decreases count - k,
            {
                squares.push(None);
                k += 1;
            }
        } else {
            match piece_from_letter(c) {
                Some(occupant) => {
                    squares.push(Some(occupant));
                },
                None => {
                    proof {
                        lemma_squares_of_rank_prefix(text@, i + 1);
                    }
                    return None;
                },
            }
        }
        i += 1;
    }
    assert(text@.take(i as int) =~= text@);
    Some(squares)
}

/// The 64 squares that the placement `text` describes, or nothing where the
/// text is no placement.
pub fn parse_placement(text: &[char]) -> (r: Option<Vec<Occupant>>)
    ensures
        match r {
            Some(squares) => squares_of_placement(text@) == Some(squares@),
            None => squares_of_placement(text@) is None,
        },
{
    let ranks = split_ranks(text);
    if ranks.len() != 8 {
        return None;
    }
    let mut squares: Vec<Occupant> = Vec::new();
    let mut r: usize = 0;
    while r < 8
        invariant
            r <= 8,
            ranks@.len() == 8,
            rank_texts(text@).len() == 8,
            forall|k: int|
                0 <= k < 8 ==> {
                    &&& (#[trigger] ranks@[k]).0 <= ranks@[k].1 <= text@.len()
                    &&& text@.subrange(ranks@[k].0 as int, ranks@[k].1 as int) == rank_texts(
                        text@,
                    )[k]
                },
            forall|q: int| 0 <= q < r ==> is_rank(#[trigger] rank_texts(text@)[q]),
            squares@.len() == 8 * r,
            forall|i: int|
                0 <= i < 8 * r ==> #[trigger] squares@[i] == squares_of_rank(
                    rank_texts(text@)[i / 8],
                ).unwrap()[i % 8],
        decreases 8 - r,
    {
        let (from, to) = ranks[r];
        let row = vstd::slice::slice_subrange(text, from, to);
        match parse_rank(row) {
            Some(found) => {
                if found.len() != 8 {
                    return None;
                }
                let ghost before = squares@;
                let mut f: usize = 0;
                while f < 8
                    invariant
                        f <= 8,
                        r < 8,
                        found@.len() == 8,
                        before.len() == 8 * r,
                        squares@ == before + found@.take(f as int),
                    decreases 8 - f,
                {
                    squares.push(found[f]);
                    f += 1;
                }
            },
            None => {
                return None;
            },
        }
        r += 1;
    }
    Some(squares)
}

/// Appends the text of one rank to `out`. A rank has eight squares; fewer
/// are written in the same way.
pub fn push_rank_text(out: &mut String, squares: &[Occupant])
    requires
        squares@.len() <= 8,
    ensures
        final(out)@ == old(out)@ + rank_text(squares@),
{
    let ghost start = out@;
    let mut empty: u8 = 0;
    let mut file: usize = 0;
    assert(squares@.skip(0) =~= squares@);
    while file < squares.len()
        invariant
            file <= squares@.len() <= 8,
            empty <= file,
            forall|k: int| file - empty <= k < file ==> (#[trigger] squares@[k]) is None,
            start + rank_text(squares@) == out@ + rank_text(squares@.skip(file - empty)),
        decreases squares.len() - file,
    {
        let ghost pending = squares@.skip(file - empty);
        let ghost rest = squares@.skip(file as int);
        match squares[file] {
            Some((piece, color)) => {
                proof {
                    assert(rest.drop_first() =~= squares@.skip(file + 1));
                    if empty > 0 {
                        lemma_empty_run_is(pending, empty as int);
                        assert(pending.skip(empty as int) =~= rest);
                    }
                    assert(rank_text(rest) == seq![piece.letter(color)] + rank_text(
                        squares@.skip(file + 1),
                    ));
                }
                if empty > 0 {
                    out.push(crate::numeral::digit_of(empty));
                    empty = 0;
                }
                out.push(piece.to_char(color));
            },
            None => {
                empty += 1;
            },
        }
        file += 1;
    }
    if empty > 0 {
        let ghost pending = squares@.skip(file - empty);
        proof {
            lemma_empty_run_is(pending, empty as int);
            assert(rank_text(pending.skip(empty as int)) =~= Seq::<char>::empty());
        }
        out.push(crate::numeral::digit_of(empty));
    }
}

/// Appends the placement of a board of 64 squares to `out`.
pub fn push_placement_text(out: &mut String, squares: &[Occupant])
    requires
        squares@.len() == 64,
    ensures
        final(out)@ == old(out)@ + placement_text(squares@),
{
    let ghost start = out@;
    let mut rank: usize = 0;
    while rank < 8
        invariant
            rank <= 8,
            squares@.len() == 64,
            out@ == start + ranks_text(squares@, rank as nat),
        decreases 8 - rank,
    {
        if rank > 0 {
            out.push('/');
        }
        let row = vstd::slice::slice_subrange(squares, 8 * rank, 8 * rank + 8);
        push_rank_text(out, row);
        rank += 1;
    }
}

} // verus!
