//! The two ways in which a board holds its pieces: twelve planes and a map
//! of occupants.

use crate::bitboard::Bitboard;
use crate::color::Color;
use crate::piece::Piece;
use crate::placement::Occupant;
use crate::square::Square;
use std::collections::HashMap;
use std::ops::BitOr;
use vstd::prelude::*;

verus! {

/// How many planes a board has: one for each kind of piece in each color.
pub const NUM_PLANES: usize = 12;

/// The number of the plane of a piece of a color: the white pieces have the
/// planes 0 to 5, pawn to king, and the black pieces the planes 6 to 11.
pub open spec fn plane_index(piece: Piece, color: Color) -> nat {
    piece.ordinal() + 6 * color.ordinal()
}

/// Whether the occupant of a square stands on plane `p`.
pub open spec fn on_plane(occupant: Occupant, p: int) -> bool {
    match occupant {
        Some((piece, color)) => plane_index(piece, color) == p,
        None => false,
    }
}

/// Whether twelve bitboards are the planes of a board of 64 squares: a square
/// belongs to a plane exactly when the piece of that plane stands on it.
pub open spec fn planes_represent(planes: Seq<Bitboard>, squares: Seq<Occupant>) -> bool {
    &&& planes.len() == 12
    &&& squares.len() == 64
    &&& forall|p: int, i: int|
        0 <= p < 12 && 0 <= i < 64 ==> (#[trigger] planes[p].contains(i) <==> on_plane(
            squares[i],
            p,
        ))
}

/// The occupants of a board as a map: the number of each occupied square is
/// mapped to what stands on it, and no other number is mapped.
pub open spec fn occupant_map(squares: Seq<Occupant>) -> Map<usize, (Piece, Color)> {
    Map::new(
        |k: usize| k < squares.len() && squares[k as int] is Some,
        |k: usize| squares[k as int].unwrap(),
    )
}

/// The 64 squares that a map of occupants describes: square `i` holds what
/// the map gives for `i`, and is empty where it gives nothing.
pub open spec fn squares_of_map(occupants: Map<usize, (Piece, Color)>) -> Seq<Occupant> {
    Seq::new(
        64,
        |i: int|
            if occupants.contains_key(i as usize) {
                Some(occupants[i as usize])
            } else {
                None
            },
    )
}

/// The map of the occupants of 64 squares describes those squares.
pub proof fn lemma_squares_of_occupant_map(squares: Seq<Occupant>)
    requires
        squares.len() == 64,
    ensures
        squares_of_map(occupant_map(squares)) == squares,
{
}

/// How many squares the first `m` of the planes hold, all together: the
/// number of bits that are set in them.
pub open spec fn total_bits(planes: Seq<Bitboard>, m: nat) -> nat
    decreases m,
{
    if m == 0 {
        0
    } else {
        total_bits(planes, (m - 1) as nat) + planes[m - 1]@.len()
    }
}

/// How many of the first `n` squares hold a piece of plane `p`.
pub open spec fn count_on_plane(squares: Seq<Occupant>, p: int, n: nat) -> nat
    decreases n,
{
    if n == 0 {
        0
    } else {
        count_on_plane(squares, p, (n - 1) as nat) + if on_plane(squares[n - 1], p) {
            1nat
        } else {
            0nat
        }
    }
}

/// How many of the first `n` squares hold a piece.
pub open spec fn count_occupied(squares: Seq<Occupant>, n: nat) -> nat
    decreases n,
{
    if n == 0 {
        0
    } else {
        count_occupied(squares, (n - 1) as nat) + if squares[n - 1] is Some {
            1nat
        } else {
            0nat
        }
    }
}

/// How many pieces of the first `m` planes the first `n` squares hold.
pub open spec fn count_on_planes(squares: Seq<Occupant>, m: nat, n: nat) -> nat
    decreases m,
{
    if m == 0 {
        0
    } else {
        count_on_planes(squares, (m - 1) as nat, n) + count_on_plane(squares, m - 1, n)
    }
}

/// A plane holds as many squares as there are pieces of it on the board.
proof fn lemma_plane_len(planes: Seq<Bitboard>, squares: Seq<Occupant>, p: int, n: nat)
    requires
        planes_represent(planes, squares),
        0 <= p < 12,
        n <= 64,
    ensures
        Set::new(|i: int| 0 <= i < n && planes[p].contains(i)).finite(),
        Set::new(|i: int| 0 <= i < n && planes[p].contains(i)).len() == count_on_plane(
            squares,
            p,
            n,
        ),
    decreases n,
{
    let now = Set::new(|i: int| 0 <= i < n && planes[p].contains(i));
    if n == 0 {
        assert(now =~= Set::<int>::empty());
    } else {
        let before = Set::new(|i: int| 0 <= i < n - 1 && planes[p].contains(i));
        lemma_plane_len(planes, squares, p, (n - 1) as nat);
        if on_plane(squares[n - 1], p) {
            assert(now =~= before.insert(n - 1));
        } else {
            assert(now =~= before);
        }
    }
}

/// The map of occupants has as many entries as there are occupied squares.
proof fn lemma_occupied_len(squares: Seq<Occupant>, n: nat)
    requires
        squares.len() == 64,
        n <= 64,
    ensures
        Set::new(|k: usize| k < n && squares[k as int] is Some).finite(),
        Set::new(|k: usize| k < n && squares[k as int] is Some).len() == count_occupied(
            squares,
            n,
        ),
    decreases n,
{
    let now = Set::new(|k: usize| k < n && squares[k as int] is Some);
    if n == 0 {
        assert(now =~= Set::<usize>::empty());
    } else {
        let before = Set::new(|k: usize| k < n - 1 && squares[k as int] is Some);
        lemma_occupied_len(squares, (n - 1) as nat);
        if squares[n - 1] is Some {
            assert(now =~= before.insert((n - 1) as usize));
        } else {
            assert(now =~= before);
        }
    }
}

/// How often an occupant is counted among the first `m` planes: once where
/// its plane is one of them, and not at all otherwise.
pub open spec fn counted(occupant: Occupant, m: nat) -> nat {
    match occupant {
        Some((piece, color)) => if plane_index(piece, color) < m {
            1
        } else {
            0
        },
        None => 0,
    }
}

/// Another square adds to the pieces of the first `m` planes what it is
/// counted for among them.
proof fn lemma_count_on_planes_step(squares: Seq<Occupant>, m: nat, n: nat)
    requires
        squares.len() == 64,
        m <= 12,
        1 <= n <= 64,
    ensures
        count_on_planes(squares, m, n) == count_on_planes(squares, m, (n - 1) as nat) + counted(
            squares[n - 1],
            m,
        ),
    decreases m,
{
    if m > 0 {
        lemma_count_on_planes_step(squares, (m - 1) as nat, n);
    }
}

/// The pieces of the twelve planes are the pieces of the board.
proof fn lemma_count_on_planes_all(squares: Seq<Occupant>, n: nat)
    requires
        squares.len() == 64,
        n <= 64,
    ensures
        count_on_planes(squares, 12, n) == count_occupied(squares, n),
    decreases n,
{
    if n == 0 {
        lemma_count_on_planes_none(squares, 12);
    } else {
        lemma_count_on_planes_all(squares, (n - 1) as nat);
        lemma_count_on_planes_step(squares, 12, n);
    }
}

/// No piece stands on no squares.
proof fn lemma_count_on_planes_none(squares: Seq<Occupant>, m: nat)
    ensures
        count_on_planes(squares, m, 0) == 0,
    decreases m,
{
    if m > 0 {
        lemma_count_on_planes_none(squares, (m - 1) as nat);
    }
}

/// The first `m` planes hold as many squares as there are pieces of those
/// planes on the board.
proof fn lemma_total_bits(planes: Seq<Bitboard>, squares: Seq<Occupant>, m: nat)
    requires
        planes_represent(planes, squares),
        m <= 12,
    ensures
        total_bits(planes, m) == count_on_planes(squares, m, 64),
    decreases m,
{
    if m > 0 {
        lemma_total_bits(planes, squares, (m - 1) as nat);
        lemma_plane_len(planes, squares, m - 1, 64);
        assert(planes[m - 1]@ =~= Set::new(|i: int| 0 <= i < 64 && planes[m - 1].contains(i)));
    }
}

/// The planes of a board share no square, and together they hold as many
/// squares as the map of occupants has entries: no bit is set in two planes,
/// and the number of bits set in all twelve is the number of occupied
/// squares.
pub proof fn lemma_planes_partition_occupants(planes: Seq<Bitboard>, squares: Seq<Occupant>)
    requires
        planes_represent(planes, squares),
    ensures
        forall|p: int, q: int, i: int|
            0 <= p < q < 12 ==> !(#[trigger] planes[p].contains(i) && #[trigger] planes[q].contains(
                i,
            )),
        forall|p: int| 0 <= p < 12 ==> (#[trigger] planes[p])@.finite(),
        occupant_map(squares).dom().finite(),
        total_bits(planes, 12) == occupant_map(squares).len(),
{
    assert forall|p: int| 0 <= p < 12 implies (#[trigger] planes[p])@.finite() by {
        lemma_plane_len(planes, squares, p, 64);
        assert(planes[p]@ =~= Set::new(|i: int| 0 <= i < 64 && planes[p].contains(i)));
    }
    lemma_total_bits(planes, squares, 12);
    lemma_count_on_planes_all(squares, 64);
    lemma_occupied_len(squares, 64);
}

/// The number of the plane of a piece of a color, for table lookups.
pub fn plane_of(piece: Piece, color: Color) -> (r: usize)
    ensures
        r == plane_index(piece, color),
        r < NUM_PLANES,
{
    piece.as_index() + 6 * color.as_index()
}

/// The twelve planes of a board of 64 squares.
pub fn planes_of_squares(squares: &[Occupant]) -> (r: [Bitboard; NUM_PLANES])
    requires
        squares@.len() == 64,
    ensures
        planes_represent(r@, squares@),
{
    let mut planes: [Bitboard; NUM_PLANES] = [Bitboard::empty();NUM_PLANES];
    let mut i: usize = 0;
    proof {
        crate::bitboard::lemma_bit_bounds();
    }
    while i < 64
        invariant
            i <= 64,
            squares@.len() == 64,
            forall|p: int, k: int|
                0 <= p < 12 && 0 <= k < 64 ==> (#[trigger] planes@[p].contains(k) <==> k < i
                    && on_plane(squares@[k], p)),
        decreases 64 - i,
    {
        match squares[i] {
            Some((piece, color)) => {
                let p = plane_of(piece, color);
                let ghost before = planes@;
                let mark = Bitboard::from_square(Square::from_index(i));
                planes[p] = planes[p].bitor(mark);
                assert forall|q: int, k: int| 0 <= q < 12 && 0 <= k < 64 implies (
                #[trigger] planes@[q].contains(k) <==> k < i + 1 && on_plane(squares@[k], q)) by {
                    if q == p {
                        assert(planes@[q]@.contains(k) == (before[q]@.contains(k) || mark@.contains(
                            k,
                        )));
                        assert(before[q].contains(k) == before[q]@.contains(k));
                    }
                }
            },
            None => {},
        }
        i += 1;
    }
    planes
}

/// The map of the occupants of a board of 64 squares.
pub fn map_of_squares(squares: &[Occupant]) -> (r: HashMap<usize, (Piece, Color)>)
    requires
        squares@.len() == 64,
    ensures
        r@ == occupant_map(squares@),
{
    let mut occupants: HashMap<usize, (Piece, Color)> = HashMap::new();
    let mut i: usize = 0;
    while i < 64
        invariant
            i <= 64,
            squares@.len() == 64,
            occupants@ =~= occupant_map(squares@.take(i as int)),
        decreases 64 - i,
    {
        match squares[i] {
            Some(occupant) => {
                occupants.insert(i, occupant);
            },
            None => {},
        }
        i += 1;
    }
    occupants
}

/// The 64 squares that a map of occupants describes.
pub fn squares_of_occupants(occupants: &HashMap<usize, (Piece, Color)>) -> (r: Vec<Occupant>)
    ensures
        r@ == squares_of_map(occupants@),
{
    let mut squares: Vec<Occupant> = Vec::new();
    let mut i: usize = 0;
    while i < 64
        invariant
            i <= 64,
            squares@ == squares_of_map(occupants@).take(i as int),
        decreases 64 - i,
    {
        let found = match occupants.get(&i) {
            Some(occupant) => Some(*occupant),
            None => None,
        };
        squares.push(found);
        i += 1;
    }
    squares
}

} // verus!
