//! Sets of squares in 64 bits, with the operations of a boolean algebra.

use crate::square::Square;
use vstd::prelude::*;

verus! {

/// A set of squares, held in 64 bits: bit `i` is set exactly when square `i`
/// belongs to the set.
#[derive(Clone, Copy, Debug, Eq, PartialOrd, Hash, PartialEq, Structural)]
pub struct Bitboard(pub u64);

/// Whether bit `i` of `bits` is set. No bit is set outside 0 to 63.
pub open spec fn bit(bits: u64, i: int) -> bool {
    0 <= i < 64 && (bits >> (i as u64)) & 1 == 1
}

/// A bit of `a & b` is set exactly when it is set in both.
pub proof fn lemma_bit_and(a: u64, b: u64)
    ensures
        forall|i: int| #[trigger] bit(a & b, i) == (bit(a, i) && bit(b, i)),
{
    assert forall|i: int| #[trigger] bit(a & b, i) == (bit(a, i) && bit(b, i)) by {
        if 0 <= i < 64 {
            let k = i as u64;
            assert((((a & b) >> k) & 1 == 1) == (((a >> k) & 1 == 1) && ((b >> k) & 1 == 1)))
                by (bit_vector);
        }
    }
}

/// A bit of `a | b` is set exactly when it is set in one of the two.
pub proof fn lemma_bit_or(a: u64, b: u64)
    ensures
        forall|i: int| #[trigger] bit(a | b, i) == (bit(a, i) || bit(b, i)),
{
    assert forall|i: int| #[trigger] bit(a | b, i) == (bit(a, i) || bit(b, i)) by {
        if 0 <= i < 64 {
            let k = i as u64;
            assert((((a | b) >> k) & 1 == 1) == (((a >> k) & 1 == 1) || ((b >> k) & 1 == 1)))
                by (bit_vector);
        }
    }
}

/// A bit of `a ^ b` is set exactly when it is set in one of the two and not
/// in the other.
pub proof fn lemma_bit_xor(a: u64, b: u64)
    ensures
        forall|i: int| #[trigger] bit(a ^ b, i) == (bit(a, i) != bit(b, i)),
{
    assert forall|i: int| #[trigger] bit(a ^ b, i) == (bit(a, i) != bit(b, i)) by {
        if 0 <= i < 64 {
            let k = i as u64;
            assert((((a ^ b) >> k) & 1 == 1) == (((a >> k) & 1 == 1) != ((b >> k) & 1 == 1)))
                by (bit_vector);
        }
    }
}

/// A bit of `!a`, from 0 to 63, is set exactly when it is not set in `a`.
pub proof fn lemma_bit_not(a: u64)
    ensures
        forall|i: int| 0 <= i < 64 ==> #[trigger] bit(!a, i) == !bit(a, i),
{
    assert forall|i: int| 0 <= i < 64 implies #[trigger] bit(!a, i) == !bit(a, i) by {
        let k = i as u64;
        assert((((!a) >> k) & 1 == 1) == !((a >> k) & 1 == 1)) by (bit_vector)
            requires
                k < 64,
        ;
    }
}

/// Of `1 << n`, with `n` from 0 to 63, bit `n` is set and no other.
pub proof fn lemma_bit_single(n: u64)
    requires
        n < 64,
    ensures
        forall|i: int| #[trigger] bit(1u64 << n, i) == (i == n),
{
    assert forall|i: int| #[trigger] bit(1u64 << n, i) == (i == n) by {
        if 0 <= i < 64 {
            let k = i as u64;
            assert((((1u64 << n) >> k) & 1 == 1) == (k == n)) by (bit_vector)
                requires
                    n < 64,
                    k < 64,
            ;
        }
    }
}

/// No bit of zero is set, and every bit of the largest number, from 0 to 63,
/// is.
pub proof fn lemma_bit_bounds()
    ensures
        forall|i: int| !#[trigger] bit(0u64, i),
        forall|i: int| 0 <= i < 64 ==> #[trigger] bit(u64::MAX, i),
{
    assert forall|i: int| !#[trigger] bit(0u64, i) by {
        if 0 <= i < 64 {
            let k = i as u64;
            assert(!((0u64 >> k) & 1 == 1)) by (bit_vector);
        }
    }
    assert forall|i: int| 0 <= i < 64 implies #[trigger] bit(u64::MAX, i) by {
        let k = i as u64;
        assert((0xffff_ffff_ffff_ffffu64 >> k) & 1 == 1) by (bit_vector)
            requires
                k < 64,
        ;
    }
}

/// Masking `a` with `1 << n` leaves something exactly when bit `n` of `a` is
/// set.
pub proof fn lemma_bit_test(a: u64, n: u64)
    requires
        n < 64,
    ensures
        (a & (1u64 << n) != 0) == bit(a, n as int),
{
    assert((a & (1u64 << n) != 0) == ((a >> n) & 1 == 1)) by (bit_vector)
        requires
            n < 64,
    ;
}

impl View for Bitboard {
    type V = Set<int>;

    /// The set of the numbers of the squares that belong to the bitboard.
    open spec fn view(&self) -> Set<int> {
        Set::new(|i: int| bit(self.0, i))
    }
}

impl Bitboard {
    /// Whether square `i` belongs to the bitboard.
    pub open spec fn contains(self, i: int) -> bool {
        bit(self.0, i)
    }

    /// The character at place `k` of the diagram: rows of 25 characters, each
    /// made of eight cells of three, a space, `1` or `0`, a space, and of a
    /// line feed; the cell at row `r` and column `c` shows bit `8 * r + c`.
    pub open spec fn diagram_char(self, k: int) -> char {
        let column = k % 25;
        if column == 24 {
            '\n'
        } else if column % 3 == 1 {
            if self.contains((k / 25) * 8 + column / 3) {
                '1'
            } else {
                '0'
            }
        } else {
            ' '
        }
    }

    /// The diagram of the bitboard: eight rows of eight cells, bit 0 first,
    /// each row ended by a line feed.
    pub open spec fn diagram(self) -> Seq<char> {
        Seq::new(200, |k: int| self.diagram_char(k))
    }

    /// The bitboard with the bits of `b`.
    pub fn new(b: u64) -> (r: Self)
        ensures
            r.0 == b,
    {
        Bitboard(b)
    }

    /// The bitboard without any square.
    pub fn empty() -> (r: Self)
        ensures
            r.0 == 0,
            r@ == Set::<int>::empty(),
    {
        proof {
            lemma_bit_bounds();
        }
        Bitboard(0)
    }

    /// The bitboard with all 64 squares.
    pub fn full() -> (r: Self)
        ensures
            r.0 == u64::MAX,
            r@ == Set::new(|i: int| 0 <= i < 64),
    {
        proof {
            lemma_bit_bounds();
        }
        Bitboard(u64::MAX)
    }

    /// The bitboard that holds the square `s` and no other.
    pub fn from_square(s: Square) -> (r: Self)
        requires
            s.wf(),
        ensures
            r.0 == 1u64 << (s.0 as u64),
            r@ == set![s.0 as int],
    {
        proof {
            lemma_bit_single(s.0 as u64);
        }
        Bitboard(1u64 << s.index())
    }

    /// The diagram of the bitboard as a string.
    pub fn to_string(&self) -> (r: String)
        ensures
            r@ == self.diagram(),
    {
        let mut s = String::new();
        let mut rank: u64 = 0;
        while rank < 8
            invariant
                rank <= 8,
                s@ == self.diagram().take(25 * rank),
            decreases 8 - rank,
        {
            let mut file: u64 = 0;
            while file < 8
                invariant
                    rank < 8,
                    file <= 8,
                    s@ == self.diagram().take(25 * rank + 3 * file),
                decreases 8 - file,
            {
                let mask: u64 = 1u64 << (rank * 8 + file);
                let shown = if self.0 & mask != 0 {
                    '1'
                } else {
                    '0'
                };
                proof {
                    lemma_bit_test(self.0, (rank * 8 + file) as u64);
                }
                s.push(' ');
                s.push(shown);
                s.push(' ');
                file += 1;
            }
            s.push('\n');
            rank += 1;
        }
        s
    }
}

impl Default for Bitboard {
    /// The bitboard without any square.
    fn default() -> (r: Self)
        ensures
            r.0 == 0,
    {
        Bitboard(0)
    }
}

impl std::ops::BitAnd for Bitboard {
    type Output = Bitboard;

    /// The squares that belong to both bitboards.
    fn bitand(self, other: Self) -> (r: Bitboard)
        ensures
            r.0 == self.0 & other.0,
            r@ == self@.intersect(other@),
    {
        proof {
            lemma_bit_and(self.0, other.0);
        }
        Bitboard(self.0 & other.0)
    }
}

impl vstd::std_specs::ops::BitAndSpecImpl for Bitboard {
    open spec fn obeys_bitand_spec() -> bool {
        true
    }

    open spec fn bitand_req(self, other: Bitboard) -> bool {
        true
    }

    open spec fn bitand_spec(self, other: Bitboard) -> Bitboard {
        Bitboard(self.0 & other.0)
    }
}

impl std::ops::BitAnd for &Bitboard {
    type Output = Bitboard;

    /// The squares that belong to both bitboards.
    fn bitand(self, other: Self) -> (r: Bitboard)
        ensures
            r.0 == self.0 & other.0,
            r@ == self@.intersect(other@),
    {
        proof {
            lemma_bit_and(self.0, other.0);
        }
        Bitboard(self.0 & other.0)
    }
}

impl vstd::std_specs::ops::BitAndSpecImpl for &Bitboard {
    open spec fn obeys_bitand_spec() -> bool {
        true
    }

    open spec fn bitand_req(self, other: &Bitboard) -> bool {
        true
    }

    open spec fn bitand_spec(self, other: &Bitboard) -> Bitboard {
        Bitboard(self.0 & other.0)
    }
}

impl std::ops::BitAndAssign for Bitboard {
    /// Keeps the squares that belong to `other` as well.
    fn bitand_assign(&mut self, other: Self)
        ensures
            final(self).0 == old(self).0 & other.0,
            final(self)@ == old(self)@.intersect(other@),
    {
        proof {
            lemma_bit_and(self.0, other.0);
        }
        self.0 = self.0 & other.0;
    }
}

impl std::ops::BitOr for Bitboard {
    type Output = Bitboard;

    /// The squares that belong to one of the two bitboards.
    fn bitor(self, other: Self) -> (r: Bitboard)
        ensures
            r.0 == self.0 | other.0,
            r@ == self@.union(other@),
    {
        proof {
            lemma_bit_or(self.0, other.0);
        }
        Bitboard(self.0 | other.0)
    }
}

impl vstd::std_specs::ops::BitOrSpecImpl for Bitboard {
    open spec fn obeys_bitor_spec() -> bool {
        true
    }

    open spec fn bitor_req(self, other: Bitboard) -> bool {
        true
    }

    open spec fn bitor_spec(self, other: Bitboard) -> Bitboard {
        Bitboard(self.0 | other.0)
    }
}

impl std::ops::BitOr for &Bitboard {
    type Output = Bitboard;

    /// The squares that belong to one of the two bitboards.
    fn bitor(self, other: Self) -> (r: Bitboard)
        ensures
            r.0 == self.0 | other.0,
            r@ == self@.union(other@),
    {
        proof {
            lemma_bit_or(self.0, other.0);
        }
        Bitboard(self.0 | other.0)
    }
}

impl vstd::std_specs::ops::BitOrSpecImpl for &Bitboard {
    open spec fn obeys_bitor_spec() -> bool {
        true
    }

    open spec fn bitor_req(self, other: &Bitboard) -> bool {
        true
    }

    open spec fn bitor_spec(self, other: &Bitboard) -> Bitboard {
        Bitboard(self.0 | other.0)
    }
}

impl std::ops::BitOrAssign for Bitboard {
    /// Adds the squares of `other`.
    fn bitor_assign(&mut self, other: Self)
        ensures
            final(self).0 == old(self).0 | other.0,
            final(self)@ == old(self)@.union(other@),
    {
        proof {
            lemma_bit_or(self.0, other.0);
        }
        self.0 = self.0 | other.0;
    }
}

impl std::ops::BitXor for Bitboard {
    type Output = Bitboard;

    /// The squares that belong to one of the two bitboards and not to the other.
    fn bitxor(self, other: Self) -> (r: Bitboard)
        ensures
            r.0 == self.0 ^ other.0,
            r@ == self@.union(other@).difference(self@.intersect(other@)),
    {
        proof {
            lemma_bit_xor(self.0, other.0);
        }
        Bitboard(self.0 ^ other.0)
    }
}

impl vstd::std_specs::ops::BitXorSpecImpl for Bitboard {
    open spec fn obeys_bitxor_spec() -> bool {
        true
    }

    open spec fn bitxor_req(self, other: Bitboard) -> bool {
        true
    }

    open spec fn bitxor_spec(self, other: Bitboard) -> Bitboard {
        Bitboard(self.0 ^ other.0)
    }
}

impl std::ops::BitXor for &Bitboard {
    type Output = Bitboard;

    /// The squares that belong to one of the two bitboards and not to the other.
    fn bitxor(self, other: Self) -> (r: Bitboard)
        ensures
            r.0 == self.0 ^ other.0,
            r@ == self@.union(other@).difference(self@.intersect(other@)),
    {
        proof {
            lemma_bit_xor(self.0, other.0);
        }
        Bitboard(self.0 ^ other.0)
    }
}

impl vstd::std_specs::ops::BitXorSpecImpl for &Bitboard {
    open spec fn obeys_bitxor_spec() -> bool {
        true
    }

    open spec fn bitxor_req(self, other: &Bitboard) -> bool {
        true
    }

    open spec fn bitxor_spec(self, other: &Bitboard) -> Bitboard {
        Bitboard(self.0 ^ other.0)
    }
}

impl std::ops::BitXorAssign for Bitboard {
    /// Keeps the squares that belong to one of the two bitboards and not to the other.
    fn bitxor_assign(&mut self, other: Self)
        ensures
            final(self).0 == old(self).0 ^ other.0,
            final(self)@ == old(self)@.union(other@).difference(old(self)@.intersect(other@)),
    {
        proof {
            lemma_bit_xor(self.0, other.0);
        }
        self.0 = self.0 ^ other.0;
    }
}

impl std::ops::Not for Bitboard {
    type Output = Bitboard;

    /// The squares of the board that do not belong to the bitboard.
    fn not(self) -> (r: Bitboard)
        ensures
            r.0 == !self.0,
            r@ == Set::new(|i: int| 0 <= i < 64).difference(self@),
    {
        proof {
            lemma_bit_not(self.0);
        }
        Bitboard(!self.0)
    }
}

impl vstd::std_specs::ops::NotSpecImpl for Bitboard {
    open spec fn obeys_not_spec() -> bool {
        true
    }

    open spec fn not_req(self) -> bool {
        true
    }

    open spec fn not_spec(self) -> Bitboard {
        Bitboard(!self.0)
    }
}

impl std::ops::Not for &Bitboard {
    type Output = Bitboard;

    /// The squares of the board that do not belong to the bitboard.
    fn not(self) -> (r: Bitboard)
        ensures
            r.0 == !self.0,
            r@ == Set::new(|i: int| 0 <= i < 64).difference(self@),
    {
        proof {
            lemma_bit_not(self.0);
        }
        Bitboard(!self.0)
    }
}

impl vstd::std_specs::ops::NotSpecImpl for &Bitboard {
    open spec fn obeys_not_spec() -> bool {
        true
    }

    open spec fn not_req(self) -> bool {
        true
    }

    open spec fn not_spec(self) -> Bitboard {
        Bitboard(!self.0)
    }
}

} // verus!
