//! Castling rights as four bits, and the status of each color.

use crate::color::Color;
use crate::error::{ChessifyError, ChessifyErrorView};
use crate::numeral::{decimal_string, decimal_text};
use crate::text::{chars_of, string_of};
use vstd::prelude::*;
use vstd::std_specs::convert::TryFromSpecImpl;

verus! {

/// On which sides one color may still castle.
#[derive(Clone, Copy, Debug, Eq, Hash, PartialEq, PartialOrd, Structural)]
pub enum CastlingStatus {
    NotAvailable,
    Kingside,
    Queenside,
    Both,
}

/// The castling rights of both colors, in four bits: from the highest to the
/// lowest, White on the king's side, White on the queen's side, Black on the
/// king's side, Black on the queen's side.
#[derive(Clone, Copy, Debug, Eq, Hash, PartialEq, PartialOrd, Structural)]
pub struct CastlingRights(pub u8);

/// The bit of White's right to castle on the king's side.
pub const WHITE_KINGSIDE: u8 = 8;

/// The bit of White's right to castle on the queen's side.
pub const WHITE_QUEENSIDE: u8 = 4;

/// The bit of Black's right to castle on the king's side.
pub const BLACK_KINGSIDE: u8 = 2;

/// The bit of Black's right to castle on the queen's side.
pub const BLACK_QUEENSIDE: u8 = 1;

/// The status that two bits stand for, the lower bit for the queen's side
/// and the higher for the king's side. A number above 3 stands for none.
pub open spec fn status_of_bits(b: u8) -> Option<CastlingStatus> {
    if b == 0 {
        Some(CastlingStatus::NotAvailable)
    } else if b == 1 {
        Some(CastlingStatus::Queenside)
    } else if b == 2 {
        Some(CastlingStatus::Kingside)
    } else if b == 3 {
        Some(CastlingStatus::Both)
    } else {
        None
    }
}

/// Whether `c` is one of the four letters of a castling right.
pub open spec fn is_castling_letter(c: char) -> bool {
    c == 'K' || c == 'Q' || c == 'k' || c == 'q'
}

/// The bit that a letter grants, or zero where it grants none.
pub open spec fn granted(text: Seq<char>, letter: char, flag: u8) -> u8 {
    if text.contains(letter) {
        flag
    } else {
        0
    }
}

/// The rights that a text of castling letters grants: each right whose
/// letter occurs in it, however often and in whatever order.
pub open spec fn castling_bits(text: Seq<char>) -> u8 {
    granted(text, 'K', WHITE_KINGSIDE) | granted(text, 'Q', WHITE_QUEENSIDE) | granted(
        text,
        'k',
        BLACK_KINGSIDE,
    ) | granted(text, 'q', BLACK_QUEENSIDE)
}

/// What reading castling rights from `text` yields. A lone `-` and the empty
/// text grant nothing; a text of castling letters grants the rights whose
/// letters occur in it; any other text is an invalid-FEN error that holds the
/// text.
pub open spec fn castling_parse(text: Seq<char>) -> Result<CastlingRights, ChessifyErrorView> {
    if text == seq!['-'] {
        Ok(CastlingRights(0))
    } else if forall|i: int| 0 <= i < text.len() ==> is_castling_letter(#[trigger] text[i]) {
        Ok(CastlingRights(castling_bits(text)))
    } else {
        Err(ChessifyErrorView::InvalidFen(text))
    }
}

impl CastlingStatus {
    /// The place of the status in a table.
    pub open spec fn ordinal(self) -> nat {
        match self {
            CastlingStatus::NotAvailable => 0,
            CastlingStatus::Kingside => 1,
            CastlingStatus::Queenside => 2,
            CastlingStatus::Both => 3,
        }
    }

    /// The status of a color that may castle on the king's side, on the
    /// queen's side, on both or on neither.
    pub open spec fn from_flags(kingside: bool, queenside: bool) -> CastlingStatus {
        if kingside && queenside {
            CastlingStatus::Both
        } else if kingside {
            CastlingStatus::Kingside
        } else if queenside {
            CastlingStatus::Queenside
        } else {
            CastlingStatus::NotAvailable
        }
    }

    /// The index of the status, for table lookups.
    pub fn to_index(&self) -> (r: usize)
        ensures
            r == self.ordinal(),
    {
        match self {
            CastlingStatus::NotAvailable => 0,
            CastlingStatus::Kingside => 1,
            CastlingStatus::Queenside => 2,
            CastlingStatus::Both => 3,
        }
    }

    /// The status that the two bits of `b` stand for. The caller must know
    /// that `b` is at most 3.
    pub fn from_u8(b: u8) -> (r: Self)
        requires
            b <= 3,
        ensures
            status_of_bits(b) == Some(r),
    {
        CastlingStatus::try_from_u8(b).unwrap()
    }

    /// The status that the two bits of `b` stand for, or an
    /// unknown-castling-rights error that holds the numeral of `b`.
    pub fn try_from_u8(b: u8) -> (r: Result<Self, ChessifyError>)
        ensures
            match r {
                Ok(status) => status_of_bits(b) == Some(status),
                Err(e) => status_of_bits(b) is None && e@
                    == ChessifyErrorView::UnknownCastlingRights(decimal_text(b as nat)),
            },
            r is Ok <==> b <= 3,
    {
        match b {
            0 => Ok(CastlingStatus::NotAvailable),
            1 => Ok(CastlingStatus::Queenside),
            2 => Ok(CastlingStatus::Kingside),
            3 => Ok(CastlingStatus::Both),
            _ => Err(ChessifyError::UnknownCastlingRights(decimal_string(b as usize))),
        }
    }
}

impl CastlingRights {
    /// Whether the rights hold nothing beyond the four bits that have a
    /// meaning.
    pub open spec fn wf(self) -> bool {
        self.0 < 16
    }

    /// Whether `color` may castle on the king's side.
    pub open spec fn kingside(self, color: Color) -> bool {
        match color {
            Color::White => self.0 & WHITE_KINGSIDE != 0,
            Color::Black => self.0 & BLACK_KINGSIDE != 0,
        }
    }

    /// Whether `color` may castle on the queen's side.
    pub open spec fn queenside(self, color: Color) -> bool {
        match color {
            Color::White => self.0 & WHITE_QUEENSIDE != 0,
            Color::Black => self.0 & BLACK_QUEENSIDE != 0,
        }
    }

    /// The castling status of `color`: on which sides it may castle.
    pub open spec fn status(self, color: Color) -> CastlingStatus {
        CastlingStatus::from_flags(self.kingside(color), self.queenside(color))
    }

    /// The letters of the rights in the order `KQkq`, or `-` where there is
    /// none.
    pub open spec fn letters(self) -> Seq<char> {
        let text = (if self.kingside(Color::White) {
            seq!['K']
        } else {
            Seq::<char>::empty()
        }) + (if self.queenside(Color::White) {
            seq!['Q']
        } else {
            Seq::<char>::empty()
        }) + (if self.kingside(Color::Black) {
            seq!['k']
        } else {
            Seq::<char>::empty()
        }) + (if self.queenside(Color::Black) {
            seq!['q']
        } else {
            Seq::<char>::empty()
        });
        if text.len() == 0 {
            seq!['-']
        } else {
            text
        }
    }

    /// No castling right at all.
    pub fn none() -> (r: Self)
        ensures
            r.0 == 0,
    {
        CastlingRights(0)
    }

    /// All four castling rights.
    pub fn all() -> (r: Self)
        ensures
            r.0 == 15,
    {
        CastlingRights(15)
    }

    /// The rights that `s` grants. The caller must know that it grants some
    /// or none, and is no other text.
    pub fn from_str(s: &str) -> (r: Self)
        requires
            castling_parse(s@) is Ok,
        ensures
            castling_parse(s@) == Ok::<CastlingRights, ChessifyErrorView>(r),
    {
        CastlingRights::try_from(s).unwrap()
    }

    /// The castling status of one color.
    pub fn for_color(&self, c: Color) -> (r: CastlingStatus)
        ensures
            r == self.status(c),
    {
        let x = self.0;
        match c {
            Color::White => {
                assert((x & 12) >> 2 <= 3) by (bit_vector);
                assert(((x & 12) >> 2 == 0) == (x & 8 == 0 && x & 4 == 0)) by (bit_vector);
                assert(((x & 12) >> 2 == 1) == (x & 8 == 0 && x & 4 != 0)) by (bit_vector);
                assert(((x & 12) >> 2 == 2) == (x & 8 != 0 && x & 4 == 0)) by (bit_vector);
                CastlingStatus::from_u8((self.0 & 12) >> 2)
            },
            Color::Black => {
                assert(x & 3 <= 3) by (bit_vector);
                assert((x & 3 == 0) == (x & 2 == 0 && x & 1 == 0)) by (bit_vector);
                assert((x & 3 == 1) == (x & 2 == 0 && x & 1 != 0)) by (bit_vector);
                assert((x & 3 == 2) == (x & 2 != 0 && x & 1 == 0)) by (bit_vector);
                CastlingStatus::from_u8(self.0 & 3)
            },
        }
    }

    /// The rights that the characters `text` grant, or an invalid-FEN error
    /// that holds them.
    pub fn try_from_chars(text: &[char]) -> (r: Result<Self, ChessifyError>)
        ensures
            match r {
                Ok(rights) => castling_parse(text@) == Ok::<CastlingRights, ChessifyErrorView>(
                    rights,
                ) && rights.wf(),
                Err(e) => castling_parse(text@) == Err::<CastlingRights, ChessifyErrorView>(e@),
            },
    {
        if text.len() == 1 && text[0] == '-' {
            assert(text@ =~= seq!['-']);
            return Ok(CastlingRights(0));
        }
        let mut b: u8 = 0;
        let mut i: usize = 0;
        assert(castling_bits(text@.take(0)) == 0) by {
            assert(0u8 | 0u8 | 0u8 | 0u8 == 0u8) by (bit_vector);
        }
        while i < text.len()
            invariant
                i <= text.len(),
                text@ != seq!['-'],
                forall|k: int| 0 <= k < i ==> is_castling_letter(#[trigger] text@[k]),
                b == castling_bits(text@.take(i as int)),
                b < 16,
            decreases text.len() - i,
        {
            let c = text[i];
            let ghost before = text@.take(i as int);
            let ghost after = text@.take(i + 1);
            proof {
                assert forall|x: char| after.contains(x) == (before.contains(x) || x == c) by {
                    if x == c {
                        assert(after[i as int] == x);
                    }
                }
                lemma_grant(
                    granted(before, 'K', WHITE_KINGSIDE),
                    granted(before, 'Q', WHITE_QUEENSIDE),
                    granted(before, 'k', BLACK_KINGSIDE),
                    granted(before, 'q', BLACK_QUEENSIDE),
                );
            }
            match c {
                'K' => {
                    b |= 8;
                },
                'Q' => {
                    b |= 4;
                },
                'k' => {
                    b |= 2;
                },
                'q' => {
                    b |= 1;
                },
                _ => {
                    return Err(ChessifyError::InvalidFen(string_of(text)));
                },
            }
            proof {
                lemma_grant(
                    granted(after, 'K', WHITE_KINGSIDE),
                    granted(after, 'Q', WHITE_QUEENSIDE),
                    granted(after, 'k', BLACK_KINGSIDE),
                    granted(after, 'q', BLACK_QUEENSIDE),
                );
            }
            i += 1;
        }
        assert(text@.take(i as int) =~= text@);
        Ok(CastlingRights(b))
    }

    /// The rights in the notation of a FEN string: their letters in the
    /// order `KQkq`, or `-` where there is none.
    pub fn to_string(&self) -> (r: String)
        ensures
            r@ == self.letters(),
            self.wf() ==> castling_parse(r@) == Ok::<CastlingRights, ChessifyErrorView>(*self),
    {
        proof {
            if self.wf() {
                lemma_castling_round_trip(*self);
            }
        }
        let mut s = String::new();
        if self.0 & 8 != 0 {
            s.push('K');
        }
        if self.0 & 4 != 0 {
            s.push('Q');
        }
        if self.0 & 2 != 0 {
            s.push('k');
        }
        if self.0 & 1 != 0 {
            s.push('q');
        }
        if self.0 & 15 == 0 {
            let x = self.0;
            assert(x & 15 == 0 ==> x & 8 == 0 && x & 4 == 0 && x & 2 == 0 && x & 1 == 0)
                by (bit_vector);
            s.push('-');
        } else {
            let x = self.0;
            assert(x & 15 != 0 ==> x & 8 != 0 || x & 4 != 0 || x & 2 != 0 || x & 1 != 0)
                by (bit_vector);
        }
        assert(s@ =~= self.letters());
        s
    }
}

impl Default for CastlingRights {
    /// No castling right at all.
    fn default() -> (r: Self)
        ensures
            r.0 == 0,
    {
        CastlingRights(0)
    }
}

impl TryFrom<&str> for CastlingRights {
    type Error = ChessifyError;

    /// The rights that `s` grants, or an invalid-FEN error that holds `s`.
    fn try_from(s: &str) -> (r: Result<Self, ChessifyError>)
        ensures
            match r {
                Ok(rights) => castling_parse(s@) == Ok::<CastlingRights, ChessifyErrorView>(rights)
                    && rights.wf(),
                Err(e) => castling_parse(s@) == Err::<CastlingRights, ChessifyErrorView>(e@),
            },
    {
        let chars = chars_of(s);
        CastlingRights::try_from_chars(chars.as_slice())
    }
}

/// The error of this conversion holds a string, and a string has no value in
/// a specification apart from its view. So the conversion promises nothing
/// through the trait, and says what it returns on `try_from` itself.
impl TryFromSpecImpl<&str> for CastlingRights {
    open spec fn obeys_try_from_spec() -> bool {
        false
    }

    open spec fn try_from_spec(s: &str) -> Result<Self, ChessifyError> {
        arbitrary()
    }
}

/// Granting a right to rights that are made of the four bits sets its bit
/// and leaves the others, whether or not it was granted before.
proof fn lemma_grant(wk: u8, wq: u8, bk: u8, bq: u8)
    requires
        wk == 0 || wk == 8,
        wq == 0 || wq == 4,
        bk == 0 || bk == 2,
        bq == 0 || bq == 1,
    ensures
        (wk | wq | bk | bq) < 16,
        (wk | wq | bk | bq) | 8 == 8 | wq | bk | bq,
        (wk | wq | bk | bq) | 4 == wk | 4 | bk | bq,
        (wk | wq | bk | bq) | 2 == wk | wq | 2 | bq,
        (wk | wq | bk | bq) | 1 == wk | wq | bk | 1,
        ((wk | wq | bk | bq) & 8 != 0) == (wk == 8),
        ((wk | wq | bk | bq) & 4 != 0) == (wq == 4),
        ((wk | wq | bk | bq) & 2 != 0) == (bk == 2),
        ((wk | wq | bk | bq) & 1 != 0) == (bq == 1),
{
    assert((wk == 0 || wk == 8) && (wq == 0 || wq == 4) && (bk == 0 || bk == 2) && (bq == 0 || bq
        == 1) ==> {
        &&& (wk | wq | bk | bq) < 16
        &&& (wk | wq | bk | bq) | 8 == 8 | wq | bk | bq
        &&& (wk | wq | bk | bq) | 4 == wk | 4 | bk | bq
        &&& (wk | wq | bk | bq) | 2 == wk | wq | 2 | bq
        &&& (wk | wq | bk | bq) | 1 == wk | wq | bk | 1
        &&& ((wk | wq | bk | bq) & 8 != 0) == (wk == 8)
        &&& ((wk | wq | bk | bq) & 4 != 0) == (wq == 4)
        &&& ((wk | wq | bk | bq) & 2 != 0) == (bk == 2)
        &&& ((wk | wq | bk | bq) & 1 != 0) == (bq == 1)
    }) by (bit_vector);
}

/// The status of a color depends on the letters of that color alone: in
/// rights read from a text of castling letters, White's status is decided by
/// whether `K` and `Q` occur in the text, and Black's by whether `k` and `q`
/// do.
pub proof fn lemma_status_depends_on_letters(text: Seq<char>)
    requires
        forall|i: int| 0 <= i < text.len() ==> is_castling_letter(#[trigger] text[i]),
    ensures
        castling_parse(text) == Ok::<CastlingRights, ChessifyErrorView>(
            CastlingRights(castling_bits(text)),
        ),
        CastlingRights(castling_bits(text)).wf(),
        CastlingRights(castling_bits(text)).kingside(Color::White) == text.contains('K'),
        CastlingRights(castling_bits(text)).queenside(Color::White) == text.contains('Q'),
        CastlingRights(castling_bits(text)).kingside(Color::Black) == text.contains('k'),
        CastlingRights(castling_bits(text)).queenside(Color::Black) == text.contains('q'),
        CastlingRights(castling_bits(text)).status(Color::White) == CastlingStatus::from_flags(
            text.contains('K'),
            text.contains('Q'),
        ),
        CastlingRights(castling_bits(text)).status(Color::Black) == CastlingStatus::from_flags(
            text.contains('k'),
            text.contains('q'),
        ),
{
    if text == seq!['-'] {
        assert(is_castling_letter(text[0]));
    }
    lemma_grant(
        granted(text, 'K', WHITE_KINGSIDE),
        granted(text, 'Q', WHITE_QUEENSIDE),
        granted(text, 'k', BLACK_KINGSIDE),
        granted(text, 'q', BLACK_QUEENSIDE),
    );
}

/// Reading the notation of castling rights gives the rights back: for all
/// rights made of the four bits, the text that shows them is read as them.
pub proof fn lemma_castling_round_trip(rights: CastlingRights)
    requires
        rights.wf(),
    ensures
        castling_parse(rights.letters()) == Ok::<CastlingRights, ChessifyErrorView>(rights),
        rights.letters().len() > 0,
        forall|i: int|
            0 <= i < rights.letters().len() ==> (#[trigger] rights.letters()[i] == '-'
                || is_castling_letter(rights.letters()[i])),
{
    let text = rights.letters();
    let x = rights.0;
    let wk = rights.kingside(Color::White);
    let wq = rights.queenside(Color::White);
    let bk = rights.kingside(Color::Black);
    let bq = rights.queenside(Color::Black);
    let a = if wk { seq!['K'] } else { Seq::<char>::empty() };
    let b = if wq { seq!['Q'] } else { Seq::<char>::empty() };
    let c = if bk { seq!['k'] } else { Seq::<char>::empty() };
    let d = if bq { seq!['q'] } else { Seq::<char>::empty() };
    let joined = a + b + c + d;
    if joined.len() == 0 {
        assert(x < 16 && x & 8 == 0 && x & 4 == 0 && x & 2 == 0 && x & 1 == 0 ==> x == 0)
            by (bit_vector);
    } else {
        assert(text.contains('K') == wk) by {
            if wk {
                assert(text[0] == 'K');
            }
        }
        assert(text.contains('Q') == wq) by {
            if wq {
                assert(text[a.len() as int] == 'Q');
            }
        }
        assert(text.contains('k') == bk) by {
            if bk {
                assert(text[(a.len() + b.len()) as int] == 'k');
            }
        }
        assert(text.contains('q') == bq) by {
            if bq {
                assert(text[(a.len() + b.len() + c.len()) as int] == 'q');
            }
        }
        let gk: u8 = if wk { 8 } else { 0 };
        let gq: u8 = if wq { 4 } else { 0 };
        let hk: u8 = if bk { 2 } else { 0 };
        let hq: u8 = if bq { 1 } else { 0 };
        assert(x < 16 && (gk == 8) == (x & 8 != 0) && (gk == 0 || gk == 8) && (gq == 4) == (x & 4
            != 0) && (gq == 0 || gq == 4) && (hk == 2) == (x & 2 != 0) && (hk == 0 || hk == 2) && (hq
            == 1) == (x & 1 != 0) && (hq == 0 || hq == 1) ==> (gk | gq | hk | hq) == x)
            by (bit_vector);
    }
}

} // verus!
