use chessify::Bitboard;

#[test]
fn op_and() {
    let b1: Bitboard = Bitboard(1u64 << 4);
    let b2: Bitboard = Bitboard(1u64 << 32);

    assert_eq!(Bitboard::empty(), b1 & b2);

    let mut b3: Bitboard = Bitboard((1u64 << 5) - 1);
    b3 &= b1;

    assert_eq!(b1, b3);
}

#[test]
fn op_or() {
    let b1: Bitboard = Bitboard(1u64 << 4);
    let b2: Bitboard = Bitboard(1u64 << 32);
    let b3: Bitboard = Bitboard((1u64 << 4) + (1u64 << 32));

    assert_eq!(b3, b1 | b2);

    let mut b4: Bitboard = Bitboard((1u64 << 8) - 1);
    let b5: Bitboard = Bitboard((1u64 << 16) - 1);
    b4 |= b5;

    assert_eq!(b4, b5);
}

#[test]
fn op_xor() {
    let b1: Bitboard = Bitboard((1u64 << 4) - 1);
    let b2: Bitboard = Bitboard(1u64 << 1);
    let b3: Bitboard = Bitboard(((1u64 << 4) - 1) - (1u64 << 1));

    assert_eq!(b3, b1 ^ b2);

    let mut b4: Bitboard = Bitboard((1u64 << 5) - 1);
    let b5: Bitboard = Bitboard((1u64 << 3) - 1);
    b4 ^= b5;
    let b6: Bitboard = Bitboard(((1u64 << 5) - 1) - ((1u64 << 3) - 1));

    assert_eq!(b6, b4);
}

#[test]
fn op_not() {
    let b1: Bitboard = Bitboard::empty();
    let b2: Bitboard = Bitboard::full();

    assert_eq!(b2, !b1);
    assert_eq!(b1, !b2);
}

#[test]
fn display() {
    let bb: Bitboard = Bitboard::new(4);
    let s: String = bb.to_string();

    assert_eq!('1', s.chars().nth(7).unwrap());
}

#[test]
fn ops_on_references() {
    let a = Bitboard(0b1100);
    let b = Bitboard(0b1010);

    assert_eq!(Bitboard(0b1000), &a & &b);
    assert_eq!(Bitboard(0b1110), &a | &b);
    assert_eq!(Bitboard(0b0110), &a ^ &b);
    assert_eq!(Bitboard(!0b1100u64), !&a);
}

#[test]
fn empty_full_and_default() {
    assert_eq!(Bitboard(0), Bitboard::empty());
    assert_eq!(Bitboard(u64::MAX), Bitboard::full());
    assert_eq!(Bitboard(0), Bitboard::default());
    assert_eq!(Bitboard(77), Bitboard::new(77));
}

#[test]
fn from_square_sets_one_bit() {
    for i in 0..64usize {
        let s = chessify::Square::from_index(i);
        assert_eq!(Bitboard(1u64 << i), Bitboard::from_square(s));
    }
}

#[test]
fn diagram_of_a_bitboard() {
    let bb = Bitboard((1u64 << 0) | (1u64 << 9) | (1u64 << 63));
    let mut expected = String::new();
    for rank in 0..8 {
        for file in 0..8 {
            let i = rank * 8 + file;
            let shown = if i == 0 || i == 9 || i == 63 { '1' } else { '0' };
            expected.push(' ');
            expected.push(shown);
            expected.push(' ');
        }
        expected.push('\n');
    }
    assert_eq!(expected, bb.to_string());
    assert_eq!(200, bb.to_string().chars().count());
    assert_eq!(
        " 0  0  0  0  0  0  0  0 \n".repeat(8),
        Bitboard::empty().to_string()
    );
}
