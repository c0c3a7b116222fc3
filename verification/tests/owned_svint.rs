use sv_lang::{Bit, Digit, Error, LiteralBase, OwnedSVInt};

/// A binary literal of the given width from a string of `0`, `1`, `x`, `z`
/// (most significant first).
fn bin(width: u32, signed: bool, text: &str) -> OwnedSVInt {
    let digits: Vec<Digit> = text
        .chars()
        .filter(|c| *c != '_')
        .map(|c| match c {
            '0' => Digit::Value(0),
            '1' => Digit::Value(1),
            'x' => Digit::X,
            _ => Digit::Z,
        })
        .collect();
    let any_unknown = digits.iter().any(|d| matches!(d, Digit::X | Digit::Z));
    OwnedSVInt::from_digits(width, LiteralBase::Binary, signed, any_unknown, &digits).unwrap()
}

fn hex(width: u32, digits: &[u8]) -> OwnedSVInt {
    let digits: Vec<Digit> = digits.iter().map(|d| Digit::Value(*d)).collect();
    OwnedSVInt::from_digits(width, LiteralBase::Hex, false, false, &digits).unwrap()
}

#[test]
fn and_assign_combines_bitwise() {
    let mut x = bin(4, false, "1100");
    let y = bin(4, false, "1010");
    x.and_assign(&y).unwrap();
    assert_eq!(x.snapshot().as_i64(), Some(0b1000));
}

#[test]
fn or_assign_combines_bitwise() {
    let mut x = bin(4, false, "1100");
    let y = bin(4, false, "1010");
    x.or_assign(&y).unwrap();
    assert_eq!(x.snapshot().as_i64(), Some(0b1110));
}

#[test]
fn xor_assign_combines_bitwise() {
    let mut x = bin(4, false, "1100");
    let y = bin(4, false, "1010");
    x.xor_assign(&y).unwrap();
    assert_eq!(x.snapshot().as_i64(), Some(0b0110));
}

#[test]
fn bitwise_assign_rejects_width_mismatch_and_keeps_self() {
    let mut x = bin(4, false, "1100");
    let y = bin(8, false, "1010");
    let before = x.snapshot();
    assert!(matches!(x.and_assign(&y), Err(Error::InvalidArgument(_))));
    assert!(matches!(x.or_assign(&y), Err(Error::InvalidArgument(_))));
    assert!(matches!(x.xor_assign(&y), Err(Error::InvalidArgument(_))));
    assert_eq!(x.snapshot(), before);
}

#[test]
fn bitwise_assign_is_four_state() {
    let mut x = bin(4, false, "1x0z");
    let y = bin(4, false, "1111");
    x.and_assign(&y).unwrap();
    let s = x.snapshot();
    assert_eq!(s.bit(3), Some(Bit::One));
    assert_eq!(s.bit(2), Some(Bit::X));
    assert_eq!(s.bit(1), Some(Bit::Zero));
    assert_eq!(s.bit(0), Some(Bit::X));
}

#[test]
fn and_assign_commutes() {
    let mut a = bin(6, false, "1x0z10");
    let mut b = bin(6, false, "01zx11");
    let a0 = bin(6, false, "1x0z10");
    let b0 = bin(6, false, "01zx11");
    a.and_assign(&b0).unwrap();
    b.and_assign(&a0).unwrap();
    assert_eq!(a.snapshot(), b.snapshot());
}

#[test]
fn set_range_overwrites_low_bits() {
    let mut x = hex(8, &[0, 0]);
    let y = hex(4, &[0xF]);
    x.set_range(3, 0, &y).unwrap();
    assert_eq!(x.snapshot().as_i64(), Some(0x0F));
    assert_eq!(x.snapshot().bit_width(), 8);
}

#[test]
fn set_range_rejects_bad_ranges() {
    let mut x = hex(8, &[0, 0]);
    let y = hex(4, &[0xF]);
    assert!(matches!(x.set_range(0, 3, &y), Err(Error::InvalidArgument(_))));
    assert!(matches!(x.set_range(4, 0, &y), Err(Error::InvalidArgument(_))));
    assert_eq!(x.snapshot().as_i64(), Some(0));
}

#[test]
fn set_range_skips_positions_outside_the_value() {
    let mut x = hex(8, &[0, 0]);
    let y = hex(4, &[0xF]);
    x.set_range(9, 6, &y).unwrap();
    assert_eq!(x.snapshot().as_i64(), Some(0b1100_0000));
}

#[test]
fn set_all_ones_and_zeros() {
    let mut v = bin(4, false, "0000");
    v.set_all_ones();
    assert_eq!(v.snapshot().as_i64(), Some(0b1111));
    v.set_all_zeros();
    assert_eq!(v.snapshot().as_i64(), Some(0));
    assert_eq!(v.snapshot().bit_width(), 4);
}

#[test]
fn set_all_x_and_z() {
    let mut v = bin(4, false, "0000");
    v.set_all_x();
    assert!(v.snapshot().has_unknown());
    assert_eq!(v.snapshot().bit(0), Some(Bit::X));
    v.set_all_z();
    assert!(v.snapshot().has_unknown());
    assert_eq!(v.snapshot().bit(0), Some(Bit::Z));
}

#[test]
fn set_signed_reinterprets() {
    let mut v = bin(4, false, "1000");
    assert!(!v.snapshot().is_signed());
    assert_eq!(v.snapshot().as_i64(), Some(8));
    v.set_signed(true);
    assert!(v.snapshot().is_signed());
    assert_eq!(v.snapshot().as_i64(), Some(-8));
    assert_eq!(v.snapshot().as_u64(), None);
}

#[test]
fn flatten_unknowns_zeroes_x_and_z() {
    let mut v = bin(4, false, "0000");
    v.set_all_x();
    v.flatten_unknowns();
    assert!(!v.snapshot().has_unknown());
    assert_eq!(v.snapshot().as_i64(), Some(0));

    let mut w = bin(4, false, "1x0z");
    w.flatten_unknowns();
    assert_eq!(w.snapshot().as_i64(), Some(0b1000));
    let once = w.snapshot();
    w.flatten_unknowns();
    assert_eq!(w.snapshot(), once);
}

#[test]
fn shrink_to_fit_drops_leading_zeros() {
    let digits = [Digit::Value(3)];
    let mut v = OwnedSVInt::from_digits(32, LiteralBase::Decimal, false, false, &digits).unwrap();
    assert_eq!(v.snapshot().bit_width(), 32);
    v.shrink_to_fit();
    assert_eq!(v.snapshot().bit_width(), 2);
    assert_eq!(v.snapshot().as_i64(), Some(3));
}

#[test]
fn shrink_to_fit_keeps_signed_values() {
    let mut neg = bin(8, true, "11111100");
    assert_eq!(neg.snapshot().as_i64(), Some(-4));
    neg.shrink_to_fit();
    assert_eq!(neg.snapshot().bit_width(), 3);
    assert_eq!(neg.snapshot().as_i64(), Some(-4));

    let mut pos = bin(8, true, "00000011");
    pos.shrink_to_fit();
    assert_eq!(pos.snapshot().bit_width(), 3);
    assert_eq!(pos.snapshot().as_i64(), Some(3));

    let mut zero = bin(8, false, "00000000");
    zero.shrink_to_fit();
    assert_eq!(zero.snapshot().bit_width(), 1);
    assert_eq!(zero.snapshot().as_i64(), Some(0));

    let mut minus_one = bin(8, true, "11111111");
    minus_one.shrink_to_fit();
    assert_eq!(minus_one.snapshot().bit_width(), 1);
    assert_eq!(minus_one.snapshot().as_i64(), Some(-1));
}

#[test]
fn sign_extend_from_duplicates_a_set_bit() {
    let mut v = bin(8, false, "0000_1000");
    v.sign_extend_from(3).unwrap();
    assert_eq!(v.snapshot().as_i64(), Some(0b1111_1000));
    assert_eq!(v.snapshot().bit_width(), 8);

    let mut w = bin(8, false, "0000_0100");
    w.sign_extend_from(3).unwrap();
    assert_eq!(w.snapshot().as_i64(), Some(0b0000_0100));
}

#[test]
fn sign_extend_from_rejects_the_top_bit() {
    let mut v = bin(8, false, "0000_1000");
    assert!(matches!(v.sign_extend_from(7), Err(Error::InvalidArgument(_))));
    assert!(matches!(v.sign_extend_from(100), Err(Error::InvalidArgument(_))));
    assert_eq!(v.snapshot().as_i64(), Some(8));
}

#[test]
fn create_fill_x_and_z() {
    let v = OwnedSVInt::create_fill_x(4, false).unwrap();
    assert!(v.snapshot().has_unknown());
    assert_eq!(v.snapshot().bit(0), Some(Bit::X));
    assert_eq!(v.snapshot().bit_width(), 4);
    let z = OwnedSVInt::create_fill_z(4, true).unwrap();
    assert!(z.snapshot().has_unknown());
    assert_eq!(z.snapshot().bit(0), Some(Bit::Z));
    assert!(z.snapshot().is_signed());
}

#[test]
fn create_fill_rejects_zero_width() {
    assert!(matches!(OwnedSVInt::create_fill_x(0, false), Err(Error::InvalidArgument(_))));
    assert!(matches!(OwnedSVInt::create_fill_z(0, false), Err(Error::InvalidArgument(_))));
}

#[test]
fn from_bits_checks_width() {
    assert!(matches!(OwnedSVInt::from_bits(Vec::new(), false), Err(Error::InvalidArgument(_))));
    let v = OwnedSVInt::from_bits(vec![Bit::One, Bit::Zero, Bit::One], false).unwrap();
    assert_eq!(v.snapshot().as_i64(), Some(5));
}

#[test]
fn concat_puts_first_operand_on_top() {
    let x = hex(4, &[0xA]);
    let y = hex(4, &[0xB]);
    let cat = OwnedSVInt::concat(&[&x, &y]).unwrap();
    assert_eq!(cat.snapshot().bit_width(), 8);
    assert_eq!(cat.snapshot().as_i64(), Some(0xAB));
    assert!(!cat.snapshot().is_signed());
}

#[test]
fn concat_of_nothing_is_one_zero_bit() {
    let cat = OwnedSVInt::concat(&[]).unwrap();
    assert_eq!(cat.snapshot().bit_width(), 1);
    assert_eq!(cat.snapshot().as_i64(), Some(0));
}

#[test]
fn conditional_picks_a_side() {
    let c = bin(1, false, "1");
    let x = hex(4, &[0xA]);
    let y = hex(4, &[0xB]);
    let r = OwnedSVInt::conditional(&c, &x, &y).unwrap();
    assert_eq!(r.snapshot().as_i64(), Some(0xA));
    let f = bin(1, false, "0");
    let r = OwnedSVInt::conditional(&f, &x, &y).unwrap();
    assert_eq!(r.snapshot().as_i64(), Some(0xB));
}

#[test]
fn conditional_merges_on_unknown_condition() {
    let c = bin(1, false, "x");
    let x = bin(4, false, "1010");
    let y = bin(4, false, "1001");
    let r = OwnedSVInt::conditional(&c, &x, &y).unwrap().snapshot();
    assert_eq!(r.bit(3), Some(Bit::One));
    assert_eq!(r.bit(2), Some(Bit::Zero));
    assert_eq!(r.bit(1), Some(Bit::X));
    assert_eq!(r.bit(0), Some(Bit::X));
}

#[test]
fn conditional_widens_to_the_wider_side() {
    let c = bin(1, false, "1");
    let x = bin(4, true, "1000");
    let y = bin(8, true, "00000001");
    let r = OwnedSVInt::conditional(&c, &x, &y).unwrap().snapshot();
    assert_eq!(r.bit_width(), 8);
    assert!(r.is_signed());
    assert_eq!(r.as_i64(), Some(-8));

    let u = bin(8, false, "00000001");
    let r = OwnedSVInt::conditional(&c, &x, &u).unwrap().snapshot();
    assert!(!r.is_signed());
    assert_eq!(r.as_i64(), Some(8));
}
