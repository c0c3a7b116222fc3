use sv_lang::{Bit, Digit, Error, LiteralBase, OwnedSVInt};

fn values(ds: &[u8]) -> Vec<Digit> {
    ds.iter().map(|d| Digit::Value(*d)).collect()
}

#[test]
fn from_digits_hex_and_unknown() {
    let v = OwnedSVInt::from_digits(
        8,
        LiteralBase::Hex,
        false,
        false,
        &[Digit::Value(0xF), Digit::Value(0xA)],
    )
    .unwrap();
    assert_eq!(v.snapshot().as_i64(), Some(0xFA));

    let x = OwnedSVInt::from_digits(4, LiteralBase::Binary, false, true, &[Digit::X]).unwrap();
    assert!(x.snapshot().has_unknown());
    assert_eq!(x.snapshot().count_xs(), 4);
}

#[test]
fn from_digits_four_state_binary() {
    // 4'b1x0z, MSB-first, so LSB-first bits are z, 0, x, 1.
    let digits = [Digit::Value(1), Digit::X, Digit::Value(0), Digit::Z];
    let v = OwnedSVInt::from_digits(4, LiteralBase::Binary, false, true, &digits).unwrap();
    let s = v.snapshot();
    assert!(s.has_unknown());
    assert_eq!(s.as_i64(), None);
    assert_eq!(s.bit(0), Some(Bit::Z));
    assert_eq!(s.bit(1), Some(Bit::Zero));
    assert_eq!(s.bit(2), Some(Bit::X));
    assert_eq!(s.bit(3), Some(Bit::One));
}

#[test]
fn from_digits_octal() {
    let v = OwnedSVInt::from_digits(9, LiteralBase::Octal, false, false, &values(&[7, 0, 1])).unwrap();
    assert_eq!(v.snapshot().as_i64(), Some(0o701));
}

#[test]
fn from_digits_pads_with_zeros_or_leading_unknown() {
    let v = OwnedSVInt::from_digits(8, LiteralBase::Hex, false, false, &values(&[0xF])).unwrap();
    assert_eq!(v.snapshot().as_i64(), Some(0x0F));

    let x = OwnedSVInt::from_digits(8, LiteralBase::Hex, false, true, &[Digit::X]).unwrap();
    assert_eq!(x.snapshot().count_xs(), 8);

    let z = OwnedSVInt::from_digits(8, LiteralBase::Hex, false, true, &[Digit::Z, Digit::Value(1)])
        .unwrap();
    let s = z.snapshot();
    assert_eq!(s.count_zs(), 4);
    assert_eq!(s.bit(0), Some(Bit::One));
    assert_eq!(s.bit(1), Some(Bit::Zero));
    assert_eq!(s.bit(7), Some(Bit::Z));
}

#[test]
fn from_digits_truncates_from_the_left() {
    let v = OwnedSVInt::from_digits(4, LiteralBase::Hex, false, false, &values(&[0xA, 0xB])).unwrap();
    assert_eq!(v.snapshot().as_i64(), Some(0xB));
    assert_eq!(v.snapshot().bit_width(), 4);
}

#[test]
fn from_digits_decimal() {
    let v = OwnedSVInt::from_digits(8, LiteralBase::Decimal, false, false, &values(&[2, 5, 5])).unwrap();
    assert_eq!(v.snapshot().as_i64(), Some(255));
    let w = OwnedSVInt::from_digits(10, LiteralBase::Decimal, false, false, &values(&[1, 0, 0, 0]))
        .unwrap();
    assert_eq!(w.snapshot().as_i64(), Some(1000));
    let big = OwnedSVInt::from_digits(
        64,
        LiteralBase::Decimal,
        false,
        false,
        &values(&[1, 8, 4, 4, 6, 7, 4, 4, 0, 7, 3, 7, 0, 9, 5, 5, 1, 6, 1, 5]),
    )
    .unwrap();
    assert_eq!(big.snapshot().as_u64(), Some(u64::MAX));
}

#[test]
fn from_digits_decimal_wraps_modulo_width() {
    let v = OwnedSVInt::from_digits(8, LiteralBase::Decimal, false, false, &values(&[2, 5, 6])).unwrap();
    assert_eq!(v.snapshot().as_i64(), Some(0));
    let w = OwnedSVInt::from_digits(8, LiteralBase::Decimal, true, false, &values(&[2, 5, 5])).unwrap();
    assert_eq!(w.snapshot().as_i64(), Some(-1));
}

#[test]
fn from_digits_decimal_unknown_fills() {
    let x = OwnedSVInt::from_digits(6, LiteralBase::Decimal, false, true, &[Digit::X]).unwrap();
    assert_eq!(x.snapshot().count_xs(), 6);
    let z = OwnedSVInt::from_digits(6, LiteralBase::Decimal, false, true, &[Digit::Z]).unwrap();
    assert_eq!(z.snapshot().count_zs(), 6);
}

#[test]
fn from_digits_rejects_bad_input() {
    assert!(matches!(
        OwnedSVInt::from_digits(0, LiteralBase::Hex, false, false, &values(&[1])),
        Err(Error::InvalidArgument(_))
    ));
    assert!(matches!(
        OwnedSVInt::from_digits(8, LiteralBase::Hex, false, false, &[]),
        Err(Error::InvalidArgument(_))
    ));
    assert!(matches!(
        OwnedSVInt::from_digits(8, LiteralBase::Binary, false, false, &values(&[1, 2])),
        Err(Error::InvalidArgument(_))
    ));
    assert!(matches!(
        OwnedSVInt::from_digits(8, LiteralBase::Decimal, false, false, &values(&[10])),
        Err(Error::InvalidArgument(_))
    ));
    assert!(matches!(
        OwnedSVInt::from_digits(8, LiteralBase::Hex, false, false, &values(&[16])),
        Err(Error::InvalidArgument(_))
    ));
}

#[test]
fn literal_base_and_digit_raw_values() {
    assert_eq!(LiteralBase::Binary.to_raw(), 0);
    assert_eq!(LiteralBase::Octal.to_raw(), 1);
    assert_eq!(LiteralBase::Decimal.to_raw(), 2);
    assert_eq!(LiteralBase::Hex.to_raw(), 3);
    assert_eq!(Digit::Value(9).to_raw(), 9);
    assert_eq!(Digit::X.to_raw(), 0x80);
    assert_eq!(Digit::Z.to_raw(), 0x40);
}

#[test]
fn from_digits_reads_unknown_digits_whatever_the_flag() {
    let digits = [Digit::Value(1), Digit::X, Digit::Value(0), Digit::Z];
    let flagged = OwnedSVInt::from_digits(4, LiteralBase::Binary, false, true, &digits).unwrap();
    let unflagged = OwnedSVInt::from_digits(4, LiteralBase::Binary, false, false, &digits).unwrap();
    assert_eq!(flagged.snapshot(), unflagged.snapshot());
    let v = OwnedSVInt::from_digits(8, LiteralBase::Hex, false, true, &values(&[0xF, 0xA])).unwrap();
    assert_eq!(v.snapshot().as_i64(), Some(0xFA));
    let x = OwnedSVInt::from_digits(3, LiteralBase::Decimal, false, false, &[Digit::X]).unwrap();
    assert_eq!(x.snapshot().count_xs(), 3);
}

#[test]
fn from_digits_rejects_mixed_unknown_decimal() {
    assert!(matches!(
        OwnedSVInt::from_digits(8, LiteralBase::Decimal, false, true, &[Digit::Value(1), Digit::X]),
        Err(Error::InvalidArgument(_))
    ));
    assert!(matches!(
        OwnedSVInt::from_digits(8, LiteralBase::Decimal, false, false, &[Digit::Z, Digit::Z]),
        Err(Error::InvalidArgument(_))
    ));
}
