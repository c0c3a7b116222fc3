use sv_lang::{Bit, Digit, LiteralBase, OwnedSVInt, SVInt};

fn bin(width: u32, signed: bool, text: &str) -> OwnedSVInt {
    let digits: Vec<Digit> = text
        .chars()
        .map(|c| match c {
            '0' => Digit::Value(0),
            '1' => Digit::Value(1),
            'x' => Digit::X,
            _ => Digit::Z,
        })
        .collect();
    let any_unknown = digits.iter().any(|d| matches!(d, Digit::X | Digit::Z));
    OwnedSVInt::from_digits(width, LiteralBase::Binary, signed, any_unknown, &digits).unwrap()
}

#[test]
fn counts_and_leading_runs() {
    // MSB first: 1 1 0 x z 0 0 1
    let s = bin(8, false, "110xz001").snapshot();
    assert_eq!(s.bit_width(), 8);
    assert_eq!(s.count_ones(), 3);
    assert_eq!(s.count_zeros(), 3);
    assert_eq!(s.count_xs(), 1);
    assert_eq!(s.count_zs(), 1);
    assert_eq!(s.count_leading_ones(), 2);
    assert_eq!(s.count_leading_zeros(), 0);
    assert_eq!(s.active_bits(), 8);
    assert!(s.has_unknown());
    assert!(s.is_true());
    assert!(!s.is_false());
    assert_eq!(s.as_i64(), None);
    assert_eq!(s.as_u64(), None);
}

#[test]
fn leading_unknown_runs() {
    let s = bin(6, false, "zxz011").snapshot();
    assert_eq!(s.count_leading_unknowns(), 3);
    assert_eq!(s.count_leading_zs(), 1);
    let t = bin(6, false, "zz0x11").snapshot();
    assert_eq!(t.count_leading_zs(), 2);
    assert_eq!(t.count_leading_unknowns(), 2);
}

#[test]
fn counts_partition_the_width() {
    for text in ["110xz001", "0000", "zzzz", "1x1x1x", "1"] {
        let s = bin(text.len() as u32, false, text).snapshot();
        assert_eq!(s.count_ones() + s.count_zeros() + s.count_xs() + s.count_zs(), s.bit_width());
        assert_eq!(s.has_unknown(), s.count_xs() + s.count_zs() > 0);
        assert_eq!(s.active_bits() + s.count_leading_zeros(), s.bit_width());
    }
}

#[test]
fn active_bits_ignore_leading_zeros() {
    let s = bin(8, false, "00010110").snapshot();
    assert_eq!(s.count_leading_zeros(), 3);
    assert_eq!(s.active_bits(), 5);
    let zero = bin(8, false, "00000000").snapshot();
    assert_eq!(zero.active_bits(), 0);
    assert!(zero.is_false());
    assert!(!zero.is_true());
    assert_eq!(zero.as_u64(), Some(0));
}

#[test]
fn truthiness_with_unknown_bits() {
    let s = bin(4, false, "x000").snapshot();
    assert!(!s.is_true());
    assert!(!s.is_false());
    let t = bin(4, false, "x100").snapshot();
    assert!(t.is_true());
}

#[test]
fn signed_readings() {
    let s = bin(8, true, "11111011").snapshot();
    assert_eq!(s.as_i64(), Some(-5));
    assert_eq!(s.as_u64(), None);
    assert!(s.is_signed());
    assert_eq!(i64::try_from(&s), Ok(-5));
    let u = bin(8, false, "11111011").snapshot();
    assert_eq!(u.as_i64(), Some(251));
    assert_eq!(u.as_u64(), Some(251));
}

#[test]
fn wide_values_do_not_fit() {
    let mut text = String::from("1");
    for _ in 0..69 {
        text.push('0');
    }
    let s = bin(70, false, &text).snapshot();
    assert_eq!(s.as_i64(), None);
    assert_eq!(s.as_u64(), None);
    assert_eq!(s.bit(69), Some(Bit::One));
    assert!(i64::try_from(&s).is_err());

    let mut text64 = String::new();
    for _ in 0..64 {
        text64.push('1');
    }
    let all = bin(64, false, &text64).snapshot();
    assert_eq!(all.as_u64(), Some(u64::MAX));
    assert_eq!(all.as_i64(), None);
    let signed = bin(64, true, &text64).snapshot();
    assert_eq!(signed.as_i64(), Some(-1));
}

#[test]
fn very_wide_values_are_not_expanded() {
    let v = OwnedSVInt::create_fill_x(2000, false).unwrap();
    let s = v.snapshot();
    assert_eq!(s.bit_width(), 2000);
    assert!(s.bits().is_empty());
    assert_eq!(s.bit(0), None);
    assert_eq!(s.count_xs(), 2000);
    let small = OwnedSVInt::create_fill_z(1024, false).unwrap().snapshot();
    assert_eq!(small.bits().len(), 1024);
    assert_eq!(small.bit(1023), Some(Bit::Z));
    assert_eq!(small.bit(1024), None);
}

#[test]
fn snapshot_clone_is_equal() {
    let s = bin(5, true, "1x0z1").snapshot();
    let c: SVInt = s.clone();
    assert_eq!(c, s);
    assert_eq!(c.bits(), &[Bit::One, Bit::Z, Bit::Zero, Bit::X, Bit::One]);
}

#[test]
fn snapshot_from_value_directly() {
    let s = SVInt::from_value(&vec![Bit::One, Bit::One], true);
    assert_eq!(s.as_i64(), Some(-1));
    assert_eq!(s.bit_width(), 2);
}
