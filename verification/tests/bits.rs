use sv_lang::Bit;

fn all() -> [Bit; 4] {
    [Bit::Zero, Bit::One, Bit::X, Bit::Z]
}

#[test]
fn logic_t_values() {
    assert_eq!(Bit::Zero.logic_t_value(), 0);
    assert_eq!(Bit::One.logic_t_value(), 1);
    assert_eq!(Bit::X.logic_t_value(), 0x80);
    assert_eq!(Bit::Z.logic_t_value(), 0x40);
}

#[test]
fn unknown_constants() {
    assert_eq!(Bit::x(), Bit::X);
    assert_eq!(Bit::z(), Bit::Z);
    assert!(!Bit::One.is_unknown());
    assert!(!Bit::Zero.is_unknown());
    assert!(Bit::X.is_unknown());
    assert!(Bit::Z.is_unknown());
}

#[test]
fn wire_encoding_decodes() {
    assert_eq!(Bit::from_raw(0), Bit::Zero);
    assert_eq!(Bit::from_raw(1), Bit::One);
    assert_eq!(Bit::from_raw(2), Bit::X);
    assert_eq!(Bit::from_raw(3), Bit::Z);
    assert_eq!(Bit::from_raw(200), Bit::Z);
}

#[test]
fn four_state_and_or_xor_not() {
    assert_eq!(Bit::Zero & Bit::X, Bit::Zero);
    assert_eq!(Bit::One & Bit::One, Bit::One);
    assert_eq!(Bit::One & Bit::X, Bit::X);
    assert_eq!(Bit::Z & Bit::One, Bit::X);
    assert_eq!(Bit::One | Bit::X, Bit::One);
    assert_eq!(Bit::Zero | Bit::Zero, Bit::Zero);
    assert_eq!(Bit::Zero | Bit::X, Bit::X);
    assert_eq!(Bit::One ^ Bit::Zero, Bit::One);
    assert_eq!(Bit::One ^ Bit::One, Bit::Zero);
    assert_eq!(Bit::One ^ Bit::X, Bit::X);
    assert_eq!(Bit::Z ^ Bit::Zero, Bit::X);
    assert_eq!(!Bit::Zero, Bit::One);
    assert_eq!(!Bit::One, Bit::Zero);
    assert_eq!(!Bit::X, Bit::X);
    assert_eq!(!Bit::Z, Bit::X);
}

#[test]
fn bit_operators_commute_and_associate() {
    for a in all() {
        for b in all() {
            assert_eq!(a & b, b & a);
            assert_eq!(a | b, b | a);
            assert_eq!(a ^ b, b ^ a);
            for c in all() {
                assert_eq!((a & b) & c, a & (b & c));
                assert_eq!((a | b) | c, a | (b | c));
                assert_eq!((a ^ b) ^ c, a ^ (b ^ c));
            }
        }
    }
}

#[test]
fn bit_de_morgan_holds() {
    for a in all() {
        for b in all() {
            assert_eq!(!(a & b), !a | !b);
            assert_eq!(!(a | b), !a & !b);
        }
    }
}

#[test]
fn bit_identities_on_known_bits() {
    for a in [Bit::Zero, Bit::One] {
        assert_eq!(Bit::One & a, a);
        assert_eq!(Bit::Zero | a, a);
        assert_eq!(Bit::Zero ^ a, a);
        assert_eq!(!!a, a);
    }
    for a in all() {
        assert_eq!(Bit::Zero & a, Bit::Zero);
        assert_eq!(Bit::One | a, Bit::One);
        assert_ne!(!a, Bit::Z);
    }
}

#[test]
fn bits_print_as_digits() {
    assert_eq!(Bit::Zero.to_string(), "0");
    assert_eq!(Bit::One.to_string(), "1");
    assert_eq!(Bit::X.to_string(), "x");
    assert_eq!(Bit::Z.to_string(), "z");
}

#[test]
fn logic_t_bytes_round_trip() {
    for b in all() {
        assert_eq!(Bit::from_logic_raw(b.logic_t_value()), b);
    }
    assert_eq!(Bit::from_logic_raw(0x41), Bit::Z);
}
