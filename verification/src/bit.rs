//! A single four-state bit and its logic operators.
use vstd::prelude::*;
use vstd::std_specs::ops::{BitAndSpecImpl, BitOrSpecImpl, BitXorSpecImpl, NotSpecImpl};

verus! {

/// A four-state bit: `0`, `1`, `X` (unknown) or `Z` (high-impedance).
#[derive(Clone, Copy, Debug, PartialEq, Eq, Structural)]
pub enum Bit {
    /// Logic 0.
    Zero,
    /// Logic 1.
    One,
    /// Unknown.
    X,
    /// High-impedance.
    Z,
}

/// True when `b` is `X` or `Z`.
pub open spec fn spec_is_unknown(b: Bit) -> bool {
    b == Bit::X || b == Bit::Z
}

/// Four-state AND: `0` wins over anything, `1 & 1` is `1`, every other
/// combination is `X`.
pub open spec fn spec_bit_and(a: Bit, b: Bit) -> Bit {
    if a == Bit::Zero || b == Bit::Zero {
        Bit::Zero
    } else if a == Bit::One && b == Bit::One {
        Bit::One
    } else {
        Bit::X
    }
}

/// Four-state OR: `1` wins over anything, `0 | 0` is `0`, every other
/// combination is `X`.
pub open spec fn spec_bit_or(a: Bit, b: Bit) -> Bit {
    if a == Bit::One || b == Bit::One {
        Bit::One
    } else if a == Bit::Zero && b == Bit::Zero {
        Bit::Zero
    } else {
        Bit::X
    }
}

/// Four-state XOR: `X` if either side is unknown, otherwise the two-state XOR.
pub open spec fn spec_bit_xor(a: Bit, b: Bit) -> Bit {
    if spec_is_unknown(a) || spec_is_unknown(b) {
        Bit::X
    } else if a == b {
        Bit::Zero
    } else {
        Bit::One
    }
}

/// Four-state NOT: `0` and `1` swap, `X` and `Z` become `X`.
pub open spec fn spec_bit_not(a: Bit) -> Bit {
    match a {
        Bit::Zero => Bit::One,
        Bit::One => Bit::Zero,
        _ => Bit::X,
    }
}

/// The byte a `logic_t` stores for a bit: `0`, `1`, `0x80` for `x`,
/// `0x40` for `z`.
pub open spec fn spec_logic_t_value(b: Bit) -> u8 {
    match b {
        Bit::Zero => 0u8,
        Bit::One => 1u8,
        Bit::X => 0x80u8,
        Bit::Z => 0x40u8,
    }
}

/// The character a bit prints as: `0`, `1`, `x` or `z`.
pub open spec fn bit_text(b: Bit) -> Seq<char> {
    match b {
        Bit::Zero => seq!['0'],
        Bit::One => seq!['1'],
        Bit::X => seq!['x'],
        Bit::Z => seq!['z'],
    }
}

/// The bit a `logic_t` value byte stands for: `0`, `1`, `0x80` for `x`,
/// anything else for `z`.
pub open spec fn spec_from_logic_raw(v: u8) -> Bit {
    if v == 0 {
        Bit::Zero
    } else if v == 1 {
        Bit::One
    } else if v == 0x80 {
        Bit::X
    } else {
        Bit::Z
    }
}

impl Bit {
    /// Decodes the compact two-bit wire encoding: `0` is `Zero`, `1` is
    /// `One`, `2` is `X` and every other value is `Z`.
    pub fn from_raw(v: u8) -> (b: Bit)
        ensures
            v == 0 ==> b == Bit::Zero,
            v == 1 ==> b == Bit::One,
            v == 2 ==> b == Bit::X,
            v > 2 ==> b == Bit::Z,
    {
        match v {
            0 => Bit::Zero,
            1 => Bit::One,
            2 => Bit::X,
            _ => Bit::Z,
        }
    }

    /// Decodes the `logic_t` value byte: `0` is `Zero`, `1` is `One`,
    /// `0x80` is `X` and every other value is `Z`.
    pub fn from_logic_raw(v: u8) -> (b: Bit)
        ensures
            b == spec_from_logic_raw(v),
    {
        match v {
            0 => Bit::Zero,
            1 => Bit::One,
            0x80 => Bit::X,
            _ => Bit::Z,
        }
    }

    /// The raw four-state value byte of `logic_t`: `0`/`1` for a
    /// known bit, `0x80` for `x`, `0x40` for `z`.
    pub fn logic_t_value(&self) -> (r: u8)
        ensures
            r == spec_logic_t_value(*self),
    {
        match self {
            Bit::Zero => 0,
            Bit::One => 1,
            Bit::X => 0x80,
            Bit::Z => 0x40,
        }
    }

    /// The four-state unknown `x` constant.
    pub fn x() -> (b: Bit)
        ensures
            b == Bit::X,
    {
        Bit::X
    }

    /// The four-state high-impedance `z` constant.
    pub fn z() -> (b: Bit)
        ensures
            b == Bit::Z,
    {
        Bit::Z
    }

    /// The bit as text: `"0"`, `"1"`, `"x"` or `"z"`.
    pub fn to_string(&self) -> (r: String)
        ensures
            r@ == bit_text(*self),
    {
        proof {
            reveal_strlit("0");
            reveal_strlit("1");
            reveal_strlit("x");
            reveal_strlit("z");
        }
        match self {
            Bit::Zero => String::from_str("0"),
            Bit::One => String::from_str("1"),
            Bit::X => String::from_str("x"),
            Bit::Z => String::from_str("z"),
        }
    }

    /// True if this bit is `X` or `Z`.
    pub fn is_unknown(&self) -> (r: bool)
        ensures
            r == spec_is_unknown(*self),
    {
        match self {
            Bit::X | Bit::Z => true,
            _ => false,
        }
    }
}

impl core::ops::BitAnd for Bit {
    type Output = Bit;

    /// Four-state bitwise AND.
    fn bitand(self, rhs: Bit) -> (r: Bit) {
        if self == Bit::Zero || rhs == Bit::Zero {
            Bit::Zero
        } else if self == Bit::One && rhs == Bit::One {
            Bit::One
        } else {
            Bit::X
        }
    }
}

impl BitAndSpecImpl for Bit {
    open spec fn obeys_bitand_spec() -> bool {
        true
    }

    open spec fn bitand_req(self, rhs: Bit) -> bool {
        true
    }

    open spec fn bitand_spec(self, rhs: Bit) -> Bit {
        spec_bit_and(self, rhs)
    }
}

impl core::ops::BitOr for Bit {
    type Output = Bit;

    /// Four-state bitwise OR.
    fn bitor(self, rhs: Bit) -> (r: Bit) {
        if self == Bit::One || rhs == Bit::One {
            Bit::One
        } else if self == Bit::Zero && rhs == Bit::Zero {
            Bit::Zero
        } else {
            Bit::X
        }
    }
}

impl BitOrSpecImpl for Bit {
    open spec fn obeys_bitor_spec() -> bool {
        true
    }

    open spec fn bitor_req(self, rhs: Bit) -> bool {
        true
    }

    open spec fn bitor_spec(self, rhs: Bit) -> Bit {
        spec_bit_or(self, rhs)
    }
}

impl core::ops::BitXor for Bit {
    type Output = Bit;

    /// Four-state bitwise XOR.
    fn bitxor(self, rhs: Bit) -> (r: Bit) {
        if self.is_unknown() || rhs.is_unknown() {
            Bit::X
        } else if self == rhs {
            Bit::Zero
        } else {
            Bit::One
        }
    }
}

impl BitXorSpecImpl for Bit {
    open spec fn obeys_bitxor_spec() -> bool {
        true
    }

    open spec fn bitxor_req(self, rhs: Bit) -> bool {
        true
    }

    open spec fn bitxor_spec(self, rhs: Bit) -> Bit {
        spec_bit_xor(self, rhs)
    }
}

impl core::ops::Not for Bit {
    type Output = Bit;

    /// Four-state NOT: `0` and `1` swap, `X` and `Z` both become `X`.
    fn not(self) -> (r: Bit) {
        match self {
            Bit::Zero => Bit::One,
            Bit::One => Bit::Zero,
            _ => Bit::X,
        }
    }
}

impl NotSpecImpl for Bit {
    open spec fn obeys_not_spec() -> bool {
        true
    }

    open spec fn not_req(self) -> bool {
        true
    }

    open spec fn not_spec(self) -> Bit {
        spec_bit_not(self)
    }
}

/// Four-state AND, OR and XOR are commutative.
pub proof fn lemma_bit_ops_commutative(a: Bit, b: Bit)
    ensures
        spec_bit_and(a, b) == spec_bit_and(b, a),
        spec_bit_or(a, b) == spec_bit_or(b, a),
        spec_bit_xor(a, b) == spec_bit_xor(b, a),
{
}

/// Four-state AND, OR and XOR are associative.
pub proof fn lemma_bit_ops_associative(a: Bit, b: Bit, c: Bit)
    ensures
        spec_bit_and(spec_bit_and(a, b), c) == spec_bit_and(a, spec_bit_and(b, c)),
        spec_bit_or(spec_bit_or(a, b), c) == spec_bit_or(a, spec_bit_or(b, c)),
        spec_bit_xor(spec_bit_xor(a, b), c) == spec_bit_xor(a, spec_bit_xor(b, c)),
{
}

/// De Morgan's laws hold for four-state bits.
pub proof fn lemma_bit_de_morgan(a: Bit, b: Bit)
    ensures
        spec_bit_not(spec_bit_and(a, b)) == spec_bit_or(spec_bit_not(a), spec_bit_not(b)),
        spec_bit_not(spec_bit_or(a, b)) == spec_bit_and(spec_bit_not(a), spec_bit_not(b)),
{
}

/// `0` dominates AND and `1` dominates OR, whatever the other bit; an
/// unknown bit makes XOR unknown.
pub proof fn lemma_bit_dominance(a: Bit)
    ensures
        spec_bit_and(Bit::Zero, a) == Bit::Zero,
        spec_bit_or(Bit::One, a) == Bit::One,
        spec_is_unknown(a) ==> spec_bit_xor(a, Bit::Zero) == Bit::X,
{
}

/// On a known bit, `1` is the identity of AND, `0` the identity of OR and
/// XOR, and NOT is an involution; NOT never yields `Z`.
pub proof fn lemma_bit_known_identities(a: Bit)
    ensures
        !spec_is_unknown(a) ==> spec_bit_and(Bit::One, a) == a,
        !spec_is_unknown(a) ==> spec_bit_or(Bit::Zero, a) == a,
        !spec_is_unknown(a) ==> spec_bit_xor(Bit::Zero, a) == a,
        !spec_is_unknown(a) ==> spec_bit_not(spec_bit_not(a)) == a,
        spec_bit_not(a) != Bit::Z,
{
}

/// Decoding a bit's `logic_t` byte gives the bit back.
pub proof fn lemma_logic_t_round_trip(b: Bit)
    ensures
        spec_from_logic_raw(spec_logic_t_value(b)) == b,
{
}

/// On known bits the four-state operators are the two-state ones: AND is
/// `1` exactly when both are `1`, OR exactly when either is, XOR exactly
/// when they differ, and NOT swaps `0` and `1`; the results are known.
pub proof fn lemma_bit_ops_on_known(a: Bit, b: Bit)
    requires
        !spec_is_unknown(a),
        !spec_is_unknown(b),
    ensures
        !spec_is_unknown(spec_bit_and(a, b)) && (spec_bit_and(a, b) == Bit::One <==> (a == Bit::One
            && b == Bit::One)),
        !spec_is_unknown(spec_bit_or(a, b)) && (spec_bit_or(a, b) == Bit::One <==> (a == Bit::One
            || b == Bit::One)),
        !spec_is_unknown(spec_bit_xor(a, b)) && (spec_bit_xor(a, b) == Bit::One <==> a != b),
        !spec_is_unknown(spec_bit_not(a)) && (spec_bit_not(a) == Bit::One <==> a == Bit::Zero),
{
}

/// An unknown input makes AND, OR and XOR unknown unless the other input
/// decides AND (`0`) or OR (`1`) on its own.
pub proof fn lemma_bit_ops_on_unknown(a: Bit, b: Bit)
    requires
        spec_is_unknown(a),
    ensures
        spec_bit_and(a, b) == (if b == Bit::Zero {
            Bit::Zero
        } else {
            Bit::X
        }),
        spec_bit_or(a, b) == (if b == Bit::One {
            Bit::One
        } else {
            Bit::X
        }),
        spec_bit_xor(a, b) == Bit::X,
        spec_bit_not(a) == Bit::X,
{
}

} // verus!
