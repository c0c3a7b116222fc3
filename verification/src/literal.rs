//! Number-literal digits (`12'hFF`, `4'bx`, `8'd255`) and the bit patterns
//! they spell.
use vstd::prelude::*;
use vstd::arithmetic::div_mod::{
    lemma_add_mod_noop, lemma_fundamental_div_mod_converse, lemma_mod_breakdown,
    lemma_mul_mod_noop_right, lemma_small_mod,
};
use crate::bit::{Bit, spec_is_unknown};
use crate::error::{Error, invalid_argument};
use crate::value::{
    bit_weight, filled, is_known, lemma_known_value_unique, lemma_two_pow_add,
    lemma_two_pow_positive, lemma_value_bound, lemma_value_concat, lemma_value_prefix_step,
    lemma_value_push, lemma_value_zeros, two_pow, unsigned_value,
};

verus! {

/// The base of a number literal.
#[derive(Clone, Copy, Debug, PartialEq, Eq, Structural)]
pub enum LiteralBase {
    /// Base 2 (`'b`).
    Binary,
    /// Base 8 (`'o`).
    Octal,
    /// Base 10 (`'d`), or an unsized decimal literal.
    Decimal,
    /// Base 16 (`'h`).
    Hex,
}

/// The wire number of a base: `0` binary, `1` octal, `2` decimal, `3` hex.
pub open spec fn spec_base_raw(b: LiteralBase) -> u8 {
    match b {
        LiteralBase::Binary => 0u8,
        LiteralBase::Octal => 1u8,
        LiteralBase::Decimal => 2u8,
        LiteralBase::Hex => 3u8,
    }
}

/// The radix of a base.
pub open spec fn radix(b: LiteralBase) -> nat {
    match b {
        LiteralBase::Binary => 2,
        LiteralBase::Octal => 8,
        LiteralBase::Decimal => 10,
        LiteralBase::Hex => 16,
    }
}

/// The number of bits one digit spells in a power-of-two base.
pub open spec fn digit_shift(b: LiteralBase) -> nat {
    match b {
        LiteralBase::Binary => 1,
        LiteralBase::Octal => 3,
        LiteralBase::Hex => 4,
        LiteralBase::Decimal => 0,
    }
}

impl LiteralBase {
    /// The wire number of this base: `0` binary, `1` octal, `2` decimal,
    /// `3` hex.
    pub fn to_raw(self) -> (r: u8)
        ensures
            r == spec_base_raw(self),
    {
        match self {
            LiteralBase::Binary => 0,
            LiteralBase::Octal => 1,
            LiteralBase::Decimal => 2,
            LiteralBase::Hex => 3,
        }
    }
}

/// One digit of a number literal: a concrete value (`0` to `radix - 1` for
/// the chosen [`LiteralBase`]) or an unknown `x`/`z` digit.
#[derive(Clone, Copy, Debug, PartialEq, Eq, Structural)]
pub enum Digit {
    /// A concrete digit value, `0..=15`.
    Value(u8),
    /// An unknown (`x`) digit.
    X,
    /// A high-impedance (`z`) digit.
    Z,
}

/// The byte a digit is carried as: its value, `0x80` for `x`, `0x40` for `z`.
pub open spec fn spec_digit_raw(d: Digit) -> u8 {
    match d {
        Digit::Value(v) => v,
        Digit::X => 0x80u8,
        Digit::Z => 0x40u8,
    }
}

impl Digit {
    /// The byte this digit is carried as: its value for a concrete digit,
    /// `0x80` for `x` and `0x40` for `z` (the `logic_t` encoding).
    pub fn to_raw(self) -> (r: u8)
        ensures
            r == spec_digit_raw(self),
    {
        match self {
            Digit::Value(v) => v,
            Digit::X => 0x80,
            Digit::Z => 0x40,
        }
    }
}

/// True for an `x` or `z` digit.
pub open spec fn is_unknown_digit(d: Digit) -> bool {
    d is X || d is Z
}

/// True when some digit is `x` or `z`.
pub open spec fn has_unknown_digit(digits: Seq<Digit>) -> bool {
    exists|i: int| 0 <= i < digits.len() && is_unknown_digit(#[trigger] digits[i])
}

/// True when a concrete digit is below the radix (unknown digits always fit).
pub open spec fn digit_fits(d: Digit, base: LiteralBase) -> bool {
    match d {
        Digit::Value(v) => v < radix(base),
        _ => true,
    }
}

/// True when every digit fits the base.
pub open spec fn digits_fit(digits: Seq<Digit>, base: LiteralBase) -> bool {
    forall|i: int| 0 <= i < digits.len() ==> digit_fits(#[trigger] digits[i], base)
}

/// The bit an unknown digit fills with (`x` or `z`); `0` for a concrete digit.
pub open spec fn fill_bit(d: Digit) -> Bit {
    match d {
        Digit::X => Bit::X,
        Digit::Z => Bit::Z,
        Digit::Value(_) => Bit::Zero,
    }
}

/// Bit `j` (from the least significant) of a digit: a bit of its value, or
/// `x`/`z` for an unknown digit.
pub open spec fn digit_bit(d: Digit, j: nat) -> Bit {
    match d {
        Digit::Value(v) => if (v as nat / two_pow(j)) % 2 == 1 {
            Bit::One
        } else {
            Bit::Zero
        },
        Digit::X => Bit::X,
        Digit::Z => Bit::Z,
    }
}

/// The `n` bits spelled by `digits` (most significant digit first) in a base
/// whose digits are `shift` bits wide: each digit supplies `shift` bits,
/// digits beyond the width are cut off at the left, and a literal shorter
/// than the width is padded at the left with zeros, or with `x`/`z` when its
/// leading digit is `x`/`z`.
pub open spec fn pow2_literal_bits(n: nat, shift: nat, digits: Seq<Digit>) -> Seq<Bit> {
    Seq::new(
        n,
        |i: int|
            if i / (shift as int) < digits.len() {
                digit_bit(digits[digits.len() - 1 - i / (shift as int)], (i % (shift as int)) as nat)
            } else {
                fill_bit(digits[0])
            },
    )
}

/// The numeric value of a concrete digit (`0` for an unknown one).
pub open spec fn digit_value(d: Digit) -> nat {
    match d {
        Digit::Value(v) => v as nat,
        _ => 0,
    }
}

/// The value of decimal digits, most significant first.
pub open spec fn decimal_value(digits: Seq<Digit>) -> nat
    decreases digits.len(),
{
    if digits.len() == 0 {
        0
    } else {
        decimal_value(digits.drop_last()) * 10 + digit_value(digits.last())
    }
}

/// True for a decimal literal that mixes an `x`/`z` digit with other
/// digits; such a literal is malformed.
pub open spec fn mixed_decimal(base: LiteralBase, digits: Seq<Digit>) -> bool {
    base == LiteralBase::Decimal && has_unknown_digit(digits) && digits.len() != 1
}

/// True when `s` is the `n`-bit value the literal `digits` in `base` spells.
/// A decimal literal is its value modulo `2^n`, all bits known; a decimal
/// literal that is a single `x` or `z` digit fills every bit with it; a
/// binary, octal or hex literal is [`pow2_literal_bits`].
pub open spec fn literal_spells(n: nat, base: LiteralBase, digits: Seq<Digit>, s: Seq<Bit>) -> bool {
    if base == LiteralBase::Decimal {
        if has_unknown_digit(digits) {
            s == filled(n, fill_bit(digits[0]))
        } else {
            &&& s.len() == n
            &&& is_known(s)
            &&& unsigned_value(s) == decimal_value(digits) % two_pow(n)
        }
    } else {
        s == pow2_literal_bits(n, digit_shift(base), digits)
    }
}

/// A literal spells exactly one bit pattern of each width.
pub proof fn lemma_literal_spells_unique(
    n: nat,
    base: LiteralBase,
    digits: Seq<Digit>,
    a: Seq<Bit>,
    b: Seq<Bit>,
)
    requires
        literal_spells(n, base, digits, a),
        literal_spells(n, base, digits, b),
    ensures
        a == b,
{
    if base == LiteralBase::Decimal && !has_unknown_digit(digits) {
        lemma_known_value_unique(a, b);
    }
}

/// A binary, octal or hex literal spells its digits in the low bits and
/// pads the rest on the left with the fill of its leading digit: zeros
/// after a concrete digit, `x` after `x`, `z` after `z`. Each `x` or `z`
/// digit spells that state in every one of its bits, and a concrete digit
/// spells known bits.
pub proof fn lemma_pow2_literal_padding(n: nat, base: LiteralBase, digits: Seq<Digit>, s: Seq<Bit>)
    requires
        base != LiteralBase::Decimal,
        digits.len() > 0,
        literal_spells(n, base, digits, s),
    ensures
        s.len() == n,
        forall|i: int|
            digit_shift(base) * digits.len() <= i < n ==> #[trigger] s[i] == (if digits[0]
                == Digit::X {
                Bit::X
            } else if digits[0] == Digit::Z {
                Bit::Z
            } else {
                Bit::Zero
            }),
        forall|i: int|
            0 <= i < n && i < digit_shift(base) * digits.len() ==> {
                let d = digits[digits.len() - 1 - i / (digit_shift(base) as int)];
                &&& d == Digit::X ==> #[trigger] s[i] == Bit::X
                &&& d == Digit::Z ==> s[i] == Bit::Z
                &&& d is Value ==> (s[i] == Bit::Zero || s[i] == Bit::One)
            },
{
    let k = digit_shift(base) as int;
    let len = digits.len() as int;
    assert(k >= 1);
    assert forall|i: int| k * len <= i < n implies #[trigger] s[i] == (if digits[0] == Digit::X {
        Bit::X
    } else if digits[0] == Digit::Z {
        Bit::Z
    } else {
        Bit::Zero
    }) by {
        assert(i / k >= len) by (nonlinear_arith)
            requires
                k * len <= i,
                k >= 1,
        ;
    }
    assert forall|i: int| 0 <= i < n && i < k * len implies {
        let d = digits[len - 1 - i / k];
        &&& d == Digit::X ==> #[trigger] s[i] == Bit::X
        &&& d == Digit::Z ==> s[i] == Bit::Z
        &&& d is Value ==> (s[i] == Bit::Zero || s[i] == Bit::One)
    } by {
        assert(0 <= i / k < len) by (nonlinear_arith)
            requires
                0 <= i < k * len,
                k >= 1,
        ;
    }
}

/// The literal made of a single `x` (or `z`) digit is `x` (or `z`) in
/// every bit, in every base.
pub proof fn lemma_unknown_literal_fills(n: nat, base: LiteralBase, d: Digit, s: Seq<Bit>)
    requires
        d is X || d is Z,
        literal_spells(n, base, seq![d], s),
    ensures
        s.len() == n,
        forall|i: int| 0 <= i < n ==> #[trigger] s[i] == (if d is X {
            Bit::X
        } else {
            Bit::Z
        }),
{
    let digits = seq![d];
    assert(is_unknown_digit(digits[0]));
    if base != LiteralBase::Decimal {
        lemma_pow2_literal_padding(n, base, digits, s);
        assert forall|i: int| 0 <= i < n implies #[trigger] s[i] == (if d is X {
            Bit::X
        } else {
            Bit::Z
        }) by {
            if i < digit_shift(base) * 1 {
                assert(i / (digit_shift(base) as int) == 0) by (nonlinear_arith)
                    requires
                        0 <= i < digit_shift(base) as int,
                ;
            }
        }
    }
}

/// The value of digits read in radix `r`, most significant first (an
/// unknown digit counts as `0`).
pub open spec fn radix_value(digits: Seq<Digit>, r: nat) -> nat
    decreases digits.len(),
{
    if digits.len() == 0 {
        0
    } else {
        radix_value(digits.drop_last(), r) * r + digit_value(digits.last())
    }
}

/// The low `k` bits of a digit, least significant first.
pub open spec fn digit_bits(d: Digit, k: nat) -> Seq<Bit> {
    Seq::new(k, |j: int| digit_bit(d, j as nat))
}

/// The low `k` bits of a concrete digit hold its value modulo `2^k`.
proof fn lemma_digit_bits_value(d: Digit, k: nat)
    requires
        d is Value,
    ensures
        unsigned_value(digit_bits(d, k)) == digit_value(d) % two_pow(k),
    decreases k,
{
    let v = digit_value(d) as int;
    if k == 0 {
        assert(digit_bits(d, k) =~= Seq::<Bit>::empty());
        assert(two_pow(0) == 1);
        lemma_fundamental_div_mod_converse(v, 1, v, 0);
    } else {
        let k1 = (k - 1) as nat;
        lemma_digit_bits_value(d, k1);
        assert(digit_bits(d, k) =~= digit_bits(d, k1).push(digit_bit(d, k1)));
        lemma_value_push(digit_bits(d, k1), digit_bit(d, k1));
        lemma_two_pow_positive(k1);
        let p = two_pow(k1) as int;
        lemma_mod_breakdown(v, p, 2);
        assert(two_pow(k) == p * 2);
        assert(bit_weight(digit_bit(d, k1)) == (v / p) % 2);
    }
}

/// Concrete digits that each fit `shift` bits spell, in `shift` bits apiece,
/// their value in radix `2^shift`.
proof fn lemma_pow2_digits_value(shift: nat, digits: Seq<Digit>)
    requires
        shift >= 1,
        forall|i: int|
            0 <= i < digits.len() ==> (#[trigger] digits[i]) is Value && digit_value(digits[i])
                < two_pow(shift),
    ensures
        unsigned_value(pow2_literal_bits(shift * digits.len(), shift, digits)) == radix_value(
            digits,
            two_pow(shift),
        ),
    decreases digits.len(),
{
    let k = shift as int;
    let len = digits.len() as int;
    if len == 0 {
        assert(pow2_literal_bits(shift * digits.len(), shift, digits) =~= Seq::<Bit>::empty());
    } else {
        let init = digits.drop_last();
        let d = digits.last();
        lemma_pow2_digits_value(shift, init);
        let t = pow2_literal_bits(shift * digits.len(), shift, digits);
        let ti = pow2_literal_bits(shift * init.len(), shift, init);
        let b = digit_bits(d, shift);
        assert(k * len == k + k * (len - 1)) by (nonlinear_arith);
        assert forall|i: int| 0 <= i < t.len() implies t[i] == (b + ti)[i] by {
            if i < k {
                assert(i / k == 0 && i % k == i) by (nonlinear_arith)
                    requires
                        0 <= i < k,
                ;
            } else {
                assert((i - k) / k == i / k - 1 && (i - k) % k == i % k) by (nonlinear_arith)
                    requires
                        k <= i,
                        k >= 1,
                ;
                assert(i / k < len) by (nonlinear_arith)
                    requires
                        0 <= i < k * len,
                        k >= 1,
                ;
            }
        }
        assert(t =~= b + ti);
        lemma_value_concat(b, ti);
        lemma_digit_bits_value(d, shift);
        lemma_two_pow_positive(shift);
        lemma_small_mod(digit_value(d), two_pow(shift));
        let r = radix_value(init, two_pow(shift)) as int;
        let p = two_pow(shift) as int;
        assert(p * r == r * p) by (nonlinear_arith);
    }
}

/// Decimal digits read in radix ten are their decimal value.
proof fn lemma_radix_ten(digits: Seq<Digit>)
    ensures
        radix_value(digits, 10) == decimal_value(digits),
    decreases digits.len(),
{
    if digits.len() > 0 {
        lemma_radix_ten(digits.drop_last());
    }
}

/// A literal whose digits are all concrete and fit its base spells its
/// number: the digits read in the base's radix, most significant first,
/// taken modulo `2^n` (digits beyond the width are cut off at the left,
/// a shorter literal is padded with zeros), every bit known.
pub proof fn lemma_literal_value(n: nat, base: LiteralBase, digits: Seq<Digit>, s: Seq<Bit>)
    requires
        digits.len() > 0,
        !has_unknown_digit(digits),
        digits_fit(digits, base),
        literal_spells(n, base, digits, s),
    ensures
        s.len() == n,
        is_known(s),
        unsigned_value(s) == radix_value(digits, radix(base)) % two_pow(n),
{
    lemma_two_pow_positive(n);
    if base == LiteralBase::Decimal {
        lemma_radix_ten(digits);
    } else {
        let shift = digit_shift(base);
        let k = shift as int;
        let len = digits.len() as int;
        let kl = shift * digits.len();
        reveal_with_fuel(two_pow, 5);
        assert(radix(base) == two_pow(shift));
        assert forall|i: int| 0 <= i < len implies (#[trigger] digits[i]) is Value && digit_value(
            digits[i],
        ) < two_pow(shift) by {
            assert(digit_fits(digits[i], base));
            if is_unknown_digit(digits[i]) {
                assert(has_unknown_digit(digits));
            }
        }
        assert(digits[0] is Value);
        lemma_pow2_digits_value(shift, digits);
        let t = pow2_literal_bits(kl, shift, digits);
        assert forall|i: int| 0 <= i < s.len() implies !spec_is_unknown(#[trigger] s[i]) by {
            assert(i / k >= 0) by (nonlinear_arith)
                requires
                    0 <= i,
                    k >= 1,
            ;
            if i / k < len {
                assert(digits[len - 1 - i / k] is Value);
            }
        }
        lemma_value_bound(t);
        if n <= kl {
            let h = t.take(n as int);
            let l = t.skip(n as int);
            assert(s =~= h);
            assert(t =~= h + l);
            lemma_value_concat(h, l);
            lemma_value_bound(h);
            let u = unsigned_value(l) as int;
            let p = two_pow(n) as int;
            assert(p * u == u * p) by (nonlinear_arith);
            lemma_fundamental_div_mod_converse(
                unsigned_value(t) as int,
                p,
                u,
                unsigned_value(s) as int,
            );
        } else {
            let m = (n - kl) as nat;
            let z = filled(m, Bit::Zero);
            assert forall|i: int| 0 <= i < n implies s[i] == (t + z)[i] by {
                if i < kl {
                    assert(i / k < len) by (nonlinear_arith)
                        requires
                            0 <= i < k * len,
                            k >= 1,
                    ;
                } else {
                    assert(i / k >= len) by (nonlinear_arith)
                        requires
                            k * len <= i,
                            k >= 1,
                    ;
                }
            }
            assert(s =~= t + z);
            lemma_value_concat(t, z);
            lemma_value_zeros(m);
            lemma_two_pow_add(kl, m);
            lemma_two_pow_positive(m);
            lemma_two_pow_positive(kl);
            let a = two_pow(kl) as int;
            let c = two_pow(m) as int;
            assert(a <= a * c) by (nonlinear_arith)
                requires
                    a >= 1,
                    c >= 1,
            ;
            assert(kl + m == n);
            lemma_small_mod(unsigned_value(t), two_pow(n));
        }
    }
}

/// In a binary, octal or hex literal, the `m`-th digit from the right
/// spells the bits `shift * m` up to `shift * (m + 1)`, least significant
/// first, whatever the other digits are; a concrete digit that fits the
/// base spells its value there.
pub proof fn lemma_pow2_literal_digit_slot(
    n: nat,
    base: LiteralBase,
    digits: Seq<Digit>,
    s: Seq<Bit>,
    m: int,
)
    requires
        base != LiteralBase::Decimal,
        0 <= m < digits.len(),
        digit_shift(base) * (m + 1) <= n,
        literal_spells(n, base, digits, s),
    ensures
        ({
            let k = digit_shift(base) as int;
            let d = digits[digits.len() - 1 - m];
            &&& s.subrange(k * m, k * m + k) == digit_bits(d, digit_shift(base))
            &&& d is Value && digit_fits(d, base) ==> unsigned_value(s.subrange(k * m, k * m + k))
                == digit_value(d)
        }),
{
    let shift = digit_shift(base);
    let k = shift as int;
    let d = digits[digits.len() - 1 - m];
    assert(k * (m + 1) == k * m + k) by (nonlinear_arith);
    assert(k * m >= 0) by (nonlinear_arith)
        requires
            k >= 1,
            m >= 0,
    ;
    assert forall|j: int| 0 <= j < k implies s.subrange(k * m, k * m + k)[j] == digit_bits(
        d,
        shift,
    )[j] by {
        let i = k * m + j;
        assert(i / k == m && i % k == j) by (nonlinear_arith)
            requires
                i == k * m + j,
                0 <= j < k,
        ;
    }
    assert(s.subrange(k * m, k * m + k) =~= digit_bits(d, shift));
    if d is Value && digit_fits(d, base) {
        reveal_with_fuel(two_pow, 5);
        assert(radix(base) == two_pow(shift));
        lemma_digit_bits_value(d, shift);
        lemma_two_pow_positive(shift);
        lemma_small_mod(digit_value(d), two_pow(shift));
    }
}

/// Bit `j` of a digit.
fn digit_bit_at(d: Digit, j: u32) -> (b: Bit)
    requires
        j < 4,
    ensures
        b == digit_bit(d, j as nat),
{
    match d {
        Digit::Value(v) => {
            let p: u8 = if j == 0 {
                1
            } else if j == 1 {
                2
            } else if j == 2 {
                4
            } else {
                8
            };
            proof {
                reveal_with_fuel(two_pow, 5);
                assert(p == two_pow(j as nat));
            }
            if (v / p) % 2 == 1 {
                Bit::One
            } else {
                Bit::Zero
            }
        },
        Digit::X => Bit::X,
        Digit::Z => Bit::Z,
    }
}

/// The `n` bits of a binary, octal or hex literal.
fn power_of_two_bits(n: u32, shift: u32, digits: &[Digit]) -> (r: Vec<Bit>)
    requires
        1 <= shift <= 4,
        digits@.len() > 0,
    ensures
        r@ == pow2_literal_bits(n as nat, shift as nat, digits@),
{
    let pad = match digits[0] {
        Digit::X => Bit::X,
        Digit::Z => Bit::Z,
        Digit::Value(_) => Bit::Zero,
    };
    let ghost target = pow2_literal_bits(n as nat, shift as nat, digits@);
    let mut r: Vec<Bit> = Vec::new();
    let mut i: u32 = 0;
    while i < n
        invariant
            i <= n,
            1 <= shift <= 4,
            digits@.len() > 0,
            pad == fill_bit(digits@[0]),
            target == pow2_literal_bits(n as nat, shift as nat, digits@),
            r@.len() == i,
            forall|k: int| 0 <= k < i ==> r@[k] == target[k],
        decreases n - i,
    {
        let k = i / shift;
        let j = i % shift;
        let b = if (k as usize) < digits.len() {
            digit_bit_at(digits[digits.len() - 1 - k as usize], j)
        } else {
            pad
        };
        r.push(b);
        i = i + 1;
    }
    proof {
        assert(r@ =~= target);
    }
    r
}

/// `(10 * a + d) mod 2^width`, on known bits of a fixed width.
fn times_ten_plus(a: &Vec<Bit>, d: u8) -> (r: Vec<Bit>)
    requires
        is_known(a@),
        d < 10,
    ensures
        r@.len() == a@.len(),
        is_known(r@),
        unsigned_value(r@) == (10 * unsigned_value(a@) + d) % (two_pow(a@.len()) as int),
{
    let mut r: Vec<Bit> = Vec::new();
    let mut carry: u8 = d;
    let mut i: usize = 0;
    proof {
        assert(a@.take(0) =~= Seq::<Bit>::empty());
        assert(r@ =~= Seq::<Bit>::empty());
        assert(unsigned_value(a@.take(0)) == 0);
        assert(unsigned_value(r@) == 0);
        assert(two_pow(0) == 1);
    }
    while i < a.len()
        invariant
            i <= a.len(),
            r@.len() == i,
            is_known(a@),
            is_known(r@),
            carry <= 10,
            10 * unsigned_value(a@.take(i as int)) + d == unsigned_value(r@) + two_pow(i as nat)
                * carry,
        decreases a.len() - i,
    {
        let w: u8 = if a[i] == Bit::One {
            1
        } else {
            0
        };
        let t: u8 = 10 * w + carry;
        let b = if t % 2 == 1 {
            Bit::One
        } else {
            Bit::Zero
        };
        proof {
            lemma_value_prefix_step(a@, i as int);
            lemma_value_push(r@, b);
            assert(w == bit_weight(a@[i as int]));
            assert(bit_weight(b) == t % 2);
            let p = two_pow(i as nat);
            let q = t / 2;
            let m = t % 2;
            assert(p * carry + 10 * (p * w) == p * m + (2 * p) * q) by (nonlinear_arith)
                requires
                    t == 10 * w + carry,
                    t == 2 * q + m,
            ;
            assert(two_pow((i + 1) as nat) == 2 * p);
        }
        r.push(b);
        carry = t / 2;
        i = i + 1;
        proof {
            assert forall|k: int| 0 <= k < r@.len() implies !spec_is_unknown(#[trigger] r@[k]) by {
                if k < i - 1 {
                    assert(r@[k] == r@.take(i - 1)[k]);
                }
            }
        }
    }
    proof {
        assert(a@.take(a.len() as int) =~= a@);
        lemma_value_bound(r@);
        lemma_two_pow_positive(a@.len());
        let p = two_pow(a@.len()) as int;
        let c = carry as int;
        assert(p * c == c * p) by (nonlinear_arith);
        lemma_fundamental_div_mod_converse(
            10 * unsigned_value(a@) + d,
            two_pow(a@.len()) as int,
            carry as int,
            unsigned_value(r@) as int,
        );
    }
    r
}

/// The `n` bits of a decimal literal with concrete digits: its value
/// modulo `2^n`.
fn decimal_bits(n: u32, digits: &[Digit]) -> (r: Vec<Bit>)
    requires
        n >= 1,
        digits_fit(digits@, LiteralBase::Decimal),
    ensures
        r@.len() == n,
        is_known(r@),
        unsigned_value(r@) == decimal_value(digits@) % two_pow(n as nat),
{
    let ghost m = two_pow(n as nat) as int;
    let mut acc: Vec<Bit> = Vec::new();
    let mut i: u32 = 0;
    while i < n
        invariant
            i <= n,
            acc@ == filled(i as nat, Bit::Zero),
        decreases n - i,
    {
        acc.push(Bit::Zero);
        i = i + 1;
        proof {
            assert(acc@ =~= filled(i as nat, Bit::Zero));
        }
    }
    proof {
        lemma_value_zeros(n as nat);
        lemma_two_pow_positive(n as nat);
        assert(digits@.take(0) =~= Seq::<Digit>::empty());
        assert(decimal_value(digits@.take(0)) == 0);
        assert(0int % m == 0) by (nonlinear_arith)
            requires
                m >= 1,
        ;
    }
    let mut t: usize = 0;
    while t < digits.len()
        invariant
            t <= digits.len(),
            digits_fit(digits@, LiteralBase::Decimal),
            m == two_pow(n as nat),
            m >= 1,
            acc@.len() == n,
            is_known(acc@),
            unsigned_value(acc@) == (decimal_value(digits@.take(t as int)) as int) % m,
        decreases digits.len() - t,
    {
        let v: u8 = match digits[t] {
            Digit::Value(v) => v,
            _ => 0,
        };
        proof {
            assert(digit_fits(digits@[t as int], LiteralBase::Decimal));
            assert(digits@.take(t + 1).drop_last() =~= digits@.take(t as int));
            assert(digits@.take(t + 1).last() == digits@[t as int]);
            assert(decimal_value(digits@.take(t + 1)) == decimal_value(digits@.take(t as int)) * 10
                + v);
        }
        let next = times_ten_plus(&acc, v);
        proof {
            let dd = decimal_value(digits@.take(t as int)) as int;
            lemma_mul_mod_noop_right(10, dd, m);
            lemma_add_mod_noop(10 * (dd % m), v as int, m);
            lemma_add_mod_noop(10 * dd, v as int, m);
            assert((10 * (dd % m)) % m == (10 * dd) % m);
            assert(dd * 10 == 10 * dd);
        }
        acc = next;
        t = t + 1;
    }
    proof {
        assert(digits@.take(digits@.len() as int) =~= digits@);
    }
    acc
}

/// The `n` bits the literal `digits` (most significant first) spells in
/// `base`. Fails with [`Error::InvalidArgument`] when `n` is 0, `digits` is
/// empty, or a digit is too large for the base.
pub fn literal_bits(n: u32, base: LiteralBase, digits: &[Digit]) -> (r: Result<Vec<Bit>, Error>)
    ensures
        r is Ok <==> (n > 0 && digits@.len() > 0 && digits_fit(digits@, base)
            && !mixed_decimal(base, digits@)),
        r matches Ok(s) ==> literal_spells(n as nat, base, digits@, s@),
        r matches Err(e) ==> e is InvalidArgument,
{
    if n == 0 {
        return Err(invalid_argument("bit width must be nonzero"));
    }
    if digits.len() == 0 {
        return Err(invalid_argument("a literal needs at least one digit"));
    }
    let rad: u8 = match base {
        LiteralBase::Binary => 2,
        LiteralBase::Octal => 8,
        LiteralBase::Decimal => 10,
        LiteralBase::Hex => 16,
    };
    let mut any_unknown = false;
    let mut i: usize = 0;
    while i < digits.len()
        invariant
            i <= digits.len(),
            rad == radix(base),
            forall|k: int| 0 <= k < i ==> digit_fits(#[trigger] digits@[k], base),
            any_unknown <==> exists|k: int| 0 <= k < i && is_unknown_digit(#[trigger] digits@[k]),
        decreases digits.len() - i,
    {
        match digits[i] {
            Digit::Value(v) => {
                if v >= rad {
                    return Err(invalid_argument("digit too large for the base"));
                }
            },
            _ => {
                any_unknown = true;
            },
        }
        i = i + 1;
    }
    proof {
        assert(any_unknown == has_unknown_digit(digits@));
    }
    if base == LiteralBase::Decimal && any_unknown && digits.len() != 1 {
        return Err(invalid_argument("an x or z decimal literal has a single digit"));
    }
    match base {
        LiteralBase::Decimal => {
            if any_unknown {
                let fill = match digits[0] {
                    Digit::Z => Bit::Z,
                    _ => Bit::X,
                };
                proof {
                    let w = choose|k: int| 0 <= k < digits@.len() && is_unknown_digit(#[trigger] digits@[k]);
                    assert(w == 0);
                    assert(fill == fill_bit(digits@[0]));
                }
                let mut s: Vec<Bit> = Vec::new();
                let mut k: u32 = 0;
                while k < n
                    invariant
                        k <= n,
                        s@ == filled(k as nat, fill),
                    decreases n - k,
                {
                    s.push(fill);
                    k = k + 1;
                    proof {
                        assert(s@ =~= filled(k as nat, fill));
                    }
                }
                Ok(s)
            } else {
                Ok(decimal_bits(n, digits))
            }
        },
        LiteralBase::Binary => Ok(power_of_two_bits(n, 1, digits)),
        LiteralBase::Octal => Ok(power_of_two_bits(n, 3, digits)),
        LiteralBase::Hex => Ok(power_of_two_bits(n, 4, digits)),
    }
}

} // verus!
