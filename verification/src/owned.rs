//! `OwnedSVInt`: an owned, mutable four-state integer and the operations
//! that build and change it.
use vstd::prelude::*;
use crate::bit::{Bit, spec_bit_and, spec_bit_or, spec_bit_xor, spec_is_unknown};
use crate::error::{Error, invalid_argument};
use crate::literal::{Digit, LiteralBase, digits_fit, literal_bits, literal_spells, mixed_decimal};
use crate::svint::{
    FourState, SVInt, any_unknown, contains_bit, all_zero, copy_bits, leading_of,
};
use crate::value::{
    bitwise_and, bitwise_or, bitwise_xor, concatenated, conditional_bits, extended, filled,
    flattened, is_negative, leading_run, lemma_leading_run_bound, merged, min_width, shrunk,
    sign_extended_from, spec_is_false, spec_is_true, valid_width, with_range,
};

verus! {

/// The three two-input bitwise operators.
enum Logic2 {
    And,
    Or,
    Xor,
}

spec fn logic2(op: Logic2, a: Bit, b: Bit) -> Bit {
    match op {
        Logic2::And => spec_bit_and(a, b),
        Logic2::Or => spec_bit_or(a, b),
        Logic2::Xor => spec_bit_xor(a, b),
    }
}

/// `op` applied position by position to two sequences of the same width.
fn combine(a: &Vec<Bit>, b: &Vec<Bit>, op: Logic2) -> (r: Vec<Bit>)
    requires
        a.len() == b.len(),
    ensures
        r@ == Seq::new(a@.len(), |i: int| logic2(op, a@[i], b@[i])),
{
    let mut r: Vec<Bit> = Vec::new();
    let mut i: usize = 0;
    while i < a.len()
        invariant
            i <= a.len(),
            a.len() == b.len(),
            r@.len() == i,
            forall|j: int| 0 <= j < i ==> r@[j] == logic2(op, a@[j], b@[j]),
        decreases a.len() - i,
    {
        let x = a[i];
        let y = b[i];
        let v = match op {
            Logic2::And => x & y,
            Logic2::Or => x | y,
            Logic2::Xor => x ^ y,
        };
        r.push(v);
        i = i + 1;
    }
    proof {
        assert(r@ =~= Seq::new(a@.len(), |i: int| logic2(op, a@[i], b@[i])));
    }
    r
}

/// `n` copies of `b`.
fn fill(n: usize, b: Bit) -> (r: Vec<Bit>)
    ensures
        r@ == filled(n as nat, b),
{
    let mut r: Vec<Bit> = Vec::new();
    let mut i: usize = 0;
    while i < n
        invariant
            i <= n,
            r@ == filled(i as nat, b),
        decreases n - i,
    {
        r.push(b);
        i = i + 1;
        proof {
            assert(r@ =~= filled(i as nat, b));
        }
    }
    r
}

/// `s` widened to `w` bits, by its top bit when `signed`, by zeros otherwise.
fn extend_to(s: &Vec<Bit>, w: usize, signed: bool) -> (r: Vec<Bit>)
    requires
        s.len() <= w,
    ensures
        r@ == extended(s@, w as nat, signed),
{
    let fill_bit = if signed && s.len() > 0 {
        s[s.len() - 1]
    } else {
        Bit::Zero
    };
    let mut r: Vec<Bit> = Vec::new();
    let mut i: usize = 0;
    while i < w
        invariant
            i <= w,
            s.len() <= w,
            r@.len() == i,
            fill_bit == (if signed && s@.len() > 0 {
                s@.last()
            } else {
                Bit::Zero
            }),
            forall|j: int| 0 <= j < i ==> r@[j] == extended(s@, w as nat, signed)[j],
        decreases w - i,
    {
        if i < s.len() {
            r.push(s[i]);
        } else {
            r.push(fill_bit);
        }
        i = i + 1;
    }
    proof {
        assert(r@ =~= extended(s@, w as nat, signed));
    }
    r
}

/// An owned, independently mutable, arbitrary-width four-state integer.
/// Its width is between `1` and `u32::MAX` bits.
#[derive(Debug)]
pub struct OwnedSVInt {
    bits: Vec<Bit>,
    is_signed: bool,
}

impl View for OwnedSVInt {
    type V = FourState;

    closed spec fn view(&self) -> FourState {
        FourState { bits: self.bits@, signed: self.is_signed }
    }
}

impl OwnedSVInt {
    #[verifier::type_invariant]
    closed spec fn wf(self) -> bool {
        valid_width(self.bits@.len() as int)
    }

    /// Builds a value from its bits (least-significant first). Fails with
    /// [`Error::InvalidArgument`] when `bits` is empty or longer than
    /// `u32::MAX`.
    pub fn from_bits(bits: Vec<Bit>, is_signed: bool) -> (r: Result<OwnedSVInt, Error>)
        ensures
            r is Ok <==> valid_width(bits@.len() as int),
            r matches Ok(v) ==> v@ == (FourState { bits: bits@, signed: is_signed }),
            r matches Err(e) ==> e is InvalidArgument,
    {
        if bits.len() == 0 || bits.len() > u32::MAX as usize {
            Err(invalid_argument("bit width must be between 1 and u32::MAX"))
        } else {
            Ok(OwnedSVInt { bits, is_signed })
        }
    }

    /// An immutable snapshot of the current value. A pure read.
    pub fn snapshot(&self) -> (r: SVInt)
        ensures
            r@ == self@,
    {
        proof {
            use_type_invariant(self);
        }
        SVInt::from_value(&self.bits, self.is_signed)
    }

    /// In-place bitwise AND `self &= rhs`. Both must already have the same
    /// width; otherwise this fails with [`Error::InvalidArgument`] and `self`
    /// is left unchanged.
    pub fn and_assign(&mut self, rhs: &OwnedSVInt) -> (r: Result<(), Error>)
        ensures
            r is Ok <==> old(self)@.bits.len() == rhs@.bits.len(),
            r is Ok ==> final(self)@ == (FourState {
                bits: bitwise_and(old(self)@.bits, rhs@.bits),
                signed: old(self)@.signed,
            }),
            r matches Err(e) ==> e is InvalidArgument && final(self)@ == old(self)@,
    {
        proof {
            use_type_invariant(&*self);
        }
        if self.bits.len() != rhs.bits.len() {
            return Err(invalid_argument("bit widths differ"));
        }
        let new_bits = combine(&self.bits, &rhs.bits, Logic2::And);
        proof {
            assert(new_bits@ =~= bitwise_and(self.bits@, rhs.bits@));
        }
        self.bits = new_bits;
        Ok(())
    }

    /// In-place bitwise OR `self |= rhs`, with the same width rule as
    /// [`and_assign`](Self::and_assign).
    pub fn or_assign(&mut self, rhs: &OwnedSVInt) -> (r: Result<(), Error>)
        ensures
            r is Ok <==> old(self)@.bits.len() == rhs@.bits.len(),
            r is Ok ==> final(self)@ == (FourState {
                bits: bitwise_or(old(self)@.bits, rhs@.bits),
                signed: old(self)@.signed,
            }),
            r matches Err(e) ==> e is InvalidArgument && final(self)@ == old(self)@,
    {
        proof {
            use_type_invariant(&*self);
        }
        if self.bits.len() != rhs.bits.len() {
            return Err(invalid_argument("bit widths differ"));
        }
        let new_bits = combine(&self.bits, &rhs.bits, Logic2::Or);
        proof {
            assert(new_bits@ =~= bitwise_or(self.bits@, rhs.bits@));
        }
        self.bits = new_bits;
        Ok(())
    }

    /// In-place bitwise XOR `self ^= rhs`, with the same width rule as
    /// [`and_assign`](Self::and_assign).
    pub fn xor_assign(&mut self, rhs: &OwnedSVInt) -> (r: Result<(), Error>)
        ensures
            r is Ok <==> old(self)@.bits.len() == rhs@.bits.len(),
            r is Ok ==> final(self)@ == (FourState {
                bits: bitwise_xor(old(self)@.bits, rhs@.bits),
                signed: old(self)@.signed,
            }),
            r matches Err(e) ==> e is InvalidArgument && final(self)@ == old(self)@,
    {
        proof {
            use_type_invariant(&*self);
        }
        if self.bits.len() != rhs.bits.len() {
            return Err(invalid_argument("bit widths differ"));
        }
        let new_bits = combine(&self.bits, &rhs.bits, Logic2::Xor);
        proof {
            assert(new_bits@ =~= bitwise_xor(self.bits@, rhs.bits@));
        }
        self.bits = new_bits;
        Ok(())
    }

    /// Replaces the bit range `[msb:lsb]` of `self` with `value`, in place;
    /// the width is unchanged and positions of the range that fall outside
    /// `self` are not written. Fails (`self` unchanged) with
    /// [`Error::InvalidArgument`] if `msb < lsb` or `value`'s width is not
    /// exactly `msb - lsb + 1`.
    pub fn set_range(&mut self, msb: i32, lsb: i32, value: &OwnedSVInt) -> (r: Result<(), Error>)
        ensures
            r is Ok <==> (lsb <= msb && value@.bits.len() == msb - lsb + 1),
            r is Ok ==> final(self)@ == (FourState {
                bits: with_range(old(self)@.bits, msb as int, lsb as int, value@.bits),
                signed: old(self)@.signed,
            }),
            r matches Err(e) ==> e is InvalidArgument && final(self)@ == old(self)@,
    {
        proof {
            use_type_invariant(&*self);
            use_type_invariant(value);
        }
        if msb < lsb {
            return Err(invalid_argument("msb is below lsb"));
        }
        let width: i64 = msb as i64 - lsb as i64 + 1;
        if value.bits.len() as i64 != width {
            return Err(invalid_argument("value width does not match the range"));
        }
        let ghost target = with_range(self.bits@, msb as int, lsb as int, value.bits@);
        let mut new_bits: Vec<Bit> = Vec::new();
        let mut j: usize = 0;
        while j < self.bits.len()
            invariant
                j <= self.bits.len(),
                self.bits.len() <= u32::MAX,
                value.bits.len() == msb - lsb + 1,
                lsb <= msb,
                target == with_range(self.bits@, msb as int, lsb as int, value.bits@),
                new_bits@.len() == j,
                forall|k: int| 0 <= k < j ==> new_bits@[k] == target[k],
            decreases self.bits.len() - j,
        {
            let pos = j as i64;
            if lsb as i64 <= pos && pos <= msb as i64 {
                new_bits.push(value.bits[(pos - lsb as i64) as usize]);
            } else {
                new_bits.push(self.bits[j]);
            }
            j = j + 1;
        }
        proof {
            assert(new_bits@ =~= target);
        }
        self.bits = new_bits;
        Ok(())
    }

    /// Sets every bit of `self` to `1`, in place (width and signedness unchanged).
    pub fn set_all_ones(&mut self)
        ensures
            final(self)@ == (FourState {
                bits: filled(old(self)@.bits.len(), Bit::One),
                signed: old(self)@.signed,
            }),
    {
        proof {
            use_type_invariant(&*self);
        }
        self.bits = fill(self.bits.len(), Bit::One);
    }

    /// Sets every bit of `self` to `0`, in place.
    pub fn set_all_zeros(&mut self)
        ensures
            final(self)@ == (FourState {
                bits: filled(old(self)@.bits.len(), Bit::Zero),
                signed: old(self)@.signed,
            }),
    {
        proof {
            use_type_invariant(&*self);
        }
        self.bits = fill(self.bits.len(), Bit::Zero);
    }

    /// Sets every bit of `self` to `x`, in place.
    pub fn set_all_x(&mut self)
        ensures
            final(self)@ == (FourState {
                bits: filled(old(self)@.bits.len(), Bit::X),
                signed: old(self)@.signed,
            }),
    {
        proof {
            use_type_invariant(&*self);
        }
        self.bits = fill(self.bits.len(), Bit::X);
    }

    /// Sets every bit of `self` to `z`, in place.
    pub fn set_all_z(&mut self)
        ensures
            final(self)@ == (FourState {
                bits: filled(old(self)@.bits.len(), Bit::Z),
                signed: old(self)@.signed,
            }),
    {
        proof {
            use_type_invariant(&*self);
        }
        self.bits = fill(self.bits.len(), Bit::Z);
    }

    /// Reinterprets `self` as signed or unsigned in place, without changing
    /// its bits or width.
    pub fn set_signed(&mut self, is_signed: bool)
        ensures
            final(self)@ == (FourState { bits: old(self)@.bits, signed: is_signed }),
    {
        proof {
            use_type_invariant(&*self);
        }
        self.is_signed = is_signed;
    }

    /// Replaces every unknown (x/z) bit of `self` with `0`, in place; the
    /// width is unchanged.
    pub fn flatten_unknowns(&mut self)
        ensures
            final(self)@ == (FourState {
                bits: flattened(old(self)@.bits),
                signed: old(self)@.signed,
            }),
    {
        proof {
            use_type_invariant(&*self);
        }
        let mut new_bits: Vec<Bit> = Vec::new();
        let mut i: usize = 0;
        while i < self.bits.len()
            invariant
                i <= self.bits.len(),
                new_bits@.len() == i,
                forall|k: int| 0 <= k < i ==> new_bits@[k] == flattened(self.bits@)[k],
            decreases self.bits.len() - i,
        {
            let b = self.bits[i];
            if b.is_unknown() {
                new_bits.push(Bit::Zero);
            } else {
                new_bits.push(b);
            }
            i = i + 1;
        }
        proof {
            assert(new_bits@ =~= flattened(self.bits@));
        }
        self.bits = new_bits;
    }

    /// Resizes `self` in place to the fewest bits that represent its value
    /// (see [`min_width`]), keeping the low bits; a value that is already
    /// minimal is unchanged.
    pub fn shrink_to_fit(&mut self)
        ensures
            final(self)@ == (FourState {
                bits: shrunk(old(self)@.bits, old(self)@.signed),
                signed: old(self)@.signed,
            }),
    {
        proof {
            use_type_invariant(&*self);
            lemma_leading_run_bound(self.bits@, Bit::One, Bit::One);
            lemma_leading_run_bound(self.bits@, Bit::Zero, Bit::Zero);
        }
        let n = self.bits.len();
        let negative = self.is_signed && self.bits[n - 1] == Bit::One;
        let w: u64 = if negative {
            n as u64 - leading_of(&self.bits, Bit::One, Bit::One) as u64 + 1
        } else if self.is_signed {
            n as u64 - leading_of(&self.bits, Bit::Zero, Bit::Zero) as u64 + 1
        } else {
            n as u64 - leading_of(&self.bits, Bit::Zero, Bit::Zero) as u64
        };
        let w: u64 = if w < 1 {
            1
        } else {
            w
        };
        proof {
            assert(w == min_width(self.bits@, self.is_signed));
        }
        if w < n as u64 {
            let w = w as usize;
            let mut new_bits: Vec<Bit> = Vec::new();
            let mut i: usize = 0;
            while i < w
                invariant
                    i <= w,
                    w < self.bits.len(),
                    new_bits@ == self.bits@.take(i as int),
                decreases w - i,
            {
                new_bits.push(self.bits[i]);
                i = i + 1;
                proof {
                    assert(new_bits@ =~= self.bits@.take(i as int));
                }
            }
            self.bits = new_bits;
        }
    }

    /// If bit `msb` of `self` is `1`, sets every bit above it to `1`, in
    /// place; otherwise `self` is unchanged. The width is unchanged. Fails
    /// with [`Error::InvalidArgument`] unless `msb` is strictly less than the
    /// width minus one.
    pub fn sign_extend_from(&mut self, msb: u32) -> (r: Result<(), Error>)
        ensures
            r is Ok <==> msb + 1 < old(self)@.bits.len(),
            r is Ok ==> final(self)@ == (FourState {
                bits: sign_extended_from(old(self)@.bits, msb as int),
                signed: old(self)@.signed,
            }),
            r matches Err(e) ==> e is InvalidArgument && final(self)@ == old(self)@,
    {
        proof {
            use_type_invariant(&*self);
        }
        if msb as u64 + 1 >= self.bits.len() as u64 {
            return Err(invalid_argument("msb must be below the top bit"));
        }
        let m = msb as usize;
        if self.bits[m] == Bit::One {
            let mut new_bits: Vec<Bit> = Vec::new();
            let mut i: usize = 0;
            while i < self.bits.len()
                invariant
                    i <= self.bits.len(),
                    m < self.bits.len(),
                    self.bits@[m as int] == Bit::One,
                    new_bits@.len() == i,
                    forall|k: int|
                        0 <= k < i ==> new_bits@[k] == sign_extended_from(self.bits@, m as int)[k],
                decreases self.bits.len() - i,
            {
                if i > m {
                    new_bits.push(Bit::One);
                } else {
                    new_bits.push(self.bits[i]);
                }
                i = i + 1;
            }
            proof {
                assert(new_bits@ =~= sign_extended_from(self.bits@, m as int));
            }
            self.bits = new_bits;
        }
        Ok(())
    }

    /// A new all-`x` value of the given width. Fails with
    /// [`Error::InvalidArgument`] if `bits` is 0.
    pub fn create_fill_x(bits: u32, is_signed: bool) -> (r: Result<OwnedSVInt, Error>)
        ensures
            r is Ok <==> bits > 0,
            r matches Ok(v) ==> v@ == (FourState { bits: filled(bits as nat, Bit::X), signed: is_signed }),
            r matches Err(e) ==> e is InvalidArgument,
    {
        if bits == 0 {
            return Err(invalid_argument("bit width must be nonzero"));
        }
        Ok(OwnedSVInt { bits: fill(bits as usize, Bit::X), is_signed })
    }

    /// A new all-`z` value of the given width. Fails with
    /// [`Error::InvalidArgument`] if `bits` is 0.
    pub fn create_fill_z(bits: u32, is_signed: bool) -> (r: Result<OwnedSVInt, Error>)
        ensures
            r is Ok <==> bits > 0,
            r matches Ok(v) ==> v@ == (FourState { bits: filled(bits as nat, Bit::Z), signed: is_signed }),
            r matches Err(e) ==> e is InvalidArgument,
    {
        if bits == 0 {
            return Err(invalid_argument("bit width must be nonzero"));
        }
        Ok(OwnedSVInt { bits: fill(bits as usize, Bit::Z), is_signed })
    }

    /// Builds a value from the digits of a number literal (most significant
    /// digit first, e.g. the digits of `12'hFF`) in the given base. A value
    /// too wide for `bits` is truncated from the left, as SystemVerilog
    /// truncates sized literals; see [`literal_spells`]. The digits
    /// themselves decide which are `x`/`z`, whatever `any_unknown` says.
    /// Fails with [`Error::InvalidArgument`] if `bits` is 0, `digits` is
    /// empty, a digit is too large for `base`, or a decimal literal mixes an
    /// `x`/`z` digit with other digits.
    pub fn from_digits(
        bits: u32,
        base: LiteralBase,
        is_signed: bool,
        any_unknown: bool,
        digits: &[Digit],
    ) -> (r: Result<OwnedSVInt, Error>)
        ensures
            r is Ok <==> (bits > 0 && digits@.len() > 0 && digits_fit(digits@, base)
                && !mixed_decimal(base, digits@)),
            r matches Ok(v) ==> v@.signed == is_signed && literal_spells(
                bits as nat,
                base,
                digits@,
                v@.bits,
            ),
            r matches Err(e) ==> e is InvalidArgument,
    {
        let _ = any_unknown;
        match literal_bits(bits, base, digits) {
            Ok(v) => Ok(OwnedSVInt { bits: v, is_signed }),
            Err(e) => Err(e),
        }
    }

    /// Evaluates `condition ? lhs : rhs` over four-state values: `lhs` if the
    /// condition has a definite `1` bit, `rhs` if it is definitely all `0`,
    /// otherwise the bitwise merge (a bit both sides agree on and that is
    /// known, `x` elsewhere). Both sides are first widened to the wider width,
    /// by sign only when both are signed; the result is signed when both are.
    pub fn conditional(condition: &OwnedSVInt, lhs: &OwnedSVInt, rhs: &OwnedSVInt) -> (r: Result<
        OwnedSVInt,
        Error,
    >)
        ensures
            r matches Ok(v) && v@ == (FourState {
                bits: conditional_bits(
                    condition@.bits,
                    lhs@.bits,
                    lhs@.signed,
                    rhs@.bits,
                    rhs@.signed,
                ),
                signed: lhs@.signed && rhs@.signed,
            }),
    {
        proof {
            use_type_invariant(lhs);
            use_type_invariant(rhs);
        }
        let w = if lhs.bits.len() >= rhs.bits.len() {
            lhs.bits.len()
        } else {
            rhs.bits.len()
        };
        let both = lhs.is_signed && rhs.is_signed;
        let l = extend_to(&lhs.bits, w, both);
        let rr = extend_to(&rhs.bits, w, both);
        let bits = if contains_bit(&condition.bits, Bit::One) {
            l
        } else if all_zero(&condition.bits) {
            rr
        } else {
            let mut m: Vec<Bit> = Vec::new();
            let mut i: usize = 0;
            while i < w
                invariant
                    i <= w,
                    l@.len() == w,
                    rr@.len() == w,
                    m@.len() == i,
                    forall|k: int| 0 <= k < i ==> m@[k] == merged(l@, rr@)[k],
                decreases w - i,
            {
                let a = l[i];
                if a == rr[i] && !a.is_unknown() {
                    m.push(a);
                } else {
                    m.push(Bit::X);
                }
                i = i + 1;
            }
            proof {
                assert(m@ =~= merged(l@, rr@));
            }
            m
        };
        Ok(OwnedSVInt { bits, is_signed: both })
    }
}

/// The bits of each operand, in order.
pub open spec fn operand_bits(ops: Seq<&OwnedSVInt>) -> Seq<Seq<Bit>> {
    Seq::new(ops.len(), |i: int| ops[i]@.bits)
}

/// A suffix of the operands never concatenates to more bits than all of
/// them.
pub proof fn lemma_concat_suffix_len(ops: Seq<Seq<Bit>>, i: int)
    requires
        0 <= i <= ops.len(),
    ensures
        concatenated(ops.subrange(i, ops.len() as int)).len() <= concatenated(ops).len(),
    decreases i,
{
    if i == 0 {
        assert(ops.subrange(0, ops.len() as int) =~= ops);
    } else {
        let a = ops.subrange(i - 1, ops.len() as int);
        assert(a.drop_first() =~= ops.subrange(i, ops.len() as int));
        lemma_concat_suffix_len(ops, i - 1);
    }
}

impl OwnedSVInt {
    /// Concatenates `operands` into a new unsigned value, `operands[0]`
    /// supplying the most significant bits. An empty slice yields a 1-bit
    /// zero. Fails with [`Error::InvalidArgument`] when the result would be
    /// wider than `u32::MAX` bits.
    pub fn concat(operands: &[&OwnedSVInt]) -> (r: Result<OwnedSVInt, Error>)
        ensures
            r is Ok <==> concatenated(operand_bits(operands@)).len() <= u32::MAX,
            r matches Ok(v) ==> v@ == (FourState {
                bits: if operands@.len() == 0 {
                    filled(1, Bit::Zero)
                } else {
                    concatenated(operand_bits(operands@))
                },
                signed: false,
            }),
            r matches Err(e) ==> e is InvalidArgument,
    {
        if operands.len() == 0 {
            return Ok(OwnedSVInt { bits: fill(1, Bit::Zero), is_signed: false });
        }
        let ghost ops = operand_bits(operands@);
        let mut bits: Vec<Bit> = Vec::new();
        let mut i: usize = operands.len();
        proof {
            assert(ops.subrange(i as int, ops.len() as int) =~= Seq::<Seq<Bit>>::empty());
        }
        while i > 0
            invariant
                i <= operands.len(),
                ops == operand_bits(operands@),
                ops.len() == operands@.len(),
                bits@ == concatenated(ops.subrange(i as int, ops.len() as int)),
                bits@.len() <= u32::MAX,
                i < operands.len() ==> bits@.len() >= 1,
            decreases i,
        {
            i = i - 1;
            let op = operands[i];
            proof {
                use_type_invariant(op);
                assert(ops.subrange(i as int, ops.len() as int).drop_first() =~= ops.subrange(
                    i + 1,
                    ops.len() as int,
                ));
                assert(ops[i as int] == op@.bits);
            }
            if op.bits.len() > u32::MAX as usize - bits.len() {
                proof {
                    lemma_concat_suffix_len(ops, i as int);
                }
                return Err(invalid_argument("the concatenation is wider than u32::MAX bits"));
            }
            let mut k: usize = 0;
            let ghost before = bits@;
            while k < op.bits.len()
                invariant
                    k <= op.bits.len(),
                    bits@ == before + op.bits@.take(k as int),
                decreases op.bits.len() - k,
            {
                bits.push(op.bits[k]);
                k = k + 1;
                proof {
                    assert(bits@ =~= before + op.bits@.take(k as int));
                }
            }
            proof {
                assert(op.bits@.take(op.bits.len() as int) =~= op.bits@);
            }
        }
        proof {
            assert(ops.subrange(0, ops.len() as int) =~= ops);
        }
        Ok(OwnedSVInt { bits, is_signed: false })
    }
}

} // verus!
