//! `SVInt`: an immutable snapshot of a four-state integer, with every
//! derived quantity (counts, truthiness, `i64`/`u64` readings) computed once.
use vstd::prelude::*;
use vstd::std_specs::convert::TryFromSpecImpl;
use crate::bit::{Bit, spec_is_unknown};
use crate::value::{
    bit_weight, count_bit, flipped, has_bit, has_unknown, int_value, is_known, leading_run,
    lemma_count_step, lemma_negative_value, lemma_value_step, spec_as_i64, spec_as_u64,
    spec_is_false, spec_is_true, unsigned_value, valid_width, lemma_leading_run_bound,
};

verus! {

/// Widths above this are not expanded bit by bit in [`SVInt::bits`].
pub const MAX_BITS: u32 = 1024;

/// The abstract value of a four-state integer: its bits, least-significant
/// first, and whether they are read as two's complement.
pub struct FourState {
    pub bits: Seq<Bit>,
    pub signed: bool,
}

/// The per-bit expansion an [`SVInt`] offers: all bits up to
/// [`MAX_BITS`] wide, none beyond.
pub open spec fn expanded(s: Seq<Bit>) -> Seq<Bit> {
    if s.len() <= MAX_BITS {
        s
    } else {
        Seq::empty()
    }
}

/// A copy of `v`, element by element.
pub fn copy_bits(v: &Vec<Bit>) -> (r: Vec<Bit>)
    ensures
        r@ == v@,
{
    let mut r: Vec<Bit> = Vec::new();
    let mut i: usize = 0;
    while i < v.len()
        invariant
            i <= v.len(),
            r@ == v@.take(i as int),
        decreases v.len() - i,
    {
        r.push(v[i]);
        i = i + 1;
        proof {
            assert(r@ =~= v@.take(i as int));
        }
    }
    proof {
        assert(v@.take(v.len() as int) =~= v@);
    }
    r
}

/// The number of bits of `bits` equal to `b`.
pub fn count_of(bits: &Vec<Bit>, b: Bit) -> (n: u32)
    requires
        bits.len() <= u32::MAX,
    ensures
        n == count_bit(bits@, b),
{
    let mut n: u32 = 0;
    let mut i: usize = 0;
    while i < bits.len()
        invariant
            i <= bits.len(),
            bits.len() <= u32::MAX,
            n == count_bit(bits@.take(i as int), b),
            n <= i,
        decreases bits.len() - i,
    {
        proof {
            lemma_count_step(bits@, i as int, b);
        }
        if bits[i] == b {
            n = n + 1;
        }
        i = i + 1;
    }
    proof {
        assert(bits@.take(bits.len() as int) =~= bits@);
    }
    n
}

/// The length of the run of bits equal to `a` or `b` at the most
/// significant end of `bits`.
pub fn leading_of(bits: &Vec<Bit>, a: Bit, b: Bit) -> (n: u32)
    requires
        bits.len() <= u32::MAX,
    ensures
        n == leading_run(bits@, a, b),
{
    let mut i: usize = bits.len();
    proof {
        assert(bits@.take(bits.len() as int) =~= bits@);
    }
    while i > 0 && (bits[i - 1] == a || bits[i - 1] == b)
        invariant
            i <= bits.len(),
            bits.len() <= u32::MAX,
            leading_run(bits@, a, b) == (bits.len() - i) + leading_run(bits@.take(i as int), a, b),
        decreases i,
    {
        proof {
            assert(bits@.take(i as int).drop_last() =~= bits@.take(i - 1));
        }
        i = i - 1;
    }
    ((bits.len() - i) as u32)
}

/// True when some bit of `bits` equals `b`.
pub fn contains_bit(bits: &Vec<Bit>, b: Bit) -> (r: bool)
    ensures
        r == has_bit(bits@, b),
{
    let mut i: usize = 0;
    while i < bits.len()
        invariant
            i <= bits.len(),
            forall|j: int| 0 <= j < i ==> bits@[j] != b,
        decreases bits.len() - i,
    {
        if bits[i] == b {
            return true;
        }
        i = i + 1;
    }
    false
}

/// True when some bit of `bits` is `X` or `Z`.
pub fn any_unknown(bits: &Vec<Bit>) -> (r: bool)
    ensures
        r == has_unknown(bits@),
{
    let mut i: usize = 0;
    while i < bits.len()
        invariant
            i <= bits.len(),
            forall|j: int| 0 <= j < i ==> !spec_is_unknown(#[trigger] bits@[j]),
        decreases bits.len() - i,
    {
        if bits[i].is_unknown() {
            return true;
        }
        i = i + 1;
    }
    false
}

/// True when every bit of `bits` is `Zero`.
pub fn all_zero(bits: &Vec<Bit>) -> (r: bool)
    ensures
        r == spec_is_false(bits@),
{
    let mut i: usize = 0;
    while i < bits.len()
        invariant
            i <= bits.len(),
            forall|j: int| 0 <= j < i ==> bits@[j] == Bit::Zero,
        decreases bits.len() - i,
    {
        if bits[i] != Bit::Zero {
            return false;
        }
        i = i + 1;
    }
    true
}

/// The unsigned value of `bits` (of its flipped bits when `flip`), or
/// `None` when that value exceeds `cap`.
pub fn value_up_to(bits: &Vec<Bit>, flip: bool, cap: u64) -> (r: Option<u64>)
    ensures
        ({
            let s = if flip {
                flipped(bits@)
            } else {
                bits@
            };
            match r {
                Some(v) => v == unsigned_value(s) && v <= cap,
                None => unsigned_value(s) > cap,
            }
        }),
{
    let ghost s = if flip {
        flipped(bits@)
    } else {
        bits@
    };
    let mut acc: u64 = 0;
    let mut over = false;
    let mut i: usize = bits.len();
    proof {
        assert(s.subrange(s.len() as int, s.len() as int) =~= Seq::<Bit>::empty());
    }
    while i > 0
        invariant
            i <= bits.len(),
            s.len() == bits.len(),
            s == (if flip {
                flipped(bits@)
            } else {
                bits@
            }),
            !over ==> acc == unsigned_value(s.subrange(i as int, s.len() as int)) && acc <= cap,
            over ==> unsigned_value(s.subrange(i as int, s.len() as int)) > cap,
        decreases i,
    {
        i = i - 1;
        let w: u64 = if flip {
            match bits[i] {
                Bit::Zero => 1,
                _ => 0,
            }
        } else {
            match bits[i] {
                Bit::One => 1,
                _ => 0,
            }
        };
        proof {
            lemma_value_step(s, i as int);
            assert(w == bit_weight(s[i as int]));
        }
        if !over {
            if w > cap || acc > (cap - w) / 2 {
                over = true;
            } else {
                acc = 2 * acc + w;
            }
        }
    }
    proof {
        assert(s.subrange(0, s.len() as int) =~= s);
    }
    if over {
        None
    } else {
        Some(acc)
    }
}

/// The value of `bits` as a `u64`, exactly as [`spec_as_u64`] reads it.
pub fn value_as_u64(bits: &Vec<Bit>, signed: bool) -> (r: Option<u64>)
    ensures
        r == spec_as_u64(bits@, signed),
{
    if any_unknown(bits) {
        return None;
    }
    if signed && bits.len() > 0 && bits[bits.len() - 1] == Bit::One {
        return None;
    }
    value_up_to(bits, false, u64::MAX)
}

/// The value of `bits` as an `i64`, exactly as [`spec_as_i64`] reads it.
pub fn value_as_i64(bits: &Vec<Bit>, signed: bool) -> (r: Option<i64>)
    ensures
        r == spec_as_i64(bits@, signed),
{
    if any_unknown(bits) {
        return None;
    }
    if signed && bits.len() > 0 && bits[bits.len() - 1] == Bit::One {
        proof {
            lemma_negative_value(bits@, signed);
        }
        match value_up_to(bits, true, 0x7fff_ffff_ffff_ffffu64) {
            Some(w) => Some(-(w as i64) - 1),
            None => None,
        }
    } else {
        match value_up_to(bits, false, 0x7fff_ffff_ffff_ffffu64) {
            Some(v) => Some(v as i64),
            None => None,
        }
    }
}

/// An arbitrary-width, four-state SystemVerilog integer: an immutable
/// snapshot holding the value together with every quantity derived from it.
#[derive(Debug, PartialEq, Eq)]
pub struct SVInt {
    bit_width: u32,
    is_signed: bool,
    has_unknown: bool,
    as_i64: Option<i64>,
    as_u64: Option<u64>,
    /// Per-bit values, LSB-first, for widths up to [`MAX_BITS`]; empty above.
    bits: Vec<Bit>,
    /// The whole value, LSB-first.
    value: Vec<Bit>,
    is_true: bool,
    is_false: bool,
    leading_ones: u32,
    leading_zeros: u32,
    leading_unknowns: u32,
    leading_zs: u32,
    ones: u32,
    zeros: u32,
    xs: u32,
    zs: u32,
    active_bits: u32,
}

impl View for SVInt {
    type V = FourState;

    closed spec fn view(&self) -> FourState {
        FourState { bits: self.value@, signed: self.is_signed }
    }
}

impl SVInt {
    #[verifier::type_invariant]
    closed spec fn wf(self) -> bool {
        let s = self.value@;
        &&& valid_width(s.len() as int)
        &&& self.bit_width == s.len()
        &&& self.has_unknown == has_unknown(s)
        &&& self.as_i64 == spec_as_i64(s, self.is_signed)
        &&& self.as_u64 == spec_as_u64(s, self.is_signed)
        &&& self.bits@ == expanded(s)
        &&& self.is_true == spec_is_true(s)
        &&& self.is_false == spec_is_false(s)
        &&& self.leading_ones == leading_run(s, Bit::One, Bit::One)
        &&& self.leading_zeros == leading_run(s, Bit::Zero, Bit::Zero)
        &&& self.leading_unknowns == leading_run(s, Bit::X, Bit::Z)
        &&& self.leading_zs == leading_run(s, Bit::Z, Bit::Z)
        &&& self.ones == count_bit(s, Bit::One)
        &&& self.zeros == count_bit(s, Bit::Zero)
        &&& self.xs == count_bit(s, Bit::X)
        &&& self.zs == count_bit(s, Bit::Z)
        &&& self.active_bits == s.len() - leading_run(s, Bit::Zero, Bit::Zero)
    }

    /// Builds the snapshot of `value` (LSB-first), computing every derived
    /// quantity.
    pub fn from_value(value: &Vec<Bit>, is_signed: bool) -> (r: SVInt)
        requires
            valid_width(value.len() as int),
        ensures
            r@ == (FourState { bits: value@, signed: is_signed }),
    {
        let leading_zeros = leading_of(value, Bit::Zero, Bit::Zero);
        proof {
            lemma_leading_run_bound(value@, Bit::Zero, Bit::Zero);
        }
        let bits = if value.len() <= MAX_BITS as usize {
            copy_bits(value)
        } else {
            Vec::new()
        };
        let is_true = contains_bit(value, Bit::One);
        SVInt {
            bit_width: value.len() as u32,
            is_signed,
            has_unknown: any_unknown(value),
            as_i64: value_as_i64(value, is_signed),
            as_u64: value_as_u64(value, is_signed),
            bits,
            value: copy_bits(value),
            is_true,
            is_false: all_zero(value),
            leading_ones: leading_of(value, Bit::One, Bit::One),
            leading_zeros,
            leading_unknowns: leading_of(value, Bit::X, Bit::Z),
            leading_zs: leading_of(value, Bit::Z, Bit::Z),
            ones: count_of(value, Bit::One),
            zeros: count_of(value, Bit::Zero),
            xs: count_of(value, Bit::X),
            zs: count_of(value, Bit::Z),
            active_bits: value.len() as u32 - leading_zeros,
        }
    }

    /// The declared bit width.
    pub fn bit_width(&self) -> (r: u32)
        ensures
            r == self@.bits.len(),
            valid_width(r as int),
    {
        proof {
            use_type_invariant(self);
        }
        self.bit_width
    }

    /// Whether it is signed.
    pub fn is_signed(&self) -> (r: bool)
        ensures
            r == self@.signed,
    {
        self.is_signed
    }

    /// Whether it contains any unknown (x/z) bits.
    pub fn has_unknown(&self) -> (r: bool)
        ensures
            r == has_unknown(self@.bits),
    {
        proof {
            use_type_invariant(self);
        }
        self.has_unknown
    }

    /// The value as an `i64`, or `None` if it has unknown bits or does not fit.
    pub fn as_i64(&self) -> (r: Option<i64>)
        ensures
            r == spec_as_i64(self@.bits, self@.signed),
    {
        proof {
            use_type_invariant(self);
        }
        self.as_i64
    }

    /// The value as a `u64`, or `None` if it has unknown bits, is negative,
    /// or does not fit.
    pub fn as_u64(&self) -> (r: Option<u64>)
        ensures
            r == spec_as_u64(self@.bits, self@.signed),
    {
        proof {
            use_type_invariant(self);
        }
        self.as_u64
    }

    /// The i'th bit (LSB = 0), or `None` if out of range or not expanded.
    pub fn bit(&self, index: usize) -> (r: Option<Bit>)
        ensures
            r == (if index < expanded(self@.bits).len() {
                Some(self@.bits[index as int])
            } else {
                None
            }),
    {
        proof {
            use_type_invariant(self);
        }
        if index < self.bits.len() {
            Some(self.bits[index])
        } else {
            None
        }
    }

    /// The expanded per-bit values, LSB-first (empty for values wider than
    /// [`MAX_BITS`]).
    pub fn bits(&self) -> (r: &[Bit])
        ensures
            r@ == expanded(self@.bits),
    {
        proof {
            use_type_invariant(self);
        }
        self.bits.as_slice()
    }

    /// SystemVerilog condition-truthiness: true iff at least one bit is
    /// definitely 1 (unaffected by x/z bits elsewhere).
    pub fn is_true(&self) -> (r: bool)
        ensures
            r == spec_is_true(self@.bits),
    {
        proof {
            use_type_invariant(self);
        }
        self.is_true
    }

    /// True iff this value is definitely all-zero (no x/z anywhere).
    pub fn is_false(&self) -> (r: bool)
        ensures
            r == spec_is_false(self@.bits),
    {
        proof {
            use_type_invariant(self);
        }
        self.is_false
    }

    /// The number of leading (MSB-side) `1` bits.
    pub fn count_leading_ones(&self) -> (r: u32)
        ensures
            r == leading_run(self@.bits, Bit::One, Bit::One),
    {
        proof {
            use_type_invariant(self);
        }
        self.leading_ones
    }

    /// The number of leading (MSB-side) `0` bits.
    pub fn count_leading_zeros(&self) -> (r: u32)
        ensures
            r == leading_run(self@.bits, Bit::Zero, Bit::Zero),
    {
        proof {
            use_type_invariant(self);
        }
        self.leading_zeros
    }

    /// The number of leading (MSB-side) unknown (x or z) bits.
    pub fn count_leading_unknowns(&self) -> (r: u32)
        ensures
            r == leading_run(self@.bits, Bit::X, Bit::Z),
    {
        proof {
            use_type_invariant(self);
        }
        self.leading_unknowns
    }

    /// The number of leading (MSB-side) z bits.
    pub fn count_leading_zs(&self) -> (r: u32)
        ensures
            r == leading_run(self@.bits, Bit::Z, Bit::Z),
    {
        proof {
            use_type_invariant(self);
        }
        self.leading_zs
    }

    /// The total number of 1 bits.
    pub fn count_ones(&self) -> (r: u32)
        ensures
            r == count_bit(self@.bits, Bit::One),
    {
        proof {
            use_type_invariant(self);
        }
        self.ones
    }

    /// The total number of 0 bits.
    pub fn count_zeros(&self) -> (r: u32)
        ensures
            r == count_bit(self@.bits, Bit::Zero),
    {
        proof {
            use_type_invariant(self);
        }
        self.zeros
    }

    /// The total number of x bits.
    pub fn count_xs(&self) -> (r: u32)
        ensures
            r == count_bit(self@.bits, Bit::X),
    {
        proof {
            use_type_invariant(self);
        }
        self.xs
    }

    /// The total number of z bits.
    pub fn count_zs(&self) -> (r: u32)
        ensures
            r == count_bit(self@.bits, Bit::Z),
    {
        proof {
            use_type_invariant(self);
        }
        self.zs
    }

    /// The number of "active bits": the bit width minus the number of
    /// leading zeros, the minimum width that holds the value ignoring sign
    /// and unknown bits.
    pub fn active_bits(&self) -> (r: u32)
        ensures
            r == self@.bits.len() - leading_run(self@.bits, Bit::Zero, Bit::Zero),
    {
        proof {
            use_type_invariant(self);
        }
        self.active_bits
    }
}

impl Clone for SVInt {
    /// An equal copy of the snapshot.
    fn clone(&self) -> (r: SVInt)
        ensures
            r@ == self@,
    {
        proof {
            use_type_invariant(self);
        }
        SVInt {
            bit_width: self.bit_width,
            is_signed: self.is_signed,
            has_unknown: self.has_unknown,
            as_i64: self.as_i64,
            as_u64: self.as_u64,
            bits: copy_bits(&self.bits),
            value: copy_bits(&self.value),
            is_true: self.is_true,
            is_false: self.is_false,
            leading_ones: self.leading_ones,
            leading_zeros: self.leading_zeros,
            leading_unknowns: self.leading_unknowns,
            leading_zs: self.leading_zs,
            ones: self.ones,
            zeros: self.zeros,
            xs: self.xs,
            zs: self.zs,
            active_bits: self.active_bits,
        }
    }
}

impl<'a> TryFrom<&'a SVInt> for i64 {
    type Error = ();

    /// The value as an `i64`; `Err(())` when it has unknown bits or does
    /// not fit.
    fn try_from(v: &'a SVInt) -> (r: Result<i64, ()>)
        ensures
            r == (match spec_as_i64(v@.bits, v@.signed) {
                Some(x) => Ok(x),
                None => Err(()),
            }),
    {
        match v.as_i64() {
            Some(x) => Ok(x),
            None => Err(()),
        }
    }
}

impl<'a> TryFromSpecImpl<&'a SVInt> for i64 {
    open spec fn obeys_try_from_spec() -> bool {
        true
    }

    open spec fn try_from_spec(v: &'a SVInt) -> Result<i64, ()> {
        match spec_as_i64(v@.bits, v@.signed) {
            Some(x) => Ok(x),
            None => Err(()),
        }
    }
}

} // verus!
