//! The mathematical model of a four-state integer: a sequence of bits,
//! least-significant first, read as an unsigned or two's-complement number.
use vstd::prelude::*;
use crate::bit::{Bit, spec_is_unknown, spec_bit_not, spec_bit_and, spec_bit_or, spec_bit_xor};

verus! {

/// The widest value a four-state integer may have: its width is a `u32`.
pub open spec fn valid_width(n: int) -> bool {
    1 <= n <= u32::MAX
}

/// `2` raised to `n`.
pub open spec fn two_pow(n: nat) -> nat
    decreases n,
{
    if n == 0 {
        1
    } else {
        2 * two_pow((n - 1) as nat)
    }
}

/// The numeric weight of one bit: `1` for `One`, `0` otherwise.
pub open spec fn bit_weight(b: Bit) -> nat {
    if b == Bit::One {
        1
    } else {
        0
    }
}

/// The unsigned value of the known bits of `s` (least-significant first);
/// `X` and `Z` contribute nothing.
pub open spec fn unsigned_value(s: Seq<Bit>) -> nat
    decreases s.len(),
{
    if s.len() == 0 {
        0
    } else {
        bit_weight(s[0]) + 2 * unsigned_value(s.drop_first())
    }
}

/// True when no bit of `s` is `X` or `Z`.
pub open spec fn is_known(s: Seq<Bit>) -> bool {
    forall|i: int| 0 <= i < s.len() ==> !spec_is_unknown(#[trigger] s[i])
}

/// True when `s`, read as signed, is negative: its most significant bit is `1`.
pub open spec fn is_negative(s: Seq<Bit>, signed: bool) -> bool {
    signed && s.len() > 0 && s.last() == Bit::One
}

/// The integer `s` denotes: unsigned, or two's complement when `signed`.
pub open spec fn int_value(s: Seq<Bit>, signed: bool) -> int {
    if is_negative(s, signed) {
        unsigned_value(s) - two_pow(s.len())
    } else {
        unsigned_value(s) as int
    }
}

/// Every bit of `s` inverted (`X`/`Z` become `X`).
pub open spec fn flipped(s: Seq<Bit>) -> Seq<Bit> {
    Seq::new(s.len(), |i: int| spec_bit_not(s[i]))
}

/// The number of positions of `s` holding `b`.
pub open spec fn count_bit(s: Seq<Bit>, b: Bit) -> nat
    decreases s.len(),
{
    if s.len() == 0 {
        0
    } else {
        count_bit(s.drop_last(), b) + (if s.last() == b {
            1nat
        } else {
            0nat
        })
    }
}

/// The length of the run of bits equal to `a` or `b` at the most
/// significant end of `s`.
pub open spec fn leading_run(s: Seq<Bit>, a: Bit, b: Bit) -> nat
    decreases s.len(),
{
    if s.len() == 0 {
        0
    } else if s.last() == a || s.last() == b {
        1 + leading_run(s.drop_last(), a, b)
    } else {
        0
    }
}

/// True when some bit of `s` is `b`.
pub open spec fn has_bit(s: Seq<Bit>, b: Bit) -> bool {
    exists|i: int| 0 <= i < s.len() && s[i] == b
}

/// True when some bit of `s` is `X` or `Z`.
pub open spec fn has_unknown(s: Seq<Bit>) -> bool {
    !is_known(s)
}

/// SystemVerilog truthiness: some bit is definitely `1`.
pub open spec fn spec_is_true(s: Seq<Bit>) -> bool {
    has_bit(s, Bit::One)
}

/// SystemVerilog falsiness: every bit is definitely `0`.
pub open spec fn spec_is_false(s: Seq<Bit>) -> bool {
    forall|i: int| 0 <= i < s.len() ==> s[i] == Bit::Zero
}

/// The value as a `u64`: `None` with unknown bits, a negative signed value,
/// or a value above `u64::MAX`.
pub open spec fn spec_as_u64(s: Seq<Bit>, signed: bool) -> Option<u64> {
    if !is_known(s) || is_negative(s, signed) {
        None
    } else if unsigned_value(s) <= u64::MAX {
        Some(unsigned_value(s) as u64)
    } else {
        None
    }
}

/// The value as an `i64`: `None` with unknown bits or a value outside the
/// range of `i64`.
pub open spec fn spec_as_i64(s: Seq<Bit>, signed: bool) -> Option<i64> {
    if !is_known(s) {
        None
    } else if i64::MIN <= int_value(s, signed) <= i64::MAX {
        Some(int_value(s, signed) as i64)
    } else {
        None
    }
}

/// The value of a sub-range read from the top: the lowest bit plus twice the rest.
pub proof fn lemma_value_step(s: Seq<Bit>, i: int)
    requires
        0 <= i < s.len(),
    ensures
        unsigned_value(s.subrange(i, s.len() as int)) == bit_weight(s[i]) + 2 * unsigned_value(
            s.subrange(i + 1, s.len() as int),
        ),
{
    let t = s.subrange(i, s.len() as int);
    assert(t.drop_first() =~= s.subrange(i + 1, s.len() as int));
}

/// Flipping every known bit and adding one gives the complement to `2^n`.
pub proof fn lemma_value_plus_flipped(s: Seq<Bit>)
    requires
        is_known(s),
    ensures
        unsigned_value(s) + unsigned_value(flipped(s)) + 1 == two_pow(s.len()),
    decreases s.len(),
{
    if s.len() > 0 {
        let r = s.drop_first();
        assert(flipped(s).drop_first() =~= flipped(r));
        assert(is_known(r)) by {
            assert forall|i: int| 0 <= i < r.len() implies !spec_is_unknown(#[trigger] r[i]) by {
                assert(r[i] == s[i + 1]);
            }
        }
        lemma_value_plus_flipped(r);
        assert(!spec_is_unknown(s[0]));
        assert(flipped(s)[0] == spec_bit_not(s[0]));
    }
}

/// A known bit sequence is determined by its value and sign: the value of
/// the flipped sequence of a negative one is `-(v + 1)`.
pub proof fn lemma_negative_value(s: Seq<Bit>, signed: bool)
    requires
        is_known(s),
        is_negative(s, signed),
    ensures
        int_value(s, signed) == -(unsigned_value(flipped(s)) + 1),
{
    lemma_value_plus_flipped(s);
}

/// Counting one step further from the least-significant end.
pub proof fn lemma_count_step(s: Seq<Bit>, i: int, b: Bit)
    requires
        0 <= i < s.len(),
    ensures
        count_bit(s.take(i + 1), b) == count_bit(s.take(i), b) + (if s[i] == b {
            1nat
        } else {
            0nat
        }),
{
    assert(s.take(i + 1).drop_last() =~= s.take(i));
}

/// The counts of the four bit values add up to the width.
pub proof fn lemma_counts_partition(s: Seq<Bit>)
    ensures
        count_bit(s, Bit::Zero) + count_bit(s, Bit::One) + count_bit(s, Bit::X) + count_bit(
            s,
            Bit::Z,
        ) == s.len(),
    decreases s.len(),
{
    if s.len() > 0 {
        lemma_counts_partition(s.drop_last());
    }
}

/// A leading run is never longer than the sequence.
pub proof fn lemma_leading_run_bound(s: Seq<Bit>, a: Bit, b: Bit)
    ensures
        leading_run(s, a, b) <= s.len(),
    decreases s.len(),
{
    if s.len() > 0 {
        lemma_leading_run_bound(s.drop_last(), a, b);
    }
}

/// The value of a concatenation: the low part plus the high part shifted
/// past it.
pub proof fn lemma_value_concat(a: Seq<Bit>, b: Seq<Bit>)
    ensures
        unsigned_value(a + b) == unsigned_value(a) + two_pow(a.len()) * unsigned_value(b),
    decreases a.len(),
{
    if a.len() == 0 {
        assert(a + b =~= b);
        assert(two_pow(a.len()) == 1);
        assert(unsigned_value(a) == 0);
    } else {
        let r = a.drop_first();
        assert((a + b).drop_first() =~= r + b);
        assert((a + b)[0] == a[0]);
        lemma_value_concat(r, b);
        let p = two_pow(r.len());
        let u = unsigned_value(b);
        assert(unsigned_value(a + b) == bit_weight(a[0]) + 2 * unsigned_value(r + b));
        assert(unsigned_value(a) == bit_weight(a[0]) + 2 * unsigned_value(r));
        assert(two_pow(a.len()) == 2 * p);
        assert(2 * (p * u) == (2 * p) * u) by (nonlinear_arith);
    }
}

/// Extending a prefix by one more bit adds that bit's weight.
pub proof fn lemma_value_prefix_step(s: Seq<Bit>, i: int)
    requires
        0 <= i < s.len(),
    ensures
        unsigned_value(s.take(i + 1)) == unsigned_value(s.take(i)) + two_pow(i as nat)
            * bit_weight(s[i]),
{
    let one = seq![s[i]];
    assert(s.take(i + 1) =~= s.take(i) + one);
    lemma_value_concat(s.take(i), one);
    assert(one.drop_first() =~= Seq::<Bit>::empty());
    assert(unsigned_value(one.drop_first()) == 0);
    assert(unsigned_value(one) == bit_weight(s[i]));
}

/// An `n`-bit value is below `2^n`.
pub proof fn lemma_value_bound(s: Seq<Bit>)
    ensures
        unsigned_value(s) < two_pow(s.len()),
    decreases s.len(),
{
    if s.len() > 0 {
        lemma_value_bound(s.drop_first());
    }
}

/// Appending one bit at the most significant end adds its weight.
pub proof fn lemma_value_push(s: Seq<Bit>, b: Bit)
    ensures
        unsigned_value(s.push(b)) == unsigned_value(s) + two_pow(s.len()) * bit_weight(b),
{
    let one = seq![b];
    assert(s.push(b) =~= s + one);
    lemma_value_concat(s, one);
    assert(one.drop_first() =~= Seq::<Bit>::empty());
    assert(unsigned_value(one.drop_first()) == 0);
}

/// `2^n` is positive.
pub proof fn lemma_two_pow_positive(n: nat)
    ensures
        two_pow(n) >= 1,
    decreases n,
{
    if n > 0 {
        lemma_two_pow_positive((n - 1) as nat);
    }
}

/// A run of zeros has value zero.
pub proof fn lemma_value_zeros(n: nat)
    ensures
        unsigned_value(filled(n, Bit::Zero)) == 0,
        is_known(filled(n, Bit::Zero)),
    decreases n,
{
    if n > 0 {
        assert(filled(n, Bit::Zero).drop_first() =~= filled((n - 1) as nat, Bit::Zero));
        lemma_value_zeros((n - 1) as nat);
    }
}

/// Two fully known bit sequences of the same width with the same value are
/// the same sequence.
pub proof fn lemma_known_value_unique(a: Seq<Bit>, b: Seq<Bit>)
    requires
        is_known(a),
        is_known(b),
        a.len() == b.len(),
        unsigned_value(a) == unsigned_value(b),
    ensures
        a == b,
    decreases a.len(),
{
    if a.len() > 0 {
        let ra = a.drop_first();
        let rb = b.drop_first();
        assert(!spec_is_unknown(a[0]));
        assert(!spec_is_unknown(b[0]));
        assert(is_known(ra)) by {
            assert forall|i: int| 0 <= i < ra.len() implies !spec_is_unknown(#[trigger] ra[i]) by {
                assert(ra[i] == a[i + 1]);
            }
        }
        assert(is_known(rb)) by {
            assert forall|i: int| 0 <= i < rb.len() implies !spec_is_unknown(#[trigger] rb[i]) by {
                assert(rb[i] == b[i + 1]);
            }
        }
        lemma_known_value_unique(ra, rb);
        assert(a[0] == b[0]);
        assert(a =~= seq![a[0]] + ra);
        assert(b =~= seq![b[0]] + rb);
    } else {
        assert(a =~= b);
    }
}

/// Bitwise AND, OR and XOR of two values of the same width do not depend
/// on the order of the operands.
pub proof fn lemma_bitwise_commutative(a: Seq<Bit>, b: Seq<Bit>)
    requires
        a.len() == b.len(),
    ensures
        bitwise_and(a, b) == bitwise_and(b, a),
        bitwise_or(a, b) == bitwise_or(b, a),
        bitwise_xor(a, b) == bitwise_xor(b, a),
{
    assert forall|i: int| 0 <= i < a.len() implies spec_bit_and(a[i], b[i]) == spec_bit_and(b[i], a[i])
        && spec_bit_or(a[i], b[i]) == spec_bit_or(b[i], a[i]) && spec_bit_xor(a[i], b[i])
        == spec_bit_xor(b[i], a[i]) by {
        crate::bit::lemma_bit_ops_commutative(a[i], b[i]);
    }
    assert(bitwise_and(a, b) =~= bitwise_and(b, a));
    assert(bitwise_or(a, b) =~= bitwise_or(b, a));
    assert(bitwise_xor(a, b) =~= bitwise_xor(b, a));
}

/// A value has unknown bits exactly when it has some `x` or `z` bit.
pub proof fn lemma_unknown_iff_counts(s: Seq<Bit>)
    ensures
        has_unknown(s) <==> count_bit(s, Bit::X) + count_bit(s, Bit::Z) > 0,
    decreases s.len(),
{
    if s.len() > 0 {
        let p = s.drop_last();
        lemma_unknown_iff_counts(p);
        if has_unknown(p) {
            let i = choose|i: int| 0 <= i < p.len() && spec_is_unknown(#[trigger] p[i]);
            assert(s[i] == p[i]);
        }
        if has_unknown(s) && !spec_is_unknown(s.last()) {
            let i = choose|i: int| 0 <= i < s.len() && spec_is_unknown(#[trigger] s[i]);
            assert(i < s.len() - 1);
            assert(p[i] == s[i]);
        }
        if spec_is_unknown(s.last()) {
            assert(spec_is_unknown(s[s.len() - 1]));
        }
    }
}

/// A value with no `1` bit has unsigned value zero.
pub proof fn lemma_value_no_ones(s: Seq<Bit>)
    requires
        forall|i: int| 0 <= i < s.len() ==> s[i] != Bit::One,
    ensures
        unsigned_value(s) == 0,
    decreases s.len(),
{
    if s.len() > 0 {
        let r = s.drop_first();
        assert forall|i: int| 0 <= i < r.len() implies r[i] != Bit::One by {
            assert(r[i] == s[i + 1]);
        }
        lemma_value_no_ones(r);
    }
}

/// A value that is definitely true is not definitely false; a definitely
/// false value is known and reads as zero, signed or not.
pub proof fn lemma_truthiness(s: Seq<Bit>, signed: bool)
    ensures
        spec_is_true(s) ==> !spec_is_false(s),
        spec_is_false(s) ==> is_known(s) && unsigned_value(s) == 0 && spec_as_u64(s, signed)
            == Some(0u64) && spec_as_i64(s, signed) == Some(0i64),
{
    if spec_is_false(s) {
        lemma_value_no_ones(s);
        assert(is_known(s));
        assert(!is_negative(s, signed));
    }
}

/// Flattening gives a fully known value with the same unsigned value, is
/// idempotent, and leaves a known value unchanged.
pub proof fn lemma_flattened(s: Seq<Bit>)
    ensures
        is_known(flattened(s)),
        unsigned_value(flattened(s)) == unsigned_value(s),
        flattened(flattened(s)) == flattened(s),
        is_known(s) ==> flattened(s) == s,
    decreases s.len(),
{
    assert(flattened(flattened(s)) =~= flattened(s));
    if is_known(s) {
        assert(flattened(s) =~= s);
    }
    if s.len() > 0 {
        let r = s.drop_first();
        assert(flattened(s).drop_first() =~= flattened(r));
        lemma_flattened(r);
    }
}

/// A run of `x` or `z` bits of width at least one has unknown bits.
pub proof fn lemma_filled_unknown(n: nat, b: Bit)
    requires
        n >= 1,
        spec_is_unknown(b),
    ensures
        has_unknown(filled(n, b)),
{
    assert(spec_is_unknown(filled(n, b)[0]));
}

/// The bits of the leading run are all `a` or `b`.
pub proof fn lemma_leading_run_suffix(s: Seq<Bit>, a: Bit, b: Bit)
    ensures
        forall|j: int|
            s.len() - leading_run(s, a, b) <= j < s.len() ==> (#[trigger] s[j] == a || s[j] == b),
    decreases s.len(),
{
    lemma_leading_run_bound(s, a, b);
    if s.len() > 0 && (s.last() == a || s.last() == b) {
        let p = s.drop_last();
        lemma_leading_run_suffix(p, a, b);
        assert forall|j: int| s.len() - leading_run(s, a, b) <= j < s.len() implies (#[trigger] s[j]
            == a || s[j] == b) by {
            if j < s.len() - 1 {
                assert(s[j] == p[j]);
            }
        }
    }
}

/// `2^(m + n)` is `2^m * 2^n`.
pub proof fn lemma_two_pow_add(m: nat, n: nat)
    ensures
        two_pow(m + n) == two_pow(m) * two_pow(n),
    decreases m,
{
    if m > 0 {
        lemma_two_pow_add((m - 1) as nat, n);
        assert(two_pow(m + n) == 2 * two_pow((m - 1 + n) as nat));
        let a = two_pow((m - 1) as nat);
        let b = two_pow(n);
        assert(two_pow(m) == 2 * a);
        assert(2 * (a * b) == (2 * a) * b) by (nonlinear_arith);
    } else {
        assert(two_pow(m) == 1);
        assert(m + n == n);
    }
}

/// A run of `n` ones has value `2^n - 1`.
pub proof fn lemma_value_ones(n: nat)
    ensures
        unsigned_value(filled(n, Bit::One)) + 1 == two_pow(n),
{
    lemma_value_plus_flipped(filled(n, Bit::Zero));
    lemma_value_zeros(n);
    assert(flipped(filled(n, Bit::Zero)) =~= filled(n, Bit::One));
}

/// Widening by sign (or by zeros when unsigned) keeps the integer value.
pub proof fn lemma_extend_preserves_value(t: Seq<Bit>, n: nat, signed: bool)
    requires
        1 <= t.len() <= n,
    ensures
        extended(t, n, signed).len() == n,
        extended(t, n, signed).take(t.len() as int) == t,
        int_value(extended(t, n, signed), signed) == int_value(t, signed),
{
    let e = extended(t, n, signed);
    let l = (n - t.len()) as nat;
    let fill = if signed {
        t.last()
    } else {
        Bit::Zero
    };
    assert(e =~= t + filled(l, fill));
    assert(e.take(t.len() as int) =~= t);
    lemma_value_concat(t, filled(l, fill));
    lemma_two_pow_add(t.len(), l);
    if l > 0 {
        assert(e.last() == fill);
    } else {
        assert(e =~= t);
    }
    if fill == Bit::One {
        lemma_value_ones(l);
        let p = two_pow(t.len());
        let q = two_pow(l);
        let u = unsigned_value(filled(l, Bit::One));
        assert(p * u + p == p * q) by (nonlinear_arith)
            requires
                u + 1 == q,
        ;
    } else {
        lemma_value_no_ones(filled(l, fill));
        let p = two_pow(t.len());
        let u = unsigned_value(filled(l, fill));
        assert(p * u == 0) by (nonlinear_arith)
            requires
                u == 0,
        ;
    }
}

/// Shrinking to the minimal width and widening back by sign (or zeros)
/// gives back exactly the same bits; the shrunk value is a prefix of
/// at least one bit.
pub proof fn lemma_shrink_extend_identity(s: Seq<Bit>, signed: bool)
    requires
        s.len() >= 1,
    ensures
        1 <= shrunk(s, signed).len() <= s.len(),
        shrunk(s, signed) == s.take(shrunk(s, signed).len() as int),
        extended(shrunk(s, signed), s.len(), signed) == s,
{
    let n = s.len() as int;
    let w = min_width(s, signed);
    lemma_leading_run_bound(s, Bit::One, Bit::One);
    lemma_leading_run_bound(s, Bit::Zero, Bit::Zero);
    lemma_leading_run_suffix(s, Bit::One, Bit::One);
    lemma_leading_run_suffix(s, Bit::Zero, Bit::Zero);
    if w < n {
        let t = s.take(w);
        if is_negative(s, signed) {
            assert(s[w - 1] == Bit::One);
        } else if signed {
            assert(s[w - 1] == Bit::Zero);
        }
        assert(extended(t, s.len(), signed) =~= s);
    } else {
        assert(s.take(n) =~= s);
        assert(extended(s, s.len(), signed) =~= s);
    }
}

/// Shrinking to the minimal width keeps the integer value.
pub proof fn lemma_shrink_preserves_value(s: Seq<Bit>, signed: bool)
    requires
        s.len() >= 1,
    ensures
        int_value(shrunk(s, signed), signed) == int_value(s, signed),
{
    lemma_shrink_extend_identity(s, signed);
    lemma_extend_preserves_value(shrunk(s, signed), s.len(), signed);
}

/// Sign-extending from a set bit `msb` makes the value, read as signed,
/// the signed value of the low `msb + 1` bits; from a bit that is not `1`
/// it changes nothing.
pub proof fn lemma_sign_extend_from_value(s: Seq<Bit>, msb: int)
    requires
        0 <= msb,
        msb + 1 < s.len(),
    ensures
        s[msb] == Bit::One ==> sign_extended_from(s, msb) == extended(
            s.take(msb + 1),
            s.len(),
            true,
        ),
        s[msb] == Bit::One ==> int_value(sign_extended_from(s, msb), true) == int_value(
            s.take(msb + 1),
            true,
        ),
        s[msb] != Bit::One ==> sign_extended_from(s, msb) == s,
{
    if s[msb] == Bit::One {
        assert(sign_extended_from(s, msb) =~= extended(s.take(msb + 1), s.len(), true));
        lemma_extend_preserves_value(s.take(msb + 1), s.len(), true);
    }
}

/// Writing `v` over the range `[msb:lsb]` and reading back the part of the
/// range that lies inside the value gives the matching part of `v`, least
/// significant bit at `lsb`; every position outside the range keeps its
/// bit, and the width is unchanged.
pub proof fn lemma_set_range_reads_back(s: Seq<Bit>, msb: int, lsb: int, v: Seq<Bit>)
    requires
        lsb <= msb,
        v.len() == msb - lsb + 1,
    ensures
        with_range(s, msb, lsb, v).len() == s.len(),
        ({
            let lo = if lsb < 0 {
                0
            } else {
                lsb
            };
            let hi = if msb + 1 > s.len() {
                s.len() as int
            } else {
                msb + 1
            };
            lo <= hi ==> with_range(s, msb, lsb, v).subrange(lo, hi) == v.subrange(
                lo - lsb,
                hi - lsb,
            )
        }),
        forall|j: int|
            0 <= j < s.len() && (j < lsb || j > msb) ==> #[trigger] with_range(s, msb, lsb, v)[j]
                == s[j],
{
    let lo = if lsb < 0 {
        0
    } else {
        lsb
    };
    let hi = if msb + 1 > s.len() {
        s.len() as int
    } else {
        msb + 1
    };
    if lo <= hi {
        assert(with_range(s, msb, lsb, v).subrange(lo, hi) =~= v.subrange(lo - lsb, hi - lsb));
    }
}

/// With a range that lies inside the value, reading back `[msb:lsb]`
/// after writing `v` gives exactly `v`.
pub proof fn lemma_set_range_inside(s: Seq<Bit>, msb: int, lsb: int, v: Seq<Bit>)
    requires
        0 <= lsb <= msb < s.len(),
        v.len() == msb - lsb + 1,
    ensures
        with_range(s, msb, lsb, v).subrange(lsb, msb + 1) == v,
        unsigned_value(with_range(s, msb, lsb, v).subrange(lsb, msb + 1)) == unsigned_value(v),
{
    lemma_set_range_reads_back(s, msb, lsb, v);
    assert(v.subrange(0, v.len() as int) =~= v);
}

/// Just below a leading run of `a` bits lies a bit that is not `a`.
pub proof fn lemma_leading_run_stops(s: Seq<Bit>, a: Bit)
    requires
        leading_run(s, a, a) < s.len(),
    ensures
        s[s.len() - leading_run(s, a, a) - 1] != a,
    decreases s.len(),
{
    if s.last() == a {
        let p = s.drop_last();
        lemma_leading_run_stops(p, a);
        assert(p[p.len() - leading_run(p, a, a) - 1] == s[s.len() - leading_run(s, a, a) - 1]);
    }
}

/// Shrinking is minimal: the shrunk value is one bit wide, or cutting one
/// more bit off and widening back (by sign when signed, by zeros
/// otherwise) no longer gives the original bits. Signed values whose top
/// bit is `x` or `z` are left out: one copy of that bit extends back to
/// itself, yet it is not dropped.
pub proof fn lemma_shrink_minimal(s: Seq<Bit>, signed: bool)
    requires
        s.len() >= 1,
        !(signed && spec_is_unknown(s.last())),
    ensures
        shrunk(s, signed).len() == 1 || extended(
            s.take(shrunk(s, signed).len() - 1),
            s.len(),
            signed,
        ) != s,
{
    let n = s.len() as int;
    let w = shrunk(s, signed).len() as int;
    lemma_shrink_extend_identity(s, signed);
    lemma_leading_run_bound(s, Bit::One, Bit::One);
    lemma_leading_run_bound(s, Bit::Zero, Bit::Zero);
    lemma_leading_run_suffix(s, Bit::One, Bit::One);
    lemma_leading_run_suffix(s, Bit::Zero, Bit::Zero);
    if w > 1 {
        let t = s.take(w - 1);
        let e = extended(t, s.len(), signed);
        if is_negative(s, signed) {
            let lo = leading_run(s, Bit::One, Bit::One);
            if lo < n {
                lemma_leading_run_stops(s, Bit::One);
            }
            assert(s[w - 2] != Bit::One);
            assert(e[n - 1] == s[w - 2]);
            assert(e[n - 1] != s[n - 1]);
        } else if signed {
            let lz = leading_run(s, Bit::Zero, Bit::Zero);
            assert(s[n - 1] == Bit::Zero);
            if lz < n {
                lemma_leading_run_stops(s, Bit::Zero);
            }
            assert(s[w - 2] != Bit::Zero);
            assert(e[n - 1] == s[w - 2]);
            assert(e[n - 1] != s[n - 1]);
        } else {
            let lz = leading_run(s, Bit::Zero, Bit::Zero);
            if lz < n {
                lemma_leading_run_stops(s, Bit::Zero);
            }
            assert(s[w - 1] != Bit::Zero);
            assert(e[w - 1] == Bit::Zero);
            assert(e[w - 1] != s[w - 1]);
        }
    }
}

/// Concatenation puts the first operand on top: its bits are the most
/// significant ones, below them come the other operands' in turn; for two
/// operands the value is the first shifted past the second plus the second.
pub proof fn lemma_concatenated_order(ops: Seq<Seq<Bit>>)
    requires
        ops.len() > 0,
    ensures
        concatenated(ops).len() == concatenated(ops.drop_first()).len() + ops[0].len(),
        concatenated(ops).subrange(
            concatenated(ops).len() - ops[0].len(),
            concatenated(ops).len() as int,
        ) == ops[0],
        concatenated(ops).subrange(0, concatenated(ops).len() - ops[0].len()) == concatenated(
            ops.drop_first(),
        ),
        ops.len() == 2 ==> unsigned_value(concatenated(ops)) == unsigned_value(ops[1])
            + two_pow(ops[1].len()) * unsigned_value(ops[0]),
{
    let rest = concatenated(ops.drop_first());
    assert(concatenated(ops) == rest + ops[0]);
    assert((rest + ops[0]).subrange(rest.len() as int, (rest + ops[0]).len() as int) =~= ops[0]);
    assert((rest + ops[0]).subrange(0, rest.len() as int) =~= rest);
    if ops.len() == 2 {
        let t = ops.drop_first();
        assert(t.drop_first() =~= Seq::<Seq<Bit>>::empty());
        assert(concatenated(t.drop_first()) =~= Seq::<Bit>::empty());
        assert(concatenated(t) =~= ops[1]);
        lemma_value_concat(ops[1], ops[0]);
    }
}

/// What `c ? l : r` gives: a definitely true condition gives `l`'s value, a
/// definitely false one `r`'s (each widened to the wider width, by sign
/// only when both sides are signed); otherwise a bit is known only where
/// both widened sides hold that same known bit, and is `x` elsewhere.
pub proof fn lemma_conditional_value(c: Seq<Bit>, l: Seq<Bit>, ls: bool, r: Seq<Bit>, rs: bool)
    requires
        l.len() >= 1,
        r.len() >= 1,
    ensures
        ({
            let w: nat = if l.len() >= r.len() {
                l.len()
            } else {
                r.len()
            };
            let both = ls && rs;
            let res = conditional_bits(c, l, ls, r, rs);
            let el = extended(l, w, both);
            let er = extended(r, w, both);
            &&& res.len() == w
            &&& spec_is_true(c) ==> int_value(res, both) == int_value(l, both)
            &&& spec_is_false(c) ==> int_value(res, both) == int_value(r, both)
            &&& !spec_is_true(c) && !spec_is_false(c) ==> forall|i: int|
                0 <= i < w ==> ((#[trigger] res[i] != Bit::X ==> res[i] == el[i] && res[i] == er[i]
                    && !spec_is_unknown(res[i])) && (el[i] == er[i] && !spec_is_unknown(el[i])
                    ==> res[i] == el[i]))
        }),
{
    let w: nat = if l.len() >= r.len() {
        l.len()
    } else {
        r.len()
    };
    let both = ls && rs;
    lemma_extend_preserves_value(l, w, both);
    lemma_extend_preserves_value(r, w, both);
    lemma_truthiness(c, both);
}

/// Bitwise four-state AND of two sequences of the same width.
pub open spec fn bitwise_and(a: Seq<Bit>, b: Seq<Bit>) -> Seq<Bit> {
    Seq::new(a.len(), |i: int| spec_bit_and(a[i], b[i]))
}

/// Bitwise four-state OR of two sequences of the same width.
pub open spec fn bitwise_or(a: Seq<Bit>, b: Seq<Bit>) -> Seq<Bit> {
    Seq::new(a.len(), |i: int| spec_bit_or(a[i], b[i]))
}

/// Bitwise four-state XOR of two sequences of the same width.
pub open spec fn bitwise_xor(a: Seq<Bit>, b: Seq<Bit>) -> Seq<Bit> {
    Seq::new(a.len(), |i: int| spec_bit_xor(a[i], b[i]))
}

/// `n` copies of `b`.
pub open spec fn filled(n: nat, b: Bit) -> Seq<Bit> {
    Seq::new(n, |i: int| b)
}

/// `s` with every `X` and `Z` replaced by `Zero`.
pub open spec fn flattened(s: Seq<Bit>) -> Seq<Bit> {
    Seq::new(
        s.len(),
        |i: int|
            if spec_is_unknown(s[i]) {
                Bit::Zero
            } else {
                s[i]
            },
    )
}

/// `s` with positions `lsb..=msb` replaced by `v` (position `lsb` takes
/// `v[0]`); positions outside `s` are not written.
pub open spec fn with_range(s: Seq<Bit>, msb: int, lsb: int, v: Seq<Bit>) -> Seq<Bit> {
    Seq::new(
        s.len(),
        |j: int|
            if lsb <= j <= msb {
                v[j - lsb]
            } else {
                s[j]
            },
    )
}

/// `s` with every bit above `msb` set to `1` when bit `msb` is `1`;
/// unchanged otherwise.
pub open spec fn sign_extended_from(s: Seq<Bit>, msb: int) -> Seq<Bit> {
    if s[msb] == Bit::One {
        Seq::new(
            s.len(),
            |j: int|
                if j > msb {
                    Bit::One
                } else {
                    s[j]
                },
        )
    } else {
        s
    }
}

/// The fewest bits that hold the value of `s`: drop leading zeros of an
/// unsigned value, keep one sign bit of a signed one; at least one bit.
pub open spec fn min_width(s: Seq<Bit>, signed: bool) -> int {
    let w = if is_negative(s, signed) {
        s.len() - leading_run(s, Bit::One, Bit::One) + 1
    } else if signed {
        s.len() - leading_run(s, Bit::Zero, Bit::Zero) + 1
    } else {
        s.len() - leading_run(s, Bit::Zero, Bit::Zero)
    };
    if w < 1 {
        1
    } else {
        w
    }
}

/// `s` cut down to [`min_width`] when that is narrower.
pub open spec fn shrunk(s: Seq<Bit>, signed: bool) -> Seq<Bit> {
    if min_width(s, signed) < s.len() {
        s.take(min_width(s, signed))
    } else {
        s
    }
}

/// `s` widened to `w` bits: by its top bit when `signed`, by zeros otherwise.
pub open spec fn extended(s: Seq<Bit>, w: nat, signed: bool) -> Seq<Bit> {
    Seq::new(
        w,
        |i: int|
            if i < s.len() {
                s[i]
            } else if signed && s.len() > 0 {
                s.last()
            } else {
                Bit::Zero
            },
    )
}

/// The bitwise merge of an unknown condition: a bit both sides agree on and
/// that is known, otherwise `X`.
pub open spec fn merged(a: Seq<Bit>, b: Seq<Bit>) -> Seq<Bit> {
    Seq::new(
        a.len(),
        |i: int|
            if a[i] == b[i] && !spec_is_unknown(a[i]) {
                a[i]
            } else {
                Bit::X
            },
    )
}

/// The concatenation of `ops`, the first operand most significant.
pub open spec fn concatenated(ops: Seq<Seq<Bit>>) -> Seq<Bit>
    decreases ops.len(),
{
    if ops.len() == 0 {
        Seq::empty()
    } else {
        concatenated(ops.drop_first()) + ops[0]
    }
}

/// The bits `c ? l : r` evaluates to, both sides first widened to the wider
/// width (by sign only when both are signed).
pub open spec fn conditional_bits(
    c: Seq<Bit>,
    l: Seq<Bit>,
    l_signed: bool,
    r: Seq<Bit>,
    r_signed: bool,
) -> Seq<Bit> {
    let w = if l.len() >= r.len() {
        l.len()
    } else {
        r.len()
    };
    let both = l_signed && r_signed;
    if spec_is_true(c) {
        extended(l, w, both)
    } else if spec_is_false(c) {
        extended(r, w, both)
    } else {
        merged(extended(l, w, both), extended(r, w, both))
    }
}

} // verus!
