//! Structured constant values: the folded value of an expression as owned
//! data.
use vstd::prelude::*;
use crate::svint::SVInt;
use crate::value::{spec_as_i64, spec_is_false, spec_is_true};

verus! {

/// The bits of an IEEE-754 double other than the sign.
pub const REAL_MAGNITUDE_MASK: u64 = 0x7fff_ffff_ffff_ffff;

/// True when the IEEE-754 double with these bits is `0.0` or `-0.0`.
pub open spec fn real_is_zero(bits: u64) -> bool {
    bits & REAL_MAGNITUDE_MASK == 0
}

/// A structured constant value.
#[derive(Debug, PartialEq)]
#[non_exhaustive]
pub enum ConstantValue {
    /// An integer.
    Integer(SVInt),
    /// A real (`real` or `shortreal`), held as the bits of an IEEE-754
    /// double.
    Real(u64),
    /// A string.
    String(String),
    /// The null class handle.
    Null,
    /// The unbounded `$` value.
    Unbounded,
    /// An unpacked array or queue.
    Array(Vec<ConstantValue>),
    /// An associative array, kept as its printed form; the `bool` is whether
    /// the map is empty.
    AssocArray(String, bool),
    /// A tagged union, kept as its printed form.
    Union(String),
    /// Not a constant / could not be evaluated.
    Bad,
}

/// Whether a value is empty: a zero-length string, array or map; every
/// scalar kind counts as empty.
pub open spec fn spec_empty(v: ConstantValue) -> bool {
    match v {
        ConstantValue::Array(els) => els@.len() == 0,
        ConstantValue::AssocArray(_, is_empty) => is_empty,
        ConstantValue::String(s) => s@.len() == 0,
        _ => true,
    }
}

/// SystemVerilog condition-truthiness of a constant.
pub open spec fn spec_constant_is_true(v: ConstantValue) -> bool {
    match v {
        ConstantValue::Integer(i) => spec_is_true(i@.bits),
        ConstantValue::Real(r) => !real_is_zero(r),
        ConstantValue::Unbounded => true,
        ConstantValue::String(s) => s@.len() != 0,
        _ => false,
    }
}

/// SystemVerilog condition-falsiness of a constant.
pub open spec fn spec_constant_is_false(v: ConstantValue) -> bool {
    match v {
        ConstantValue::Integer(i) => spec_is_false(i@.bits),
        ConstantValue::Real(r) => real_is_zero(r),
        ConstantValue::Null => true,
        ConstantValue::String(s) => s@.len() == 0,
        _ => false,
    }
}

/// No constant is both definitely true and definitely false.
pub proof fn lemma_constant_truthiness(v: ConstantValue)
    ensures
        !(spec_constant_is_true(v) && spec_constant_is_false(v)),
{
    if let ConstantValue::Integer(i) = v {
        crate::value::lemma_truthiness(i@.bits, i@.signed);
    }
}

impl ConstantValue {
    /// This value as an integer, if it is one.
    pub fn as_integer(&self) -> (r: Option<&SVInt>)
        ensures
            r is Some <==> self is Integer,
            r matches Some(v) ==> *v == self->Integer_0,
    {
        match self {
            ConstantValue::Integer(v) => Some(v),
            _ => None,
        }
    }

    /// This value as an `i64`, if it is an integer that fits.
    pub fn as_i64(&self) -> (r: Option<i64>)
        ensures
            r == (match *self {
                ConstantValue::Integer(v) => spec_as_i64(v@.bits, v@.signed),
                _ => None,
            }),
    {
        match self.as_integer() {
            Some(v) => v.as_i64(),
            None => None,
        }
    }

    /// The IEEE-754 bits of this value, if it is real.
    pub fn as_real_bits(&self) -> (r: Option<u64>)
        ensures
            r == (match *self {
                ConstantValue::Real(b) => Some(b),
                _ => None,
            }),
    {
        match self {
            ConstantValue::Real(b) => Some(*b),
            _ => None,
        }
    }

    /// This value as a string, if it is one.
    pub fn as_str(&self) -> (r: Option<&str>)
        ensures
            r is Some <==> self is String,
            r matches Some(s) ==> s@ == self->String_0@,
    {
        match self {
            ConstantValue::String(s) => Some(s.as_str()),
            _ => None,
        }
    }

    /// The elements of an unpacked array or queue, if it is one.
    pub fn as_array(&self) -> (r: Option<&[ConstantValue]>)
        ensures
            r is Some <==> self is Array,
            r matches Some(els) ==> els@ == self->Array_0@,
    {
        match self {
            ConstantValue::Array(els) => Some(els.as_slice()),
            _ => None,
        }
    }

    /// True if the value is empty: a zero-length string, a zero-element
    /// array or queue, or an empty associative array; true also for every
    /// scalar kind and [`Bad`](Self::Bad), which have no size.
    pub fn empty(&self) -> (r: bool)
        ensures
            r == spec_empty(*self),
    {
        match self {
            ConstantValue::Array(els) => els.len() == 0,
            ConstantValue::AssocArray(_, is_empty) => *is_empty,
            ConstantValue::String(s) => s.as_str().is_empty(),
            ConstantValue::Integer(_)
            | ConstantValue::Real(_)
            | ConstantValue::Null
            | ConstantValue::Unbounded
            | ConstantValue::Union(_)
            | ConstantValue::Bad => true,
        }
    }

    /// True for a container: an unpacked array, queue, or associative array.
    /// A tagged union is not a container.
    pub fn is_container(&self) -> (r: bool)
        ensures
            r == (self is Array || self is AssocArray),
    {
        match self {
            ConstantValue::Array(_) | ConstantValue::AssocArray(..) => true,
            _ => false,
        }
    }

    /// SystemVerilog condition-truthiness: true for an integer with a
    /// definite `1` bit, a nonzero real, the unbounded `$`, or a nonempty
    /// string; false for everything else.
    pub fn is_true(&self) -> (r: bool)
        ensures
            r == spec_constant_is_true(*self),
    {
        match self {
            ConstantValue::Integer(v) => v.is_true(),
            ConstantValue::Real(b) => *b & REAL_MAGNITUDE_MASK != 0,
            ConstantValue::Unbounded => true,
            ConstantValue::String(s) => !s.as_str().is_empty(),
            ConstantValue::Null
            | ConstantValue::Array(_)
            | ConstantValue::AssocArray(..)
            | ConstantValue::Union(_)
            | ConstantValue::Bad => false,
        }
    }

    /// SystemVerilog condition-falsiness: true for an all-zero integer with
    /// no unknown bits, a zero real, `null`, or an empty string; false for
    /// everything else.
    pub fn is_false(&self) -> (r: bool)
        ensures
            r == spec_constant_is_false(*self),
    {
        match self {
            ConstantValue::Integer(v) => v.is_false(),
            ConstantValue::Real(b) => *b & REAL_MAGNITUDE_MASK == 0,
            ConstantValue::Null => true,
            ConstantValue::String(s) => s.as_str().is_empty(),
            ConstantValue::Unbounded
            | ConstantValue::Array(_)
            | ConstantValue::AssocArray(..)
            | ConstantValue::Union(_)
            | ConstantValue::Bad => false,
        }
    }
}

/// True when `b` holds the same constant as `a`, all the way down: the
/// same kind, the same integer value and signedness, the same text, the
/// same real bits, the same emptiness flag, and for arrays the same number
/// of elements, each the same constant as its counterpart.
pub open spec fn same_constant(a: ConstantValue, b: ConstantValue) -> bool
    decreases a, 0int,
{
    match a {
        ConstantValue::Integer(x) => b is Integer && x@ == b->Integer_0@,
        ConstantValue::Real(x) => b is Real && x == b->Real_0,
        ConstantValue::String(x) => b is String && x@ == b->String_0@,
        ConstantValue::Null => b is Null,
        ConstantValue::Unbounded => b is Unbounded,
        ConstantValue::Array(x) => {
            proof {
                broadcast use vstd::std_specs::vec::axiom_vec_decreases_to_view;

                assert(decreases_to!(a => x));
                assert(decreases_to!(x => x@));
            }
            &&& b is Array
            &&& x@.len() == b->Array_0@.len()
            &&& same_elements(x@, b->Array_0@, 0)
        },
        ConstantValue::AssocArray(x, e) => {
            &&& b is AssocArray
            &&& x@ == b->AssocArray_0@
            &&& e == b->AssocArray_1
        },
        ConstantValue::Union(x) => b is Union && x@ == b->Union_0@,
        ConstantValue::Bad => b is Bad,
    }
}

/// True when each of `xs[i..]` is the same constant as its counterpart
/// in `ys`.
pub open spec fn same_elements(xs: Seq<ConstantValue>, ys: Seq<ConstantValue>, i: int) -> bool
    decreases xs, xs.len() - i,
{
    if i < 0 || i >= xs.len() {
        true
    } else {
        same_constant(xs[i], ys[i]) && same_elements(xs, ys, i + 1)
    }
}

/// Elements that are pairwise the same constant are the same elements.
pub proof fn lemma_same_elements(xs: Seq<ConstantValue>, ys: Seq<ConstantValue>, i: int)
    requires
        0 <= i <= xs.len(),
        forall|k: int| i <= k < xs.len() ==> #[trigger] same_constant(xs[k], ys[k]),
    ensures
        same_elements(xs, ys, i),
    decreases xs.len() - i,
{
    if i < xs.len() {
        assert(same_constant(xs[i], ys[i]));
        lemma_same_elements(xs, ys, i + 1);
    }
}

impl Clone for ConstantValue {
    /// A copy holding the same constant, array elements included.
    fn clone(&self) -> (r: ConstantValue)
        ensures
            same_constant(*self, r),
        decreases self,
    {
        match self {
            ConstantValue::Integer(v) => ConstantValue::Integer(SVInt::clone(v)),
            ConstantValue::Real(b) => ConstantValue::Real(*b),
            ConstantValue::String(s) => ConstantValue::String(s.clone()),
            ConstantValue::Null => ConstantValue::Null,
            ConstantValue::Unbounded => ConstantValue::Unbounded,
            ConstantValue::Array(els) => {
                let mut out: Vec<ConstantValue> = Vec::new();
                let mut i: usize = 0;
                while i < els.len()
                    invariant
                        i <= els.len(),
                        *self == ConstantValue::Array(*els),
                        out@.len() == i,
                        forall|k: int| 0 <= k < i ==> #[trigger] same_constant(els@[k], out@[k]),
                    decreases els.len() - i,
                {
                    proof {
                        broadcast use vstd::std_specs::vec::axiom_vec_index_decreases;

                        assert(decreases_to!(*els => els[i as int]));
                        assert(decreases_to!(*self => self->Array_0));
                        assert(decreases_to!(*self => els[i as int]));
                    }
                    let e = ConstantValue::clone(&els[i]);
                    out.push(e);
                    i = i + 1;
                }
                proof {
                    lemma_same_elements(els@, out@, 0);
                }
                ConstantValue::Array(out)
            },
            ConstantValue::AssocArray(s, e) => ConstantValue::AssocArray(s.clone(), *e),
            ConstantValue::Union(s) => ConstantValue::Union(s.clone()),
            ConstantValue::Bad => ConstantValue::Bad,
        }
    }
}

/// The kind of a constant as a compiler reports it.
#[derive(Clone, Copy, Debug, PartialEq, Eq, Structural)]
pub enum ConstantKind {
    /// An integer.
    Integer,
    /// A `real`.
    Real,
    /// A `shortreal`.
    ShortReal,
    /// A string.
    String,
    /// The null class handle.
    Null,
    /// The unbounded `$` value.
    Unbounded,
    /// An unpacked array.
    Unpacked,
    /// A queue.
    Queue,
    /// An associative array.
    AssocArray,
    /// A tagged union.
    Union,
    /// Anything else.
    Other,
}

/// A constant as a compiler reports it, before it is given its structured
/// form: its kind and every payload a kind may read.
pub struct ConstantRecord {
    /// The kind.
    pub kind: ConstantKind,
    /// The integer, when the constant holds one.
    pub integer: Option<SVInt>,
    /// The IEEE-754 bits of a real value.
    pub real_bits: u64,
    /// The string value, or the printed form of an associative array or
    /// union.
    pub text: String,
    /// Whether an associative array is empty.
    pub is_empty: bool,
    /// The elements of an array or queue as read, `None` for one that could
    /// not be read.
    pub elements: Vec<Option<ConstantValue>>,
}

/// The elements that were read, in order.
pub open spec fn present(s: Seq<Option<ConstantValue>>) -> Seq<ConstantValue>
    decreases s.len(),
{
    if s.len() == 0 {
        Seq::empty()
    } else {
        match s[0] {
            Some(v) => seq![v] + present(s.drop_first()),
            None => present(s.drop_first()),
        }
    }
}

/// True when `r` is the structured form of `rec`: an integer when it holds
/// one (`Bad` when it does not), a real from its bits, a string, `null`,
/// `$`, the elements that were read of an array or queue, the printed form
/// and emptiness of an associative array, the printed form of a union, and
/// `Bad` for any other kind.
pub open spec fn read_from(rec: ConstantRecord, r: ConstantValue) -> bool {
    match rec.kind {
        ConstantKind::Integer => match rec.integer {
            Some(v) => r == ConstantValue::Integer(v),
            None => r is Bad,
        },
        ConstantKind::Real | ConstantKind::ShortReal => r == ConstantValue::Real(rec.real_bits),
        ConstantKind::String => r == ConstantValue::String(rec.text),
        ConstantKind::Null => r is Null,
        ConstantKind::Unbounded => r is Unbounded,
        ConstantKind::Unpacked | ConstantKind::Queue => r is Array && r->Array_0@ == present(
            rec.elements@,
        ),
        ConstantKind::AssocArray => r == ConstantValue::AssocArray(rec.text, rec.is_empty),
        ConstantKind::Union => r == ConstantValue::Union(rec.text),
        ConstantKind::Other => r is Bad,
    }
}

/// The elements of `elements` that were read, in order.
fn present_elements(elements: Vec<Option<ConstantValue>>) -> (r: Vec<ConstantValue>)
    ensures
        r@ == present(elements@),
{
    let ghost all = elements@;
    let mut rest = elements;
    let mut out: Vec<ConstantValue> = Vec::new();
    while rest.len() > 0
        invariant
            out@ + present(rest@) == present(all),
        decreases rest.len(),
    {
        let ghost before = rest@;
        let e = rest.remove(0);
        proof {
            assert(rest@ =~= before.drop_first());
        }
        match e {
            Some(v) => {
                proof {
                    assert(out@.push(v) + present(rest@) =~= out@ + (seq![v] + present(rest@)));
                }
                out.push(v);
            },
            None => {},
        }
    }
    proof {
        assert(present(rest@) =~= Seq::<ConstantValue>::empty());
        assert(out@ + present(rest@) =~= out@);
    }
    out
}

impl ConstantValue {
    /// The structured form of a reported constant (see [`read_from`]).
    pub fn read(record: ConstantRecord) -> (r: ConstantValue)
        ensures
            read_from(record, r),
    {
        let ConstantRecord { kind, integer, real_bits, text, is_empty, elements } = record;
        match kind {
            ConstantKind::Integer => match integer {
                Some(v) => ConstantValue::Integer(v),
                None => ConstantValue::Bad,
            },
            ConstantKind::Real | ConstantKind::ShortReal => ConstantValue::Real(real_bits),
            ConstantKind::String => ConstantValue::String(text),
            ConstantKind::Null => ConstantValue::Null,
            ConstantKind::Unbounded => ConstantValue::Unbounded,
            ConstantKind::Unpacked | ConstantKind::Queue => ConstantValue::Array(
                present_elements(elements),
            ),
            ConstantKind::AssocArray => ConstantValue::AssocArray(text, is_empty),
            ConstantKind::Union => ConstantValue::Union(text),
            ConstantKind::Other => ConstantValue::Bad,
        }
    }
}

/// The printed form of `v`, taking the texts of its integer and real
/// leaves from `leaves` in order from position `pos`: strings in double
/// quotes, `null`, `$`, arrays as `'{a, b}`, associative arrays and unions
/// as their printed form, `<bad>` for a bad value. Gives the text and the
/// next unused position, or `None` when the leaves run out.
pub open spec fn text_of(v: ConstantValue, leaves: Seq<Seq<char>>, pos: int) -> Option<(Seq<char>, int)>
    decreases v, 0int,
{
    match v {
        ConstantValue::Integer(_) | ConstantValue::Real(_) => if 0 <= pos < leaves.len() {
            Some((leaves[pos], pos + 1))
        } else {
            None
        },
        ConstantValue::String(s) => Some(("\""@ + s@ + "\""@, pos)),
        ConstantValue::Null => Some(("null"@, pos)),
        ConstantValue::Unbounded => Some(("$"@, pos)),
        ConstantValue::Array(els) => {
            proof {
                broadcast use vstd::std_specs::vec::axiom_vec_decreases_to_view;
                assert(decreases_to!(v => els));
                assert(decreases_to!(els => els@));
            }
            match elements_text(els@, 0, leaves, pos) {
                Some((t, p)) => Some(("'{"@ + t + "}"@, p)),
                None => None,
            }
        },
        ConstantValue::AssocArray(s, _) => Some((s@, pos)),
        ConstantValue::Union(s) => Some((s@, pos)),
        ConstantValue::Bad => Some(("<bad>"@, pos)),
    }
}

/// The printed elements `els[i..]`, separated by `, `, with the leaves
/// taken as in [`text_of`].
pub open spec fn elements_text(els: Seq<ConstantValue>, i: int, leaves: Seq<Seq<char>>, pos: int) -> Option<(Seq<char>, int)>
    decreases els, els.len() - i,
{
    if i < 0 || i >= els.len() {
        Some((Seq::empty(), pos))
    } else {
        match text_of(els[i], leaves, pos) {
            Some((a, p)) => match elements_text(els, i + 1, leaves, p) {
                Some((b, q)) => Some(((if i > 0 {
                    ", "@ + a
                } else {
                    a
                }) + b, q)),
                None => None,
            },
            None => None,
        }
    }
}

/// The texts of `leaves`.
pub open spec fn leaf_texts(leaves: Seq<String>) -> Seq<Seq<char>> {
    Seq::new(leaves.len(), |i: int| leaves[i]@)
}

/// The text and next position of [`text_of`], read from an exec result.
pub open spec fn text_result(r: Option<(String, usize)>) -> Option<(Seq<char>, int)> {
    match r {
        Some((t, p)) => Some((t@, p as int)),
        None => None,
    }
}

impl ConstantValue {
    /// The printed form of this value with its integer and real leaves
    /// printed as `leaves[pos..]`, in order (see [`text_of`]), and the next
    /// unused position; `None` when the leaves run out.
    pub fn text_from(&self, leaves: &[String], pos: usize) -> (r: Option<(String, usize)>)
        requires
            pos <= leaves@.len(),
        ensures
            text_result(r) == text_of(*self, leaf_texts(leaves@), pos as int),
            r matches Some((_, p)) ==> p <= leaves@.len(),
        decreases self,
    {
        proof {
            reveal_strlit("\"");
            reveal_strlit("null");
            reveal_strlit("$");
            reveal_strlit("'{");
            reveal_strlit("}");
            reveal_strlit(", ");
            reveal_strlit("<bad>");
        }
        let ghost lv = leaf_texts(leaves@);
        match self {
            ConstantValue::Integer(_) | ConstantValue::Real(_) => {
                if pos < leaves.len() {
                    Some((leaves[pos].clone(), pos + 1))
                } else {
                    None
                }
            },
            ConstantValue::String(t) => {
                let mut s = String::from_str("\"");
                s.append(t.as_str());
                s.append("\"");
                Some((s, pos))
            },
            ConstantValue::Null => Some((String::from_str("null"), pos)),
            ConstantValue::Unbounded => Some((String::from_str("$"), pos)),
            ConstantValue::Array(els) => {
                let mut acc = String::new();
                let mut p: usize = pos;
                let mut i: usize = 0;
                proof {
                    assert(acc@ + Seq::<char>::empty() =~= Seq::<char>::empty());
                }
                while i < els.len()
                    invariant
                        i <= els.len(),
                        *self == ConstantValue::Array(*els),
                        lv == leaf_texts(leaves@),
                        p <= leaves@.len(),
                        elements_text(els@, 0, lv, pos as int) == (match elements_text(
                            els@,
                            i as int,
                            lv,
                            p as int,
                        ) {
                            Some((b, q)) => Some((acc@ + b, q)),
                            None => None,
                        }),
                    decreases els.len() - i,
                {
                    proof {
                        broadcast use vstd::std_specs::vec::axiom_vec_index_decreases;

                        assert(decreases_to!(*els => els[i as int]));
                        assert(decreases_to!(*self => self->Array_0));
                        assert(decreases_to!(*self => els[i as int]));
                    }
                    match els[i].text_from(leaves, p) {
                        Some((a, p1)) => {
                            let ghost old_acc = acc@;
                            if i > 0 {
                                acc.append(", ");
                            }
                            acc.append(a.as_str());
                            proof {
                                match elements_text(els@, i + 1, lv, p1 as int) {
                                    Some((b, q)) => {
                                        let sa = if i > 0 {
                                            ", "@ + a@
                                        } else {
                                            a@
                                        };
                                        assert(acc@ == old_acc + sa);
                                        assert(old_acc + (sa + b) =~= acc@ + b);
                                    },
                                    None => {},
                                }
                            }
                            p = p1;
                        },
                        None => {
                            return None;
                        },
                    }
                    i = i + 1;
                }
                let mut s = String::from_str("'{");
                s.append(acc.as_str());
                s.append("}");
                proof {
                    assert(acc@ + Seq::<char>::empty() =~= acc@);
                }
                Some((s, p))
            },
            ConstantValue::AssocArray(t, _) => Some((t.clone(), pos)),
            ConstantValue::Union(t) => Some((t.clone(), pos)),
            ConstantValue::Bad => Some((String::from_str("<bad>"), pos)),
        }
    }

    /// The printed form of this value with its integer and real leaves, in
    /// order, printed as `leaves`: strings in double quotes, `null`, `$`,
    /// arrays as `'{a, b}`, associative arrays and unions as their printed
    /// form, `<bad>` for a bad value; `None` when there are fewer leaves
    /// than the value holds.
    pub fn to_string_with(&self, leaves: &[String]) -> (r: Option<String>)
        ensures
            match text_of(*self, leaf_texts(leaves@), 0) {
                Some((t, _)) => r is Some && r->0@ == t,
                None => r is None,
            },
    {
        match self.text_from(leaves, 0) {
            Some((t, _)) => Some(t),
            None => None,
        }
    }
}

/// The number of integer and real leaves `v` holds, arrays included.
pub open spec fn leaf_count(v: ConstantValue) -> nat
    decreases v, 0int,
{
    match v {
        ConstantValue::Integer(_) | ConstantValue::Real(_) => 1,
        ConstantValue::Array(els) => {
            proof {
                broadcast use vstd::std_specs::vec::axiom_vec_decreases_to_view;

                assert(decreases_to!(v => els));
                assert(decreases_to!(els => els@));
            }
            elements_leaf_count(els@, 0)
        },
        _ => 0,
    }
}

/// The number of integer and real leaves `els[i..]` hold.
pub open spec fn elements_leaf_count(els: Seq<ConstantValue>, i: int) -> nat
    decreases els, els.len() - i,
{
    if i < 0 || i >= els.len() {
        0
    } else {
        leaf_count(els[i]) + elements_leaf_count(els, i + 1)
    }
}

/// Printing a value uses each of its leaf texts exactly once, in order:
/// it succeeds exactly when enough leaves remain from `pos`, and the next
/// unused position is `pos` plus the number of leaves the value holds.
pub proof fn lemma_text_uses_each_leaf(v: ConstantValue, leaves: Seq<Seq<char>>, pos: int)
    requires
        0 <= pos <= leaves.len(),
    ensures
        text_of(v, leaves, pos) is Some <==> pos + leaf_count(v) <= leaves.len(),
        text_of(v, leaves, pos) matches Some((_, p)) ==> p == pos + leaf_count(v),
    decreases v, 0int,
{
    match v {
        ConstantValue::Array(els) => {
            assert(decreases_to!(v => els)) by {
                broadcast use vstd::std_specs::vec::axiom_vec_decreases_to_view;

            }
            assert(decreases_to!(els => els@)) by {
                broadcast use vstd::std_specs::vec::axiom_vec_decreases_to_view;

            }
            lemma_elements_text_uses_each_leaf(els@, 0, leaves, pos);
        },
        _ => {},
    }
}

/// Printing the elements `els[i..]` uses each of their leaf texts exactly
/// once, in order.
pub proof fn lemma_elements_text_uses_each_leaf(
    els: Seq<ConstantValue>,
    i: int,
    leaves: Seq<Seq<char>>,
    pos: int,
)
    requires
        0 <= pos <= leaves.len(),
        0 <= i,
    ensures
        elements_text(els, i, leaves, pos) is Some <==> pos + elements_leaf_count(els, i)
            <= leaves.len(),
        elements_text(els, i, leaves, pos) matches Some((_, p)) ==> p == pos
            + elements_leaf_count(els, i),
    decreases els, els.len() - i,
{
    if i < els.len() {
        lemma_text_uses_each_leaf(els[i], leaves, pos);
        match text_of(els[i], leaves, pos) {
            Some((a, p)) => {
                lemma_elements_text_uses_each_leaf(els, i + 1, leaves, p);
            },
            None => {},
        }
    }
}

/// Printing one more element after `els` appends `, ` (when `els` is not
/// empty) and that element's text, printed from the first leaf the
/// elements before it left unused; the elements are printed in order.
pub proof fn lemma_elements_text_push(
    els: Seq<ConstantValue>,
    e: ConstantValue,
    i: int,
    leaves: Seq<Seq<char>>,
    pos: int,
)
    requires
        0 <= i <= els.len(),
    ensures
        elements_text(els.push(e), i, leaves, pos) == (match elements_text(els, i, leaves, pos) {
            Some((t, p)) => match text_of(e, leaves, p) {
                Some((a, q)) => Some(
                    (t + (if els.len() > 0 {
                        ", "@
                    } else {
                        Seq::<char>::empty()
                    }) + a, q),
                ),
                None => None,
            },
            None => None,
        }),
    decreases els.len() - i,
{
    let f = els.push(e);
    let sep = if els.len() > 0 {
        ", "@
    } else {
        Seq::<char>::empty()
    };
    if i == els.len() {
        assert(f[i] == e);
        assert(elements_text(f, i + 1, leaves, pos) == Some((Seq::<char>::empty(), pos)));
        match text_of(e, leaves, pos) {
            Some((a, q)) => {
                assert(elements_text(f, i + 1, leaves, q) == Some((Seq::<char>::empty(), q)));
                let lhs = (if i > 0 {
                    ", "@ + a
                } else {
                    a
                }) + Seq::<char>::empty();
                assert(lhs =~= Seq::<char>::empty() + sep + a);
            },
            None => {},
        }
    } else {
        assert(f[i] == els[i]);
        lemma_elements_text_push(els, e, i + 1, leaves, pos);
        match text_of(els[i], leaves, pos) {
            Some((a0, p0)) => {
                lemma_elements_text_push(els, e, i + 1, leaves, p0);
                let h = if i > 0 {
                    ", "@ + a0
                } else {
                    a0
                };
                match elements_text(els, i + 1, leaves, p0) {
                    Some((t1, p1)) => {
                        match text_of(e, leaves, p1) {
                            Some((a, q)) => {
                                assert(h + (t1 + sep + a) =~= (h + t1) + sep + a);
                            },
                            None => {},
                        }
                    },
                    None => {},
                }
            },
            None => {},
        }
    }
}

} // verus!
