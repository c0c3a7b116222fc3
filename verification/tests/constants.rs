use sv_lang::{ConstantKind, ConstantValue, Digit, LiteralBase, OwnedSVInt};

fn int_const(value: u8) -> ConstantValue {
    let v = OwnedSVInt::from_digits(8, LiteralBase::Decimal, true, false, &[Digit::Value(value)])
        .unwrap();
    ConstantValue::Integer(v.snapshot())
}

#[test]
fn integer_constant_readings() {
    let c = int_const(7);
    assert_eq!(c.as_i64(), Some(7));
    assert_eq!(c.as_integer().unwrap().bit_width(), 8);
    assert!(c.as_integer().unwrap().is_signed());
    assert!(c.is_true());
    assert!(!c.is_false());
    assert!(c.empty());
    assert!(!c.is_container());
    let zero = int_const(0);
    assert!(zero.is_false());
    assert!(!zero.is_true());
}

#[test]
fn real_constant_truthiness() {
    let one = ConstantValue::Real(1.5f64.to_bits());
    assert!(one.is_true());
    assert!(!one.is_false());
    assert_eq!(one.as_real_bits().map(f64::from_bits), Some(1.5));
    let zero = ConstantValue::Real(0.0f64.to_bits());
    assert!(zero.is_false());
    assert!(!zero.is_true());
    let negative_zero = ConstantValue::Real((-0.0f64).to_bits());
    assert!(negative_zero.is_false());
    assert!(!negative_zero.is_true());
    assert_eq!(one.as_i64(), None);
    assert!(one.empty());
}

#[test]
fn string_constants() {
    let s = ConstantValue::String("hi".to_string());
    assert_eq!(s.as_str(), Some("hi"));
    assert!(s.is_true());
    assert!(!s.is_false());
    assert!(!s.empty());
    let e = ConstantValue::String(String::new());
    assert!(e.empty());
    assert!(e.is_false());
    assert!(!e.is_true());
    assert_eq!(int_const(1).as_str(), None);
}

#[test]
fn scalar_kinds() {
    assert!(ConstantValue::Null.is_false());
    assert!(!ConstantValue::Null.is_true());
    assert!(ConstantValue::Unbounded.is_true());
    assert!(!ConstantValue::Unbounded.is_false());
    assert!(!ConstantValue::Bad.is_true());
    assert!(!ConstantValue::Bad.is_false());
    assert!(ConstantValue::Bad.empty());
    let u = ConstantValue::Union("'{a:1}".to_string());
    assert!(!u.is_container());
    assert!(u.empty());
    assert!(!u.is_true() && !u.is_false());
}

#[test]
fn containers() {
    let arr = ConstantValue::Array(vec![int_const(1), int_const(2)]);
    assert!(arr.is_container());
    assert!(!arr.empty());
    assert!(!arr.is_true());
    assert!(!arr.is_false());
    assert_eq!(arr.as_array().unwrap().len(), 2);
    assert_eq!(arr.as_array().unwrap()[1].as_i64(), Some(2));
    let empty = ConstantValue::Array(Vec::new());
    assert!(empty.empty());
    let map = ConstantValue::AssocArray("'{}".to_string(), true);
    assert!(map.is_container());
    assert!(map.empty());
    let full = ConstantValue::AssocArray("'{0:1}".to_string(), false);
    assert!(!full.empty());
    assert_eq!(int_const(3).as_array(), None);
}

#[test]
fn constant_clone_is_equal() {
    let arr = ConstantValue::Array(vec![int_const(1), ConstantValue::String("x".to_string())]);
    let copy = arr.clone();
    assert_eq!(copy, arr);
    let nested = ConstantValue::Array(vec![arr.clone(), ConstantValue::Null]);
    assert_eq!(nested.clone(), nested);
}

#[test]
fn constants_are_never_both_true_and_false() {
    let all = vec![
        int_const(0),
        int_const(5),
        ConstantValue::Real(0),
        ConstantValue::Real(2.0f64.to_bits()),
        ConstantValue::String(String::new()),
        ConstantValue::String("a".to_string()),
        ConstantValue::Null,
        ConstantValue::Unbounded,
        ConstantValue::Array(Vec::new()),
        ConstantValue::AssocArray(String::new(), true),
        ConstantValue::Union(String::new()),
        ConstantValue::Bad,
    ];
    for c in &all {
        assert!(!(c.is_true() && c.is_false()));
    }
}

fn record(kind: ConstantKind) -> sv_lang::ConstantRecord {
    sv_lang::ConstantRecord {
        kind,
        integer: None,
        real_bits: 2.5f64.to_bits(),
        text: "txt".to_string(),
        is_empty: true,
        elements: vec![Some(ConstantValue::Null), None, Some(ConstantValue::Unbounded)],
    }
}

#[test]
fn read_dispatches_on_kind() {
    assert_eq!(ConstantValue::read(record(ConstantKind::Integer)), ConstantValue::Bad);
    let mut with_int = record(ConstantKind::Integer);
    let snap = match int_const(9) {
        ConstantValue::Integer(v) => v,
        _ => unreachable!(),
    };
    with_int.integer = Some(snap.clone());
    assert_eq!(ConstantValue::read(with_int), ConstantValue::Integer(snap));
    assert_eq!(ConstantValue::read(record(ConstantKind::Real)), ConstantValue::Real(2.5f64.to_bits()));
    assert_eq!(ConstantValue::read(record(ConstantKind::ShortReal)), ConstantValue::Real(2.5f64.to_bits()));
    assert_eq!(ConstantValue::read(record(ConstantKind::String)), ConstantValue::String("txt".to_string()));
    assert_eq!(ConstantValue::read(record(ConstantKind::Null)), ConstantValue::Null);
    assert_eq!(ConstantValue::read(record(ConstantKind::Unbounded)), ConstantValue::Unbounded);
    assert_eq!(
        ConstantValue::read(record(ConstantKind::Queue)),
        ConstantValue::Array(vec![ConstantValue::Null, ConstantValue::Unbounded])
    );
    assert_eq!(
        ConstantValue::read(record(ConstantKind::Unpacked)),
        ConstantValue::Array(vec![ConstantValue::Null, ConstantValue::Unbounded])
    );
    assert_eq!(
        ConstantValue::read(record(ConstantKind::AssocArray)),
        ConstantValue::AssocArray("txt".to_string(), true)
    );
    assert_eq!(ConstantValue::read(record(ConstantKind::Union)), ConstantValue::Union("txt".to_string()));
    assert_eq!(ConstantValue::read(record(ConstantKind::Other)), ConstantValue::Bad);
}

#[test]
fn constants_print_with_leaf_texts() {
    let arr = ConstantValue::Array(vec![
        int_const(1),
        ConstantValue::String("hi".to_string()),
        ConstantValue::Array(vec![ConstantValue::Real(0), ConstantValue::Null]),
        ConstantValue::Unbounded,
        ConstantValue::Bad,
    ]);
    let leaves = vec!["8'sd1".to_string(), "0".to_string()];
    assert_eq!(
        arr.to_string_with(&leaves),
        Some("'{8'sd1, \"hi\", '{0, null}, $, <bad>}".to_string())
    );
    assert_eq!(arr.to_string_with(&leaves[..1]), None);
    assert_eq!(ConstantValue::Array(Vec::new()).to_string_with(&[]), Some("'{}".to_string()));
    assert_eq!(ConstantValue::Union("u".to_string()).to_string_with(&[]), Some("u".to_string()));
    assert_eq!(
        ConstantValue::AssocArray("m".to_string(), false).to_string_with(&[]),
        Some("m".to_string())
    );
}
