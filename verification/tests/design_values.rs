use std::collections::HashMap;

use sv_lang::dataflow::DfaEventKind;
use sv_lang::{
    AnalysisFlags, BinaryOp, DefinitionKind, DriverKind, Error, FreezeReport, Options, SymbolId,
    UnaryOp, Walk,
};

#[test]
fn options_flags_round_trip() {
    let opts = Options::new();
    assert_eq!(opts.flags(), 0);
    assert_eq!(Options::default().flags(), 0);
    let set = opts.with_flags(0x24);
    assert_eq!(set.flags(), 0x24);
    assert_eq!(set.with_flags(1).flags(), 1);
}

#[test]
fn freeze_report_fully_folded() {
    let mut report = FreezeReport {
        symbols_elaborated: 3,
        expressions_visited: 10,
        expressions_folded: 8,
        fold_failures: 0,
        types_canonicalized: 2,
        params_folded: 1,
    };
    assert!(report.fully_folded());
    report.fold_failures = 2;
    assert!(!report.fully_folded());
}

#[test]
fn symbol_id_is_a_map_key() {
    let idx = SymbolId::new("m.x".to_string());
    let idy = SymbolId::new("m.y".to_string());
    assert_eq!(idx.path(), "m.x");
    assert_ne!(idx, idy);
    let mut labels = HashMap::new();
    labels.insert(idx.clone(), "eight");
    labels.insert(idy.clone(), "one");
    assert_eq!(labels[&idx], "eight");
    assert_eq!(labels[&idy], "one");
}

#[test]
fn operators_from_raw_ordinals() {
    assert_eq!(UnaryOp::from_raw(2), Some(UnaryOp::BitwiseNot));
    assert_eq!(UnaryOp::from_raw(0), Some(UnaryOp::Plus));
    assert_eq!(UnaryOp::from_raw(13), Some(UnaryOp::Postdecrement));
    assert_eq!(UnaryOp::from_raw(14), None);
    assert_eq!(UnaryOp::from_raw(999), None);
    assert_eq!(BinaryOp::from_raw(0), Some(BinaryOp::Add));
    assert_eq!(BinaryOp::from_raw(16), Some(BinaryOp::LessThan));
    assert_eq!(BinaryOp::from_raw(27), Some(BinaryOp::Power));
    assert_eq!(BinaryOp::from_raw(28), None);
}

#[test]
fn analysis_flags_combine_and_contain() {
    let flags = AnalysisFlags::check_unused() | AnalysisFlags::check_shadow();
    assert!(flags.contains(AnalysisFlags::check_unused()));
    assert!(flags.contains(AnalysisFlags::check_shadow()));
    assert!(!flags.contains(AnalysisFlags::allow_multi_driven_locals()));
    assert_eq!(AnalysisFlags::none().bits(), 0);
    assert!(AnalysisFlags::check_unused().bits() != 0);
    assert!(AnalysisFlags::none().contains(AnalysisFlags::none()));
    assert!(flags.contains(flags));
    let mut acc = AnalysisFlags::default();
    acc |= AnalysisFlags::full_case_unique_priority();
    acc |= AnalysisFlags::full_case_four_state();
    assert!(acc.contains(AnalysisFlags::full_case_four_state()));
    assert!(!acc.contains(AnalysisFlags::check_unused()));
}

#[test]
fn analysis_flags_are_distinct_bits() {
    let all = [
        AnalysisFlags::check_unused(),
        AnalysisFlags::full_case_unique_priority(),
        AnalysisFlags::full_case_four_state(),
        AnalysisFlags::allow_multi_driven_locals(),
        AnalysisFlags::allow_dup_initial_drivers(),
        AnalysisFlags::check_shadow(),
        AnalysisFlags::inline_cont_assign_function_reads(),
        AnalysisFlags::always_star_uses_lsps(),
        AnalysisFlags::cont_assign_uses_lsps(),
    ];
    for (i, a) in all.iter().enumerate() {
        assert_eq!(a.bits().count_ones(), 1);
        for (j, b) in all.iter().enumerate() {
            assert_eq!(a.contains(*b), i == j);
        }
    }
}

#[test]
fn plain_enums() {
    assert_eq!(DefinitionKind::Interface, DefinitionKind::Interface);
    assert_ne!(DefinitionKind::Module, DefinitionKind::Program);
    assert!(matches!(DriverKind::Continuous, DriverKind::Continuous));
    assert_ne!(Walk::Skip, Walk::Continue);
    assert_ne!(Walk::Break, Walk::Continue);
    assert_eq!(DfaEventKind::Write, DfaEventKind::Write);
    assert_ne!(DfaEventKind::Read, DfaEventKind::Call);
}

#[test]
fn error_texts() {
    let cases = vec![
        (Error::Io("no file".to_string()), "I/O error: no file"),
        (Error::InvalidArgument("w".to_string()), "invalid argument: w"),
        (Error::InvalidState("s".to_string()), "invalid state: s"),
        (Error::ParseRecursion("deep".to_string()), "parser recursion limit: deep"),
        (Error::Rewrite("r".to_string()), "rewrite rejected: r"),
        (Error::OutOfMemory, "out of memory"),
        (Error::Unsupported("u".to_string()), "unsupported: u"),
        (Error::AbiMismatch("v2".to_string()), "ABI mismatch: v2"),
        (Error::Cancelled, "cancelled"),
        (Error::Internal("boom".to_string()), "internal error: boom"),
    ];
    for (e, text) in cases {
        assert_eq!(e.to_string(), text);
        assert_eq!(e.clone().to_string(), text);
    }
    let e = sv_lang::error::invalid_argument("width is zero");
    assert!(matches!(&e, Error::InvalidArgument(m) if m == "width is zero"));
}

#[test]
fn default_flag_sets_are_empty() {
    assert_eq!(AnalysisFlags::default().bits(), 0);
    assert_eq!(sv_lang::PreprocessFlags::default().bits(), 0);
    assert_eq!(AnalysisFlags::default(), AnalysisFlags::none());
}
