use sv_lang::diagnostic::{collect_diagnostics, decimal_string, severity_label, BufferText, RawDiagnostic};
use sv_lang::{DiagCode, DiagSeverity, Diagnostic, Diagnostics};

fn code(name: &str) -> DiagCode {
    DiagCode { subsystem: 1, code: 7, name: name.to_string() }
}

fn diag(severity: DiagSeverity, file: &str, source: Option<&str>) -> Diagnostic {
    Diagnostic::new(
        code("UnknownModule"),
        severity,
        "unknown module 'foo'".to_string(),
        3,
        14,
        file.to_string(),
        10,
        3,
        source.map(|s| s.to_string()),
    )
}

fn raw(buffer: u32, offset: u32, first_range: Option<(u32, u32)>) -> RawDiagnostic {
    RawDiagnostic {
        code: code("UndeclaredIdentifier"),
        severity: DiagSeverity::Error,
        message: "use of undeclared identifier 'missing'".to_string(),
        buffer,
        offset,
        file: "top.sv".to_string(),
        line: 2,
        column: 5,
        first_range,
    }
}

#[test]
fn diagnostic_text_with_and_without_file() {
    let d = diag(DiagSeverity::Error, "top.sv", None);
    assert_eq!(d.to_string(), "top.sv:3:14: error: unknown module 'foo'");
    let w = diag(DiagSeverity::Warning, "", None);
    assert_eq!(w.to_string(), "warning: unknown module 'foo'");
}

#[test]
fn decimal_numerals() {
    assert_eq!(decimal_string(0), "0");
    assert_eq!(decimal_string(7), "7");
    assert_eq!(decimal_string(10), "10");
    assert_eq!(decimal_string(1234567890), "1234567890");
    assert_eq!(decimal_string(usize::MAX), usize::MAX.to_string());
}

#[test]
fn severity_words() {
    assert_eq!(severity_label(DiagSeverity::Ignored), "ignored");
    assert_eq!(severity_label(DiagSeverity::Note), "note");
    assert_eq!(severity_label(DiagSeverity::Warning), "warning");
    assert_eq!(severity_label(DiagSeverity::Error), "error");
    assert_eq!(severity_label(DiagSeverity::Fatal), "fatal");
}

#[test]
fn errors_and_spans() {
    let d = diag(DiagSeverity::Fatal, "top.sv", None);
    assert!(d.is_error());
    assert!(diag(DiagSeverity::Error, "", None).is_error());
    assert!(!diag(DiagSeverity::Warning, "", None).is_error());
    assert!(!diag(DiagSeverity::Note, "", None).is_error());
    let span = d.span();
    assert_eq!(span, 10..13);
    assert!(span.end > span.start);
    assert_eq!(d.code_name(), "UnknownModule");
}

#[test]
fn diagnostics_list_counts_errors() {
    let list = Diagnostics::new(
        vec![
            diag(DiagSeverity::Warning, "a.sv", None),
            diag(DiagSeverity::Error, "a.sv", None),
            diag(DiagSeverity::Fatal, "b.sv", None),
            diag(DiagSeverity::Note, "b.sv", None),
        ],
        "rendered text".to_string(),
    );
    assert!(list.has_errors());
    assert_eq!(list.error_count(), 2);
    assert_eq!(list.len(), 4);
    assert_eq!(list.items().len(), 4);
    assert_eq!(list.rendered(), "rendered text");
    let copy = list.clone();
    assert_eq!(copy.error_count(), 2);
    let items = list.into_items();
    assert_eq!(items.len(), 4);
    assert!(items[1].is_error());
}

#[test]
fn empty_list_has_no_errors() {
    let list = Diagnostics::default();
    assert!(!list.has_errors());
    assert_eq!(list.error_count(), 0);
    assert_eq!(list.rendered(), "");
    let warnings = Diagnostics::new(vec![diag(DiagSeverity::Warning, "", None)], String::new());
    assert_eq!(warnings.has_errors(), warnings.error_count() > 0);
}

#[test]
fn ariadne_without_source_is_the_plain_message() {
    let d = diag(DiagSeverity::Error, "top.sv", None);
    assert_eq!(d.to_ariadne_string(), "unknown module 'foo'");
    let list = Diagnostics::new(
        vec![diag(DiagSeverity::Error, "top.sv", None), diag(DiagSeverity::Note, "", None)],
        String::new(),
    );
    assert_eq!(list.to_ariadne_string(), "unknown module 'foo'unknown module 'foo'");
}

#[test]
fn ariadne_with_source_shows_the_location() {
    let src = "module m;\n  foo u();\nendmodule\n";
    let d = Diagnostic::new(
        code("UnknownModule"),
        DiagSeverity::Error,
        "unknown module 'foo'".to_string(),
        2,
        3,
        "top.sv".to_string(),
        12,
        3,
        Some(src.to_string()),
    );
    let text = d.to_ariadne_string();
    assert!(text.contains("unknown module 'foo'"));
    assert!(text.contains("top.sv:2:3"));
    assert!(text.contains("[UnknownModule] Error:"));
    assert!(text.contains(" error"));
    let warning = Diagnostic::new(
        code("UnusedDef"),
        DiagSeverity::Warning,
        "unused".to_string(),
        1,
        1,
        String::new(),
        0,
        6,
        Some(src.to_string()),
    );
    let w = warning.to_ariadne_string();
    assert!(w.contains("[UnusedDef] Warning:"));
    assert!(w.contains("source:1:1"));
    assert!(w.contains("warning"));
    let list = Diagnostics::new(vec![d.clone(), diag(DiagSeverity::Note, "", None)], String::new());
    let all = list.to_ariadne_string();
    let first = all.find("top.sv:2:3").unwrap();
    assert!(all.ends_with("unknown module 'foo'"));
    assert!(first < all.len());
}

#[test]
fn ariadne_with_source_shows_the_message() {
    let d = diag(DiagSeverity::Error, "top.sv", Some("module m; foo u(); endmodule\n"));
    let text = d.to_ariadne_string();
    assert!(!text.is_empty());
    assert!(text.contains("unknown module"));
    assert!(text.contains("UnknownModule"));
    let req = d.report_request();
    assert_eq!(req.source_name, "top.sv");
    assert_eq!((req.start, req.end), (10, 13));
    assert_eq!(req.label, "error");
    let anon = diag(DiagSeverity::Warning, "", Some("x"));
    assert_eq!(anon.report_request().source_name, "source");
}

#[test]
fn collect_uses_the_first_range() {
    let sources = vec![BufferText { buffer: 1, text: "module m; endmodule".to_string() }];
    let list = collect_diagnostics(&[raw(1, 40, Some((5, 9)))], &sources, true, "r".to_string());
    let d = &list.items()[0];
    assert_eq!((d.byte_offset, d.byte_len), (5, 4));
    assert_eq!(d.file, "top.sv");
    assert_eq!((d.line, d.column), (2, 5));
    assert_eq!(d.source.as_deref(), Some("module m; endmodule"));
    assert_eq!(list.rendered(), "r");
}

#[test]
fn collect_point_spans_are_one_byte() {
    let list = collect_diagnostics(
        &[raw(1, 40, None), raw(1, 40, Some((9, 9))), raw(1, 40, Some((9, 3)))],
        &[],
        true,
        String::new(),
    );
    let spans: Vec<(usize, usize)> =
        list.items().iter().map(|d| (d.byte_offset, d.byte_len)).collect();
    assert_eq!(spans, vec![(40, 1), (9, 1), (9, 1)]);
}

#[test]
fn collect_without_a_buffer_has_no_position() {
    let sources = vec![BufferText { buffer: 0, text: "text".to_string() }];
    let list = collect_diagnostics(&[raw(0, 0, None)], &sources, true, String::new());
    let d = &list.items()[0];
    assert_eq!(d.file, "");
    assert_eq!((d.line, d.column), (0, 0));
    assert_eq!(d.source, None);
    assert_eq!(d.to_string(), "error: use of undeclared identifier 'missing'");
}

#[test]
fn collect_source_lookup_rules() {
    let sources = vec![
        BufferText { buffer: 2, text: String::new() },
        BufferText { buffer: 3, text: "first".to_string() },
        BufferText { buffer: 3, text: "second".to_string() },
    ];
    let list = collect_diagnostics(
        &[raw(2, 0, None), raw(3, 0, None), raw(4, 0, None)],
        &sources,
        true,
        String::new(),
    );
    assert_eq!(list.items()[0].source, None);
    assert_eq!(list.items()[1].source.as_deref(), Some("first"));
    assert_eq!(list.items()[2].source, None);
    let no_manager = collect_diagnostics(&[raw(3, 0, None)], &sources, false, String::new());
    assert_eq!(no_manager.items()[0].source, None);
    assert_eq!(no_manager.items()[0].file, "top.sv");
}

#[test]
fn into_result_keeps_only_errors() {
    let list = Diagnostics::new(
        vec![
            diag(DiagSeverity::Warning, "a.sv", None),
            diag(DiagSeverity::Error, "a.sv", None),
            diag(DiagSeverity::Note, "b.sv", None),
            diag(DiagSeverity::Fatal, "b.sv", None),
        ],
        "two errors".to_string(),
    );
    let err = list.into_result().unwrap_err();
    assert_eq!(err.diagnostics.len(), list.error_count());
    assert!(err.diagnostics.iter().all(|d| d.is_error()));
    assert_eq!(err.diagnostics[0].severity, DiagSeverity::Error);
    assert_eq!(err.diagnostics[1].severity, DiagSeverity::Fatal);
    assert_eq!(err.rendered, "two errors");
    assert_eq!(err.to_string(), "two errors");
    assert_eq!(err.clone().diagnostics.len(), 2);
}

#[test]
fn into_result_passes_clean_lists() {
    let list = Diagnostics::new(vec![diag(DiagSeverity::Warning, "a.sv", None)], String::new());
    assert!(list.into_result().is_ok());
    assert!(Diagnostics::default().into_result().is_ok());
}
