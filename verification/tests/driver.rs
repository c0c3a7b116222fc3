use sv_lang::{
    AnalysisOptions, CommandFileMetadata, LoadedSourceBuffer, OptionKind, ParseOptions,
    PreprocessFlags, SourceOptions,
};

#[test]
fn parse_options_round_trip_every_field() {
    // A freshly created ParseOptions has every field false...
    let mut options = ParseOptions::new();
    assert!(!options.support_comments());
    assert!(!options.ignore_program_name());
    assert!(!options.expand_env_vars());
    assert!(!options.ignore_duplicates());

    // ...and each setter flips only its own field, readable back through the
    // matching getter.
    options.set_support_comments(true);
    assert!(options.support_comments());
    assert!(!options.ignore_program_name());
    assert!(!options.expand_env_vars());
    assert!(!options.ignore_duplicates());

    options.set_ignore_program_name(true);
    assert!(options.ignore_program_name());

    options.set_expand_env_vars(true);
    assert!(options.expand_env_vars());

    options.set_ignore_duplicates(true);
    assert!(options.ignore_duplicates());

    // Flipping back to false works too.
    options.set_support_comments(false);
    assert!(!options.support_comments());
}

#[test]
fn parse_options_setters_chain() {
    let mut options = ParseOptions::default();
    options.set_ignore_duplicates(true).set_expand_env_vars(true);
    assert!(options.ignore_duplicates());
    assert!(options.expand_env_vars());
    assert!(!options.support_comments());
    assert!(!options.ignore_program_name());
}

#[test]
fn source_options_defaults_and_round_trips() {
    let mut options = SourceOptions::new();
    assert_eq!(options.num_threads(), None);
    assert!(!options.single_unit());
    assert!(!options.only_lint());
    assert!(!options.libraries_inherit_macros());

    options.set_num_threads(Some(4));
    assert_eq!(options.num_threads(), Some(4));
    options.set_num_threads(None);
    assert_eq!(options.num_threads(), None);

    options.set_single_unit(true);
    assert!(options.single_unit());
    assert!(!options.only_lint());

    options.set_only_lint(true).set_libraries_inherit_macros(true);
    assert!(options.only_lint());
    assert!(options.libraries_inherit_macros());
    assert!(options.single_unit());
    assert_eq!(options.num_threads(), None);

    let fresh = SourceOptions::default();
    assert!(!fresh.single_unit());
}

#[test]
fn preprocess_flags_combine_and_contain() {
    let flags = PreprocessFlags::include_comments() | PreprocessFlags::include_directives();
    assert!(flags.contains(PreprocessFlags::include_comments()));
    assert!(!flags.contains(PreprocessFlags::obfuscate_ids()));
    assert_eq!(flags.bits(), 3);
    assert_eq!(PreprocessFlags::none().bits(), 0);
    assert!(PreprocessFlags::none().contains(PreprocessFlags::none()));

    let mut all = PreprocessFlags::none();
    all |= PreprocessFlags::obfuscate_ids();
    all |= PreprocessFlags::use_fixed_obfuscation_seed();
    all |= PreprocessFlags::include_source_info();
    assert!(all.contains(PreprocessFlags::obfuscate_ids() | PreprocessFlags::include_source_info()));
    assert!(!all.contains(PreprocessFlags::include_comments()));
    assert_eq!(all.bits(), 4 | 8 | 16);
}

#[test]
fn plain_driver_values() {
    let kind = OptionKind::Int;
    assert_eq!(kind, OptionKind::Int);
    assert_ne!(OptionKind::Flag, OptionKind::String);

    let meta = CommandFileMetadata {
        path: "cmd.f".to_string(),
        defines: vec!["A".to_string(), "B=1".to_string()],
    };
    assert_eq!(meta.clone(), meta);
    assert_eq!(meta.defines.len(), 2);

    let opts = AnalysisOptions { flags: 1, max_case_analysis_steps: 10, max_loop_analysis_steps: 20 };
    let copy = opts;
    assert_eq!(copy, opts);

    let buffer = LoadedSourceBuffer { id: 3, text: "module m; endmodule".to_string() };
    assert_eq!(buffer.clone().id, 3);
}
