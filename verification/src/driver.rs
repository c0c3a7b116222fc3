//! Plain values of the command-line driver: option kinds, command-file
//! metadata, analysis options, parse and source options, preprocessor flags
//! and loaded source buffers.
use vstd::prelude::*;
use vstd::std_specs::ops::BitOrSpecImpl;

verus! {

/// The value type of a custom command-line option.
#[derive(Clone, Copy, Debug, PartialEq, Eq, Structural)]
pub enum OptionKind {
    /// A boolean switch (`--flag` / `--no-flag`).
    Flag,
    /// An integer value.
    Int,
    /// A string value.
    String,
}

/// One command file's metadata.
#[derive(Debug, Clone, PartialEq, Eq)]
pub struct CommandFileMetadata {
    /// The canonical path of the command file.
    pub path: String,
    /// The raw `-D` defines this command file contributed, as the file
    /// spelled them (`"NAME"` or `"NAME=VALUE"`).
    pub defines: Vec<String>,
}

/// A snapshot of the analysis options a driver's configured flags produce.
#[derive(Debug, Clone, Copy, PartialEq, Eq, Structural)]
pub struct AnalysisOptions {
    /// Bitmask of analysis flags.
    pub flags: u32,
    /// The maximum number of case analysis steps to perform before giving up.
    pub max_case_analysis_steps: u32,
    /// The maximum number of loop analysis steps to perform before giving up.
    pub max_loop_analysis_steps: u32,
}

/// The four switches of [`ParseOptions`].
pub struct ParseSwitches {
    pub support_comments: bool,
    pub ignore_program_name: bool,
    pub expand_env_vars: bool,
    pub ignore_duplicates: bool,
}

/// Options controlling how a command line is tokenized and parsed. Every
/// option defaults to `false`.
#[derive(Debug)]
pub struct ParseOptions {
    support_comments: bool,
    ignore_program_name: bool,
    expand_env_vars: bool,
    ignore_duplicates: bool,
}

impl View for ParseOptions {
    type V = ParseSwitches;

    closed spec fn view(&self) -> ParseSwitches {
        ParseSwitches {
            support_comments: self.support_comments,
            ignore_program_name: self.ignore_program_name,
            expand_env_vars: self.expand_env_vars,
            ignore_duplicates: self.ignore_duplicates,
        }
    }
}

impl Default for ParseOptions {
    /// Every option `false`.
    fn default() -> (r: ParseOptions)
        ensures
            r@ == (ParseSwitches {
                support_comments: false,
                ignore_program_name: false,
                expand_env_vars: false,
                ignore_duplicates: false,
            }),
    {
        ParseOptions::new()
    }
}

impl ParseOptions {
    /// A parse-options set with every option `false`.
    pub fn new() -> (r: ParseOptions)
        ensures
            r@ == (ParseSwitches {
                support_comments: false,
                ignore_program_name: false,
                expand_env_vars: false,
                ignore_duplicates: false,
            }),
    {
        ParseOptions {
            support_comments: false,
            ignore_program_name: false,
            expand_env_vars: false,
            ignore_duplicates: false,
        }
    }

    /// If set, comments (`#`/`//` line comments, `/* */` block comments)
    /// are parsed and ignored rather than treated as arguments. Changes no
    /// other option.
    pub fn set_support_comments(&mut self, value: bool) -> (r: &mut ParseOptions)
        ensures
            r@ == (ParseSwitches { support_comments: value, ..old(self)@ }),
            final(self)@ == final(r)@,
    {
        self.support_comments = value;
        self
    }

    /// Whether [`set_support_comments`](Self::set_support_comments) is set.
    pub fn support_comments(&self) -> (r: bool)
        ensures
            r == self@.support_comments,
    {
        self.support_comments
    }

    /// If set, the first argument is not taken to be the program name.
    /// Changes no other option.
    pub fn set_ignore_program_name(&mut self, value: bool) -> (r: &mut ParseOptions)
        ensures
            r@ == (ParseSwitches { ignore_program_name: value, ..old(self)@ }),
            final(self)@ == final(r)@,
    {
        self.ignore_program_name = value;
        self
    }

    /// Whether [`set_ignore_program_name`](Self::set_ignore_program_name) is
    /// set.
    pub fn ignore_program_name(&self) -> (r: bool)
        ensures
            r == self@.ignore_program_name,
    {
        self.ignore_program_name
    }

    /// If set, environment variables in arguments are expanded. Changes no
    /// other option.
    pub fn set_expand_env_vars(&mut self, value: bool) -> (r: &mut ParseOptions)
        ensures
            r@ == (ParseSwitches { expand_env_vars: value, ..old(self)@ }),
            final(self)@ == final(r)@,
    {
        self.expand_env_vars = value;
        self
    }

    /// Whether [`set_expand_env_vars`](Self::set_expand_env_vars) is set.
    pub fn expand_env_vars(&self) -> (r: bool)
        ensures
            r == self@.expand_env_vars,
    {
        self.expand_env_vars
    }

    /// If set, a scalar option given more than once keeps its first value
    /// instead of being rejected. Changes no other option.
    pub fn set_ignore_duplicates(&mut self, value: bool) -> (r: &mut ParseOptions)
        ensures
            r@ == (ParseSwitches { ignore_duplicates: value, ..old(self)@ }),
            final(self)@ == final(r)@,
    {
        self.ignore_duplicates = value;
        self
    }

    /// Whether [`set_ignore_duplicates`](Self::set_ignore_duplicates) is set.
    pub fn ignore_duplicates(&self) -> (r: bool)
        ensures
            r == self@.ignore_duplicates,
    {
        self.ignore_duplicates
    }
}

/// The settings of [`SourceOptions`].
pub struct SourceSettings {
    pub num_threads: Option<u32>,
    pub single_unit: bool,
    pub only_lint: bool,
    pub libraries_inherit_macros: bool,
}

/// Options controlling how sources are loaded and parsed: `num_threads`
/// unset and every `bool` option `false` by default.
#[derive(Debug)]
pub struct SourceOptions {
    num_threads: Option<u32>,
    single_unit: bool,
    only_lint: bool,
    libraries_inherit_macros: bool,
}

impl View for SourceOptions {
    type V = SourceSettings;

    closed spec fn view(&self) -> SourceSettings {
        SourceSettings {
            num_threads: self.num_threads,
            single_unit: self.single_unit,
            only_lint: self.only_lint,
            libraries_inherit_macros: self.libraries_inherit_macros,
        }
    }
}

impl Default for SourceOptions {
    /// `num_threads` unset, every `bool` option `false`.
    fn default() -> (r: SourceOptions)
        ensures
            r@ == (SourceSettings {
                num_threads: None,
                single_unit: false,
                only_lint: false,
                libraries_inherit_macros: false,
            }),
    {
        SourceOptions::new()
    }
}

impl SourceOptions {
    /// A source-options set with `num_threads` unset and every `bool`
    /// option `false`.
    pub fn new() -> (r: SourceOptions)
        ensures
            r@ == (SourceSettings {
                num_threads: None,
                single_unit: false,
                only_lint: false,
                libraries_inherit_macros: false,
            }),
    {
        SourceOptions {
            num_threads: None,
            single_unit: false,
            only_lint: false,
            libraries_inherit_macros: false,
        }
    }

    /// Sets the number of threads to use for loading and parsing; `None`
    /// lets the loader pick. Changes no other option.
    pub fn set_num_threads(&mut self, value: Option<u32>) -> (r: &mut SourceOptions)
        ensures
            r@ == (SourceSettings { num_threads: value, ..old(self)@ }),
            final(self)@ == final(r)@,
    {
        self.num_threads = value;
        self
    }

    /// The value set by [`set_num_threads`](Self::set_num_threads).
    pub fn num_threads(&self) -> (r: Option<u32>)
        ensures
            r == self@.num_threads,
    {
        self.num_threads
    }

    /// If set, all source files are treated as one compilation unit.
    /// Changes no other option.
    pub fn set_single_unit(&mut self, value: bool) -> (r: &mut SourceOptions)
        ensures
            r@ == (SourceSettings { single_unit: value, ..old(self)@ }),
            final(self)@ == final(r)@,
    {
        self.single_unit = value;
        self
    }

    /// Whether [`set_single_unit`](Self::set_single_unit) is set.
    pub fn single_unit(&self) -> (r: bool)
        ensures
            r == self@.single_unit,
    {
        self.single_unit
    }

    /// If set, only lint the code rather than elaborating a full hierarchy.
    /// Changes no other option.
    pub fn set_only_lint(&mut self, value: bool) -> (r: &mut SourceOptions)
        ensures
            r@ == (SourceSettings { only_lint: value, ..old(self)@ }),
            final(self)@ == final(r)@,
    {
        self.only_lint = value;
        self
    }

    /// Whether [`set_only_lint`](Self::set_only_lint) is set.
    pub fn only_lint(&self) -> (r: bool)
        ensures
            r == self@.only_lint,
    {
        self.only_lint
    }

    /// If set, library files inherit macro definitions from primary source
    /// files. Changes no other option.
    pub fn set_libraries_inherit_macros(&mut self, value: bool) -> (r: &mut SourceOptions)
        ensures
            r@ == (SourceSettings { libraries_inherit_macros: value, ..old(self)@ }),
            final(self)@ == final(r)@,
    {
        self.libraries_inherit_macros = value;
        self
    }

    /// Whether [`set_libraries_inherit_macros`](Self::set_libraries_inherit_macros)
    /// is set.
    pub fn libraries_inherit_macros(&self) -> (r: bool)
        ensures
            r == self@.libraries_inherit_macros,
    {
        self.libraries_inherit_macros
    }
}

/// Flags controlling the preprocessor's output, single bits combined with
/// `|`.
#[derive(Clone, Copy, Debug, PartialEq, Eq, Structural)]
pub struct PreprocessFlags(u32);

impl Default for PreprocessFlags {
    /// The empty set of flags.
    fn default() -> (r: PreprocessFlags)
        ensures
            r@ == 0,
    {
        PreprocessFlags(0)
    }
}

impl View for PreprocessFlags {
    type V = u32;

    closed spec fn view(&self) -> u32 {
        self.0
    }
}

impl PreprocessFlags {
    /// No flags: comments and directives stripped, identifiers untouched.
    pub fn none() -> (r: PreprocessFlags)
        ensures
            r@ == 0,
    {
        PreprocessFlags(0)
    }

    /// Include comments in the output (otherwise stripped).
    pub fn include_comments() -> (r: PreprocessFlags)
        ensures
            r@ == 1,
    {
        PreprocessFlags(1)
    }

    /// Include preprocessor directives in the output (otherwise stripped).
    pub fn include_directives() -> (r: PreprocessFlags)
        ensures
            r@ == 2,
    {
        PreprocessFlags(2)
    }

    /// Obfuscate identifiers by replacing them with randomized
    /// alphanumeric strings.
    pub fn obfuscate_ids() -> (r: PreprocessFlags)
        ensures
            r@ == 4,
    {
        PreprocessFlags(4)
    }

    /// With [`obfuscate_ids`](Self::obfuscate_ids), use a fixed seed so
    /// obfuscated names are reproducible across runs.
    pub fn use_fixed_obfuscation_seed() -> (r: PreprocessFlags)
        ensures
            r@ == 8,
    {
        PreprocessFlags(8)
    }

    /// Include source line information in the output.
    pub fn include_source_info() -> (r: PreprocessFlags)
        ensures
            r@ == 16,
    {
        PreprocessFlags(16)
    }

    /// The raw bitmask.
    pub fn bits(self) -> (r: u32)
        ensures
            r == self@,
    {
        self.0
    }

    /// True if all of `other`'s flags are set in `self`.
    pub fn contains(self, other: PreprocessFlags) -> (r: bool)
        ensures
            r == (self@ & other@ == other@),
    {
        self.0 & other.0 == other.0
    }
}

impl core::ops::BitOr for PreprocessFlags {
    type Output = PreprocessFlags;

    /// The union of two flag sets.
    fn bitor(self, rhs: PreprocessFlags) -> (r: PreprocessFlags)
        ensures
            r@ == self@ | rhs@,
    {
        PreprocessFlags(self.0 | rhs.0)
    }
}

impl BitOrSpecImpl for PreprocessFlags {
    open spec fn obeys_bitor_spec() -> bool {
        true
    }

    open spec fn bitor_req(self, rhs: PreprocessFlags) -> bool {
        true
    }

    closed spec fn bitor_spec(self, rhs: PreprocessFlags) -> PreprocessFlags {
        PreprocessFlags(self.0 | rhs.0)
    }
}

impl core::ops::BitOrAssign for PreprocessFlags {
    /// Adds `rhs`'s flags to `self`.
    fn bitor_assign(&mut self, rhs: PreprocessFlags)
        ensures
            final(self)@ == old(self)@ | rhs@,
    {
        self.0 = self.0 | rhs.0;
    }
}

/// The union of two preprocessor flag sets contains each of them.
pub proof fn lemma_preprocess_union_contains(a: PreprocessFlags, b: PreprocessFlags)
    ensures
        (a@ | b@) & a@ == a@,
        (a@ | b@) & b@ == b@,
{
    let x = a@;
    let y = b@;
    assert((x | y) & x == x) by (bit_vector);
    assert((x | y) & y == y) by (bit_vector);
}

/// One loaded source buffer: its assigned buffer ID and its text.
#[derive(Debug, Clone)]
pub struct LoadedSourceBuffer {
    /// The buffer ID the source manager assigned.
    pub id: u32,
    /// The buffer's source text.
    pub text: String,
}

/// Every flag set contains itself and the empty set.
pub proof fn lemma_preprocess_contains_basics(a: PreprocessFlags)
    ensures
        a@ & a@ == a@,
        a@ & 0u32 == 0u32,
{
    let x = a@;
    assert(x & x == x) by (bit_vector);
    assert(x & 0u32 == 0u32) by (bit_vector);
}

} // verus!
