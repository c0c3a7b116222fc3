//! Plain values of the elaborated design: compilation options, the freeze
//! report, stable symbol ids, operator and kind enums, and analysis flags.
use vstd::prelude::*;
use vstd::std_specs::ops::BitOrSpecImpl;

verus! {

/// Bits controlling how a compilation is built, matching the compiler's
/// `CompilationFlags`.
#[derive(Clone, Copy, Debug)]
pub struct Options {
    flags: u32,
}

impl View for Options {
    type V = u32;

    closed spec fn view(&self) -> u32 {
        self.flags
    }
}

impl Default for Options {
    /// Default options: no flag set.
    fn default() -> (r: Options)
        ensures
            r@ == 0,
    {
        Options { flags: 0 }
    }
}

impl Options {
    /// Default options: no flag set.
    pub fn new() -> (r: Options)
        ensures
            r@ == 0,
    {
        Options { flags: 0 }
    }

    /// Sets the raw `CompilationFlags` bitmask, replacing any earlier one.
    pub fn with_flags(self, flags: u32) -> (r: Options)
        ensures
            r@ == flags,
    {
        let mut s = self;
        s.flags = flags;
        s
    }

    /// The raw `CompilationFlags` bitmask.
    pub fn flags(&self) -> (r: u32)
        ensures
            r == self@,
    {
        self.flags
    }
}

/// What freezing a design did: the counters of its elaboration and prefold
/// sweeps.
#[derive(Clone, Copy, Debug)]
pub struct FreezeReport {
    /// Symbols visited by the elaboration sweep.
    pub symbols_elaborated: u64,
    /// Expressions visited by the prefold sweep.
    pub expressions_visited: u64,
    /// Expressions that now carry a cached constant value.
    pub expressions_folded: u64,
    /// Expressions the prefold sweep could not attempt or that threw.
    pub fold_failures: u64,
    /// Declared/canonical type memos forced by the sweep.
    pub types_canonicalized: u64,
    /// Parameter/specparam constant values forced by the sweep.
    pub params_folded: u64,
}

impl FreezeReport {
    /// True if every reachable expression was folded or proven
    /// non-constant, i.e. there were no fold failures.
    pub fn fully_folded(&self) -> (r: bool)
        ensures
            r == (self.fold_failures == 0),
    {
        self.fold_failures == 0
    }
}

/// A stable identifier for a symbol: its hierarchical path, usable as a map
/// key and across a design rebuild.
#[derive(Clone, PartialEq, Eq, Hash, Debug)]
pub struct SymbolId(String);

impl View for SymbolId {
    type V = Seq<char>;

    closed spec fn view(&self) -> Seq<char> {
        self.0@
    }
}

impl SymbolId {
    /// The id of the symbol at hierarchical path `path` (e.g. `"m.x"`).
    pub fn new(path: String) -> (r: SymbolId)
        ensures
            r@ == path@,
    {
        SymbolId(path)
    }

    /// The hierarchical path this id is built from.
    pub fn path(&self) -> (r: &str)
        ensures
            r@ == self@,
    {
        self.0.as_str()
    }
}

/// The kind of a definition.
#[derive(Clone, Copy, Debug, PartialEq, Eq, Structural)]
pub enum DefinitionKind {
    /// A `module`.
    Module,
    /// An `interface`.
    Interface,
    /// A `program`.
    Program,
}

/// A SystemVerilog unary operator; its ordinal is the compiler's `UnaryOperator`.
#[derive(Clone, Copy, Debug, PartialEq, Eq, Structural)]
#[allow(missing_docs)]
pub enum UnaryOp {
    Plus,
    Minus,
    BitwiseNot,
    BitwiseAnd,
    BitwiseOr,
    BitwiseXor,
    BitwiseNand,
    BitwiseNor,
    BitwiseXnor,
    LogicalNot,
    Preincrement,
    Predecrement,
    Postincrement,
    Postdecrement,
}

/// The ordinal of a unary operator: its position in declaration order.
pub open spec fn unary_ordinal(op: UnaryOp) -> u32 {
    match op {
        UnaryOp::Plus => 0,
        UnaryOp::Minus => 1,
        UnaryOp::BitwiseNot => 2,
        UnaryOp::BitwiseAnd => 3,
        UnaryOp::BitwiseOr => 4,
        UnaryOp::BitwiseXor => 5,
        UnaryOp::BitwiseNand => 6,
        UnaryOp::BitwiseNor => 7,
        UnaryOp::BitwiseXnor => 8,
        UnaryOp::LogicalNot => 9,
        UnaryOp::Preincrement => 10,
        UnaryOp::Predecrement => 11,
        UnaryOp::Postincrement => 12,
        UnaryOp::Postdecrement => 13,
    }
}

impl UnaryOp {
    /// The operator with raw ordinal `v`, or `None` if there is none.
    pub fn from_raw(v: u32) -> (r: Option<UnaryOp>)
        ensures
            r is Some <==> v < 14,
            r matches Some(op) ==> unary_ordinal(op) == v,
    {
        match v {
            0 => Some(UnaryOp::Plus),
            1 => Some(UnaryOp::Minus),
            2 => Some(UnaryOp::BitwiseNot),
            3 => Some(UnaryOp::BitwiseAnd),
            4 => Some(UnaryOp::BitwiseOr),
            5 => Some(UnaryOp::BitwiseXor),
            6 => Some(UnaryOp::BitwiseNand),
            7 => Some(UnaryOp::BitwiseNor),
            8 => Some(UnaryOp::BitwiseXnor),
            9 => Some(UnaryOp::LogicalNot),
            10 => Some(UnaryOp::Preincrement),
            11 => Some(UnaryOp::Predecrement),
            12 => Some(UnaryOp::Postincrement),
            13 => Some(UnaryOp::Postdecrement),
            _ => None,
        }
    }
}

/// A SystemVerilog binary operator; its ordinal is the compiler's `BinaryOperator`.
#[derive(Clone, Copy, Debug, PartialEq, Eq, Structural)]
#[allow(missing_docs)]
pub enum BinaryOp {
    Add,
    Subtract,
    Multiply,
    Divide,
    Mod,
    BinaryAnd,
    BinaryOr,
    BinaryXor,
    BinaryXnor,
    Equality,
    Inequality,
    CaseEquality,
    CaseInequality,
    GreaterThanEqual,
    GreaterThan,
    LessThanEqual,
    LessThan,
    WildcardEquality,
    WildcardInequality,
    LogicalAnd,
    LogicalOr,
    LogicalImplication,
    LogicalEquivalence,
    LogicalShiftLeft,
    LogicalShiftRight,
    ArithmeticShiftLeft,
    ArithmeticShiftRight,
    Power,
}

/// The ordinal of a binary operator: its position in declaration order.
pub open spec fn binary_ordinal(op: BinaryOp) -> u32 {
    match op {
        BinaryOp::Add => 0,
        BinaryOp::Subtract => 1,
        BinaryOp::Multiply => 2,
        BinaryOp::Divide => 3,
        BinaryOp::Mod => 4,
        BinaryOp::BinaryAnd => 5,
        BinaryOp::BinaryOr => 6,
        BinaryOp::BinaryXor => 7,
        BinaryOp::BinaryXnor => 8,
        BinaryOp::Equality => 9,
        BinaryOp::Inequality => 10,
        BinaryOp::CaseEquality => 11,
        BinaryOp::CaseInequality => 12,
        BinaryOp::GreaterThanEqual => 13,
        BinaryOp::GreaterThan => 14,
        BinaryOp::LessThanEqual => 15,
        BinaryOp::LessThan => 16,
        BinaryOp::WildcardEquality => 17,
        BinaryOp::WildcardInequality => 18,
        BinaryOp::LogicalAnd => 19,
        BinaryOp::LogicalOr => 20,
        BinaryOp::LogicalImplication => 21,
        BinaryOp::LogicalEquivalence => 22,
        BinaryOp::LogicalShiftLeft => 23,
        BinaryOp::LogicalShiftRight => 24,
        BinaryOp::ArithmeticShiftLeft => 25,
        BinaryOp::ArithmeticShiftRight => 26,
        BinaryOp::Power => 27,
    }
}

impl BinaryOp {
    /// The operator with raw ordinal `v`, or `None` if there is none.
    pub fn from_raw(v: u32) -> (r: Option<BinaryOp>)
        ensures
            r is Some <==> v < 28,
            r matches Some(op) ==> binary_ordinal(op) == v,
    {
        match v {
            0 => Some(BinaryOp::Add),
            1 => Some(BinaryOp::Subtract),
            2 => Some(BinaryOp::Multiply),
            3 => Some(BinaryOp::Divide),
            4 => Some(BinaryOp::Mod),
            5 => Some(BinaryOp::BinaryAnd),
            6 => Some(BinaryOp::BinaryOr),
            7 => Some(BinaryOp::BinaryXor),
            8 => Some(BinaryOp::BinaryXnor),
            9 => Some(BinaryOp::Equality),
            10 => Some(BinaryOp::Inequality),
            11 => Some(BinaryOp::CaseEquality),
            12 => Some(BinaryOp::CaseInequality),
            13 => Some(BinaryOp::GreaterThanEqual),
            14 => Some(BinaryOp::GreaterThan),
            15 => Some(BinaryOp::LessThanEqual),
            16 => Some(BinaryOp::LessThan),
            17 => Some(BinaryOp::WildcardEquality),
            18 => Some(BinaryOp::WildcardInequality),
            19 => Some(BinaryOp::LogicalAnd),
            20 => Some(BinaryOp::LogicalOr),
            21 => Some(BinaryOp::LogicalImplication),
            22 => Some(BinaryOp::LogicalEquivalence),
            23 => Some(BinaryOp::LogicalShiftLeft),
            24 => Some(BinaryOp::LogicalShiftRight),
            25 => Some(BinaryOp::ArithmeticShiftLeft),
            26 => Some(BinaryOp::ArithmeticShiftRight),
            27 => Some(BinaryOp::Power),
            _ => None,
        }
    }
}

/// Which analysis passes to run, as a set of single-bit flags combined
/// with `|`.
#[derive(Clone, Copy, Debug, PartialEq, Eq, Structural)]
pub struct AnalysisFlags(u32);

impl Default for AnalysisFlags {
    /// The empty set of flags.
    fn default() -> (r: AnalysisFlags)
        ensures
            r@ == 0,
    {
        AnalysisFlags(0)
    }
}

impl View for AnalysisFlags {
    type V = u32;

    closed spec fn view(&self) -> u32 {
        self.0
    }
}

impl AnalysisFlags {
    /// No passes.
    pub fn none() -> (r: AnalysisFlags)
        ensures
            r@ == 0,
    {
        AnalysisFlags(0)
    }
    /// Report unused code (nets, variables, parameters, imports, ...).
    pub fn check_unused() -> (r: AnalysisFlags)
        ensures
            r@ == 1,
    {
        AnalysisFlags(1)
    }
    /// Treat `unique`/`priority` case statements as full.
    pub fn full_case_unique_priority() -> (r: AnalysisFlags)
        ensures
            r@ == 2,
    {
        AnalysisFlags(2)
    }
    /// Consider four-state values in full-case analysis.
    pub fn full_case_four_state() -> (r: AnalysisFlags)
        ensures
            r@ == 4,
    {
        AnalysisFlags(4)
    }
    /// Allow multiple drivers on local variables.
    pub fn allow_multi_driven_locals() -> (r: AnalysisFlags)
        ensures
            r@ == 8,
    {
        AnalysisFlags(8)
    }
    /// Allow duplicate `initial` drivers.
    pub fn allow_dup_initial_drivers() -> (r: AnalysisFlags)
        ensures
            r@ == 16,
    {
        AnalysisFlags(16)
    }
    /// Warn on variables that shadow an outer declaration.
    pub fn check_shadow() -> (r: AnalysisFlags)
        ensures
            r@ == 32,
    {
        AnalysisFlags(32)
    }
    /// Inline reads within functions called from a continuous assignment
    /// into the assignment's implicit sensitivity read-set.
    pub fn inline_cont_assign_function_reads() -> (r: AnalysisFlags)
        ensures
            r@ == 64,
    {
        AnalysisFlags(64)
    }
    /// `always @*` uses longest-static-prefix ranges for its implicit
    /// sensitivity list.
    pub fn always_star_uses_lsps() -> (r: AnalysisFlags)
        ensures
            r@ == 128,
    {
        AnalysisFlags(128)
    }
    /// Continuous assignments use longest-static-prefix ranges for their
    /// implicit sensitivity list.
    pub fn cont_assign_uses_lsps() -> (r: AnalysisFlags)
        ensures
            r@ == 256,
    {
        AnalysisFlags(256)
    }

    /// The raw bitmask.
    pub fn bits(self) -> (r: u32)
        ensures
            r == self@,
    {
        self.0
    }

    /// True if all of `other`'s flags are set in `self`.
    pub fn contains(self, other: AnalysisFlags) -> (r: bool)
        ensures
            r == (self@ & other@ == other@),
    {
        self.0 & other.0 == other.0
    }
}

impl core::ops::BitOr for AnalysisFlags {
    type Output = AnalysisFlags;

    /// The union of two flag sets.
    fn bitor(self, rhs: AnalysisFlags) -> (r: AnalysisFlags)
        ensures
            r@ == self@ | rhs@,
    {
        AnalysisFlags(self.0 | rhs.0)
    }
}

impl BitOrSpecImpl for AnalysisFlags {
    open spec fn obeys_bitor_spec() -> bool {
        true
    }

    open spec fn bitor_req(self, rhs: AnalysisFlags) -> bool {
        true
    }

    closed spec fn bitor_spec(self, rhs: AnalysisFlags) -> AnalysisFlags {
        AnalysisFlags(self.0 | rhs.0)
    }
}

impl core::ops::BitOrAssign for AnalysisFlags {
    /// Adds `rhs`'s flags to `self`.
    fn bitor_assign(&mut self, rhs: AnalysisFlags)
        ensures
            final(self)@ == old(self)@ | rhs@,
    {
        self.0 = self.0 | rhs.0;
    }
}

/// The union of two flag sets contains each of them.
pub proof fn lemma_analysis_union_contains(a: AnalysisFlags, b: AnalysisFlags)
    ensures
        (a@ | b@) & a@ == a@,
        (a@ | b@) & b@ == b@,
{
    let x = a@;
    let y = b@;
    assert((x | y) & x == x) by (bit_vector);
    assert((x | y) & y == y) by (bit_vector);
}

/// How a value is driven.
#[derive(Clone, Copy, Debug, PartialEq, Eq, Structural)]
pub enum DriverKind {
    /// A procedural assignment (inside `always`/`initial`/a task/function).
    Procedural,
    /// A continuous assignment or a port/net connection.
    Continuous,
    /// Any other kind of driver.
    Other,
}

/// Every flag set contains itself and the empty set.
pub proof fn lemma_analysis_contains_basics(a: AnalysisFlags)
    ensures
        a@ & a@ == a@,
        a@ & 0u32 == 0u32,
{
    let x = a@;
    assert(x & x == x) by (bit_vector);
    assert(x & 0u32 == 0u32) by (bit_vector);
}

} // verus!
