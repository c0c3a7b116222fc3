//! Four-state SystemVerilog values and the plain-data vocabulary of a
//! SystemVerilog compiler front end, with verified contracts.
#![allow(unused_imports)]

pub mod ast;
pub mod bit;
pub mod constant;
pub mod dataflow;
pub mod diagnostic;
pub mod driver;
pub mod error;
pub mod literal;
pub mod owned;
pub mod svint;
pub mod syntax;
pub mod value;

pub use ast::{
    AnalysisFlags, BinaryOp, DefinitionKind, DriverKind, FreezeReport, Options, SymbolId, UnaryOp,
};
pub use bit::Bit;
pub use constant::{ConstantKind, ConstantRecord, ConstantValue};
pub use diagnostic::{CompileErrors, DiagCode, DiagSeverity, Diagnostic, Diagnostics};
pub use driver::{
    AnalysisOptions, CommandFileMetadata, LoadedSourceBuffer, OptionKind, ParseOptions,
    PreprocessFlags, SourceOptions,
};
pub use error::Error;
pub use literal::{Digit, LiteralBase};
pub use owned::OwnedSVInt;
pub use svint::SVInt;
pub use syntax::Walk;
