//! The events of a forward dataflow analysis over a procedure.
use vstd::prelude::*;

verus! {

/// The kind of a dataflow event.
#[derive(Clone, Copy, Debug, PartialEq, Eq, Structural)]
pub enum DfaEventKind {
    /// A value symbol was read.
    Read,
    /// A value symbol was written (an assignment's left-hand side).
    Write,
    /// A subroutine was called.
    Call,
}

} // verus!
