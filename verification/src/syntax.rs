//! Steering a syntax-tree walk.
use vstd::prelude::*;

verus! {

/// How a visitor callback steers the traversal.
#[derive(Clone, Copy, Debug, PartialEq, Eq, Structural)]
pub enum Walk {
    /// Descend into this node's children, then continue.
    Continue,
    /// Do not descend into this node's children, but continue the walk.
    Skip,
    /// Stop the whole walk.
    Break,
}

} // verus!
