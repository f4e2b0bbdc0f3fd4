use vstd::prelude::*;

verus! {

/// Every fallible operation of the library reports one of these kinds.
///
/// Invalid shapes never produce wrong-shaped output: the operation returns
/// `ShapeMismatch` instead. `OutOfBounds` is for indexing past a shape,
/// `UnimplementedOptimizer` for update rules that are declared but not
/// implemented, and `EmptyQueue` for a backward pass with no pending
/// forward pass.
#[derive(Clone, Copy, Debug, PartialEq, Eq, Structural)]
pub enum AxisError {
    ShapeMismatch,
    OutOfBounds,
    UnimplementedOptimizer,
    EmptyQueue,
}

} // verus!
