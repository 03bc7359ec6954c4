//! Plain descriptions of the tensors a fusion group touches.

use vstd::prelude::*;

use crate::decision::TensorId;

verus! {

/// An immutable per-operation view of a tensor: its identity within the
/// fusion group and its ordered shape (one extent per axis).
#[derive(Debug, Clone)]
pub struct TensorDesc {
    pub id: TensorId,
    pub shape: Vec<usize>,
}

/// The layout facts of a bound tensor's storage: one step size per axis.
#[derive(Debug, Clone)]
pub struct StorageHandle {
    pub strides: Vec<usize>,
}

/// A tensor logically reshaped from an original without a physical copy;
/// both refer to the same storage. `multi_reads` says the two views are
/// read independently within the group, so both must support the chosen
/// packing.
#[derive(Debug, Clone)]
pub struct ReshapedRelation {
    pub reshaped: TensorDesc,
    pub original: TensorDesc,
    pub multi_reads: bool,
}

/// A tensor that is a transposed view of an original, with the pair of
/// axis indices that were exchanged.
#[derive(Debug)]
pub struct SwappedRelation {
    pub swapped: TensorDesc,
    pub original: TensorDesc,
    pub multi_reads: bool,
    pub dims: (u32, u32),
}

} // verus!
