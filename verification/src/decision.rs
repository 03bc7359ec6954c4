//! The per-tensor width decision.

use vstd::prelude::*;

verus! {

/// Identifies a tensor's logical role within one fusion group. Several
/// identities may alias the same storage through reshape or transpose.
pub type TensorId = u64;

/// The decision taken for one tensor: either its vectorization axis has
/// logical extent 1 and the value is replicated (`Broadcasted`), or `w`
/// consecutive elements are packed per access (`Aligned(w)`).
#[derive(Debug, Clone, Copy, PartialEq, Eq, Structural)]
pub enum Vect {
    Broadcasted,
    Aligned(u8),
}

impl View for Vect {
    type V = Vect;

    open spec fn view(&self) -> Vect {
        *self
    }
}

impl Vect {
    /// The effective number of elements per packed access: 1 for a
    /// broadcast tensor, the chosen width otherwise.
    pub open spec fn spec_line_size(&self) -> u8 {
        match self {
            Vect::Broadcasted => 1,
            Vect::Aligned(val) => *val,
        }
    }

    pub fn line_size(&self) -> (r: u8)
        ensures
            r == self.spec_line_size(),
    {
        match self {
            Vect::Broadcasted => 1,
            Vect::Aligned(val) => *val,
        }
    }

    pub fn is_broadcast(&self) -> (r: bool)
        ensures
            r == (*self is Broadcasted),
    {
        matches!(self, Vect::Broadcasted)
    }

    /// The same decision with any packing collapsed to width 1; a
    /// broadcast stays a broadcast.
    pub open spec fn spec_limit_to_one(&self) -> Vect {
        match self {
            Vect::Broadcasted => Vect::Broadcasted,
            Vect::Aligned(_) => Vect::Aligned(1),
        }
    }

    pub fn limit_to_one(&self) -> (r: Self)
        ensures
            r == self.spec_limit_to_one(),
    {
        match self {
            Vect::Broadcasted => Vect::Broadcasted,
            Vect::Aligned(_) => Vect::Aligned(1),
        }
    }
}

} // verus!
