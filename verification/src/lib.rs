//! Vectorization-width resolution for fused tensor kernels.
//!
//! Given the tensors touched by one fusion group — plain inputs bound to
//! storage handles, reshape-aliased tensors, dimension-swapped tensors and
//! outputs — the resolver decides, per tensor identity, how many contiguous
//! elements may be packed into a single access: either `Broadcasted` (the
//! axis has extent 1 and is replicated) or `Aligned(w)` for a width `w`
//! drawn from an ordered candidate list. Decisions that reach the same
//! identity through several aliasing views are merged so that the final
//! mapping is safe for every access path.

pub mod decision;
pub mod id_map;
pub mod orchestrate;
pub mod overrides;
pub mod resolvers;
pub mod tensor;

pub use decision::Vect;
pub use overrides::LineSizeOverrides;
