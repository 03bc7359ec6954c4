//! Per-category width resolvers.
//!
//! Four independent algorithms — for plain inputs, outputs, reshape-aliased
//! tensors and dimension-swapped tensors — inspect the shape, stride and
//! candidate-width facts of one tensor (or one tensor pair) and return a
//! width decision. All four share the same "ordered candidate list, first
//! match wins" scan, and all fall back to `Aligned(1)`, the universally
//! safe unpacked access, when no candidate satisfies the constraints.

use vstd::prelude::*;

use crate::decision::Vect;
use crate::tensor::{StorageHandle, TensorDesc};

verus! {

/// Every width in the list is positive, as the data model demands.
pub open spec fn positive_widths(s: Seq<u8>) -> bool {
    forall|i: int| 0 <= i < s.len() ==> (#[trigger] s[i]) >= 1
}

/// The vectorization axis actually used: the given one, or the last of
/// `ndims` axes when none is given.
pub open spec fn axis_or_last(axis: Option<usize>, ndims: int) -> int {
    match axis {
        Some(a) => a as int,
        None => ndims - 1,
    }
}

/// Whether width `w` satisfies the divisibility constraints of one or two
/// axis extents and an optional upper bound.
pub open spec fn width_fits(w: u8, extent: nat, extent2: Option<nat>, max: Option<u8>) -> bool {
    &&& w >= 1
    &&& extent % (w as nat) == 0
    &&& match extent2 {
        Some(e) => e % (w as nat) == 0,
        None => true,
    }
    &&& match max {
        Some(m) => w <= m,
        None => true,
    }
}

/// The first candidate from position `i` on that fits, as a decision;
/// `Aligned(1)` when none fits.
pub open spec fn spec_scan_from(
    cands: Seq<u8>,
    extent: nat,
    extent2: Option<nat>,
    max: Option<u8>,
    i: int,
) -> Vect
    decreases cands.len() - i,
{
    if !(0 <= i < cands.len()) {
        Vect::Aligned(1)
    } else if width_fits(cands[i], extent, extent2, max) {
        Vect::Aligned(cands[i])
    } else {
        spec_scan_from(cands, extent, extent2, max, i + 1)
    }
}

/// The first candidate in order that fits; `Aligned(1)` when none fits.
pub open spec fn spec_scan(cands: Seq<u8>, extent: nat, extent2: Option<nat>, max: Option<u8>) -> Vect {
    spec_scan_from(cands, extent, extent2, max, 0)
}

pub open spec fn as_nat_opt(e: Option<usize>) -> Option<nat> {
    match e {
        Some(v) => Some(v as nat),
        None => None,
    }
}

/// Scans the ordered candidate list and returns the first width that
/// divides `extent` (and `extent2`, if given) and respects `max`, if
/// given; `Aligned(1)` when none does.
pub fn scan_candidates(
    candidates: &Vec<u8>,
    extent: usize,
    extent2: Option<usize>,
    max: Option<u8>,
) -> (r: Vect)
    requires
        positive_widths(candidates@),
    ensures
        r == spec_scan(candidates@, extent as nat, as_nat_opt(extent2), max),
{
    let mut i: usize = 0;
    while i < candidates.len()
        invariant
            i <= candidates@.len(),
            positive_widths(candidates@),
            spec_scan_from(candidates@, extent as nat, as_nat_opt(extent2), max, 0)
                == spec_scan_from(candidates@, extent as nat, as_nat_opt(extent2), max, i as int),
        decreases candidates@.len() - i,
    {
        let w = candidates[i];
        assert(w >= 1);
        let mut ok = extent % (w as usize) == 0;
        match extent2 {
            Some(e) => {
                if e % (w as usize) != 0 {
                    ok = false;
                }
            },
            None => {},
        }
        match max {
            Some(m) => {
                if w > m {
                    ok = false;
                }
            },
            None => {},
        }
        proof {
            assert(ok == width_fits(w, extent as nat, as_nat_opt(extent2), max));
        }
        if ok {
            return Vect::Aligned(w);
        }
        i = i + 1;
    }
    Vect::Aligned(1)
}

/// The plain-input arguments the resolver can act on: the chosen axis
/// indexes both the strides and the shape.
pub open spec fn input_args_wf(handle: StorageHandle, desc: TensorDesc, axis: Option<usize>) -> bool {
    let a = axis_or_last(axis, handle.strides@.len() as int);
    &&& 0 <= a < handle.strides@.len()
    &&& a < desc.shape@.len()
}

/// The plain-input decision: a size-1 axis broadcasts; a non-contiguous
/// axis (stride other than 1) is never packed; otherwise the first
/// candidate dividing the axis extent wins.
pub open spec fn spec_vectorization_input(
    handle: StorageHandle,
    desc: TensorDesc,
    axis: Option<usize>,
    cands: Seq<u8>,
) -> Vect {
    let a = axis_or_last(axis, handle.strides@.len() as int);
    let extent = desc.shape@[a] as nat;
    if extent == 1 {
        Vect::Broadcasted
    } else if handle.strides@[a] != 1 {
        Vect::Aligned(1)
    } else {
        spec_scan(cands, extent, None, None)
    }
}

/// Resolves the width for a plain input tensor bound to a storage handle.
/// The default axis is the last one of the handle's strides.
pub fn vectorization_input(
    handle: &StorageHandle,
    desc: &TensorDesc,
    axis: Option<usize>,
    default_candidates: &Vec<u8>,
    overrides_list: Option<&Vec<u8>>,
) -> (r: Vect)
    requires
        input_args_wf(*handle, *desc, axis),
        positive_widths(
            match overrides_list {
                Some(l) => l@,
                None => default_candidates@,
            },
        ),
    ensures
        r == spec_vectorization_input(
            *handle,
            *desc,
            axis,
            match overrides_list {
                Some(l) => l@,
                None => default_candidates@,
            },
        ),
{
    let axis_i = match axis {
        Some(a) => a,
        None => handle.strides.len() - 1,
    };
    let shape_axis = desc.shape[axis_i];

    if shape_axis == 1 {
        return Vect::Broadcasted;
    }
    if handle.strides[axis_i] != 1 {
        return Vect::Aligned(1);
    }
    let cands = match overrides_list {
        Some(l) => l,
        None => default_candidates,
    };
    scan_candidates(cands, shape_axis, None, None)
}

/// The output arguments the resolver can act on: the chosen axis indexes
/// the shape.
pub open spec fn output_args_wf(desc: TensorDesc, axis: Option<usize>) -> bool {
    let a = axis_or_last(axis, desc.shape@.len() as int);
    0 <= a < desc.shape@.len()
}

/// The output decision: no storage exists yet, so no stride check; the
/// first candidate dividing the axis extent and not exceeding `max` wins.
pub open spec fn spec_vectorization_output(
    desc: TensorDesc,
    axis: Option<usize>,
    max: u8,
    cands: Seq<u8>,
) -> Vect {
    let a = axis_or_last(axis, desc.shape@.len() as int);
    spec_scan(cands, desc.shape@[a] as nat, None, Some(max))
}

/// Resolves the width for an output tensor about to be allocated. The
/// default axis is the last one of its shape.
pub fn vectorization_output(
    desc: &TensorDesc,
    axis: Option<usize>,
    default_candidates: &Vec<u8>,
    max: u8,
    overrides_list: Option<&Vec<u8>>,
) -> (r: Vect)
    requires
        output_args_wf(*desc, axis),
        positive_widths(
            match overrides_list {
                Some(l) => l@,
                None => default_candidates@,
            },
        ),
    ensures
        r == spec_vectorization_output(
            *desc,
            axis,
            max,
            match overrides_list {
                Some(l) => l@,
                None => default_candidates@,
            },
        ),
{
    let axis_i = match axis {
        Some(a) => a,
        None => desc.shape.len() - 1,
    };
    let shape_axis = desc.shape[axis_i];
    let cands = match overrides_list {
        Some(l) => l,
        None => default_candidates,
    };
    scan_candidates(cands, shape_axis, None, Some(max))
}

/// The reshape arguments the resolver can act on: the chosen axis indexes
/// the reshaped shape, and when it is the trailing axis the original
/// tensor has at least one axis to compare against.
pub open spec fn reshape_args_wf(reshaped: TensorDesc, original: TensorDesc, axis: Option<usize>) -> bool {
    let a = axis_or_last(axis, reshaped.shape@.len() as int);
    &&& 0 <= a < reshaped.shape@.len()
    &&& a == reshaped.shape@.len() - 1 ==> original.shape@.len() >= 1
}

/// The reshape decision. A non-multi-read size-1 axis broadcasts; a
/// non-trailing axis and incompatible trailing extents fall back to
/// `Aligned(1)`; otherwise the scan requires the reshaped extent — and,
/// for multi-read tensors, the original trailing extent too — divisible
/// by the width, bounded by `max`.
pub open spec fn spec_vectorization_reshape(
    reshaped: TensorDesc,
    original: TensorDesc,
    multi_reads: bool,
    axis: Option<usize>,
    max: u8,
    cands: Seq<u8>,
) -> Vect {
    let a = axis_or_last(axis, reshaped.shape@.len() as int);
    let reshape_extent = reshaped.shape@[a] as nat;
    if !multi_reads && reshape_extent == 1 {
        Vect::Broadcasted
    } else if a != reshaped.shape@.len() - 1 {
        Vect::Aligned(1)
    } else {
        let original_extent = original.shape@[original.shape@.len() - 1] as nat;
        if original_extent != reshape_extent {
            Vect::Aligned(1)
        } else if multi_reads {
            spec_scan(cands, reshape_extent, Some(original_extent), Some(max))
        } else {
            spec_scan(cands, reshape_extent, None, Some(max))
        }
    }
}

/// Resolves the width for a tensor reshaped from an original without a
/// copy. When both views are read independently (`multi_reads`), the
/// original's trailing extent must support the same packing.
pub fn vectorization_reshape(
    reshaped: &TensorDesc,
    original: &TensorDesc,
    multi_reads: bool,
    axis: Option<usize>,
    default_candidates: &Vec<u8>,
    max: u8,
    overrides_list: Option<&Vec<u8>>,
) -> (r: Vect)
    requires
        reshape_args_wf(*reshaped, *original, axis),
        positive_widths(
            match overrides_list {
                Some(l) => l@,
                None => default_candidates@,
            },
        ),
    ensures
        r == spec_vectorization_reshape(
            *reshaped,
            *original,
            multi_reads,
            axis,
            max,
            match overrides_list {
                Some(l) => l@,
                None => default_candidates@,
            },
        ),
{
    let axis_i = match axis {
        Some(a) => a,
        None => reshaped.shape.len() - 1,
    };
    let reshape_shape_axis = reshaped.shape[axis_i];

    if !multi_reads && reshape_shape_axis == 1 {
        return Vect::Broadcasted;
    }
    // Packing across a non-trailing reshaped axis is not supported.
    if axis_i != reshaped.shape.len() - 1 {
        return Vect::Aligned(1);
    }
    let original_shape_axis = original.shape[original.shape.len() - 1];
    if original_shape_axis != reshape_shape_axis {
        return Vect::Aligned(1);
    }
    let cands = match overrides_list {
        Some(l) => l,
        None => default_candidates,
    };
    if multi_reads {
        scan_candidates(cands, reshape_shape_axis, Some(original_shape_axis), Some(max))
    } else {
        scan_candidates(cands, reshape_shape_axis, None, Some(max))
    }
}

/// The physical axis that corresponds to the vectorization axis once the
/// swapped pair is accounted for: the other side of the pair when the
/// axis is one of them, the axis itself otherwise.
pub open spec fn swap_dim_index(dims: (u32, u32), a: int) -> int {
    if dims.0 as int == a {
        dims.1 as int
    } else if dims.1 as int == a {
        dims.0 as int
    } else {
        a
    }
}

/// The swapped-tensor arguments the resolver can act on: the chosen axis
/// indexes both shapes, and the strides consulted for contiguity exist.
pub open spec fn swapped_args_wf(
    handle: StorageHandle,
    swapped: TensorDesc,
    original: TensorDesc,
    multi_reads: bool,
    dims: (u32, u32),
    axis: Option<usize>,
) -> bool {
    let a = axis_or_last(axis, swapped.shape@.len() as int);
    let d = swap_dim_index(dims, a);
    &&& 0 <= a < swapped.shape@.len()
    &&& a < original.shape@.len()
    &&& 0 <= d < handle.strides@.len()
    &&& multi_reads ==> a < handle.strides@.len()
}

/// The swapped-tensor decision. Contiguity is checked on the swap-resolved
/// axis — and, for multi-read tensors, on the vectorization axis too; a
/// non-multi-read size-1 axis broadcasts; the scan requires the swapped
/// extent — and, for non-multi-read tensors, the original extent too —
/// divisible by the width, bounded by `max`.
pub open spec fn spec_vectorization_swapped(
    handle: StorageHandle,
    swapped: TensorDesc,
    original: TensorDesc,
    multi_reads: bool,
    dims: (u32, u32),
    max: u8,
    axis: Option<usize>,
    cands: Seq<u8>,
) -> Vect {
    let a = axis_or_last(axis, swapped.shape@.len() as int);
    let swapped_extent = swapped.shape@[a] as nat;
    let original_extent = original.shape@[a] as nat;
    let d = swap_dim_index(dims, a);
    if multi_reads && handle.strides@[a] != 1 {
        Vect::Aligned(1)
    } else if handle.strides@[d] != 1 {
        Vect::Aligned(1)
    } else if !multi_reads && swapped_extent == 1 {
        Vect::Broadcasted
    } else if multi_reads {
        spec_scan(cands, swapped_extent, None, Some(max))
    } else {
        spec_scan(cands, swapped_extent, Some(original_extent), Some(max))
    }
}

/// Resolves the width for a tensor that is a transposed view of an
/// original, described by the exchanged axis pair `dims`.
pub fn vectorization_swapped(
    handle: &StorageHandle,
    swapped: &TensorDesc,
    original: &TensorDesc,
    multi_reads: bool,
    dims: (u32, u32),
    max: u8,
    axis: Option<usize>,
    default_candidates: &Vec<u8>,
    overrides_list: Option<&Vec<u8>>,
) -> (r: Vect)
    requires
        swapped_args_wf(*handle, *swapped, *original, multi_reads, dims, axis),
        positive_widths(
            match overrides_list {
                Some(l) => l@,
                None => default_candidates@,
            },
        ),
    ensures
        r == spec_vectorization_swapped(
            *handle,
            *swapped,
            *original,
            multi_reads,
            dims,
            max,
            axis,
            match overrides_list {
                Some(l) => l@,
                None => default_candidates@,
            },
        ),
{
    let axis_i = match axis {
        Some(a) => a,
        None => swapped.shape.len() - 1,
    };
    let swapped_axis = swapped.shape[axis_i];
    let shape_axis = original.shape[axis_i];

    let dim_index = if dims.0 as usize == axis_i {
        dims.1 as usize
    } else if dims.1 as usize == axis_i {
        dims.0 as usize
    } else {
        axis_i
    };

    // A packed access is only safe across a stride-1 axis.
    if multi_reads {
        if handle.strides[axis_i] != 1 {
            return Vect::Aligned(1);
        }
        if handle.strides[dim_index] != 1 {
            return Vect::Aligned(1);
        }
    } else if handle.strides[dim_index] != 1 {
        return Vect::Aligned(1);
    }

    if !multi_reads && swapped_axis == 1 {
        return Vect::Broadcasted;
    }
    let cands = match overrides_list {
        Some(l) => l,
        None => default_candidates,
    };
    if multi_reads {
        scan_candidates(cands, swapped_axis, None, Some(max))
    } else {
        scan_candidates(cands, swapped_axis, Some(shape_axis), Some(max))
    }
}

proof fn lemma_scan_from_sound(cands: Seq<u8>, extent: nat, extent2: Option<nat>, max: Option<u8>, i: int)
    requires
        0 <= i <= cands.len(),
    ensures
        ({
            let r = spec_scan_from(cands, extent, extent2, max, i);
            &&& r is Aligned
            &&& r->0 >= 1
            &&& r->0 == 1 || (cands.contains(r->0) && width_fits(r->0, extent, extent2, max))
            &&& extent % (r->0 as nat) == 0
            &&& match extent2 {
                Some(e) => e % (r->0 as nat) == 0,
                None => true,
            }
            &&& match max {
                Some(m) => r->0 <= m || r->0 == 1,
                None => true,
            }
        }),
    decreases cands.len() - i,
{
    if i < cands.len() && width_fits(cands[i], extent, extent2, max) {
        assert(cands.contains(cands[i]));
    } else if i < cands.len() {
        lemma_scan_from_sound(cands, extent, extent2, max, i + 1);
    }
}

/// A scan only ever decides `Aligned`; its width is 1 or a listed
/// candidate; and a width other than 1 satisfies every constraint the
/// scan was given.
pub proof fn lemma_scan_sound(cands: Seq<u8>, extent: nat, extent2: Option<nat>, max: Option<u8>)
    ensures
        ({
            let r = spec_scan(cands, extent, extent2, max);
            &&& r is Aligned
            &&& r->0 >= 1
            &&& r->0 == 1 || (cands.contains(r->0) && width_fits(r->0, extent, extent2, max))
            &&& extent % (r->0 as nat) == 0
        }),
{
    lemma_scan_from_sound(cands, extent, extent2, max, 0);
}

/// A plain-input decision is sound: it broadcasts exactly when the axis
/// extent is 1; any chosen width is 1 or a listed candidate and divides
/// the axis extent; and a width other than 1 is only chosen on a
/// contiguous axis.
pub proof fn lemma_input_decision_sound(
    handle: StorageHandle,
    desc: TensorDesc,
    axis: Option<usize>,
    cands: Seq<u8>,
)
    requires
        input_args_wf(handle, desc, axis),
    ensures
        ({
            let r = spec_vectorization_input(handle, desc, axis, cands);
            let a = axis_or_last(axis, handle.strides@.len() as int);
            &&& r is Broadcasted <==> desc.shape@[a] == 1
            &&& r matches Vect::Aligned(w) ==> (w == 1 || cands.contains(w))
                && (desc.shape@[a] as nat) % (w as nat) == 0
            &&& (r matches Vect::Aligned(w) && w != 1) ==> handle.strides@[a] == 1
        }),
{
    let a = axis_or_last(axis, handle.strides@.len() as int);
    let extent = desc.shape@[a] as nat;
    if extent != 1 && handle.strides@[a] == 1 {
        lemma_scan_sound(cands, extent, None, None);
    }
}

/// An output decision is sound: it never broadcasts; its width is 1 or a
/// listed candidate, divides the axis extent, and respects `max` unless
/// it is the fallback width 1.
pub proof fn lemma_output_decision_sound(
    desc: TensorDesc,
    axis: Option<usize>,
    max: u8,
    cands: Seq<u8>,
)
    requires
        output_args_wf(desc, axis),
    ensures
        ({
            let r = spec_vectorization_output(desc, axis, max, cands);
            let a = axis_or_last(axis, desc.shape@.len() as int);
            &&& r is Aligned
            &&& r matches Vect::Aligned(w) ==> (w == 1 || cands.contains(w))
                && (desc.shape@[a] as nat) % (w as nat) == 0 && (w <= max || w == 1)
        }),
{
    let a = axis_or_last(axis, desc.shape@.len() as int);
    lemma_scan_sound(cands, desc.shape@[a] as nat, None, Some(max));
}

/// A reshape decision is sound: it broadcasts only for a non-multi-read
/// size-1 axis; any chosen width is 1 or a listed candidate that divides
/// the reshaped axis extent — and the original trailing extent when
/// multi-read — and respects `max`.
pub proof fn lemma_reshape_decision_sound(
    reshaped: TensorDesc,
    original: TensorDesc,
    multi_reads: bool,
    axis: Option<usize>,
    max: u8,
    cands: Seq<u8>,
)
    requires
        reshape_args_wf(reshaped, original, axis),
    ensures
        ({
            let r = spec_vectorization_reshape(reshaped, original, multi_reads, axis, max, cands);
            let a = axis_or_last(axis, reshaped.shape@.len() as int);
            &&& r is Broadcasted ==> !multi_reads && reshaped.shape@[a] == 1
            &&& r matches Vect::Aligned(w) ==> (w == 1 || (cands.contains(w) && w <= max
                && (reshaped.shape@[a] as nat) % (w as nat) == 0
                && (multi_reads
                    ==> (original.shape@[original.shape@.len() - 1] as nat) % (w as nat) == 0)))
        }),
{
    let a = axis_or_last(axis, reshaped.shape@.len() as int);
    let reshape_extent = reshaped.shape@[a] as nat;
    if !(!multi_reads && reshape_extent == 1) && a == reshaped.shape@.len() - 1 {
        let original_extent = original.shape@[original.shape@.len() - 1] as nat;
        if original_extent == reshape_extent {
            if multi_reads {
                lemma_scan_sound(cands, reshape_extent, Some(original_extent), Some(max));
            } else {
                lemma_scan_sound(cands, reshape_extent, None, Some(max));
            }
        }
    }
}

/// A swapped-tensor decision is sound: it broadcasts only for a
/// non-multi-read size-1 axis; any width other than 1 is a listed
/// candidate within `max`, divides the swapped axis extent — and the
/// original axis extent when not multi-read — and was chosen with the
/// consulted strides equal to 1.
pub proof fn lemma_swapped_decision_sound(
    handle: StorageHandle,
    swapped: TensorDesc,
    original: TensorDesc,
    multi_reads: bool,
    dims: (u32, u32),
    max: u8,
    axis: Option<usize>,
    cands: Seq<u8>,
)
    requires
        swapped_args_wf(handle, swapped, original, multi_reads, dims, axis),
    ensures
        ({
            let r = spec_vectorization_swapped(
                handle,
                swapped,
                original,
                multi_reads,
                dims,
                max,
                axis,
                cands,
            );
            let a = axis_or_last(axis, swapped.shape@.len() as int);
            let d = swap_dim_index(dims, a);
            &&& r is Broadcasted ==> !multi_reads && swapped.shape@[a] == 1
            &&& r matches Vect::Aligned(w) ==> (w == 1 || (cands.contains(w) && w <= max
                && (swapped.shape@[a] as nat) % (w as nat) == 0
                && (!multi_reads ==> (original.shape@[a] as nat) % (w as nat) == 0)
                && handle.strides@[d] == 1 && (multi_reads ==> handle.strides@[a] == 1)))
        }),
{
    let a = axis_or_last(axis, swapped.shape@.len() as int);
    let swapped_extent = swapped.shape@[a] as nat;
    let original_extent = original.shape@[a] as nat;
    let d = swap_dim_index(dims, a);
    if !(multi_reads && handle.strides@[a] != 1) && handle.strides@[d] == 1
        && !(!multi_reads && swapped_extent == 1) {
        if multi_reads {
            lemma_scan_sound(cands, swapped_extent, None, Some(max));
        } else {
            lemma_scan_sound(cands, swapped_extent, Some(original_extent), Some(max));
        }
    }
}

} // verus!
