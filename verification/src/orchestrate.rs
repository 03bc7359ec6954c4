//! Building one vectorization mapping for a whole fusion group.
//!
//! The orchestrator walks the group's tensors in a fixed order — bound
//! inputs (routed through the swapped-tensor resolver when the tensor is
//! the original of a swapped pair), then reshape-aliased tensors, then
//! outputs — and folds every decision into one mapping from tensor
//! identity to width decision. Decisions that reach an identity already
//! holding one are merged conservatively: a recorded broadcast is kept,
//! and disagreeing widths collapse to `Aligned(1)`.

use vstd::prelude::*;

use crate::decision::{TensorId, Vect};
use crate::id_map::IdMap;
use crate::overrides::LineSizeOverrides;
use crate::resolvers::{
    input_args_wf, output_args_wf, positive_widths, reshape_args_wf, spec_vectorization_input,
    spec_vectorization_output, spec_vectorization_reshape, spec_vectorization_swapped,
    swapped_args_wf, vectorization_input, vectorization_output, vectorization_reshape,
    vectorization_swapped,
};
use crate::tensor::{ReshapedRelation, StorageHandle, SwappedRelation, TensorDesc};

verus! {

/// The candidate list one tensor is resolved with: its override list if
/// the table yields one, else the runtime default list.
pub open spec fn cands_for(tbl: LineSizeOverrides, id: TensorId, dcands: Seq<u8>) -> Seq<u8> {
    if tbl.per_tensor_map().contains_key(id) {
        tbl.per_tensor_map()[id]
    } else if tbl.default_list() is Some {
        tbl.default_list()->0
    } else {
        dcands
    }
}

/// How a new proposal for an identity combines with what the mapping
/// already holds: a recorded broadcast is kept; a broadcast proposal
/// against a recorded width collapses it to `Aligned(1)`; two widths keep
/// theirs when equal and collapse to `Aligned(1)` otherwise; a fresh
/// identity records the proposal as given.
pub open spec fn spec_merge(m: Map<TensorId, Vect>, id: TensorId, vect: Vect) -> Map<TensorId, Vect> {
    if m.contains_key(id) {
        match m[id] {
            Vect::Broadcasted => m,
            Vect::Aligned(ori) => match vect {
                Vect::Broadcasted => m.insert(id, Vect::Aligned(1)),
                Vect::Aligned(new_w) => m.insert(
                    id,
                    Vect::Aligned(if new_w != ori { 1 } else { new_w }),
                ),
            },
        }
    } else {
        m.insert(id, vect)
    }
}

/// Merges `vect` into the slot of `original`, which may already hold a
/// decision proposed through another aliasing view.
pub fn multi_reads_vectorization_update(
    vectorizations: &mut IdMap<Vect>,
    original: TensorId,
    vect: Vect,
)
    ensures
        final(vectorizations)@ == spec_merge(old(vectorizations)@, original, vect),
{
    let existing = match vectorizations.get(original) {
        Some(v) => Some(*v),
        None => None,
    };
    match existing {
        Some(Vect::Broadcasted) => {
            // A recorded broadcast dominates: keep it unchanged.
        },
        Some(Vect::Aligned(ori)) => match vect {
            Vect::Broadcasted => {
                vectorizations.insert(original, Vect::Aligned(1));
            },
            Vect::Aligned(new_w) => {
                let val = if new_w != ori {
                    1
                } else {
                    new_w
                };
                vectorizations.insert(original, Vect::Aligned(val));
            },
        },
        None => {
            vectorizations.insert(original, vect);
        },
    }
}

/// The first swapped-pair relation whose original side is `id`, if any.
pub open spec fn find_swap(swapped: Seq<SwappedRelation>, id: TensorId) -> Option<SwappedRelation>
    decreases swapped.len(),
{
    if swapped.len() == 0 {
        None
    } else if swapped[0].original.id == id {
        Some(swapped[0])
    } else {
        find_swap(swapped.skip(1), id)
    }
}

fn find_swapped_relation<'a>(swapped: &'a Vec<SwappedRelation>, id: TensorId) -> (r: Option<
    &'a SwappedRelation,
>)
    ensures
        match r {
            Some(rel) => find_swap(swapped@, id) == Some(*rel),
            None => find_swap(swapped@, id) is None,
        },
{
    let mut i: usize = 0;
    proof {
        assert(swapped@.skip(0) =~= swapped@);
    }
    while i < swapped.len()
        invariant
            i <= swapped@.len(),
            find_swap(swapped@, id) == find_swap(swapped@.skip(i as int), id),
        decreases swapped@.len() - i,
    {
        proof {
            assert(swapped@.skip(i as int)[0] == swapped@[i as int]);
        }
        if swapped[i].original.id == id {
            return Some(&swapped[i]);
        }
        proof {
            assert(swapped@.skip(i as int).skip(1) =~= swapped@.skip(i as int + 1));
        }
        i = i + 1;
    }
    None
}

/// One bound input folded into the mapping: through the swapped-tensor
/// resolver and a merge when the tensor is the original of a swapped
/// pair, directly through the plain-input resolver otherwise.
pub open spec fn spec_input_step(
    m: Map<TensorId, Vect>,
    handle: StorageHandle,
    desc: TensorDesc,
    swapped: Seq<SwappedRelation>,
    dcands: Seq<u8>,
    tbl: LineSizeOverrides,
    max: u8,
    axis: Option<usize>,
) -> Map<TensorId, Vect> {
    let cands = cands_for(tbl, desc.id, dcands);
    match find_swap(swapped, desc.id) {
        Some(rel) => spec_merge(
            m,
            rel.original.id,
            spec_vectorization_swapped(
                handle,
                rel.swapped,
                rel.original,
                rel.multi_reads,
                rel.dims,
                max,
                axis,
                cands,
            ),
        ),
        None => m.insert(desc.id, spec_vectorization_input(handle, desc, axis, cands)),
    }
}

pub open spec fn spec_inputs_upto(
    m0: Map<TensorId, Vect>,
    handles: Seq<StorageHandle>,
    inputs: Seq<TensorDesc>,
    swapped: Seq<SwappedRelation>,
    dcands: Seq<u8>,
    tbl: LineSizeOverrides,
    max: u8,
    axis: Option<usize>,
    n: int,
) -> Map<TensorId, Vect>
    decreases n,
{
    if n <= 0 {
        m0
    } else {
        spec_input_step(
            spec_inputs_upto(m0, handles, inputs, swapped, dcands, tbl, max, axis, n - 1),
            handles[n - 1],
            inputs[n - 1],
            swapped,
            dcands,
            tbl,
            max,
            axis,
        )
    }
}

/// One reshape-aliased tensor folded into the mapping: resolved against
/// its original and merged into the original's slot.
pub open spec fn spec_reshape_step(
    m: Map<TensorId, Vect>,
    rel: ReshapedRelation,
    dcands: Seq<u8>,
    tbl: LineSizeOverrides,
    max: u8,
    axis: Option<usize>,
) -> Map<TensorId, Vect> {
    spec_merge(
        m,
        rel.original.id,
        spec_vectorization_reshape(
            rel.reshaped,
            rel.original,
            rel.multi_reads,
            axis,
            max,
            cands_for(tbl, rel.original.id, dcands),
        ),
    )
}

pub open spec fn spec_reshapes_upto(
    m0: Map<TensorId, Vect>,
    reshaped: Seq<ReshapedRelation>,
    dcands: Seq<u8>,
    tbl: LineSizeOverrides,
    max: u8,
    axis: Option<usize>,
    n: int,
) -> Map<TensorId, Vect>
    decreases n,
{
    if n <= 0 {
        m0
    } else {
        spec_reshape_step(
            spec_reshapes_upto(m0, reshaped, dcands, tbl, max, axis, n - 1),
            reshaped[n - 1],
            dcands,
            tbl,
            max,
            axis,
        )
    }
}

/// One output folded into the mapping: outputs never alias inputs, so the
/// decision is recorded under the output's own identity.
pub open spec fn spec_output_step(
    m: Map<TensorId, Vect>,
    desc: TensorDesc,
    dcands: Seq<u8>,
    tbl: LineSizeOverrides,
    max: u8,
    axis: Option<usize>,
) -> Map<TensorId, Vect> {
    m.insert(desc.id, spec_vectorization_output(desc, axis, max, cands_for(tbl, desc.id, dcands)))
}

pub open spec fn spec_outputs_upto(
    m0: Map<TensorId, Vect>,
    outputs: Seq<TensorDesc>,
    dcands: Seq<u8>,
    tbl: LineSizeOverrides,
    max: u8,
    axis: Option<usize>,
    n: int,
) -> Map<TensorId, Vect>
    decreases n,
{
    if n <= 0 {
        m0
    } else {
        spec_output_step(
            spec_outputs_upto(m0, outputs, dcands, tbl, max, axis, n - 1),
            outputs[n - 1],
            dcands,
            tbl,
            max,
            axis,
        )
    }
}

/// The mapping after the whole pass: inputs first, then reshape aliases,
/// then outputs.
pub open spec fn spec_vectorization_default(
    m0: Map<TensorId, Vect>,
    handles: Seq<StorageHandle>,
    inputs: Seq<TensorDesc>,
    outputs: Seq<TensorDesc>,
    reshaped: Seq<ReshapedRelation>,
    swapped: Seq<SwappedRelation>,
    dcands: Seq<u8>,
    tbl: LineSizeOverrides,
    max: u8,
    axis: Option<usize>,
) -> Map<TensorId, Vect> {
    let m1 = spec_inputs_upto(
        m0,
        handles,
        inputs,
        swapped,
        dcands,
        tbl,
        max,
        axis,
        inputs.len() as int,
    );
    let m2 = spec_reshapes_upto(m1, reshaped, dcands, tbl, max, axis, reshaped.len() as int);
    spec_outputs_upto(m2, outputs, dcands, tbl, max, axis, outputs.len() as int)
}

/// Every tensor of the plan carries the axes and strides its resolver
/// reads: the arguments the pass can act on.
pub open spec fn plan_args_wf(
    handles: Seq<StorageHandle>,
    inputs: Seq<TensorDesc>,
    outputs: Seq<TensorDesc>,
    reshaped: Seq<ReshapedRelation>,
    swapped: Seq<SwappedRelation>,
    axis: Option<usize>,
) -> bool {
    &&& handles.len() == inputs.len()
    &&& forall|i: int|
        0 <= i < inputs.len() ==> match find_swap(swapped, (#[trigger] inputs[i]).id) {
            Some(rel) => swapped_args_wf(
                handles[i],
                rel.swapped,
                rel.original,
                rel.multi_reads,
                rel.dims,
                axis,
            ),
            None => input_args_wf(handles[i], inputs[i], axis),
        }
    &&& forall|i: int| 0 <= i < outputs.len() ==> output_args_wf(#[trigger] outputs[i], axis)
    &&& forall|i: int|
        0 <= i < reshaped.len() ==> reshape_args_wf(
            (#[trigger] reshaped[i]).reshaped,
            reshaped[i].original,
            axis,
        )
}

/// Resolves every tensor a fusion group touches and folds the decisions
/// into `vectorizations`: bound inputs (each routed through the
/// swapped-tensor resolver and merged into the original's slot when it is
/// the original of a swapped pair), then reshape aliases merged into
/// their originals, then outputs. The axis and the maximum width are
/// shared by the whole group.
pub fn vectorization_default(
    vectorizations: &mut IdMap<Vect>,
    handles_inputs: &Vec<StorageHandle>,
    inputs: &Vec<TensorDesc>,
    outputs: &Vec<TensorDesc>,
    reshaped: &Vec<ReshapedRelation>,
    swapped: &Vec<SwappedRelation>,
    default_candidates: &Vec<u8>,
    overrides: &LineSizeOverrides,
    max: u8,
    axis: Option<usize>,
)
    requires
        plan_args_wf(handles_inputs@, inputs@, outputs@, reshaped@, swapped@, axis),
        positive_widths(default_candidates@),
        overrides.widths_positive(),
    ensures
        final(vectorizations)@ == spec_vectorization_default(
            old(vectorizations)@,
            handles_inputs@,
            inputs@,
            outputs@,
            reshaped@,
            swapped@,
            default_candidates@,
            *overrides,
            max,
            axis,
        ),
{
    let ghost m0 = vectorizations@;
    let mut i: usize = 0;
    while i < inputs.len()
        invariant
            i <= inputs@.len(),
            plan_args_wf(handles_inputs@, inputs@, outputs@, reshaped@, swapped@, axis),
            positive_widths(default_candidates@),
            overrides.widths_positive(),
            vectorizations@ == spec_inputs_upto(
                m0,
                handles_inputs@,
                inputs@,
                swapped@,
                default_candidates@,
                *overrides,
                max,
                axis,
                i as int,
            ),
        decreases inputs@.len() - i,
    {
        let tensor = &inputs[i];
        let handle = &handles_inputs[i];
        let ovr = overrides.tensor(&tensor.id);
        proof {
            assert((match ovr {
                Some(l) => l@,
                None => default_candidates@,
            }) == cands_for(*overrides, tensor.id, default_candidates@));
            assert(positive_widths(cands_for(*overrides, tensor.id, default_candidates@)));
        }
        match find_swapped_relation(swapped, tensor.id) {
            Some(rel) => {
                let val = vectorization_swapped(
                    handle,
                    &rel.swapped,
                    &rel.original,
                    rel.multi_reads,
                    rel.dims,
                    max,
                    axis,
                    default_candidates,
                    ovr,
                );
                multi_reads_vectorization_update(vectorizations, rel.original.id, val);
            },
            None => {
                let val = vectorization_input(handle, tensor, axis, default_candidates, ovr);
                vectorizations.insert(tensor.id, val);
            },
        }
        proof {
            assert(vectorizations@ == spec_inputs_upto(
                m0,
                handles_inputs@,
                inputs@,
                swapped@,
                default_candidates@,
                *overrides,
                max,
                axis,
                i as int + 1,
            ));
        }
        i = i + 1;
    }

    let ghost m1 = vectorizations@;
    let mut j: usize = 0;
    while j < reshaped.len()
        invariant
            j <= reshaped@.len(),
            plan_args_wf(handles_inputs@, inputs@, outputs@, reshaped@, swapped@, axis),
            positive_widths(default_candidates@),
            overrides.widths_positive(),
            vectorizations@ == spec_reshapes_upto(
                m1,
                reshaped@,
                default_candidates@,
                *overrides,
                max,
                axis,
                j as int,
            ),
        decreases reshaped@.len() - j,
    {
        let rel = &reshaped[j];
        let ovr = overrides.tensor(&rel.original.id);
        proof {
            assert((match ovr {
                Some(l) => l@,
                None => default_candidates@,
            }) == cands_for(*overrides, rel.original.id, default_candidates@));
            assert(positive_widths(cands_for(*overrides, rel.original.id, default_candidates@)));
        }
        let val = vectorization_reshape(
            &rel.reshaped,
            &rel.original,
            rel.multi_reads,
            axis,
            default_candidates,
            max,
            ovr,
        );
        multi_reads_vectorization_update(vectorizations, rel.original.id, val);
        proof {
            assert(vectorizations@ == spec_reshapes_upto(
                m1,
                reshaped@,
                default_candidates@,
                *overrides,
                max,
                axis,
                j as int + 1,
            ));
        }
        j = j + 1;
    }

    let ghost m2 = vectorizations@;
    let mut k: usize = 0;
    while k < outputs.len()
        invariant
            k <= outputs@.len(),
            plan_args_wf(handles_inputs@, inputs@, outputs@, reshaped@, swapped@, axis),
            positive_widths(default_candidates@),
            overrides.widths_positive(),
            vectorizations@ == spec_outputs_upto(
                m2,
                outputs@,
                default_candidates@,
                *overrides,
                max,
                axis,
                k as int,
            ),
        decreases outputs@.len() - k,
    {
        let tensor = &outputs[k];
        let ovr = overrides.tensor(&tensor.id);
        proof {
            assert((match ovr {
                Some(l) => l@,
                None => default_candidates@,
            }) == cands_for(*overrides, tensor.id, default_candidates@));
            assert(positive_widths(cands_for(*overrides, tensor.id, default_candidates@)));
        }
        let val = vectorization_output(tensor, axis, default_candidates, max, ovr);
        vectorizations.insert(tensor.id, val);
        proof {
            assert(vectorizations@ == spec_outputs_upto(
                m2,
                outputs@,
                default_candidates@,
                *overrides,
                max,
                axis,
                k as int + 1,
            ));
        }
        k = k + 1;
    }
}

/// A decision proposed for `id` draws its width from {1} and the
/// candidate list consulted for `id`.
pub open spec fn proposal_width_ok(
    r: Vect,
    id: TensorId,
    tbl: LineSizeOverrides,
    dcands: Seq<u8>,
) -> bool {
    r.spec_line_size() == 1 || cands_for(tbl, id, dcands).contains(r.spec_line_size())
}

/// Every entry of `m` is either untouched from the seed mapping `m0` or
/// carries a width from {1} and the candidate list consulted for its
/// identity.
pub open spec fn mapping_widths_ok(
    m0: Map<TensorId, Vect>,
    m: Map<TensorId, Vect>,
    tbl: LineSizeOverrides,
    dcands: Seq<u8>,
) -> bool {
    forall|id: TensorId|
        #[trigger] m.contains_key(id) ==> (m0.contains_key(id) && m[id] == m0[id])
            || proposal_width_ok(m[id], id, tbl, dcands)
}

proof fn lemma_insert_preserves_widths_ok(
    m0: Map<TensorId, Vect>,
    m: Map<TensorId, Vect>,
    id: TensorId,
    r: Vect,
    tbl: LineSizeOverrides,
    dcands: Seq<u8>,
)
    requires
        mapping_widths_ok(m0, m, tbl, dcands),
        proposal_width_ok(r, id, tbl, dcands),
    ensures
        mapping_widths_ok(m0, m.insert(id, r), tbl, dcands),
{
}

proof fn lemma_merge_preserves_widths_ok(
    m0: Map<TensorId, Vect>,
    m: Map<TensorId, Vect>,
    id: TensorId,
    r: Vect,
    tbl: LineSizeOverrides,
    dcands: Seq<u8>,
)
    requires
        mapping_widths_ok(m0, m, tbl, dcands),
        proposal_width_ok(r, id, tbl, dcands),
    ensures
        mapping_widths_ok(m0, spec_merge(m, id, r), tbl, dcands),
{
    let m2 = spec_merge(m, id, r);
    assert forall|x: TensorId| #[trigger] m2.contains_key(x) implies (m0.contains_key(x)
        && m2[x] == m0[x]) || proposal_width_ok(m2[x], x, tbl, dcands) by {
        if x == id && m.contains_key(id) {
            match m[id] {
                Vect::Broadcasted => {},
                Vect::Aligned(ori) => match r {
                    Vect::Broadcasted => {
                        assert(m2[id].spec_line_size() == 1);
                    },
                    Vect::Aligned(new_w) => {
                        if new_w != ori {
                            assert(m2[id].spec_line_size() == 1);
                        } else {
                            assert(m2[id] == r);
                        }
                    },
                },
            }
        }
    }
}

/// The relation `find_swap` yields matches on the identity it was asked
/// for.
proof fn lemma_find_swap_id(swapped: Seq<SwappedRelation>, id: TensorId)
    ensures
        find_swap(swapped, id) matches Some(rel) ==> rel.original.id == id,
    decreases swapped.len(),
{
    if swapped.len() > 0 && swapped[0].original.id != id {
        lemma_find_swap_id(swapped.skip(1), id);
    }
}

proof fn lemma_inputs_upto_widths_ok(
    m0: Map<TensorId, Vect>,
    m_start: Map<TensorId, Vect>,
    handles: Seq<StorageHandle>,
    inputs: Seq<TensorDesc>,
    outputs: Seq<TensorDesc>,
    reshaped: Seq<ReshapedRelation>,
    swapped: Seq<SwappedRelation>,
    dcands: Seq<u8>,
    tbl: LineSizeOverrides,
    max: u8,
    axis: Option<usize>,
    n: int,
)
    requires
        0 <= n <= inputs.len(),
        plan_args_wf(handles, inputs, outputs, reshaped, swapped, axis),
        mapping_widths_ok(m0, m_start, tbl, dcands),
    ensures
        mapping_widths_ok(
            m0,
            spec_inputs_upto(m_start, handles, inputs, swapped, dcands, tbl, max, axis, n),
            tbl,
            dcands,
        ),
    decreases n,
{
    if n > 0 {
        lemma_inputs_upto_widths_ok(
            m0, m_start, handles, inputs, outputs, reshaped, swapped, dcands, tbl, max, axis,
            n - 1,
        );
        let m = spec_inputs_upto(m_start, handles, inputs, swapped, dcands, tbl, max, axis, n - 1);
        let desc = inputs[n - 1];
        let handle = handles[n - 1];
        let cands = cands_for(tbl, desc.id, dcands);
        lemma_find_swap_id(swapped, desc.id);
        match find_swap(swapped, desc.id) {
            Some(rel) => {
                crate::resolvers::lemma_swapped_decision_sound(
                    handle,
                    rel.swapped,
                    rel.original,
                    rel.multi_reads,
                    rel.dims,
                    max,
                    axis,
                    cands,
                );
                let r = spec_vectorization_swapped(
                    handle,
                    rel.swapped,
                    rel.original,
                    rel.multi_reads,
                    rel.dims,
                    max,
                    axis,
                    cands,
                );
                lemma_merge_preserves_widths_ok(m0, m, rel.original.id, r, tbl, dcands);
            },
            None => {
                crate::resolvers::lemma_input_decision_sound(handle, desc, axis, cands);
                let r = spec_vectorization_input(handle, desc, axis, cands);
                lemma_insert_preserves_widths_ok(m0, m, desc.id, r, tbl, dcands);
            },
        }
    }
}

proof fn lemma_reshapes_upto_widths_ok(
    m0: Map<TensorId, Vect>,
    m_start: Map<TensorId, Vect>,
    handles: Seq<StorageHandle>,
    inputs: Seq<TensorDesc>,
    outputs: Seq<TensorDesc>,
    reshaped: Seq<ReshapedRelation>,
    swapped: Seq<SwappedRelation>,
    dcands: Seq<u8>,
    tbl: LineSizeOverrides,
    max: u8,
    axis: Option<usize>,
    n: int,
)
    requires
        0 <= n <= reshaped.len(),
        plan_args_wf(handles, inputs, outputs, reshaped, swapped, axis),
        mapping_widths_ok(m0, m_start, tbl, dcands),
    ensures
        mapping_widths_ok(
            m0,
            spec_reshapes_upto(m_start, reshaped, dcands, tbl, max, axis, n),
            tbl,
            dcands,
        ),
    decreases n,
{
    if n > 0 {
        lemma_reshapes_upto_widths_ok(
            m0, m_start, handles, inputs, outputs, reshaped, swapped, dcands, tbl, max, axis,
            n - 1,
        );
        let m = spec_reshapes_upto(m_start, reshaped, dcands, tbl, max, axis, n - 1);
        let rel = reshaped[n - 1];
        let cands = cands_for(tbl, rel.original.id, dcands);
        crate::resolvers::lemma_reshape_decision_sound(
            rel.reshaped,
            rel.original,
            rel.multi_reads,
            axis,
            max,
            cands,
        );
        let r = spec_vectorization_reshape(
            rel.reshaped,
            rel.original,
            rel.multi_reads,
            axis,
            max,
            cands,
        );
        lemma_merge_preserves_widths_ok(m0, m, rel.original.id, r, tbl, dcands);
    }
}

proof fn lemma_outputs_upto_widths_ok(
    m0: Map<TensorId, Vect>,
    m_start: Map<TensorId, Vect>,
    handles: Seq<StorageHandle>,
    inputs: Seq<TensorDesc>,
    outputs: Seq<TensorDesc>,
    reshaped: Seq<ReshapedRelation>,
    swapped: Seq<SwappedRelation>,
    dcands: Seq<u8>,
    tbl: LineSizeOverrides,
    max: u8,
    axis: Option<usize>,
    n: int,
)
    requires
        0 <= n <= outputs.len(),
        plan_args_wf(handles, inputs, outputs, reshaped, swapped, axis),
        mapping_widths_ok(m0, m_start, tbl, dcands),
    ensures
        mapping_widths_ok(
            m0,
            spec_outputs_upto(m_start, outputs, dcands, tbl, max, axis, n),
            tbl,
            dcands,
        ),
    decreases n,
{
    if n > 0 {
        lemma_outputs_upto_widths_ok(
            m0, m_start, handles, inputs, outputs, reshaped, swapped, dcands, tbl, max, axis,
            n - 1,
        );
        let m = spec_outputs_upto(m_start, outputs, dcands, tbl, max, axis, n - 1);
        let desc = outputs[n - 1];
        let cands = cands_for(tbl, desc.id, dcands);
        crate::resolvers::lemma_output_decision_sound(desc, axis, max, cands);
        let r = spec_vectorization_output(desc, axis, max, cands);
        lemma_insert_preserves_widths_ok(m0, m, desc.id, r, tbl, dcands);
    }
}

/// Every entry the pass adds or changes carries a width that is 1 or one
/// of the candidate widths consulted for that identity — its override
/// list, the table's fallback list, or the runtime defaults; entries the
/// caller seeded and the pass never touched stay as they were.
pub proof fn lemma_mapping_widths_sound(
    m0: Map<TensorId, Vect>,
    handles: Seq<StorageHandle>,
    inputs: Seq<TensorDesc>,
    outputs: Seq<TensorDesc>,
    reshaped: Seq<ReshapedRelation>,
    swapped: Seq<SwappedRelation>,
    dcands: Seq<u8>,
    tbl: LineSizeOverrides,
    max: u8,
    axis: Option<usize>,
)
    requires
        plan_args_wf(handles, inputs, outputs, reshaped, swapped, axis),
    ensures
        mapping_widths_ok(
            m0,
            spec_vectorization_default(
                m0,
                handles,
                inputs,
                outputs,
                reshaped,
                swapped,
                dcands,
                tbl,
                max,
                axis,
            ),
            tbl,
            dcands,
        ),
{
    let m1 = spec_inputs_upto(
        m0,
        handles,
        inputs,
        swapped,
        dcands,
        tbl,
        max,
        axis,
        inputs.len() as int,
    );
    let m2 = spec_reshapes_upto(m1, reshaped, dcands, tbl, max, axis, reshaped.len() as int);
    lemma_inputs_upto_widths_ok(
        m0,
        m0,
        handles,
        inputs,
        outputs,
        reshaped,
        swapped,
        dcands,
        tbl,
        max,
        axis,
        inputs.len() as int,
    );
    lemma_reshapes_upto_widths_ok(
        m0,
        m1,
        handles,
        inputs,
        outputs,
        reshaped,
        swapped,
        dcands,
        tbl,
        max,
        axis,
        reshaped.len() as int,
    );
    lemma_outputs_upto_widths_ok(
        m0,
        m2,
        handles,
        inputs,
        outputs,
        reshaped,
        swapped,
        dcands,
        tbl,
        max,
        axis,
        outputs.len() as int,
    );
}

proof fn lemma_inputs_upto_dom(
    m_start: Map<TensorId, Vect>,
    handles: Seq<StorageHandle>,
    inputs: Seq<TensorDesc>,
    swapped: Seq<SwappedRelation>,
    dcands: Seq<u8>,
    tbl: LineSizeOverrides,
    max: u8,
    axis: Option<usize>,
    n: int,
)
    requires
        0 <= n <= inputs.len(),
    ensures
        ({
            let m = spec_inputs_upto(m_start, handles, inputs, swapped, dcands, tbl, max, axis, n);
            &&& forall|x: TensorId| m_start.contains_key(x) ==> #[trigger] m.contains_key(x)
            &&& forall|i: int| 0 <= i < n ==> m.contains_key((#[trigger] inputs[i]).id)
        }),
    decreases n,
{
    if n > 0 {
        lemma_inputs_upto_dom(m_start, handles, inputs, swapped, dcands, tbl, max, axis, n - 1);
        lemma_find_swap_id(swapped, inputs[n - 1].id);
        let m_prev = spec_inputs_upto(m_start, handles, inputs, swapped, dcands, tbl, max, axis, n - 1);
        let m = spec_inputs_upto(m_start, handles, inputs, swapped, dcands, tbl, max, axis, n);
        assert(forall|x: TensorId|
            m_prev.contains_key(x) ==> #[trigger] m.contains_key(x));
        assert(m.contains_key(inputs[n - 1].id));
    }
}

proof fn lemma_reshapes_upto_dom(
    m_start: Map<TensorId, Vect>,
    reshaped: Seq<ReshapedRelation>,
    dcands: Seq<u8>,
    tbl: LineSizeOverrides,
    max: u8,
    axis: Option<usize>,
    n: int,
)
    requires
        0 <= n <= reshaped.len(),
    ensures
        ({
            let m = spec_reshapes_upto(m_start, reshaped, dcands, tbl, max, axis, n);
            &&& forall|x: TensorId| m_start.contains_key(x) ==> #[trigger] m.contains_key(x)
            &&& forall|i: int|
                0 <= i < n ==> m.contains_key((#[trigger] reshaped[i]).original.id)
        }),
    decreases n,
{
    if n > 0 {
        lemma_reshapes_upto_dom(m_start, reshaped, dcands, tbl, max, axis, n - 1);
        let m_prev = spec_reshapes_upto(m_start, reshaped, dcands, tbl, max, axis, n - 1);
        let m = spec_reshapes_upto(m_start, reshaped, dcands, tbl, max, axis, n);
        assert(forall|x: TensorId|
            m_prev.contains_key(x) ==> #[trigger] m.contains_key(x));
        assert(m.contains_key(reshaped[n - 1].original.id));
    }
}

proof fn lemma_outputs_upto_dom(
    m_start: Map<TensorId, Vect>,
    outputs: Seq<TensorDesc>,
    dcands: Seq<u8>,
    tbl: LineSizeOverrides,
    max: u8,
    axis: Option<usize>,
    n: int,
)
    requires
        0 <= n <= outputs.len(),
    ensures
        ({
            let m = spec_outputs_upto(m_start, outputs, dcands, tbl, max, axis, n);
            &&& forall|x: TensorId| m_start.contains_key(x) ==> #[trigger] m.contains_key(x)
            &&& forall|i: int| 0 <= i < n ==> m.contains_key((#[trigger] outputs[i]).id)
        }),
    decreases n,
{
    if n > 0 {
        lemma_outputs_upto_dom(m_start, outputs, dcands, tbl, max, axis, n - 1);
        let m_prev = spec_outputs_upto(m_start, outputs, dcands, tbl, max, axis, n - 1);
        let m = spec_outputs_upto(m_start, outputs, dcands, tbl, max, axis, n);
        assert(forall|x: TensorId|
            m_prev.contains_key(x) ==> #[trigger] m.contains_key(x));
        assert(m.contains_key(outputs[n - 1].id));
    }
}

/// The finished mapping holds one decision for every identity that
/// participates in the group: each bound input (a swapped alias is merged
/// into that same original identity), each reshape original, each output,
/// and everything the caller seeded.
pub proof fn lemma_mapping_covers_group(
    m0: Map<TensorId, Vect>,
    handles: Seq<StorageHandle>,
    inputs: Seq<TensorDesc>,
    outputs: Seq<TensorDesc>,
    reshaped: Seq<ReshapedRelation>,
    swapped: Seq<SwappedRelation>,
    dcands: Seq<u8>,
    tbl: LineSizeOverrides,
    max: u8,
    axis: Option<usize>,
)
    ensures
        ({
            let m = spec_vectorization_default(
                m0,
                handles,
                inputs,
                outputs,
                reshaped,
                swapped,
                dcands,
                tbl,
                max,
                axis,
            );
            &&& forall|x: TensorId| m0.contains_key(x) ==> #[trigger] m.contains_key(x)
            &&& forall|i: int|
                0 <= i < inputs.len() ==> m.contains_key((#[trigger] inputs[i]).id)
            &&& forall|i: int|
                0 <= i < reshaped.len() ==> m.contains_key((#[trigger] reshaped[i]).original.id)
            &&& forall|i: int| 0 <= i < outputs.len() ==> m.contains_key((#[trigger] outputs[i]).id)
        }),
{
    let m1 = spec_inputs_upto(
        m0,
        handles,
        inputs,
        swapped,
        dcands,
        tbl,
        max,
        axis,
        inputs.len() as int,
    );
    let m2 = spec_reshapes_upto(m1, reshaped, dcands, tbl, max, axis, reshaped.len() as int);
    lemma_inputs_upto_dom(m0, handles, inputs, swapped, dcands, tbl, max, axis, inputs.len() as int);
    lemma_reshapes_upto_dom(m1, reshaped, dcands, tbl, max, axis, reshaped.len() as int);
    lemma_outputs_upto_dom(m2, outputs, dcands, tbl, max, axis, outputs.len() as int);
}

/// Mismatched widths always collapse to 1: for a fresh identity, two
/// `Aligned` proposals end in their shared width when equal and in
/// `Aligned(1)` otherwise, whichever order they arrive in.
pub proof fn lemma_merge_aligned_commutes(m: Map<TensorId, Vect>, id: TensorId, a: u8, b: u8)
    requires
        !m.contains_key(id),
    ensures
        ({
            let r1 = spec_merge(spec_merge(m, id, Vect::Aligned(a)), id, Vect::Aligned(b));
            let r2 = spec_merge(spec_merge(m, id, Vect::Aligned(b)), id, Vect::Aligned(a));
            &&& r1[id] == if a == b {
                Vect::Aligned(a)
            } else {
                Vect::Aligned(1)
            }
            &&& r1[id] == r2[id]
        }),
{
}

/// Broadcast absorption, as the merge defines it: an identity that
/// receives only `Broadcasted` stays `Broadcasted`; once a broadcast is
/// recorded, any later proposal leaves the mapping unchanged; and a
/// broadcast proposed against a recorded width collapses it to
/// `Aligned(1)`.
pub proof fn lemma_merge_broadcast_rules(m: Map<TensorId, Vect>, id: TensorId, v: Vect, w: u8)
    requires
        !m.contains_key(id),
    ensures
        spec_merge(m, id, Vect::Broadcasted)[id] == Vect::Broadcasted,
        spec_merge(spec_merge(m, id, Vect::Broadcasted), id, v) == spec_merge(
            m,
            id,
            Vect::Broadcasted,
        ),
        spec_merge(spec_merge(m, id, Vect::Aligned(w)), id, Vect::Broadcasted)[id] == Vect::Aligned(
            1,
        ),
{
}

/// Merging the same proposal a second time changes nothing: one decision
/// per identity survives however often an access path re-proposes it.
pub proof fn lemma_merge_idempotent(m: Map<TensorId, Vect>, id: TensorId, v: Vect)
    ensures
        spec_merge(spec_merge(m, id, v), id, v) == spec_merge(m, id, v),
{
    let m1 = spec_merge(m, id, v);
    assert(spec_merge(m1, id, v) =~= m1);
}

/// Resolution is deterministic: the mapping is a function of the
/// descriptors, handles, relations, candidate lists and overrides alone,
/// so re-running the pass on the same facts yields the same mapping.
pub proof fn lemma_resolution_deterministic(
    m0: Map<TensorId, Vect>,
    handles: Seq<StorageHandle>,
    inputs: Seq<TensorDesc>,
    outputs: Seq<TensorDesc>,
    reshaped: Seq<ReshapedRelation>,
    swapped: Seq<SwappedRelation>,
    dcands: Seq<u8>,
    tbl: LineSizeOverrides,
    max: u8,
    axis: Option<usize>,
    r1: Map<TensorId, Vect>,
    r2: Map<TensorId, Vect>,
)
    requires
        r1 == spec_vectorization_default(
            m0,
            handles,
            inputs,
            outputs,
            reshaped,
            swapped,
            dcands,
            tbl,
            max,
            axis,
        ),
        r2 == spec_vectorization_default(
            m0,
            handles,
            inputs,
            outputs,
            reshaped,
            swapped,
            dcands,
            tbl,
            max,
            axis,
        ),
    ensures
        r1 == r2,
{
}

} // verus!
