use vectorization::Vect;
use vectorization::resolvers::{
    scan_candidates, vectorization_input, vectorization_output, vectorization_reshape,
    vectorization_swapped,
};
use vectorization::tensor::{StorageHandle, TensorDesc};

fn desc(id: u64, shape: Vec<usize>) -> TensorDesc {
    TensorDesc { id, shape }
}

#[test]
fn input_contiguous_picks_first_dividing_candidate() {
    let handle = StorageHandle { strides: vec![16, 1] };
    let t = desc(1, vec![8, 16]);
    let cands: Vec<u8> = vec![4, 2, 1];
    let r = vectorization_input(&handle, &t, Some(1), &cands, None);
    assert_eq!(r, Vect::Aligned(4));
}

#[test]
fn input_non_contiguous_axis_is_unpacked() {
    let handle = StorageHandle { strides: vec![1, 8] };
    let t = desc(1, vec![8, 16]);
    let cands: Vec<u8> = vec![4, 2, 1];
    let r = vectorization_input(&handle, &t, Some(1), &cands, None);
    assert_eq!(r, Vect::Aligned(1));
}

#[test]
fn input_size_one_axis_broadcasts() {
    let handle = StorageHandle { strides: vec![1, 1] };
    let t = desc(1, vec![8, 1]);
    let cands: Vec<u8> = vec![4, 2, 1];
    let r = vectorization_input(&handle, &t, Some(1), &cands, None);
    assert_eq!(r, Vect::Broadcasted);
}

#[test]
fn input_defaults_to_last_axis() {
    let handle = StorageHandle { strides: vec![16, 1] };
    let t = desc(1, vec![8, 16]);
    let cands: Vec<u8> = vec![8, 4];
    let r = vectorization_input(&handle, &t, None, &cands, None);
    assert_eq!(r, Vect::Aligned(8));
}

#[test]
fn input_override_list_takes_precedence() {
    let handle = StorageHandle { strides: vec![16, 1] };
    let t = desc(1, vec![8, 16]);
    let cands: Vec<u8> = vec![8, 4, 2, 1];
    let ovr: Vec<u8> = vec![2];
    let r = vectorization_input(&handle, &t, Some(1), &cands, Some(&ovr));
    assert_eq!(r, Vect::Aligned(2));
}

#[test]
fn input_no_candidate_divides_falls_back_to_one() {
    let handle = StorageHandle { strides: vec![15, 1] };
    let t = desc(1, vec![8, 15]);
    let cands: Vec<u8> = vec![4, 2];
    let r = vectorization_input(&handle, &t, Some(1), &cands, None);
    assert_eq!(r, Vect::Aligned(1));
}

#[test]
fn scan_empty_candidate_list_falls_back_to_one() {
    let cands: Vec<u8> = vec![];
    assert_eq!(scan_candidates(&cands, 16, None, None), Vect::Aligned(1));
}

#[test]
fn scan_respects_second_extent_and_max() {
    let cands: Vec<u8> = vec![8, 4, 2];
    assert_eq!(scan_candidates(&cands, 16, Some(8), None), Vect::Aligned(8));
    assert_eq!(scan_candidates(&cands, 16, Some(4), None), Vect::Aligned(4));
    assert_eq!(scan_candidates(&cands, 16, None, Some(4)), Vect::Aligned(4));
    assert_eq!(scan_candidates(&cands, 16, Some(2), Some(2)), Vect::Aligned(2));
}

#[test]
fn output_not_divisible_falls_back_to_one() {
    let t = desc(2, vec![8, 15]);
    let cands: Vec<u8> = vec![4, 2, 1];
    let r = vectorization_output(&t, Some(1), &cands, 4, None);
    assert_eq!(r, Vect::Aligned(1));
}

#[test]
fn output_bounded_by_max_width() {
    let t = desc(2, vec![8, 16]);
    let cands: Vec<u8> = vec![8, 4, 2, 1];
    let r = vectorization_output(&t, Some(1), &cands, 4, None);
    assert_eq!(r, Vect::Aligned(4));
}

#[test]
fn output_size_one_axis_never_broadcasts() {
    let t = desc(2, vec![8, 1]);
    let cands: Vec<u8> = vec![4, 2, 1];
    let r = vectorization_output(&t, Some(1), &cands, 4, None);
    assert_eq!(r, Vect::Aligned(1));
}

#[test]
fn reshape_matching_extents_packs() {
    let reshaped = desc(3, vec![2, 4, 16]);
    let original = desc(4, vec![8, 16]);
    let cands: Vec<u8> = vec![4, 1];
    let r = vectorization_reshape(&reshaped, &original, false, None, &cands, 4, None);
    assert_eq!(r, Vect::Aligned(4));
}

#[test]
fn reshape_multi_read_needs_original_divisible() {
    let reshaped = desc(3, vec![2, 4, 16]);
    let original = desc(4, vec![8, 15]);
    let cands: Vec<u8> = vec![4, 1];
    // The original trailing extent 15 differs from 16, so no packing.
    let r = vectorization_reshape(&reshaped, &original, true, None, &cands, 4, None);
    assert_eq!(r, Vect::Aligned(1));
}

#[test]
fn reshape_size_one_axis_broadcasts_when_single_read() {
    let reshaped = desc(3, vec![8, 1]);
    let original = desc(4, vec![8]);
    let cands: Vec<u8> = vec![4, 1];
    let r = vectorization_reshape(&reshaped, &original, false, None, &cands, 4, None);
    assert_eq!(r, Vect::Broadcasted);
}

#[test]
fn reshape_non_trailing_axis_is_unpacked() {
    let reshaped = desc(3, vec![16, 4]);
    let original = desc(4, vec![8, 16]);
    let cands: Vec<u8> = vec![4, 1];
    let r = vectorization_reshape(&reshaped, &original, false, Some(0), &cands, 4, None);
    assert_eq!(r, Vect::Aligned(1));
}

#[test]
fn swapped_contiguous_pair_packs() {
    // Axes 0 and 1 exchanged; the vectorization axis 1 maps to physical
    // axis 0, whose stride must be 1.
    let handle = StorageHandle { strides: vec![1, 8] };
    let swapped = desc(5, vec![16, 8]);
    let original = desc(6, vec![8, 16]);
    let cands: Vec<u8> = vec![4, 2, 1];
    let r = vectorization_swapped(
        &handle, &swapped, &original, false, (0, 1), 4, Some(1), &cands, None,
    );
    assert_eq!(r, Vect::Aligned(4));
}

#[test]
fn swapped_non_contiguous_mapped_axis_is_unpacked() {
    let handle = StorageHandle { strides: vec![8, 1] };
    let swapped = desc(5, vec![16, 8]);
    let original = desc(6, vec![8, 16]);
    let cands: Vec<u8> = vec![4, 2, 1];
    let r = vectorization_swapped(
        &handle, &swapped, &original, false, (0, 1), 4, Some(1), &cands, None,
    );
    assert_eq!(r, Vect::Aligned(1));
}

#[test]
fn swapped_multi_read_needs_both_strides_contiguous() {
    // Multi-read checks the vectorization axis stride too: stride 8 at
    // axis 1 forbids packing even though the mapped axis is contiguous.
    let handle = StorageHandle { strides: vec![1, 8] };
    let swapped = desc(5, vec![16, 8]);
    let original = desc(6, vec![8, 16]);
    let cands: Vec<u8> = vec![4, 2, 1];
    let r = vectorization_swapped(
        &handle, &swapped, &original, true, (0, 1), 4, Some(1), &cands, None,
    );
    assert_eq!(r, Vect::Aligned(1));
}

#[test]
fn swapped_size_one_axis_broadcasts_when_single_read() {
    let handle = StorageHandle { strides: vec![1, 1] };
    let swapped = desc(5, vec![16, 1]);
    let original = desc(6, vec![1, 16]);
    let cands: Vec<u8> = vec![4, 2, 1];
    let r = vectorization_swapped(
        &handle, &swapped, &original, false, (0, 1), 4, Some(1), &cands, None,
    );
    assert_eq!(r, Vect::Broadcasted);
}
