use vectorization::Vect;
use vectorization::id_map::IdMap;
use vectorization::orchestrate::{multi_reads_vectorization_update, vectorization_default};
use vectorization::overrides::LineSizeOverrides;
use vectorization::tensor::{ReshapedRelation, StorageHandle, SwappedRelation, TensorDesc};

fn desc(id: u64, shape: Vec<usize>) -> TensorDesc {
    TensorDesc { id, shape }
}

#[test]
fn merge_mismatched_widths_collapse_either_order() {
    let mut m1: IdMap<Vect> = IdMap::new();
    multi_reads_vectorization_update(&mut m1, 1, Vect::Aligned(4));
    multi_reads_vectorization_update(&mut m1, 1, Vect::Aligned(2));
    assert_eq!(m1.get(1), Some(&Vect::Aligned(1)));

    let mut m2: IdMap<Vect> = IdMap::new();
    multi_reads_vectorization_update(&mut m2, 1, Vect::Aligned(2));
    multi_reads_vectorization_update(&mut m2, 1, Vect::Aligned(4));
    assert_eq!(m2.get(1), Some(&Vect::Aligned(1)));
}

#[test]
fn merge_equal_widths_keep_width() {
    let mut m: IdMap<Vect> = IdMap::new();
    multi_reads_vectorization_update(&mut m, 1, Vect::Aligned(4));
    multi_reads_vectorization_update(&mut m, 1, Vect::Aligned(4));
    assert_eq!(m.get(1), Some(&Vect::Aligned(4)));
}

#[test]
fn merge_broadcast_only_stays_broadcast() {
    let mut m: IdMap<Vect> = IdMap::new();
    multi_reads_vectorization_update(&mut m, 1, Vect::Broadcasted);
    assert_eq!(m.get(1), Some(&Vect::Broadcasted));
}

#[test]
fn merge_recorded_broadcast_dominates_later_width() {
    let mut m: IdMap<Vect> = IdMap::new();
    multi_reads_vectorization_update(&mut m, 1, Vect::Broadcasted);
    multi_reads_vectorization_update(&mut m, 1, Vect::Aligned(4));
    assert_eq!(m.get(1), Some(&Vect::Broadcasted));
}

#[test]
fn merge_broadcast_against_recorded_width_collapses() {
    let mut m: IdMap<Vect> = IdMap::new();
    multi_reads_vectorization_update(&mut m, 1, Vect::Aligned(4));
    multi_reads_vectorization_update(&mut m, 1, Vect::Broadcasted);
    assert_eq!(m.get(1), Some(&Vect::Aligned(1)));
}

#[test]
fn whole_group_resolves_each_category() {
    // Input 1 is plain and contiguous; input 2 is the original of a
    // swapped pair; tensor 3 is reshaped from input 1; tensor 4 is the
    // output.
    let handles = vec![
        StorageHandle { strides: vec![16, 1] },
        StorageHandle { strides: vec![1, 8] },
    ];
    let inputs = vec![desc(1, vec![8, 16]), desc(2, vec![8, 16])];
    let outputs = vec![desc(4, vec![8, 16])];
    let reshaped = vec![ReshapedRelation {
        reshaped: desc(3, vec![2, 4, 16]),
        original: desc(1, vec![8, 16]),
        multi_reads: true,
    }];
    let swapped = vec![SwappedRelation {
        swapped: desc(5, vec![16, 8]),
        original: desc(2, vec![8, 16]),
        multi_reads: false,
        dims: (0, 1),
    }];
    let cands: Vec<u8> = vec![4, 2, 1];
    let table = LineSizeOverrides::default();

    let mut m: IdMap<Vect> = IdMap::new();
    vectorization_default(
        &mut m, &handles, &inputs, &outputs, &reshaped, &swapped, &cands, &table, 4, None,
    );

    // Input 1: 16 divisible by 4 on a stride-1 axis.
    // Reshape into 1: also Aligned(4), equal widths keep 4.
    assert_eq!(m.get(1), Some(&Vect::Aligned(4)));
    // Input 2 went through the swapped resolver: axis 1 maps to physical
    // axis 0 with stride 1, extents 16 and 16 divisible by 4.
    assert_eq!(m.get(2), Some(&Vect::Aligned(4)));
    // Output 4: plain divisibility scan bounded by max.
    assert_eq!(m.get(4), Some(&Vect::Aligned(4)));
    // The reshaped alias itself gets no entry of its own.
    assert_eq!(m.get(3), None);
}

#[test]
fn conflicting_views_collapse_to_one() {
    // The reshape proposes width 2 for tensor 1 while the input pass
    // proposed 4: the merged decision collapses to Aligned(1).
    let handles = vec![StorageHandle { strides: vec![16, 1] }];
    let inputs = vec![desc(1, vec![8, 16])];
    let outputs: Vec<TensorDesc> = vec![];
    let reshaped = vec![ReshapedRelation {
        reshaped: desc(3, vec![64, 2]),
        original: desc(1, vec![8, 2]),
        multi_reads: true,
    }];
    let swapped: Vec<SwappedRelation> = vec![];
    let cands: Vec<u8> = vec![4, 2, 1];
    let table = LineSizeOverrides::default();

    let mut m: IdMap<Vect> = IdMap::new();
    vectorization_default(
        &mut m, &handles, &inputs, &outputs, &reshaped, &swapped, &cands, &table, 4, None,
    );
    assert_eq!(m.get(1), Some(&Vect::Aligned(1)));
}

#[test]
fn rerunning_the_pass_yields_the_same_mapping() {
    let handles = vec![
        StorageHandle { strides: vec![16, 1] },
        StorageHandle { strides: vec![1, 8] },
    ];
    let inputs = vec![desc(1, vec![8, 16]), desc(2, vec![8, 16])];
    let outputs = vec![desc(4, vec![8, 12])];
    let reshaped = vec![ReshapedRelation {
        reshaped: desc(3, vec![2, 4, 16]),
        original: desc(1, vec![8, 16]),
        multi_reads: false,
    }];
    let swapped = vec![SwappedRelation {
        swapped: desc(5, vec![16, 8]),
        original: desc(2, vec![8, 16]),
        multi_reads: true,
        dims: (0, 1),
    }];
    let cands: Vec<u8> = vec![4, 2, 1];
    let mut table = LineSizeOverrides::default();
    table.overrides(&4, vec![2, 1]);

    let mut first: IdMap<Vect> = IdMap::new();
    vectorization_default(
        &mut first, &handles, &inputs, &outputs, &reshaped, &swapped, &cands, &table, 4, Some(1),
    );
    let mut second: IdMap<Vect> = IdMap::new();
    vectorization_default(
        &mut second, &handles, &inputs, &outputs, &reshaped, &swapped, &cands, &table, 4, Some(1),
    );
    for id in [1u64, 2, 3, 4, 5] {
        assert_eq!(first.get(id), second.get(id));
    }
}

#[test]
fn override_entry_steers_the_group_decision() {
    let handles = vec![StorageHandle { strides: vec![16, 1] }];
    let inputs = vec![desc(1, vec![8, 16])];
    let outputs: Vec<TensorDesc> = vec![];
    let reshaped: Vec<ReshapedRelation> = vec![];
    let swapped: Vec<SwappedRelation> = vec![];
    let cands: Vec<u8> = vec![8, 4, 2, 1];
    let mut table = LineSizeOverrides::default();
    table.overrides(&1, vec![2]);

    let mut m: IdMap<Vect> = IdMap::new();
    vectorization_default(
        &mut m, &handles, &inputs, &outputs, &reshaped, &swapped, &cands, &table, 8, Some(1),
    );
    assert_eq!(m.get(1), Some(&Vect::Aligned(2)));
}
