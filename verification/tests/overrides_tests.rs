use vectorization::id_map::IdMap;
use vectorization::overrides::LineSizeOverrides;

#[test]
fn empty_table_yields_nothing() {
    let table = LineSizeOverrides::default();
    assert_eq!(table.tensor(&1), None);
}

#[test]
fn per_tensor_entry_beats_table_default() {
    let mut table = LineSizeOverrides::default();
    table.overrides(&7, vec![2]);
    table.overrides_default(vec![4]);
    assert_eq!(table.tensor(&7), Some(&vec![2u8]));
    assert_eq!(table.tensor(&8), Some(&vec![4u8]));
}

#[test]
fn later_entry_replaces_earlier_one() {
    let mut table = LineSizeOverrides::default();
    table.overrides(&7, vec![8]);
    table.overrides(&7, vec![2, 1]);
    assert_eq!(table.tensor(&7), Some(&vec![2u8, 1u8]));
}

#[test]
fn table_default_alone_serves_every_identity() {
    let mut table = LineSizeOverrides::default();
    table.overrides_default(vec![4, 2]);
    assert_eq!(table.tensor(&1), Some(&vec![4u8, 2u8]));
    assert_eq!(table.tensor(&99), Some(&vec![4u8, 2u8]));
}

#[test]
fn mapping_translates_identities() {
    let mut table = LineSizeOverrides::default();
    table.overrides(&1, vec![2]);
    table.overrides(&2, vec![8]);
    table.overrides_default(vec![4]);

    let mut translation: IdMap<u64> = IdMap::new();
    translation.insert(1, 100);
    translation.insert(2, 200);

    let remapped = table.mapping(&translation);
    assert_eq!(remapped.tensor(&100), Some(&vec![2u8]));
    assert_eq!(remapped.tensor(&200), Some(&vec![8u8]));
    // An identity without its own entry still sees the fallback list.
    assert_eq!(remapped.tensor(&1), Some(&vec![4u8]));
}

#[test]
fn mapping_without_state_keeps_fallback() {
    let mut table = LineSizeOverrides::default();
    table.overrides_default(vec![4]);
    let translation: IdMap<u64> = IdMap::new();
    let remapped = table.mapping(&translation);
    assert_eq!(remapped.tensor(&5), Some(&vec![4u8]));
}

#[test]
fn id_map_insert_and_get() {
    let mut m: IdMap<u64> = IdMap::new();
    assert_eq!(m.get(3), None);
    m.insert(3, 30);
    m.insert(4, 40);
    m.insert(3, 31);
    assert_eq!(m.get(3), Some(&31));
    assert_eq!(m.get(4), Some(&40));
    assert_eq!(m.get(5), None);
}
