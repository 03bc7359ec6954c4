use vectorization::Vect;

#[test]
fn line_size_of_broadcast_is_one() {
    assert_eq!(Vect::Broadcasted.line_size(), 1);
}

#[test]
fn line_size_of_aligned_is_width() {
    assert_eq!(Vect::Aligned(4).line_size(), 4);
    assert_eq!(Vect::Aligned(1).line_size(), 1);
}

#[test]
fn is_broadcast_distinguishes_variants() {
    assert!(Vect::Broadcasted.is_broadcast());
    assert!(!Vect::Aligned(8).is_broadcast());
}

#[test]
fn limit_to_one_collapses_width_keeps_broadcast() {
    assert_eq!(Vect::Aligned(8).limit_to_one(), Vect::Aligned(1));
    assert_eq!(Vect::Aligned(1).limit_to_one(), Vect::Aligned(1));
    assert_eq!(Vect::Broadcasted.limit_to_one(), Vect::Broadcasted);
}
