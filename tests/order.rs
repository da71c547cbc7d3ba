use rustcraft::order::order_faces;

#[test]
fn farther_face_is_drawn_first() {
    let keys = vec![10.0f64.to_bits(), 90.0f64.to_bits()];
    assert_eq!(order_faces(&keys), vec![1, 0]);
}

#[test]
fn equal_keys_keep_emission_order() {
    let keys = vec![5, 9, 5, 9, 1];
    assert_eq!(order_faces(&keys), vec![1, 3, 0, 2, 4]);
}

#[test]
fn no_faces_no_order() {
    assert_eq!(order_faces(&vec![]), Vec::<usize>::new());
}

#[test]
fn bits_of_non_negative_floats_order_like_the_floats() {
    let depths = [0.25f64, 3.5, 0.0, 1e6, 2.0];
    let keys: Vec<u64> = depths.iter().map(|d| d.to_bits()).collect();
    assert_eq!(order_faces(&keys), vec![3, 1, 4, 0, 2]);
}
