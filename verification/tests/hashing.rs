use flaggrid::content_hash::calculate_image_hash;

#[test]
fn hash_is_deterministic() {
    let data: Vec<u8> = (0..1000).map(|i| (i % 256) as u8).collect();
    assert_eq!(calculate_image_hash(&data), calculate_image_hash(&data));
}

#[test]
fn hash_distinguishes_changed_capture() {
    let before: Vec<u8> = vec![0, 0, 0, 255];
    let after: Vec<u8> = vec![0, 0, 1, 255];
    assert_ne!(calculate_image_hash(&before), calculate_image_hash(&after));
}

#[test]
fn hash_of_empty_buffer_is_stable() {
    assert_eq!(calculate_image_hash(&[]), calculate_image_hash(&[]));
}
