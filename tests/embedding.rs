use zipy::embedding::{blob_to_embedding, embedding_to_blob};

fn bits(v: &[f32]) -> Vec<u32> {
    v.iter().map(|x| x.to_bits()).collect()
}

fn floats(v: &[u32]) -> Vec<f32> {
    v.iter().map(|b| f32::from_bits(*b)).collect()
}

#[test]
fn test_embedding_conversion() {
    let original = vec![1.0, -0.5, 0.25, -0.125];
    let blob = embedding_to_blob(&bits(&original)).unwrap();
    let restored = floats(&blob_to_embedding(&blob));
    assert_eq!(original, restored);
}

#[test]
fn blob_is_little_endian_four_bytes_per_element() {
    let blob = embedding_to_blob(&bits(&[1.0, -2.0])).unwrap();
    assert_eq!(blob, vec![0x00, 0x00, 0x80, 0x3f, 0x00, 0x00, 0x00, 0xc0]);
}

#[test]
fn empty_embedding_gives_empty_blob() {
    assert_eq!(embedding_to_blob(&[]), Some(vec![]));
    assert_eq!(blob_to_embedding(&[]), Vec::<u32>::new());
}

#[test]
fn trailing_partial_group_is_ignored() {
    let restored = blob_to_embedding(&[0x00, 0x00, 0x80, 0x3f, 0x01, 0x02]);
    assert_eq!(floats(&restored), vec![1.0]);
}
