use glee::embeddings::{bytes_to_embedding, embedding_to_bytes};

fn to_bytes(embedding: &[f32]) -> Vec<u8> {
    let words: Vec<u32> = embedding.iter().map(|f| f.to_bits()).collect();
    embedding_to_bytes(&words)
}

fn from_bytes(bytes: &[u8]) -> Vec<f32> {
    bytes_to_embedding(bytes).into_iter().map(f32::from_bits).collect()
}

#[test]
fn test_embedding_serialization() {
    let embedding: Vec<f32> = vec![0.1, 0.2, 0.3, 0.4, 0.5];
    let bytes = to_bytes(&embedding);
    let restored = from_bytes(&bytes);

    assert_eq!(embedding.len(), restored.len());
    for (a, b) in embedding.iter().zip(restored.iter()) {
        assert!((a - b).abs() < 0.0001);
    }
}

#[test]
fn embedding_bytes_are_little_endian_floats() {
    let embedding: Vec<f32> = vec![1.0, -2.5, 0.0];
    let expected: Vec<u8> = embedding.iter().flat_map(|f| f.to_le_bytes()).collect();
    assert_eq!(to_bytes(&embedding), expected);
    assert_eq!(embedding_to_bytes(&vec![0x0403_0201, 0xffff_fffe]), vec![1, 2, 3, 4, 0xfe, 0xff, 0xff, 0xff]);
    assert_eq!(bytes_to_embedding(&[1, 2, 3, 4, 0xfe, 0xff, 0xff, 0xff]), vec![0x0403_0201, 0xffff_fffe]);
    assert!(embedding_to_bytes(&Vec::new()).is_empty());
    assert!(bytes_to_embedding(&[]).is_empty());
}

#[test]
fn embedding_round_trip_is_exact() {
    let words: Vec<u32> = vec![0, 1, 255, 256, 65535, 65536, 0x7f80_0000, 0xffc0_0001, u32::MAX];
    assert_eq!(bytes_to_embedding(&embedding_to_bytes(&words)), words);
    let fractions: Vec<f32> = vec![0.1, -0.0, f32::MIN_POSITIVE, f32::MAX, 3.25e-7];
    let restored = from_bytes(&to_bytes(&fractions));
    let bits = |v: &[f32]| v.iter().map(|f| f.to_bits()).collect::<Vec<u32>>();
    assert_eq!(bits(&restored), bits(&fractions));
}

#[test]
fn leftover_bytes_count_as_one_zero() {
    assert_eq!(bytes_to_embedding(&[1, 0, 0, 0, 9, 9]), vec![1, 0]);
    assert_eq!(bytes_to_embedding(&[7]), vec![0]);
    assert_eq!(from_bytes(&[0, 0, 128, 63, 1, 2, 3]), vec![1.0, 0.0]);
}
