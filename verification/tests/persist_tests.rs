use mem_agent::persist::layout::{
    check_index_lengths, decode_header, dimension_mismatch_message, encode_header, flatten,
    id_section, id_section_bytes, split_vectors, HEADER_LEN,
};

#[test]
fn header_round_trip() {
    let h = encode_header(3, 384);
    assert_eq!(h.len(), HEADER_LEN);
    assert_eq!(decode_header(&h), (3, 384));
    let h = encode_header(u64::MAX, 0);
    assert_eq!(decode_header(&h), (u64::MAX, 0));
}

#[test]
fn header_is_little_endian() {
    let h = encode_header(1, 0x0102);
    assert_eq!(h, vec![1, 0, 0, 0, 0, 0, 0, 0, 2, 1, 0, 0, 0, 0, 0, 0]);
    let mut expected = 7u64.to_le_bytes().to_vec();
    expected.extend_from_slice(&4u64.to_le_bytes());
    assert_eq!(encode_header(7, 4), expected);
}

#[test]
fn vectors_round_trip_through_layout() {
    let vectors: Vec<Vec<f32>> = vec![vec![1.0, 2.0, 3.0, 4.0], vec![5.0, 6.0, 7.0, 8.0], vec![9.0, 10.0, 11.0, 12.0]];
    let flat = flatten(&vectors);
    assert_eq!(flat.len(), 12);
    assert_eq!(split_vectors(&flat, 3, 4), vectors);
    let empty: Vec<Vec<f32>> = vec![];
    assert!(flatten(&empty).is_empty());
    assert!(split_vectors(&Vec::<f32>::new(), 0, 4).is_empty());
}

#[test]
fn layout_messages() {
    assert_eq!(
        dimension_mismatch_message(4, 3, "/tmp/v.bin"),
        "Dimension mismatch: expected 4, found 3 in '/tmp/v.bin'"
    );
    assert!(check_index_lengths(2, 2).is_ok());
    assert_eq!(check_index_lengths(2, 3).unwrap_err(), "Index ids/vectors length mismatch");
}

#[test]
fn id_section_reads_back_what_was_written() {
    let ids: Vec<i64> = vec![1, -2, 300, i64::MAX];
    let bytes = id_section_bytes(&ids);
    assert_eq!(bytes.len(), 32);
    assert_eq!(id_section(&bytes, 4), Some(ids));
}

#[test]
fn id_section_needs_eight_bytes_per_id() {
    assert_eq!(id_section(&[], 0), Some(vec![]));
    assert_eq!(id_section(&[0u8; 7], 1), None);
    assert_eq!(id_section(&[0u8; 16], 1), None);
    assert_eq!(id_section(&[0u8; 8], 0), None);
    assert!(id_section_bytes(&vec![]).is_empty());
}
