use telegram::error::Error;
use telegram::ser::Serialize;

fn encode<T: Serialize>(v: &T) -> Vec<u8> {
    let mut buffer = Vec::new();
    v.serialize_to(&mut buffer).unwrap();
    buffer
}

#[test]
fn u32_is_little_endian() {
    assert_eq!(encode(&0x60469778u32), vec![0x78, 0x97, 0x46, 0x60]);
}

#[test]
fn u64_is_little_endian() {
    assert_eq!(encode(&0x0102030405060708u64), vec![8, 7, 6, 5, 4, 3, 2, 1]);
}

#[test]
fn negative_i32_is_twos_complement() {
    assert_eq!(encode(&-2i32), vec![0xfe, 0xff, 0xff, 0xff]);
}

#[test]
fn i64_is_little_endian() {
    assert_eq!(encode(&-1i64), vec![0xff; 8]);
    assert_eq!(encode(&258i64), vec![2, 1, 0, 0, 0, 0, 0, 0]);
}

#[test]
fn i128_is_sixteen_bytes() {
    let nonce: i128 = 0x3E0549828CCA27E966B301A48FECE2FC;
    let bytes = encode(&nonce);
    assert_eq!(bytes.len(), 16);
    assert_eq!(bytes[0], 0xFC);
    assert_eq!(bytes[15], 0x3E);
}

#[test]
fn bools_are_their_constructor_ids() {
    assert_eq!(encode(&true), vec![0xb5, 0x75, 0x72, 0x99]);
    assert_eq!(encode(&false), vec![0x37, 0x97, 0x79, 0xbc]);
}

#[test]
fn short_string_has_one_byte_head_and_padding() {
    assert_eq!(encode(&String::from("abc")), vec![3, b'a', b'b', b'c']);
    assert_eq!(
        encode(&String::from("abcd")),
        vec![4, b'a', b'b', b'c', b'd', 0, 0, 0]
    );
    assert_eq!(encode(&String::new()), vec![0, 0, 0, 0]);
}

#[test]
fn string_of_253_bytes_keeps_one_byte_head() {
    let s = "x".repeat(253);
    let bytes = encode(&s);
    assert_eq!(bytes[0], 253);
    assert_eq!(bytes.len(), 256);
}

#[test]
fn long_string_has_four_byte_head() {
    let s = "y".repeat(300);
    let bytes = encode(&s);
    assert_eq!(&bytes[..4], &[254, 0x2c, 0x01, 0x00]);
    assert_eq!(&bytes[4..304], s.as_bytes());
    assert_eq!(bytes.len(), 304);
}

#[test]
fn strings_are_word_aligned() {
    for len in 0..600 {
        let s = "z".repeat(len);
        assert_eq!(encode(&s).len() % 4, 0, "length {}", len);
    }
}

#[test]
fn multibyte_string_counts_bytes() {
    let bytes = encode(&String::from("é"));
    assert_eq!(bytes, vec![2, 0xc3, 0xa9, 0]);
}

#[test]
fn too_long_string_is_refused_after_nothing_written() {
    let s = "a".repeat(0x100_0000);
    let mut buffer = vec![7u8];
    assert_eq!(s.serialize_to(&mut buffer), Err(Error::TooLong));
    assert_eq!(buffer, vec![7u8]);
}

#[test]
fn vector_has_id_count_and_elements() {
    let v: Vec<i32> = vec![1, -1];
    assert_eq!(
        encode(&v),
        vec![0x15, 0xc4, 0xb5, 0x1c, 2, 0, 0, 0, 1, 0, 0, 0, 0xff, 0xff, 0xff, 0xff]
    );
}

#[test]
fn vector_of_strings_is_word_aligned() {
    let v = vec![String::from("a"), String::from("bcdef")];
    let bytes = encode(&v);
    assert_eq!(bytes.len() % 4, 0);
    assert_eq!(bytes.len(), 8 + 4 + 8);
}

#[test]
fn serialization_appends_to_buffer() {
    let mut buffer = vec![9u8, 9];
    5u32.serialize_to(&mut buffer).unwrap();
    assert_eq!(buffer, vec![9, 9, 5, 0, 0, 0]);
}
