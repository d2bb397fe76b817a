use opaque_ke::errors::ProtocolError;
use opaque_ke::serialization::{append_len_prefixed, concat_bytes, i2osp_2, take_array};

#[test]
fn take_array_takes_prefix() {
    let data = [1u8, 2, 3, 4, 5];
    let mut input: &[u8] = &data;
    assert_eq!(take_array(&mut input, 2), Ok(vec![1, 2]));
    assert_eq!(input, &[3, 4, 5]);
    assert_eq!(take_array(&mut input, 3), Ok(vec![3, 4, 5]));
    assert!(input.is_empty());
    assert_eq!(take_array(&mut input, 0), Ok(vec![]));
}

#[test]
fn take_array_short_input_is_refused() {
    let data = [1u8, 2, 3];
    let mut input: &[u8] = &data;
    assert_eq!(take_array(&mut input, 4), Err(ProtocolError::SerializationError));
    assert_eq!(input, &[1, 2, 3]);
}

#[test]
fn i2osp_2_is_big_endian() {
    assert_eq!(i2osp_2(0), vec![0, 0]);
    assert_eq!(i2osp_2(258), vec![1, 2]);
    assert_eq!(i2osp_2(65535), vec![255, 255]);
}

#[test]
fn length_prefix_and_concat() {
    let mut v = vec![9u8];
    append_len_prefixed(&mut v, b"abc");
    assert_eq!(v, vec![9, 0, 3, b'a', b'b', b'c']);
    assert_eq!(concat_bytes(b"ab", b"cd"), b"abcd".to_vec());
}
