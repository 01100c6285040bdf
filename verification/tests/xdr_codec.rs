use nfs4_client::xdr::{
    decode_fixed, decode_list, decode_opaque, encode_fixed, encode_list, encode_opaque, from_bytes,
    to_bytes, Xdr, XdrError,
};

fn encoded<T: Xdr>(value: &T) -> Vec<u8> {
    to_bytes(value).unwrap()
}

#[test]
fn u32_is_four_octets_most_significant_first() {
    assert_eq!(encoded(&0x0102_0304u32), vec![1, 2, 3, 4]);
    assert_eq!(encoded(&0u32), vec![0, 0, 0, 0]);
    assert_eq!(encoded(&u32::MAX), vec![0xff, 0xff, 0xff, 0xff]);
    let (v, rest) = u32::decode(&[1, 2, 3, 4, 9]).unwrap();
    assert_eq!(v, 0x0102_0304);
    assert_eq!(rest.to_vec(), vec![9u8]);
}

#[test]
fn u64_is_eight_octets_most_significant_first() {
    assert_eq!(encoded(&0x0102_0304_0506_0708u64), vec![1, 2, 3, 4, 5, 6, 7, 8]);
    assert_eq!(from_bytes::<u64>(&[0, 0, 0, 0, 0, 0, 0, 0xff]), Ok(0xff));
    assert_eq!(from_bytes::<u64>(&[0xff; 8]), Ok(u64::MAX));
}

#[test]
fn signed_integers_travel_in_twos_complement() {
    assert_eq!(encoded(&-1i32), vec![0xff, 0xff, 0xff, 0xff]);
    assert_eq!(encoded(&i32::MIN), vec![0x80, 0, 0, 0]);
    assert_eq!(encoded(&7i32), vec![0, 0, 0, 7]);
    assert_eq!(from_bytes::<i32>(&[0xff, 0xff, 0xff, 0xfe]), Ok(-2));
    assert_eq!(encoded(&-2i64), vec![0xff, 0xff, 0xff, 0xff, 0xff, 0xff, 0xff, 0xfe]);
    assert_eq!(from_bytes::<i64>(&[0x80, 0, 0, 0, 0, 0, 0, 0]), Ok(i64::MIN));
    assert_eq!(from_bytes::<i64>(&encoded(&i64::MAX)), Ok(i64::MAX));
}

#[test]
fn a_boolean_is_the_word_zero_or_one() {
    assert_eq!(encoded(&false), vec![0, 0, 0, 0]);
    assert_eq!(encoded(&true), vec![0, 0, 0, 1]);
    assert_eq!(from_bytes::<bool>(&[0, 0, 0, 1]), Ok(true));
    assert_eq!(from_bytes::<bool>(&[0, 0, 0, 2]), Err(XdrError::BadDiscriminant("bool", 2)));
}

#[test]
fn opaque_data_is_padded_with_zeros_to_a_multiple_of_four() {
    let mut out = Vec::new();
    encode_opaque(&[0xaa, 0xbb, 0xcc, 0xdd, 0xee], &mut out).unwrap();
    assert_eq!(out, vec![0, 0, 0, 5, 0xaa, 0xbb, 0xcc, 0xdd, 0xee, 0, 0, 0]);
    let (data, rest) = decode_opaque(&out).unwrap();
    assert_eq!(data.to_vec(), vec![0xaa, 0xbb, 0xcc, 0xdd, 0xee]);
    assert!(rest.is_empty());

    let mut empty = Vec::new();
    encode_opaque(&[], &mut empty).unwrap();
    assert_eq!(empty, vec![0, 0, 0, 0]);

    let mut exact = Vec::new();
    encode_opaque(&[1, 2, 3, 4], &mut exact).unwrap();
    assert_eq!(exact, vec![0, 0, 0, 4, 1, 2, 3, 4]);
}

#[test]
fn fixed_length_opaque_data_has_no_length() {
    let mut out = Vec::new();
    encode_fixed(&[1, 2, 3, 4, 5, 6], &mut out);
    assert_eq!(out, vec![1, 2, 3, 4, 5, 6, 0, 0]);
    let (data, rest) = decode_fixed(6, &[1, 2, 3, 4, 5, 6, 0, 0, 9]).unwrap();
    assert_eq!(data.to_vec(), vec![1, 2, 3, 4, 5, 6]);
    assert_eq!(rest.to_vec(), vec![9u8]);
    assert_eq!(decode_fixed(6, &[1, 2, 3, 4, 5, 6, 0]), Err(XdrError::Truncated));
}

#[test]
fn a_string_is_the_opaque_data_of_its_utf8_octets() {
    assert_eq!(encoded(&"hi".to_string()), vec![0, 0, 0, 2, 0x68, 0x69, 0, 0]);
    assert_eq!(encoded(&"é".to_string()), vec![0, 0, 0, 2, 0xc3, 0xa9, 0, 0]);
    assert_eq!(from_bytes::<String>(&[0, 0, 0, 2, 0x68, 0x69, 0, 0]), Ok("hi".to_string()));
    assert_eq!(from_bytes::<String>(&[0, 0, 0, 1, 0xff, 0, 0, 0]), Err(XdrError::InvalidUtf8));
}

#[test]
fn a_sequence_is_its_count_and_its_items() {
    assert_eq!(encoded(&vec![1u32, 2, 3]), vec![0, 0, 0, 3, 0, 0, 0, 1, 0, 0, 0, 2, 0, 0, 0, 3]);
    assert_eq!(encoded(&Vec::<u32>::new()), vec![0, 0, 0, 0]);
    assert_eq!(from_bytes::<Vec<u32>>(&[0, 0, 0, 2, 0, 0, 0, 7, 0, 0, 0, 8]), Ok(vec![7, 8]));
    assert_eq!(from_bytes::<Vec<u32>>(&[0, 0, 0, 2, 0, 0, 0, 7]), Err(XdrError::Truncated));
}

#[test]
fn an_optional_is_a_flag_and_the_value_when_present() {
    assert_eq!(encoded(&Some(5u32)), vec![0, 0, 0, 1, 0, 0, 0, 5]);
    assert_eq!(encoded(&None::<u32>), vec![0, 0, 0, 0]);
    assert_eq!(from_bytes::<Option<u32>>(&[0, 0, 0, 1, 0, 0, 0, 5]), Ok(Some(5)));
    assert_eq!(from_bytes::<Option<u32>>(&[0, 0, 0, 0]), Ok(None));
    assert_eq!(
        from_bytes::<Option<u32>>(&[0, 0, 0, 3]),
        Err(XdrError::BadDiscriminant("Option", 3))
    );
}

#[test]
fn a_list_has_a_flag_before_each_item_and_after_the_last() {
    let mut out = Vec::new();
    encode_list(&vec![7u32, 8], &mut out).unwrap();
    assert_eq!(out, vec![0, 0, 0, 1, 0, 0, 0, 7, 0, 0, 0, 1, 0, 0, 0, 8, 0, 0, 0, 0]);
    let (items, rest) = decode_list::<u32>(&out).unwrap();
    assert_eq!(items, vec![7, 8]);
    assert!(rest.is_empty());

    let mut none = Vec::new();
    encode_list(&Vec::<u32>::new(), &mut none).unwrap();
    assert_eq!(none, vec![0, 0, 0, 0]);

    assert_eq!(decode_list::<u32>(&[0, 0, 0, 1, 0, 0, 0, 7]).err(), Some(XdrError::Truncated));
    assert_eq!(
        decode_list::<u32>(&[0, 0, 0, 2]).err(),
        Some(XdrError::BadDiscriminant("Option", 2))
    );
}

#[test]
fn short_input_is_truncated() {
    assert_eq!(from_bytes::<u32>(&[0, 0, 0]), Err(XdrError::Truncated));
    assert_eq!(from_bytes::<u64>(&[0, 0, 0, 0, 0, 0, 0]), Err(XdrError::Truncated));
    assert_eq!(from_bytes::<String>(&[0, 0, 0, 5, 1, 2, 3, 4, 5]), Err(XdrError::Truncated));
    assert_eq!(from_bytes::<bool>(&[]), Err(XdrError::Truncated));
}

#[test]
fn the_unit_takes_no_octets() {
    assert_eq!(encoded(&()), Vec::<u8>::new());
    assert_eq!(from_bytes::<()>(&[]), Ok(()));
}

#[test]
fn primitives_are_encoded_as_serde_xdr_encodes_them() {
    for v in [0u32, 1, 255, 256, 0x0102_0304, u32::MAX] {
        assert_eq!(encoded(&v), serde_xdr::to_bytes(&v).unwrap());
    }
    for v in [0u64, 1, 0x0102_0304_0506_0708, u64::MAX] {
        assert_eq!(encoded(&v), serde_xdr::to_bytes(&v).unwrap());
    }
    for v in [0i32, 1, -1, i32::MIN, i32::MAX] {
        assert_eq!(encoded(&v), serde_xdr::to_bytes(&v).unwrap());
    }
    for v in [0i64, 1, -1, i64::MIN, i64::MAX] {
        assert_eq!(encoded(&v), serde_xdr::to_bytes(&v).unwrap());
    }
    for v in [false, true] {
        assert_eq!(encoded(&v), serde_xdr::to_bytes(&v).unwrap());
    }
    for v in ["", "a", "ab", "abc", "abcd", "abcde", "a_file", "test-machine"] {
        assert_eq!(encoded(&v.to_string()), serde_xdr::to_bytes(&v.to_string()).unwrap());
    }
    assert_eq!(encoded(&vec![1u32, 2, 3]), serde_xdr::to_bytes(&vec![1u32, 2, 3]).unwrap());
    assert_eq!(encoded(&Some(9u64)), serde_xdr::to_bytes(&Some(9u64)).unwrap());
    assert_eq!(encoded(&None::<u64>), serde_xdr::to_bytes(&None::<u64>).unwrap());
    for n in 0..9usize {
        let data: Vec<u8> = (0..n).map(|i| i as u8 + 1).collect();
        let mut out = Vec::new();
        encode_opaque(&data, &mut out).unwrap();
        assert_eq!(out, serde_xdr::to_bytes(&serde_bytes::ByteBuf::from(data.clone())).unwrap());
    }
}

#[test]
fn what_serde_xdr_encodes_is_decoded_to_the_same_value() {
    let bytes = serde_xdr::to_bytes(&(7u32, -3i64, true, "name".to_string())).unwrap();
    let (a, rest) = u32::decode(&bytes).unwrap();
    let (b, rest) = i64::decode(rest).unwrap();
    let (c, rest) = bool::decode(rest).unwrap();
    let (d, rest) = String::decode(rest).unwrap();
    assert_eq!((a, b, c, d), (7, -3, true, "name".to_string()));
    assert!(rest.is_empty());
}
