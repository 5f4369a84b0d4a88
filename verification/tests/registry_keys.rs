use whale_vesting::registry::{asset_key, contract_key, to_length_prefixed};

#[test]
fn length_prefix_is_two_bytes_big_endian() {
    assert_eq!(to_length_prefixed(b"assets"), vec![0u8, 6, b'a', b's', b's', b'e', b't', b's']);
    assert_eq!(to_length_prefixed(b""), vec![0u8, 0]);
    // A namespace longer than 255 bytes exercises the high byte.
    let long = vec![7u8; 258];
    let framed = to_length_prefixed(&long);
    assert_eq!(framed[0], 1);
    assert_eq!(framed[1], 2);
    assert_eq!(&framed[2..], &long[..]);
}

#[test]
fn concat_appends_key_to_namespace() {
    assert_eq!(whale_vesting::registry::concat(b"ab", b"cd"), b"abcd".to_vec());
    assert_eq!(whale_vesting::registry::concat(b"", b"xy"), b"xy".to_vec());
    assert_eq!(whale_vesting::registry::concat(b"xy", b""), b"xy".to_vec());
}

#[test]
fn asset_key_matches_registry_layout() {
    let key = asset_key("whale");
    let mut expected = vec![0u8, 6];
    expected.extend_from_slice(b"assets");
    expected.extend_from_slice(b"whale");
    assert_eq!(key, expected);
}

#[test]
fn contract_key_matches_registry_layout() {
    let key = contract_key("vault");
    let mut expected = vec![0u8, 9];
    expected.extend_from_slice(b"contracts");
    expected.extend_from_slice(b"vault");
    assert_eq!(key, expected);
}
