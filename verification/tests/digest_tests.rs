use remote_mirror::digest::{hash, is_valid_digest, to_hex, DIGEST_LEN, HASH_LEN};

#[test]
fn hash_of_empty_input_is_the_known_value() {
    assert_eq!(
        hash(b""),
        "af1349b9f5f9a1a6a0404dea36dcc9499bcb25c9adc112b7cc9a93cae41f3262"
    );
}

#[test]
fn hash_agrees_with_the_hex_form_that_blake3_gives() {
    let inputs: Vec<Vec<u8>> = vec![
        Vec::new(),
        b"a".to_vec(),
        b"hello world".to_vec(),
        vec![0u8; 1024],
        (0..=255u8).collect(),
        vec![7u8; 70_000],
    ];
    for input in inputs {
        assert_eq!(hash(&input), blake3::hash(&input).to_hex().to_string());
    }
}

#[test]
fn hash_is_a_function_of_the_content() {
    assert_eq!(hash(b"same bytes"), hash(b"same bytes"));
    assert_ne!(hash(b"same bytes"), hash(b"other bytes"));
    assert_ne!(hash(b"abc"), "abc");
}

#[test]
fn to_hex_spells_each_byte_with_two_lower_case_digits() {
    assert_eq!(to_hex(&[0x00, 0x0f, 0xa0, 0xff, 0x19]), "000fa0ff19");
    assert_eq!(to_hex(&[]), "");
    assert_eq!(to_hex(&[0xde, 0xad, 0xbe, 0xef]), "deadbeef");
}

#[test]
fn a_digest_has_64_lower_case_hex_digits() {
    assert_eq!(HASH_LEN, 32);
    assert_eq!(DIGEST_LEN, 64);
    assert_eq!(hash(b"hello").len(), 64);
    assert!(is_valid_digest(&hash(b"hello")));
    assert!(!is_valid_digest(""));
    assert!(!is_valid_digest(&"a".repeat(63)));
    assert!(!is_valid_digest(&"a".repeat(65)));
    assert!(is_valid_digest(&"0123456789abcdef".repeat(4)));
    assert!(!is_valid_digest(&"0123456789ABCDEF".repeat(4)));
    assert!(!is_valid_digest(&"g".repeat(64)));
    assert!(!is_valid_digest(&"é".repeat(64)));
    assert!(!is_valid_digest(&"/".repeat(64)));
    assert!(!is_valid_digest(&":".repeat(64)));
    assert!(!is_valid_digest(&"`".repeat(64)));
}
