use ollana::identity::device_identity;

#[test]
fn identity_of_empty_key() {
    let id = device_identity(&Vec::new());
    assert_eq!(
        id,
        "e3b0c44298fc1c149afbf4c8996fb92427ae41e4649b934ca495991b7852b855"
    );
}

#[test]
fn identity_of_known_bytes() {
    let id = device_identity(&b"hello".to_vec());
    assert_eq!(
        id,
        "2cf24dba5fb0a30e26e83b2ac5b9e29e1b161e5c1fa7425e73043362938b9824"
    );
}

#[test]
fn identity_is_deterministic() {
    let key = vec![0x30u8, 0x82, 0x01, 0x02, 0xff, 0x00];
    let first = device_identity(&key);
    let second = device_identity(&key);
    assert_eq!(first, second);
    assert_eq!(first.len(), 64);
    assert!(first.chars().all(|c| c.is_ascii_hexdigit() && !c.is_ascii_uppercase()));
}
