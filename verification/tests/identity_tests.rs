use remote_mirror::error::SyncError;
use remote_mirror::identity::{
    endpoint_to_device_name, key_from_bytes, load_secret_key, new_key_file, same_key, KEY_LEN,
};

fn unhex(text: &str) -> Vec<u8> {
    (0..text.len() / 2)
        .map(|i| u8::from_str_radix(&text[2 * i..2 * i + 2], 16).expect("hex"))
        .collect()
}

fn key(text: &str) -> [u8; 32] {
    let bytes = unhex(text);
    let mut out = [0u8; 32];
    out.copy_from_slice(&bytes);
    out
}

const SECRET_ONE: &str = "9d61b19deffd5a60ba844af492ec2cc44449c5697b326919703bac031cae7f60";
const PUBLIC_ONE: &str = "d75a980182b10ab7d54bfed3c964073a0ee172f3daa62325af021a68f707511a";
const SECRET_TWO: &str = "4ccd089b28ff96da9db6c346ec114e0f5b8a319f35aba624da8cf6ed4fb8a6fb";
const PUBLIC_TWO: &str = "3d4017c3e843895a92b70aa74d1b7ebc9c982ccf2ec4968cc0cd55f12af4660c";

#[test]
fn the_alias_of_a_peer_is_the_one_whose_key_fits() {
    let directory = vec![
        ("alice".to_string(), unhex(SECRET_ONE)),
        ("bob".to_string(), unhex(SECRET_TWO)),
    ];
    assert_eq!(endpoint_to_device_name(&directory, &key(PUBLIC_ONE)), Ok("alice".to_string()));
    assert_eq!(endpoint_to_device_name(&directory, &key(PUBLIC_TWO)), Ok("bob".to_string()));
}

#[test]
fn the_public_key_is_derived_and_not_the_secret_handed_back() {
    let directory = vec![("alice".to_string(), unhex(SECRET_ONE))];
    assert_eq!(
        endpoint_to_device_name(&directory, &key(SECRET_ONE)),
        Err(SyncError::UnknownPeer)
    );
    let public = *iroh::SecretKey::from_bytes(&key(SECRET_TWO)).public().as_bytes();
    assert_eq!(public, key(PUBLIC_TWO));
}

#[test]
fn a_peer_that_no_alias_fits_is_unknown() {
    let directory = vec![("alice".to_string(), unhex(SECRET_ONE))];
    assert_eq!(
        endpoint_to_device_name(&directory, &key(PUBLIC_TWO)),
        Err(SyncError::UnknownPeer)
    );
    assert_eq!(
        endpoint_to_device_name(&Vec::new(), &key(PUBLIC_ONE)),
        Err(SyncError::UnknownPeer)
    );
}

#[test]
fn the_first_alias_that_fits_is_taken() {
    let directory = vec![
        ("other".to_string(), unhex(SECRET_TWO)),
        ("first".to_string(), unhex(SECRET_ONE)),
        ("second".to_string(), unhex(SECRET_ONE)),
    ];
    assert_eq!(endpoint_to_device_name(&directory, &key(PUBLIC_ONE)), Ok("first".to_string()));
}

#[test]
fn key_files_that_hold_no_key_are_passed_over() {
    let directory = vec![
        ("empty".to_string(), Vec::new()),
        ("short".to_string(), vec![1u8; 31]),
        ("long".to_string(), vec![1u8; 33]),
        ("public".to_string(), unhex(PUBLIC_ONE)),
        ("alice".to_string(), unhex(SECRET_ONE)),
    ];
    assert_eq!(endpoint_to_device_name(&directory, &key(PUBLIC_ONE)), Ok("alice".to_string()));
}

#[test]
fn a_key_has_32_bytes() {
    assert_eq!(KEY_LEN, 32);
    assert_eq!(key_from_bytes(&unhex(SECRET_ONE)), Some(key(SECRET_ONE)));
    assert_eq!(key_from_bytes(&[]), None);
    assert_eq!(key_from_bytes(&[0u8; 31]), None);
    assert_eq!(key_from_bytes(&[0u8; 33]), None);
    assert_eq!(key_from_bytes(&[5u8; 32]), Some([5u8; 32]));
}

#[test]
fn loading_a_key_tells_a_missing_file_from_a_broken_one() {
    assert_eq!(load_secret_key(None), Err(SyncError::IdentityNotFound));
    assert_eq!(load_secret_key(Some(&[])), Err(SyncError::IoError));
    assert_eq!(load_secret_key(Some(&[1u8; 31])), Err(SyncError::IoError));
    assert_eq!(load_secret_key(Some(&[1u8; 64])), Err(SyncError::IoError));
    assert_eq!(load_secret_key(Some(&unhex(SECRET_ONE))), Ok(key(SECRET_ONE)));
}

#[test]
fn a_key_is_never_stored_over_another() {
    assert_eq!(new_key_file(false, &key(SECRET_ONE)), Ok(unhex(SECRET_ONE)));
    assert_eq!(new_key_file(true, &key(SECRET_ONE)), Err(SyncError::IdentityAlreadyExists));
}

#[test]
fn same_key_compares_all_bytes() {
    let a = key(SECRET_ONE);
    let mut b = a;
    assert!(same_key(&a, &b));
    b[31] ^= 1;
    assert!(!same_key(&a, &b));
    b = a;
    b[0] ^= 0x80;
    assert!(!same_key(&a, &b));
    assert!(same_key(&[0u8; 32], &[0u8; 32]));
}
