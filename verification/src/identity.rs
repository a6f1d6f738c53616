//! Identities and the aliases they are known under.
//!
//! An identity is the public key of a peer, 32 bytes. Locally, each alias
//! names one secret key; the alias of a connecting peer is the first one
//! whose secret key has the peer's public key.

use crate::error::SyncError;
use vstd::prelude::*;

verus! {

/// Number of bytes in a secret key and in a public key.
pub const KEY_LEN: usize = 32;

/// The public key that belongs to the secret key `secret`. The derivation
/// itself is not modelled: this only names its result.
pub uninterp spec fn public_key_of(secret: Seq<u8>) -> Seq<u8>;

/// Whether the bytes stored for an alias are a secret key whose public key
/// is `peer`.
pub open spec fn key_matches(stored: Seq<u8>, peer: Seq<u8>) -> bool {
    stored.len() == KEY_LEN && public_key_of(stored) == peer
}

/// Builds an `iroh::SecretKey` from the bytes, asks it for its public key
/// and copies the 32 bytes out. The contract only names the result.
#[verifier::external_body]
fn public_key(secret: &[u8; 32]) -> (public: [u8; 32])
    ensures
        public@ == public_key_of(secret@),
{
    *iroh::SecretKey::from_bytes(secret).public().as_bytes()
}

/// The key that the bytes stored for an alias hold, if they are as many as
/// a key has.
pub fn key_from_bytes(stored: &[u8]) -> (key: Option<[u8; 32]>)
    ensures
        key is Some == (stored@.len() == KEY_LEN),
        key matches Some(k) ==> k@ == stored@,
{
    if stored.len() != KEY_LEN {
        return None;
    }
    let mut key: [u8; 32] = [0u8;32];
    let mut i: usize = 0;
    while i < KEY_LEN
        invariant
            i <= KEY_LEN,
            stored@.len() == KEY_LEN,
            forall|k: int| 0 <= k < i ==> key@[k] == stored@[k],
        decreases KEY_LEN - i,
    {
        key[i] = stored[i];
        i = i + 1;
    }
    Some(key)
}

/// The secret key of an alias, from what its key file holds or from the
/// news that there is no such file. It fails with `IdentityNotFound` where
/// there is no file, and with `IoError` where the file does not hold
/// exactly one key.
pub fn load_secret_key(stored: Option<&[u8]>) -> (r: Result<[u8; 32], SyncError>)
    ensures
        match stored {
            None => r == Err::<[u8; 32], SyncError>(SyncError::IdentityNotFound),
            Some(bytes) => if bytes@.len() == KEY_LEN {
                r matches Ok(key) && key@ == bytes@
            } else {
                r == Err::<[u8; 32], SyncError>(SyncError::IoError)
            },
        },
{
    match stored {
        None => Err(SyncError::IdentityNotFound),
        Some(bytes) => match key_from_bytes(bytes) {
            Some(key) => Ok(key),
            None => Err(SyncError::IoError),
        },
    }
}

/// What the key file of a new alias has to hold: the bytes of `secret`.
/// It fails with `IdentityAlreadyExists` where a key is stored under the
/// alias already; that key is never overwritten.
pub fn new_key_file(already_stored: bool, secret: &[u8; 32]) -> (r: Result<Vec<u8>, SyncError>)
    ensures
        match r {
            Ok(bytes) => !already_stored && bytes@ == secret@,
            Err(e) => already_stored && e == SyncError::IdentityAlreadyExists,
        },
{
    if already_stored {
        return Err(SyncError::IdentityAlreadyExists);
    }
    let mut bytes: Vec<u8> = Vec::new();
    let mut i: usize = 0;
    while i < KEY_LEN
        invariant
            i <= KEY_LEN,
            bytes@.len() == i,
            forall|k: int| 0 <= k < i ==> bytes@[k] == secret@[k],
        decreases KEY_LEN - i,
    {
        bytes.push(secret[i]);
        i = i + 1;
    }
    Ok(bytes)
}

/// Whether two keys are the same.
pub fn same_key(a: &[u8; 32], b: &[u8; 32]) -> (same: bool)
    ensures
        same == (a@ == b@),
{
    let mut i: usize = 0;
    while i < KEY_LEN
        invariant
            i <= KEY_LEN,
            forall|k: int| 0 <= k < i ==> a@[k] == b@[k],
        decreases KEY_LEN - i,
    {
        if a[i] != b[i] {
            return false;
        }
        i = i + 1;
    }
    assert(a@ =~= b@);
    true
}

/// The alias under which the peer with the public key `endpoint` is known:
/// the first alias of `directory`, a list of aliases with the bytes of
/// their key files, whose secret key has that public key. Key files that do
/// not hold exactly one key are passed over. It fails with `UnknownPeer`
/// where no alias has that key.
pub fn endpoint_to_device_name(directory: &Vec<(String, Vec<u8>)>, endpoint: &[u8; 32]) -> (r:
    Result<String, SyncError>)
    ensures
        match r {
            Ok(name) => exists|i: int|
                0 <= i < directory@.len() && name@ == (#[trigger] directory@[i]).0@ && key_matches(
                    directory@[i].1@,
                    endpoint@,
                ) && forall|k: int|
                    0 <= k < i ==> !key_matches((#[trigger] directory@[k]).1@, endpoint@),
            Err(e) => e == SyncError::UnknownPeer && forall|k: int|
                0 <= k < directory@.len() ==> !key_matches(
                    (#[trigger] directory@[k]).1@,
                    endpoint@,
                ),
        },
{
    let mut i: usize = 0;
    while i < directory.len()
        invariant
            i <= directory@.len(),
            forall|k: int| 0 <= k < i ==> !key_matches((#[trigger] directory@[k]).1@, endpoint@),
        decreases directory@.len() - i,
    {
        match key_from_bytes(directory[i].1.as_slice()) {
            Some(secret) => {
                let public = public_key(&secret);
                if same_key(&public, endpoint) {
                    return Ok(directory[i].0.clone());
                }
            },
            None => {},
        }
        i = i + 1;
    }
    Err(SyncError::UnknownPeer)
}

} // verus!
