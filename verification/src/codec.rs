//! The frames that the two sides exchange over one stream. All integers are
//! big-endian.
//!
//! - Manifest frame: a length `L` in 4 bytes, then `L` bytes that encode the
//!   list of `(path, digest)` entries.
//! - Path request: a length `L` in 4 bytes, then `L` bytes of a path in
//!   UTF-8. `L == 0` stands alone and says that no more requests follow.
//! - File payload: a length `L` in 8 bytes, then the `L` bytes of the file.
//!
//! Lengths are bounded before anything is read or allocated for them.

use crate::error::SyncError;
use crate::manifest::{pairs_ok, pairs_view, Manifest};
use crate::path::{is_relative_path, is_valid_path, relative_path_is_not_absolute, MAX_PATH_LEN};
use vstd::prelude::*;
use vstd::slice::slice_to_vec;
use vstd::utf8::{encode_utf8, valid_utf8};

verus! {

/// The longest encoded manifest, in bytes, that a frame may carry.
pub const MAX_MANIFEST_LEN: usize = 0x400_0000;

/// The memory, in bytes, that decoding one manifest may claim.
pub const DECODE_LIMIT: usize = 0x800_0000;

/// The number that the bytes spell, most significant first.
pub open spec fn be_value(b: Seq<u8>) -> nat
    decreases b.len(),
{
    if b.len() == 0 {
        0
    } else {
        be_value(b.drop_last()) * 256 + b.last() as nat
    }
}

/// The last `width` bytes of `n`, most significant first.
pub open spec fn be_bytes(n: nat, width: nat) -> Seq<u8>
    decreases width,
{
    if width == 0 {
        Seq::empty()
    } else {
        be_bytes(n / 256, (width - 1) as nat).push((n % 256) as u8)
    }
}

/// The number of values that `width` bytes can spell.
pub open spec fn pow256(width: nat) -> nat
    decreases width,
{
    if width == 0 {
        1
    } else {
        256 * pow256((width - 1) as nat)
    }
}

/// The four bytes of `n`, most significant first.
pub open spec fn be32(n: u32) -> Seq<u8> {
    be_bytes(n as nat, 4)
}

/// The eight bytes of `n`, most significant first.
pub open spec fn be64(n: u64) -> Seq<u8> {
    be_bytes(n as nat, 8)
}

/// A number is written in as many bytes as asked for.
pub proof fn lemma_be_bytes_len(n: nat, width: nat)
    ensures
        be_bytes(n, width).len() == width,
    decreases width,
{
    if width > 0 {
        lemma_be_bytes_len(n / 256, (width - 1) as nat);
    }
}

/// What some bytes spell is below the number of values they can spell, and
/// writing it in as many bytes gives the bytes back.
pub proof fn lemma_be_bytes_of_value(b: Seq<u8>)
    ensures
        be_value(b) < pow256(b.len()),
        be_bytes(be_value(b), b.len()) == b,
    decreases b.len(),
{
    if b.len() > 0 {
        let rest = b.drop_last();
        lemma_be_bytes_of_value(rest);
    }
}

/// A number that fits in `width` bytes is what its bytes spell.
pub proof fn lemma_be_value_of_bytes(n: nat, width: nat)
    requires
        n < pow256(width),
    ensures
        be_value(be_bytes(n, width)) == n,
    decreases width,
{
    if width > 0 {
        let rest = be_bytes(n / 256, (width - 1) as nat);
        lemma_be_value_of_bytes(n / 256, (width - 1) as nat);
        let b = be_bytes(n, width);
        assert(b.drop_last() =~= rest);
    }
}

/// Four bytes spell the numbers below 2^32, eight those below 2^64.
pub proof fn lemma_pow256()
    ensures
        pow256(4) == 0x1_0000_0000,
        pow256(8) == 0x1_0000_0000_0000_0000,
{
    reveal_with_fuel(pow256, 9);
}

/// Writes `n` in four bytes.
pub fn encode_u32(n: u32) -> (bytes: Vec<u8>)
    ensures
        bytes@ == be32(n),
        bytes@.len() == 4,
        be_value(bytes@) == n,
{
    let n1: u32 = n / 256;
    let n2: u32 = n1 / 256;
    let n3: u32 = n2 / 256;
    let mut bytes: Vec<u8> = Vec::new();
    bytes.push((n3 % 256) as u8);
    bytes.push((n2 % 256) as u8);
    bytes.push((n1 % 256) as u8);
    bytes.push((n % 256) as u8);
    proof {
        reveal_with_fuel(be_bytes, 5);
        lemma_pow256();
        lemma_be_value_of_bytes(n as nat, 4);
    }
    bytes
}

/// Reads a number from four bytes.
pub fn decode_u32(bytes: &[u8]) -> (n: u32)
    requires
        bytes@.len() == 4,
    ensures
        n == be_value(bytes@),
        be32(n) == bytes@,
{
    let v1: u32 = (bytes[0] as u32) * 256 + bytes[1] as u32;
    let v2: u32 = v1 * 256 + bytes[2] as u32;
    let v3: u32 = v2 * 256 + bytes[3] as u32;
    proof {
        let b = bytes@;
        let b3 = b.drop_last();
        let b2 = b3.drop_last();
        let b1 = b2.drop_last();
        assert(be_value(b1.drop_last()) == 0);
        assert(be_value(b1) == b[0]);
        assert(be_value(b2) == v1);
        assert(be_value(b3) == v2);
        lemma_be_bytes_of_value(b);
    }
    v3
}

/// Writes `n` in eight bytes.
pub fn encode_u64(n: u64) -> (bytes: Vec<u8>)
    ensures
        bytes@ == be64(n),
        bytes@.len() == 8,
        be_value(bytes@) == n,
{
    let n1: u64 = n / 256;
    let n2: u64 = n1 / 256;
    let n3: u64 = n2 / 256;
    let n4: u64 = n3 / 256;
    let n5: u64 = n4 / 256;
    let n6: u64 = n5 / 256;
    let n7: u64 = n6 / 256;
    let mut bytes: Vec<u8> = Vec::new();
    bytes.push((n7 % 256) as u8);
    bytes.push((n6 % 256) as u8);
    bytes.push((n5 % 256) as u8);
    bytes.push((n4 % 256) as u8);
    bytes.push((n3 % 256) as u8);
    bytes.push((n2 % 256) as u8);
    bytes.push((n1 % 256) as u8);
    bytes.push((n % 256) as u8);
    proof {
        reveal_with_fuel(be_bytes, 9);
        lemma_pow256();
        lemma_be_value_of_bytes(n as nat, 8);
    }
    bytes
}

/// Reads a number from eight bytes.
pub fn decode_u64(bytes: &[u8]) -> (n: u64)
    requires
        bytes@.len() == 8,
    ensures
        n == be_value(bytes@),
        be64(n) == bytes@,
{
    let v1: u64 = (bytes[0] as u64) * 256 + bytes[1] as u64;
    let v2: u64 = v1 * 256 + bytes[2] as u64;
    let v3: u64 = v2 * 256 + bytes[3] as u64;
    let v4: u64 = v3 * 256 + bytes[4] as u64;
    let v5: u64 = v4 * 256 + bytes[5] as u64;
    let v6: u64 = v5 * 256 + bytes[6] as u64;
    let v7: u64 = v6 * 256 + bytes[7] as u64;
    proof {
        let b = bytes@;
        let b7 = b.drop_last();
        let b6 = b7.drop_last();
        let b5 = b6.drop_last();
        let b4 = b5.drop_last();
        let b3 = b4.drop_last();
        let b2 = b3.drop_last();
        let b1 = b2.drop_last();
        assert(be_value(b1.drop_last()) == 0);
        assert(be_value(b1) == b[0]);
        assert(be_value(b2) == v1);
        assert(be_value(b3) == v2);
        assert(be_value(b4) == v3);
        assert(be_value(b5) == v4);
        assert(be_value(b6) == v5);
        assert(be_value(b7) == v6);
        lemma_be_bytes_of_value(b);
    }
    v7
}

/// The bytes that bincode writes for a list of `(path, digest)` entries
/// under its standard configuration, or `None` where it reports an error.
pub uninterp spec fn bincode_encoding(pairs: Seq<(Seq<char>, Seq<char>)>) -> Option<Seq<u8>>;

/// The list of entries that bincode reads from `bytes` under its standard
/// configuration with a memory limit of `DECODE_LIMIT`, together with the
/// number of bytes it used, or `None` where it reports an error.
pub uninterp spec fn bincode_decoding(bytes: Seq<u8>) -> Option<
    (Seq<(Seq<char>, Seq<char>)>, nat),
>;

/// The error type of bincode's encoder.
#[verifier::external_type_specification]
#[verifier::external_body]
pub struct ExEncodeError(bincode::error::EncodeError);

/// The error type of bincode's decoder.
#[verifier::external_type_specification]
#[verifier::external_body]
pub struct ExDecodeError(bincode::error::DecodeError);

/// Calls `bincode::encode_to_vec` on the list with the standard
/// configuration. The contract names what comes back and claims nothing
/// about the format.
#[verifier::external_body]
fn bincode_encode(list: &Vec<(String, String)>) -> (r: Result<Vec<u8>, bincode::error::EncodeError>)
    ensures
        match r {
            Ok(bytes) => bincode_encoding(pairs_view(list@)) == Some(bytes@),
            Err(_) => bincode_encoding(pairs_view(list@)) is None,
        },
{
    bincode::encode_to_vec(list, bincode::config::standard())
}

/// Calls `bincode::decode_from_slice` on the bytes with the standard
/// configuration and a memory limit of `DECODE_LIMIT`, so that a length
/// field in the bytes cannot make it allocate more. The contract names what
/// comes back and claims nothing about the format.
#[verifier::external_body]
fn bincode_decode(bytes: &[u8]) -> (r: Result<
    (Vec<(String, String)>, usize),
    bincode::error::DecodeError,
>)
    ensures
        match r {
            Ok((list, used)) => bincode_decoding(bytes@) == Some((pairs_view(list@), used as nat)),
            Err(_) => bincode_decoding(bytes@) is None,
        },
{
    bincode::decode_from_slice(bytes, bincode::config::standard().with_limit::<DECODE_LIMIT>())
}

/// Calls `String::from_utf8`: the bytes become a string exactly if they are
/// well-formed UTF-8, and the string then has these bytes.
#[verifier::external_body]
fn string_from_utf8(bytes: Vec<u8>) -> (r: Option<String>)
    ensures
        r is Some == valid_utf8(bytes@),
        r matches Some(s) ==> encode_utf8(s@) == bytes@,
{
    String::from_utf8(bytes).ok()
}

/// The frame around an encoded manifest.
pub open spec fn manifest_frame(payload: Seq<u8>) -> Seq<u8> {
    be32(payload.len() as u32) + payload
}

/// The frame that asks for the file at `path`.
pub open spec fn path_request_frame(path: Seq<char>) -> Seq<u8> {
    be32(encode_utf8(path).len() as u32) + encode_utf8(path)
}

/// The frame that says that no more requests follow.
pub open spec fn end_marker() -> Seq<u8> {
    be32(0)
}

/// The frame that carries a file with the content `content`.
pub open spec fn file_payload_frame(content: Seq<u8>) -> Seq<u8> {
    be64(content.len() as u64) + content
}

/// What the frame of a manifest with the entries `pairs` is, if there is
/// one: the encoder has to succeed and its bytes have to fit.
pub open spec fn manifest_frame_of(pairs: Seq<(Seq<char>, Seq<char>)>) -> Option<Seq<u8>> {
    match bincode_encoding(pairs) {
        Some(payload) => if payload.len() <= MAX_MANIFEST_LEN {
            Some(manifest_frame(payload))
        } else {
            None
        },
        None => None,
    }
}

/// What the manifest in `payload` is, if there is one: the decoder has to
/// succeed and use every byte, and the entries have to form a manifest.
pub open spec fn manifest_entries_of(payload: Seq<u8>) -> Option<Seq<(Seq<char>, Seq<char>)>> {
    match bincode_decoding(payload) {
        Some((pairs, used)) => if used == payload.len() && pairs_ok(pairs) {
            Some(pairs)
        } else {
            None
        },
        None => None,
    }
}

/// Puts the length in front of an encoded manifest, unless it is longer
/// than `MAX_MANIFEST_LEN`.
pub fn frame_manifest(payload: Vec<u8>) -> (r: Result<Vec<u8>, SyncError>)
    ensures
        r is Ok == (payload@.len() <= MAX_MANIFEST_LEN),
        r matches Ok(frame) ==> frame@ == manifest_frame(payload@),
        r matches Err(e) ==> e == SyncError::ProtocolError,
{
    if payload.len() > MAX_MANIFEST_LEN {
        return Err(SyncError::ProtocolError);
    }
    let mut frame = encode_u32(payload.len() as u32);
    let mut payload = payload;
    frame.append(&mut payload);
    Ok(frame)
}

/// The manifest frame for `manifest`. It fails with `ProtocolError` where
/// the encoder reports an error or the encoded manifest is too long.
pub fn encode_manifest(manifest: &Manifest) -> (r: Result<Vec<u8>, SyncError>)
    ensures
        match manifest_frame_of(manifest.pairs()) {
            Some(frame) => r matches Ok(bytes) && bytes@ == frame,
            None => r == Err::<Vec<u8>, SyncError>(SyncError::ProtocolError),
        },
{
    let list = manifest.to_pairs();
    match bincode_encode(&list) {
        Ok(payload) => frame_manifest(payload),
        Err(_) => Err(SyncError::ProtocolError),
    }
}

/// Reads the length of a manifest frame from its first four bytes. It
/// fails with `ProtocolError` unless there are four bytes and the length is
/// at most `MAX_MANIFEST_LEN`.
pub fn decode_manifest_len(header: &[u8]) -> (r: Result<usize, SyncError>)
    ensures
        r is Ok == (header@.len() == 4 && be_value(header@) <= MAX_MANIFEST_LEN),
        r matches Ok(len) ==> len == be_value(header@),
        r matches Err(e) ==> e == SyncError::ProtocolError,
{
    if header.len() != 4 {
        return Err(SyncError::ProtocolError);
    }
    let len = decode_u32(header);
    if len > MAX_MANIFEST_LEN as u32 {
        return Err(SyncError::ProtocolError);
    }
    Ok(len as usize)
}

/// Turns what the decoder made of a payload of `len` bytes into a manifest:
/// `ProtocolError` unless it decoded a list, used all `len` bytes, and the
/// list forms a manifest (valid paths, none twice, well-shaped digests).
pub fn manifest_from_decoded(decoded: Option<(Vec<(String, String)>, usize)>, len: usize) -> (r:
    Result<Manifest, SyncError>)
    ensures
        match decoded {
            Some((list, used)) => if used == len && pairs_ok(pairs_view(list@)) {
                r matches Ok(m) && m.wf() && m.pairs() == pairs_view(list@)
            } else {
                r matches Err(e) && e == SyncError::ProtocolError
            },
            None => r matches Err(e) && e == SyncError::ProtocolError,
        },
{
    match decoded {
        Some((list, used)) => {
            if used != len {
                return Err(SyncError::ProtocolError);
            }
            match Manifest::from_pairs(list) {
                Some(m) => Ok(m),
                None => Err(SyncError::ProtocolError),
            }
        },
        None => Err(SyncError::ProtocolError),
    }
}

/// The manifest that the payload of a manifest frame holds. It fails with
/// `ProtocolError` where the decoder reports an error or leaves bytes
/// over, a path occurs twice or leaves the mirror root, or a digest has not
/// the shape of one. The entries may come in any order.
pub fn decode_manifest(payload: &[u8]) -> (r: Result<Manifest, SyncError>)
    ensures
        match manifest_entries_of(payload@) {
            Some(pairs) => r matches Ok(m) && m.wf() && m.pairs() == pairs,
            None => r matches Err(e) && e == SyncError::ProtocolError,
        },
{
    let decoded = match bincode_decode(payload) {
        Ok(found) => Some(found),
        Err(_) => None,
    };
    manifest_from_decoded(decoded, payload.len())
}

/// The frame that asks for the file at `path`. It fails with
/// `ProtocolError` unless `path` is a path below the mirror root.
pub fn encode_path_request(path: &str) -> (r: Result<Vec<u8>, SyncError>)
    ensures
        r is Ok == is_relative_path(path@),
        r matches Ok(frame) ==> frame@ == path_request_frame(path@) && frame@ != end_marker(),
        r matches Err(e) ==> e == SyncError::ProtocolError,
{
    if !is_valid_path(path) {
        return Err(SyncError::ProtocolError);
    }
    let mut bytes = slice_to_vec(path.as_bytes());
    proof {
        lemma_path_has_bytes(path@);
    }
    let mut frame = encode_u32(bytes.len() as u32);
    frame.append(&mut bytes);
    proof {
        lemma_be_bytes_len(0, 4);
    }
    Ok(frame)
}

/// A path below the mirror root has at least one byte.
pub proof fn lemma_path_has_bytes(path: Seq<char>)
    requires
        is_relative_path(path),
    ensures
        0 < encode_utf8(path).len() <= MAX_PATH_LEN,
{
    relative_path_is_not_absolute(path);
}

/// The frame that says that no more requests follow.
pub fn end_of_requests() -> (frame: Vec<u8>)
    ensures
        frame@ == end_marker(),
{
    encode_u32(0)
}

/// What the first four bytes of a path request announce.
#[derive(Clone, Copy, Debug, PartialEq, Eq, Structural)]
pub enum RequestHeader {
    /// No more requests follow.
    Done,
    /// A path of this many bytes follows.
    Path(usize),
}

/// Reads the first four bytes of a path request. It fails with
/// `ProtocolError` unless there are four bytes and the length is at most
/// `MAX_PATH_LEN`.
pub fn decode_request_header(header: &[u8]) -> (r: Result<RequestHeader, SyncError>)
    ensures
        r is Ok == (header@.len() == 4 && be_value(header@) <= MAX_PATH_LEN),
        r matches Ok(h) ==> h == if be_value(header@) == 0 {
            RequestHeader::Done
        } else {
            RequestHeader::Path(be_value(header@) as usize)
        },
        r matches Err(e) ==> e == SyncError::ProtocolError,
{
    if header.len() != 4 {
        return Err(SyncError::ProtocolError);
    }
    let len = decode_u32(header);
    if len > MAX_PATH_LEN as u32 {
        return Err(SyncError::ProtocolError);
    }
    if len == 0 {
        Ok(RequestHeader::Done)
    } else {
        Ok(RequestHeader::Path(len as usize))
    }
}

/// The path that the bytes of a path request spell. It fails with
/// `ProtocolError` unless the bytes are well-formed UTF-8.
pub fn decode_request_path(bytes: Vec<u8>) -> (r: Result<String, SyncError>)
    ensures
        r is Ok == valid_utf8(bytes@),
        r matches Ok(path) ==> encode_utf8(path@) == bytes@,
        r matches Err(e) ==> e == SyncError::ProtocolError,
{
    match string_from_utf8(bytes) {
        Some(path) => Ok(path),
        None => Err(SyncError::ProtocolError),
    }
}

/// The first eight bytes of a file payload of `len` bytes.
pub fn encode_file_header(len: u64) -> (header: Vec<u8>)
    ensures
        header@ == be64(len),
{
    encode_u64(len)
}

/// Reads the length of a file payload from its first eight bytes. It
/// fails with `ProtocolError` unless there are eight bytes.
pub fn decode_file_header(header: &[u8]) -> (r: Result<u64, SyncError>)
    ensures
        r is Ok == (header@.len() == 8),
        r matches Ok(len) ==> len == be_value(header@),
        r matches Err(e) ==> e == SyncError::ProtocolError,
{
    if header.len() != 8 {
        return Err(SyncError::ProtocolError);
    }
    Ok(decode_u64(header))
}

/// A request for a path and the reading of that request agree: the header
/// announces the path's bytes, and those bytes spell the path.
pub proof fn path_request_round_trip(path: Seq<char>)
    requires
        is_relative_path(path),
    ensures
        path_request_frame(path).len() == 4 + encode_utf8(path).len(),
        be_value(path_request_frame(path).take(4)) == encode_utf8(path).len(),
        0 < be_value(path_request_frame(path).take(4)) <= MAX_PATH_LEN,
        path_request_frame(path).skip(4) == encode_utf8(path),
        valid_utf8(encode_utf8(path)),
        vstd::utf8::decode_utf8(encode_utf8(path)) == path,
{
    lemma_path_has_bytes(path);
    let n = encode_utf8(path).len() as u32;
    lemma_be_bytes_len(n as nat, 4);
    lemma_pow256();
    lemma_be_value_of_bytes(n as nat, 4);
    assert(path_request_frame(path).take(4) =~= be32(n));
    vstd::utf8::encode_utf8_valid_utf8(path);
    vstd::utf8::encode_utf8_decode_utf8(path);
}

} // verus!
