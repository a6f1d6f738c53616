//! Content digests: the BLAKE3 hash of a file's bytes, written as 64
//! lower-case hexadecimal digits.
//!
//! Two files with the same digest are taken to hold the same bytes.

use vstd::prelude::*;

verus! {

/// Number of bytes in a raw hash.
pub const HASH_LEN: usize = 32;

/// Number of characters in a digest.
pub const DIGEST_LEN: usize = 64;

/// The 32 bytes that BLAKE3 gives for `input`. The hash function itself is
/// not modelled: this only names its result.
pub uninterp spec fn blake3_hash(input: Seq<u8>) -> Seq<u8>;

/// The sixteen lower-case hexadecimal digits, by value.
pub open spec fn hex_digits() -> Seq<char> {
    seq!['0', '1', '2', '3', '4', '5', '6', '7', '8', '9', 'a', 'b', 'c', 'd', 'e', 'f']
}

/// Whether `c` is a lower-case hexadecimal digit.
pub open spec fn is_hex_digit(c: char) -> bool {
    ('0' <= c && c <= '9') || ('a' <= c && c <= 'f')
}

/// The lower-case hexadecimal spelling of `bytes`: two digits per byte,
/// the high half first.
pub open spec fn hex_lower(bytes: Seq<u8>) -> Seq<char> {
    Seq::new(
        2 * bytes.len(),
        |i: int|
            if i % 2 == 0 {
                hex_digits()[bytes[i / 2] as int / 16]
            } else {
                hex_digits()[bytes[i / 2] as int % 16]
            },
    )
}

/// Whether `d` has the shape of a digest: 64 lower-case hexadecimal digits.
pub open spec fn is_digest(d: Seq<char>) -> bool {
    &&& d.len() == DIGEST_LEN
    &&& forall|i: int| 0 <= i < d.len() ==> is_hex_digit(#[trigger] d[i])
}

/// The digest of a file that holds `content`.
pub open spec fn digest_of(content: Seq<u8>) -> Seq<char> {
    hex_lower(blake3_hash(content))
}

/// The spelling of any 32 bytes has the shape of a digest.
pub proof fn hex_of_hash_is_digest(bytes: Seq<u8>)
    requires
        bytes.len() == HASH_LEN,
    ensures
        is_digest(hex_lower(bytes)),
{
}

/// Calls `blake3::hash` and copies the 32 bytes out of the `Hash` it returns.
/// The contract only names the result: nothing is claimed about the hash
/// function beyond its being a function of the input.
#[verifier::external_body]
fn blake3_bytes(input: &[u8]) -> (out: [u8; 32])
    ensures
        out@ == blake3_hash(input@),
{
    *blake3::hash(input).as_bytes()
}

/// The one-character string for the hexadecimal digit of value `n`.
fn hex_digit_str(n: u8) -> (s: &'static str)
    requires
        n < 16,
    ensures
        s@ == seq![hex_digits()[n as int]],
{
    proof {
        reveal_strlit("0");
        reveal_strlit("1");
        reveal_strlit("2");
        reveal_strlit("3");
        reveal_strlit("4");
        reveal_strlit("5");
        reveal_strlit("6");
        reveal_strlit("7");
        reveal_strlit("8");
        reveal_strlit("9");
        reveal_strlit("a");
        reveal_strlit("b");
        reveal_strlit("c");
        reveal_strlit("d");
        reveal_strlit("e");
        reveal_strlit("f");
    }
    let s = match n {
        0 => "0",
        1 => "1",
        2 => "2",
        3 => "3",
        4 => "4",
        5 => "5",
        6 => "6",
        7 => "7",
        8 => "8",
        9 => "9",
        10 => "a",
        11 => "b",
        12 => "c",
        13 => "d",
        14 => "e",
        _ => "f",
    };
    s
}

/// Spells `bytes` in lower-case hexadecimal.
pub fn to_hex(bytes: &[u8]) -> (text: String)
    ensures
        text@ == hex_lower(bytes@),
{
    let mut text = String::new();
    let mut i: usize = 0;
    while i < bytes.len()
        invariant
            i <= bytes.len(),
            text@ == hex_lower(bytes@.take(i as int)),
        decreases bytes.len() - i,
    {
        let b: u8 = bytes[i];
        text.append(hex_digit_str(b / 16));
        text.append(hex_digit_str(b % 16));
        i = i + 1;
    }
    text
}

/// The digest of `data`: its BLAKE3 hash in lower-case hexadecimal.
pub fn hash(data: &[u8]) -> (digest: String)
    ensures
        digest@ == digest_of(data@),
        is_digest(digest@),
{
    let raw = blake3_bytes(data);
    proof {
    }
    to_hex(raw.as_slice())
}

/// Whether `text` has the shape of a digest.
pub fn is_valid_digest(text: &str) -> (ok: bool)
    ensures
        ok == is_digest(text@),
{
    let mut count: usize = 0;
    for c in it: text.chars()
        invariant
            it.seq() == text@,
            count == if it.index() <= DIGEST_LEN { it.index() } else { (DIGEST_LEN + 1) as int },
            forall|k: int| 0 <= k < it.index() ==> is_hex_digit(#[trigger] text@[k]),
    {
        let lower_digit = ('0' <= c && c <= '9') || ('a' <= c && c <= 'f');
        if !lower_digit {
            return false;
        }
        if count <= DIGEST_LEN {
            count = count + 1;
        }
    }
    count == DIGEST_LEN
}

} // verus!
