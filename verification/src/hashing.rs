use vstd::prelude::*;

verus! {

/// SHA-256 cannot pad an input of this many bytes or more: its length in bits
/// no longer fits the 64-bit length field.
pub const HASH_INPUT_LIMIT: u64 = 0x2000_0000_0000_0000;

/// Bytes in a SHA-256 digest, and so in an HMAC-SHA-256 tag.
pub const SHA256_LEN: usize = 32;

/// Bytes that HMAC-SHA-256 hashes ahead of the message.
pub const HMAC_BLOCK_LEN: u64 = 64;

/// The SHA-256 digest of `data`.
pub uninterp spec fn sha256(data: Seq<u8>) -> Seq<u8>;

/// The HMAC-SHA-256 tag of `data` under `key`.
pub uninterp spec fn hmac_sha256(key: Seq<u8>, data: Seq<u8>) -> Seq<u8>;

/// The lower-case hexadecimal digit of a value below sixteen.
pub open spec fn hex_digit(nibble: int) -> char {
    if nibble < 10 {
        (0x30 + nibble) as char
    } else {
        (0x61 + nibble - 10) as char
    }
}

/// Two lower-case hexadecimal digits for each byte, the high one first.
pub open spec fn hex_of(bytes: Seq<u8>) -> Seq<char> {
    Seq::new(
        2 * bytes.len(),
        |i: int|
            if i % 2 == 0 {
                hex_digit(bytes[i / 2] as int / 16)
            } else {
                hex_digit(bytes[i / 2] as int % 16)
            },
    )
}

/// `ring::digest::digest` with `SHA256`: the digest of `data`, 32 bytes long.
/// ring panics on an input whose bit length overflows 64 bits.
#[verifier::external_body]
pub(crate) fn sha256_digest(data: &[u8]) -> (digest: [u8; 32])
    requires
        data@.len() < HASH_INPUT_LIMIT,
    ensures
        digest@ == sha256(data@),
{
    ring::digest::digest(&ring::digest::SHA256, data).as_ref().try_into().unwrap()
}

/// `ring::hmac::sign` under an `HMAC_SHA256` key made of `key`: the tag of
/// `data`, 32 bytes long. ring panics where the key, or one block and the
/// data, are too long for SHA-256.
#[verifier::external_body]
pub(crate) fn hmac_sha256_tag(key: &[u8], data: &[u8]) -> (tag: [u8; 32])
    requires
        key@.len() < HASH_INPUT_LIMIT,
        data@.len() + HMAC_BLOCK_LEN < HASH_INPUT_LIMIT,
    ensures
        tag@ == hmac_sha256(key@, data@),
{
    let key = ring::hmac::Key::new(ring::hmac::HMAC_SHA256, key);
    ring::hmac::sign(&key, data).as_ref().try_into().unwrap()
}

/// `hex::encode`: each byte as two lower-case hexadecimal digits.
#[verifier::external_body]
pub(crate) fn hex_encode(bytes: &[u8]) -> (text: String)
    ensures
        text@ == hex_of(bytes@),
{
    hex::encode(bytes)
}

} // verus!
