//! Message digests and checksums computed by their crates.
//!
//! Each digest is a function of the bytes alone. The cryptographic digests
//! are named here, not restated, with the length that each crate's
//! documentation gives; the CRC-32 checksum is short enough to state.
use vstd::prelude::*;
use sha1::Digest as Sha1Digest;
use sha2::Digest as Sha2Digest;
use sha3::Digest as Sha3Digest;

verus! {

/// The MD5 digest of the bytes (`md5::compute`).
pub uninterp spec fn md5_of(data: Seq<u8>) -> Seq<u8>;

/// The SHA-1 digest of the bytes (`sha1::Sha1`).
pub uninterp spec fn sha1_of(data: Seq<u8>) -> Seq<u8>;

/// The SHA-256 digest of the bytes (`sha2::Sha256`).
pub uninterp spec fn sha256_of(data: Seq<u8>) -> Seq<u8>;

/// The SHA3-256 digest of the bytes (`sha3::Sha3_256`).
pub uninterp spec fn sha3_256_of(data: Seq<u8>) -> Seq<u8>;

/// One shift of the CRC-32 register: the reflected IEEE polynomial
/// `0xEDB88320` is added when a one bit falls out.
pub open spec fn crc32_shift(crc: u32) -> u32 {
    if crc & 1u32 == 1u32 {
        (crc >> 1u32) ^ 0xEDB8_8320u32
    } else {
        crc >> 1u32
    }
}

/// A byte folded into the CRC-32 register: added to the low bits, then
/// eight shifts.
pub open spec fn crc32_byte(crc: u32, byte: u8) -> u32 {
    let c = crc ^ (byte as u32);
    crc32_shift(
        crc32_shift(crc32_shift(crc32_shift(crc32_shift(crc32_shift(crc32_shift(crc32_shift(c))))))),
    )
}

/// The CRC-32 register after the bytes, starting from all ones.
pub open spec fn crc32_register(data: Seq<u8>) -> u32
    decreases data.len(),
{
    if data.len() == 0 {
        0xFFFF_FFFFu32
    } else {
        crc32_byte(crc32_register(data.drop_last()), data.last())
    }
}

/// The CRC-32 (IEEE) checksum of the bytes: the final register with all
/// bits flipped.
pub open spec fn crc32_of(data: Seq<u8>) -> u32 {
    crc32_register(data) ^ 0xFFFF_FFFFu32
}

/// `md5::compute`: the 16-byte MD5 digest of `data`.
#[verifier::external_body]
pub(crate) fn md5_digest(data: &[u8]) -> (r: Vec<u8>)
    ensures
        r@ == md5_of(data@),
        r@.len() == 16,
{
    md5::compute(data).0.to_vec()
}

/// `sha1::Sha1::digest`: the 20-byte SHA-1 digest of `data`.
#[verifier::external_body]
pub(crate) fn sha1_digest(data: &[u8]) -> (r: Vec<u8>)
    ensures
        r@ == sha1_of(data@),
        r@.len() == 20,
{
    <sha1::Sha1 as Sha1Digest>::digest(data).to_vec()
}

/// `sha2::Sha256::digest`: the 32-byte SHA-256 digest of `data`.
#[verifier::external_body]
pub(crate) fn sha256_digest(data: &[u8]) -> (r: Vec<u8>)
    ensures
        r@ == sha256_of(data@),
        r@.len() == 32,
{
    <sha2::Sha256 as Sha2Digest>::digest(data).to_vec()
}

/// `sha3::Sha3_256::digest`: the 32-byte SHA3-256 digest of `data`.
#[verifier::external_body]
pub(crate) fn sha3_256_digest(data: &[u8]) -> (r: Vec<u8>)
    ensures
        r@ == sha3_256_of(data@),
        r@.len() == 32,
{
    <sha3::Sha3_256 as Sha3Digest>::digest(data).to_vec()
}

/// `crc32fast::hash`: the CRC-32 (IEEE) checksum of `data`, `crc32_of`.
#[verifier::external_body]
pub(crate) fn crc32_checksum(data: &[u8]) -> (r: u32)
    ensures
        r == crc32_of(data@),
{
    crc32fast::hash(data)
}

} // verus!
