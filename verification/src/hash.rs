//! The digests reported for a file, as lowercase hexadecimal text.
use vstd::prelude::*;
use crate::digest::{
    md5_of, sha1_of, sha256_of, sha3_256_of, crc32_of, md5_digest, sha1_digest, sha256_digest,
    sha3_256_digest, crc32_checksum,
};
use crate::text::{push_char, push_str};

verus! {

/// The lowercase hexadecimal digit for `d < 16`.
pub open spec fn hex_digit(d: nat) -> char
    recommends
        d < 16,
{
    if d < 10 {
        (('0' as u32) + d) as char
    } else {
        (('a' as u32) + (d - 10)) as char
    }
}

/// Two lowercase hexadecimal digits per byte (`{:02x}` for each byte).
pub open spec fn hex_text(bytes: Seq<u8>) -> Seq<char>
    decreases bytes.len(),
{
    if bytes.len() == 0 {
        Seq::empty()
    } else {
        hex_text(bytes.drop_last()) + seq![
            hex_digit((bytes.last() / 16) as nat),
            hex_digit((bytes.last() % 16) as nat),
        ]
    }
}

/// The four bytes of `n`, most significant first.
pub open spec fn be_bytes(n: u32) -> Seq<u8> {
    seq![
        (n / 16777216) as u8,
        ((n / 65536) % 256) as u8,
        ((n / 256) % 256) as u8,
        (n % 256) as u8,
    ]
}

fn hex_char(d: u8) -> (c: char)
    requires
        d < 16,
    ensures
        c == hex_digit(d as nat),
{
    if d < 10 {
        (48u8 + d) as char
    } else {
        (87u8 + d) as char
    }
}

/// The bytes as lowercase hexadecimal text.
pub fn bytes_to_hex(bytes: &[u8]) -> (r: String)
    ensures
        r@ == hex_text(bytes@),
{
    let mut output = String::new();
    let n = bytes.len();
    for i in 0..n
        invariant
            n == bytes@.len(),
            output@ == hex_text(bytes@.take(i as int)),
    {
        let b = bytes[i];
        push_char(&mut output, hex_char(b / 16));
        push_char(&mut output, hex_char(b % 16));
        assert(bytes@.take(i + 1).drop_last() == bytes@.take(i as int));
    }
    assert(bytes@.take(n as int) == bytes@);
    output
}

/// `n` as eight lowercase hexadecimal digits (`{:08x}`).
pub fn u32_to_hex(n: u32) -> (r: String)
    ensures
        r@ == hex_text(be_bytes(n)),
{
    let bytes: Vec<u8> = vec![
        (n / 16777216) as u8,
        ((n / 65536) % 256) as u8,
        ((n / 256) % 256) as u8,
        (n % 256) as u8,
    ];
    assert(bytes@ == be_bytes(n));
    bytes_to_hex(bytes.as_slice())
}

/// The digests of a file's contents, as lowercase hexadecimal text.
#[derive(Debug, Clone)]
pub struct FileHashes {
    pub md5: String,
    pub crc32: String,
    pub sha1: String,
    pub sha256: String,
    pub sha3_256: String,
}

/// The report shown for a file's digests.
pub open spec fn report_text(h: FileHashes, path: Seq<char>) -> Seq<char> {
    "File: "@ + path + "\nMD5     : "@ + h.md5@ + "\nCRC32   : "@ + h.crc32@ + "\nSHA1    : "@
        + h.sha1@ + "\nSHA256  : "@ + h.sha256@ + "\nSHA3-256: "@ + h.sha3_256@ + "\n"@
}

impl FileHashes {
    /// Renders the hashes into a human-readable report for the file shown
    /// as `path`.
    pub fn to_report(&self, path: &str) -> (r: String)
        ensures
            r@ == report_text(*self, path@),
    {
        let mut s = String::new();
        push_str(&mut s, "File: ");
        push_str(&mut s, path);
        push_str(&mut s, "\nMD5     : ");
        push_str(&mut s, self.md5.as_str());
        push_str(&mut s, "\nCRC32   : ");
        push_str(&mut s, self.crc32.as_str());
        push_str(&mut s, "\nSHA1    : ");
        push_str(&mut s, self.sha1.as_str());
        push_str(&mut s, "\nSHA256  : ");
        push_str(&mut s, self.sha256.as_str());
        push_str(&mut s, "\nSHA3-256: ");
        push_str(&mut s, self.sha3_256.as_str());
        push_str(&mut s, "\n");
        s
    }
}

/// The report fields for the given digests: each digest in lowercase
/// hexadecimal, the CRC-32 as eight digits.
pub fn from_digests(md5: &[u8], crc32: u32, sha1: &[u8], sha256: &[u8], sha3_256: &[u8]) -> (r: FileHashes)
    ensures
        r.md5@ == hex_text(md5@),
        r.crc32@ == hex_text(be_bytes(crc32)),
        r.sha1@ == hex_text(sha1@),
        r.sha256@ == hex_text(sha256@),
        r.sha3_256@ == hex_text(sha3_256@),
{
    FileHashes {
        md5: bytes_to_hex(md5),
        crc32: u32_to_hex(crc32),
        sha1: bytes_to_hex(sha1),
        sha256: bytes_to_hex(sha256),
        sha3_256: bytes_to_hex(sha3_256),
    }
}

/// Computes MD5, CRC32, SHA1, SHA256 and SHA3-256 of a file's contents.
pub fn compute(data: &[u8]) -> (r: FileHashes)
    ensures
        r.md5@ == hex_text(md5_of(data@)),
        r.crc32@ == hex_text(be_bytes(crc32_of(data@))),
        r.sha1@ == hex_text(sha1_of(data@)),
        r.sha256@ == hex_text(sha256_of(data@)),
        r.sha3_256@ == hex_text(sha3_256_of(data@)),
        r.md5@.len() == 32,
        r.crc32@.len() == 8,
        r.sha1@.len() == 40,
        r.sha256@.len() == 64,
        r.sha3_256@.len() == 64,
{
    let md5 = md5_digest(data);
    let sha1 = sha1_digest(data);
    let sha256 = sha256_digest(data);
    let sha3 = sha3_256_digest(data);
    let crc = crc32_checksum(data);
    proof {
        lemma_hex_text_len(md5@);
        lemma_hex_text_len(be_bytes(crc));
        lemma_hex_text_len(sha1@);
        lemma_hex_text_len(sha256@);
        lemma_hex_text_len(sha3@);
    }
    from_digests(md5.as_slice(), crc, sha1.as_slice(), sha256.as_slice(), sha3.as_slice())
}

/// Two hexadecimal digits per byte.
proof fn lemma_hex_text_len(bytes: Seq<u8>)
    ensures
        hex_text(bytes).len() == 2 * bytes.len(),
    decreases bytes.len(),
{
    if bytes.len() > 0 {
        lemma_hex_text_len(bytes.drop_last());
    }
}

} // verus!
