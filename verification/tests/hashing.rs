use file_commander::hash::{bytes_to_hex, compute, from_digests, u32_to_hex, FileHashes};

#[test]
fn digests_of_abc() {
    let h = compute(b"abc");
    assert_eq!(h.md5, "900150983cd24fb0d6963f7d28e17f72");
    assert_eq!(h.crc32, "352441c2");
    assert_eq!(h.sha1, "a9993e364706816aba3e25717850c26c9cd0d89d");
    assert_eq!(h.sha256, "ba7816bf8f01cfea414140de5dae2223b00361a396177a9cb410ff61f20015ad");
    assert_eq!(h.sha3_256, "3a985da74fe225b2045c172d6bd390bd855f086e3e9d525b46bfe24511431532");
}

#[test]
fn digests_of_nothing() {
    let h = compute(b"");
    assert_eq!(h.md5, "d41d8cd98f00b204e9800998ecf8427e");
    assert_eq!(h.crc32, "00000000");
    assert_eq!(h.sha1, "da39a3ee5e6b4b0d3255bfef95601890afd80709");
    assert_eq!(h.sha256, "e3b0c44298fc1c149afbf4c8996fb92427ae41e4649b934ca495991b7852b855");
    assert_eq!(h.sha3_256, "a7ffc6f8bf1ed76651c14756a061d662f580ff4de43b49fa82d80a4b80f8434a");
}

#[test]
fn hex_writing() {
    assert_eq!(bytes_to_hex(&[]), "");
    assert_eq!(bytes_to_hex(&[0x00, 0x0f, 0xa0, 0xff]), "000fa0ff");
    assert_eq!(u32_to_hex(0), "00000000");
    assert_eq!(u32_to_hex(0xdeadbeef), "deadbeef");
    assert_eq!(u32_to_hex(0x1a), "0000001a");
    for n in [0u32, 1, 255, 4096, 0x1234_5678, u32::MAX] {
        assert_eq!(u32_to_hex(n), format!("{n:08x}"));
    }
}

#[test]
fn report_from_digests() {
    let h = from_digests(&[0xab], 0x10, &[0x01, 0x02], &[0xff], &[]);
    assert_eq!(h.md5, "ab");
    assert_eq!(h.crc32, "00000010");
    assert_eq!(h.sha1, "0102");
    assert_eq!(h.sha256, "ff");
    assert_eq!(h.sha3_256, "");
    assert_eq!(
        h.to_report("/tmp/a.bin"),
        "File: /tmp/a.bin\nMD5     : ab\nCRC32   : 00000010\nSHA1    : 0102\nSHA256  : ff\nSHA3-256: \n"
    );
}

#[test]
fn report_of_a_file() {
    let h: FileHashes = compute(b"abc");
    let report = h.to_report("abc.txt");
    assert!(report.starts_with("File: abc.txt\nMD5     : 900150983cd24fb0d6963f7d28e17f72\n"));
    assert!(report.contains("\nCRC32   : 352441c2\n"));
    assert!(report.ends_with(
        "\nSHA3-256: 3a985da74fe225b2045c172d6bd390bd855f086e3e9d525b46bfe24511431532\n"
    ));
}
