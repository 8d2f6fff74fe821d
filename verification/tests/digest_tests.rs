use rs_timeskip_archiver::digest::digest_bytes;
use rs_timeskip_archiver::digest::to_hex;

#[test]
fn hex_rendering_is_lowercase_two_digits_per_byte() {
    assert_eq!(to_hex(&[]), "");
    assert_eq!(to_hex(&[0x00]), "00");
    assert_eq!(to_hex(&[0xab, 0x01, 0xff]), "ab01ff");
    assert_eq!(to_hex(&[0x12, 0x34, 0x56, 0x78, 0x9a, 0xbc, 0xde, 0xf0]), "123456789abcdef0");
}

#[test]
fn digest_matches_known_sha3_256_vectors() {
    // NIST test vectors for SHA3-256.
    assert_eq!(
        digest_bytes(b"abc"),
        "3a985da74fe225b2045c172d6bd390bd855f086e3e9d525b46bfe24511431532"
    );
    assert_eq!(
        digest_bytes(b""),
        "a7ffc6f8bf1ed76651c14756a061d662f580ff4de43b49fa82d80a4b80f8434a"
    );
}

#[test]
fn digest_is_deterministic() {
    let content = b"some file content\nwith two lines";
    let first = digest_bytes(content);
    let second = digest_bytes(content);
    assert_eq!(first, second);
}

#[test]
fn digest_is_always_64_lowercase_hex_chars() {
    let inputs: Vec<Vec<u8>> = vec![
        Vec::new(),
        vec![0u8],
        vec![0xffu8; 1000],
        b"abc".to_vec(),
    ];
    for input in &inputs {
        let d = digest_bytes(input);
        assert_eq!(d.len(), 64);
        assert!(d.chars().all(|c| c.is_ascii_hexdigit() && !c.is_ascii_uppercase()));
    }
}

#[test]
fn different_contents_give_different_digests() {
    assert_ne!(digest_bytes(b"abc"), digest_bytes(b"abd"));
    assert_ne!(digest_bytes(b""), digest_bytes(b"\0"));
}
