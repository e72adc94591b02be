use null_launcher::digest::{digest_matches, name_uuid_from_digest, offline_uuid, sha1_hex, sha1_matches};

#[test]
fn offline_uuids() {
    assert_eq!(offline_uuid("Notch"), "b50ad385-829d-3141-a216-7e7d7539ba7f");
    assert_eq!(offline_uuid("Player"), "a01e3843-e521-3998-958a-f459800e4d11");
    assert_eq!(offline_uuid("Jöns"), "a152b1c9-8161-3efe-8559-7ce6f85b5bd3");
}

#[test]
fn offline_uuid_shape() {
    for name in ["a", "Steve", "", "x y z"] {
        let u = offline_uuid(name);
        let c: Vec<char> = u.chars().collect();
        assert_eq!(c.len(), 36);
        assert_eq!((c[8], c[13], c[18], c[23]), ('-', '-', '-', '-'));
        assert_eq!(c[14], '3');
        assert!(matches!(c[19], '8' | '9' | 'a' | 'b'));
    }
}

#[test]
fn sha1_digests() {
    assert_eq!(sha1_hex(b"abc"), "a9993e364706816aba3e25717850c26c9cd0d89d");
    assert_eq!(sha1_hex(b""), "da39a3ee5e6b4b0d3255bfef95601890afd80709");
    assert!(sha1_matches("a9993e364706816aba3e25717850c26c9cd0d89d", b"abc"));
    assert!(!sha1_matches("A9993E364706816ABA3E25717850C26C9CD0D89D", b"abc"));
    assert!(!sha1_matches("a9993e364706816aba3e25717850c26c9cd0d89d", b"abd"));
}

#[test]
fn name_uuids_from_given_digests() {
    assert_eq!(name_uuid_from_digest(&[0u8; 16]), "00000000-0000-3000-8000-000000000000");
    assert_eq!(name_uuid_from_digest(&[0xffu8; 16]), "ffffffff-ffff-3fff-bfff-ffffffffffff");
    let d: Vec<u8> = (0u8..16).collect();
    assert_eq!(name_uuid_from_digest(&d), "00010203-0405-3607-8809-0a0b0c0d0e0f");
}

#[test]
fn digest_notation_matches() {
    assert!(digest_matches("00ff10", &[0x00, 0xff, 0x10]));
    assert!(!digest_matches("00FF10", &[0x00, 0xff, 0x10]));
    assert!(!digest_matches("00ff1", &[0x00, 0xff, 0x10]));
    assert!(digest_matches("", &[]));
}
