use neocities_sync::digest::{content_digest, to_hex};

#[test]
fn digest_of_two_letters() {
    assert_eq!(content_digest(b"hi"), "c22b5f9178342609428d6f51b2c5af4c0bde6a42");
}

#[test]
fn digest_of_nothing() {
    assert_eq!(content_digest(b""), "da39a3ee5e6b4b0d3255bfef95601890afd80709");
}

#[test]
fn digest_of_three_letters() {
    assert_eq!(content_digest(b"abc"), "a9993e364706816aba3e25717850c26c9cd0d89d");
}

#[test]
fn digest_has_forty_lower_case_digits() {
    let digest = content_digest(b"any content at all");
    assert_eq!(digest.len(), 40);
    assert!(digest.chars().all(|c| "0123456789abcdef".contains(c)));
}

#[test]
fn equal_content_has_equal_digest() {
    assert_eq!(content_digest(b"same"), content_digest(b"same"));
    assert_ne!(content_digest(b"same"), content_digest(b"other"));
}

#[test]
fn hex_is_lower_case_and_two_digits_a_byte() {
    assert_eq!(to_hex(&[0x00, 0x0f, 0xa0, 0xff]), "000fa0ff");
    assert_eq!(to_hex(&[0x12, 0x34, 0x56, 0x78, 0x9a, 0xbc, 0xde]), "123456789abcde");
    assert_eq!(to_hex(&[]), "");
}
