use cterm::plugin::digest::{bundle_digest, BundleDigest};

#[test]
fn digest_parser_rejects_ambiguous_spellings() {
    for digest in [
        "",
        "sha256:00",
        "sha512:0000000000000000000000000000000000000000000000000000000000000000",
        "sha256:AAAAAAAAAAAAAAAAAAAAAAAAAAAAAAAAAAAAAAAAAAAAAAAAAAAAAAAAAAAAAAAA",
    ] {
        assert!(digest.parse::<BundleDigest>().is_err());
    }
}

#[test]
fn digest_text_round_trips() {
    let digest = bundle_digest(b"manifest", b"module");
    let text = digest.to_string();
    assert_eq!(text.len(), 71);
    assert_eq!(text.parse::<BundleDigest>().unwrap(), digest);
    let known = "sha256:000102030405060708090a0b0c0d0e0f101112131415161718191a1b1c1d1eff";
    let parsed = known.parse::<BundleDigest>().unwrap();
    assert_eq!(parsed.as_bytes()[10], 10);
    assert_eq!(parsed.as_bytes()[31], 255);
    assert_eq!(parsed.to_string(), known);
}

#[test]
fn bytes_cannot_move_between_manifest_and_module() {
    assert_ne!(bundle_digest(b"ab", b"c"), bundle_digest(b"a", b"bc"));
    assert_ne!(bundle_digest(b"", b""), bundle_digest(b"\0", b""));
}
