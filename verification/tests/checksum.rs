use fastfileocr_core::checksum::{hex, Checksum};
use fastfileocr_core::download::{digest_matches, ModelFile};

#[test]
fn streamed_bytes_hash_like_the_whole() {
    let mut h = Checksum::new();
    h.update(b"verified GPU ");
    h.update(b"archive contents");
    let mut whole = Checksum::new();
    whole.update(b"verified GPU archive contents");
    assert_eq!(h.hex(), whole.hex());
}

#[test]
fn digests_are_lowercase_hex() {
    assert_eq!(hex(&vec![0x00, 0xab, 0x0f, 0xff]), "00ab0fff");
    assert_eq!(Checksum::new().hex(), "e3b0c44298fc1c149afbf4c8996fb92427ae41e4649b934ca495991b7852b855");
}

#[test]
fn a_file_matches_its_pinned_checksum() {
    let file = ModelFile {
        name: "x".into(),
        bytes: 0,
        sha256: "e3b0c44298fc1c149afbf4c8996fb92427ae41e4649b934ca495991b7852b855".into(),
        layout: false,
        repository: None,
        revision: None,
        url: None,
    };
    assert!(digest_matches(Checksum::new(), &file));
    let mut h = Checksum::new();
    h.update(b"x");
    assert!(!digest_matches(h, &file));
}
