use sigmatch::FileSignature;
use sigmatch::SigError;

fn sig(header: Option<&str>, trailer: Option<&str>, ext: &str, desc: &str) -> FileSignature {
    FileSignature {
        header: header.map(|s| s.to_string()),
        trailer: trailer.map(|s| s.to_string()),
        offset: 0,
        ext: ext.to_string(),
        category: "test".to_string(),
        desc: desc.to_string(),
    }
}

#[test]
fn decode_header_reads_hex_tokens() {
    assert_eq!(
        sigmatch::decode_header("ff d8 ff"),
        Some(vec![0xff, 0xd8, 0xff])
    );
    assert_eq!(sigmatch::decode_header("4D 5A"), Some(vec![0x4d, 0x5a]));
    assert_eq!(sigmatch::decode_header("Ff d8"), Some(vec![0xff, 0xd8]));
    assert_eq!(sigmatch::decode_header("00"), Some(vec![0x00]));
}

#[test]
fn decode_header_empty_and_spaces() {
    assert_eq!(sigmatch::decode_header(""), Some(vec![]));
    assert_eq!(sigmatch::decode_header("   "), Some(vec![]));
    assert_eq!(sigmatch::decode_header("\t4d\t5a\t"), Some(vec![0x4d, 0x5a]));
}

#[test]
fn decode_header_rejects_malformed_tokens() {
    assert_eq!(sigmatch::decode_header("xz"), None);
    assert_eq!(sigmatch::decode_header("f"), None);
    assert_eq!(sigmatch::decode_header("fff"), None);
    assert_eq!(sigmatch::decode_header("4d 5"), None);
    assert_eq!(sigmatch::decode_header("4g"), None);
}

#[test]
fn header_prefix_matches_buffer() {
    let buffer = vec![0x4d, 0x5a, 0x00];
    let s = sig(Some("4D 5A"), None, "exe", "MZ executable");
    assert_eq!(sigmatch::signature_matches(&buffer, &s), Some(true));
}

#[test]
fn header_prefix_mismatch_is_no_match() {
    let buffer = vec![0x4d, 0x41];
    let s = sig(Some("4D 5A"), None, "exe", "MZ executable");
    assert_eq!(sigmatch::signature_matches(&buffer, &s), Some(false));
}

#[test]
fn vacuous_header_matches_every_buffer() {
    let s = sig(None, None, "bin", "unknown binary");
    assert_eq!(sigmatch::signature_matches(&vec![], &s), Some(true));
    assert_eq!(sigmatch::signature_matches(&vec![0x00], &s), Some(true));
    assert_eq!(
        sigmatch::signature_matches(&vec![0xde, 0xad, 0xbe, 0xef], &s),
        Some(true)
    );
}

#[test]
fn short_buffer_is_rejected() {
    let buffer = vec![0x4d];
    let s = sig(Some("4D 5A"), None, "exe", "MZ executable");
    assert_eq!(sigmatch::signature_matches(&buffer, &s), Some(false));
}

#[test]
fn malformed_header_is_not_a_match_decision() {
    let buffer = vec![0x4d, 0x5a];
    let s = sig(Some("XZ"), None, "bad", "corrupt entry");
    assert_eq!(sigmatch::signature_matches(&buffer, &s), None);
}

#[test]
fn find_matches_keeps_catalog_order() {
    let buffer = vec![0xff, 0xd8, 0xff, 0xe0];
    let catalog = vec![
        sig(Some("FF D8 FF"), None, "jpg|jpeg", "JPEG image"),
        sig(Some("4D 5A"), None, "exe", "MZ executable"),
        sig(None, None, "bin", "unknown binary"),
    ];
    let matched = sigmatch::find_matches(&buffer, &catalog).unwrap();
    assert_eq!(matched.len(), 2);
    assert_eq!(matched[0].desc, "JPEG image");
    assert_eq!(matched[1].desc, "unknown binary");
}

#[test]
fn find_matches_reports_first_malformed_record() {
    let buffer = vec![0x00];
    let catalog = vec![
        sig(Some("00"), None, "a", "first"),
        sig(Some("ZZ"), None, "b", "second"),
        sig(Some("Q"), None, "c", "third"),
    ];
    assert_eq!(
        sigmatch::find_matches(&buffer, &catalog),
        Err(SigError::MalformedSignature { index: 1 })
    );
}

#[test]
fn bytes_render_as_lowercase_hex() {
    assert_eq!(sigmatch::bytes_to_hex(&[0xab, 0x01]), "ab 01 ");
    assert_eq!(sigmatch::bytes_to_hex(&[]), "");
    assert_eq!(sigmatch::bytes_to_hex(&[0x00, 0xff]), "00 ff ");
}

#[test]
fn optional_bytes_render_as_hex_or_none() {
    assert_eq!(sigmatch::opt_bytes_to_hex(&Some(vec![0xde, 0xad])), "de ad ");
    assert_eq!(sigmatch::opt_bytes_to_hex(&None), "None");
}

#[test]
fn records_compare_structurally() {
    let a = sig(Some("FF"), None, "x", "one");
    let b = sig(Some("FF"), None, "x", "one");
    let c = sig(Some("FF"), None, "x", "two");
    assert!(a == b);
    assert!(a != c);
}
