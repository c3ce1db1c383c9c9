use sigmatch::FileSignature;
use sigmatch::SigError;

fn sig(header: Option<&str>, trailer: Option<&str>, ext: &str, desc: &str) -> FileSignature {
    FileSignature {
        header: header.map(|s| s.to_string()),
        trailer: trailer.map(|s| s.to_string()),
        offset: 0,
        ext: ext.to_string(),
        category: "test".to_string(),
        desc: desc.to_string(),
    }
}

#[test]
fn trailer_beats_longer_header() {
    // match A: two header tokens, no trailer; match B: one token, trailer
    let a = sig(Some("FF D8"), None, "a", "no trailer");
    let b = sig(Some("FF"), Some("00"), "b", "with trailer");
    let (best, secondary) = sigmatch::select_best(&vec![a, b]).unwrap();
    assert_eq!(best.desc, "with trailer");
    assert_eq!(secondary.len(), 1);
    assert_eq!(secondary[0].desc, "no trailer");
}

#[test]
fn longer_header_wins_among_equal_trailers() {
    let a = sig(Some("FF"), None, "a", "short header");
    let b = sig(Some("FF D8 FF"), None, "b", "long header");
    let (best, secondary) = sigmatch::select_best(&vec![a, b]).unwrap();
    assert_eq!(best.desc, "long header");
    assert_eq!(secondary.len(), 1);
    assert_eq!(secondary[0].desc, "short header");
}

#[test]
fn longer_header_first_stays_selected() {
    let a = sig(Some("FF D8 FF"), None, "a", "long header");
    let b = sig(Some("FF"), None, "b", "short header");
    let (best, _) = sigmatch::select_best(&vec![a, b]).unwrap();
    assert_eq!(best.desc, "long header");
}

#[test]
fn exact_tie_keeps_first_record() {
    let a = sig(Some("FF D8"), None, "a", "first");
    let b = sig(Some("4D 5A"), None, "b", "second");
    let (best, secondary) = sigmatch::select_best(&vec![a, b]).unwrap();
    assert_eq!(best.desc, "first");
    assert_eq!(secondary.len(), 1);
    assert_eq!(secondary[0].desc, "second");
}

#[test]
fn duplicate_of_best_is_not_secondary() {
    let a = sig(Some("FF"), None, "x", "same");
    let b = sig(Some("FF"), None, "x", "same");
    let (best, secondary) = sigmatch::select_best(&vec![a, b]).unwrap();
    assert_eq!(best.desc, "same");
    assert_eq!(secondary.len(), 0);
}

#[test]
fn empty_match_set_is_no_match_found() {
    assert_eq!(
        sigmatch::select_best(&vec![]),
        Err(SigError::NoMatchFound)
    );
}

#[test]
fn classify_prefers_specific_header_over_vacuous() {
    // a JPEG record and a catch-all record both match; the JPEG header
    // is longer, so it is the primary result
    let catalog = vec![
        sig(Some("FF D8 FF"), None, "jpg|jpeg", "JPEG image"),
        sig(None, None, "bin", "unknown binary"),
    ];
    let buffer = vec![0xff, 0xd8, 0xff, 0xe0];
    let (best, secondary) = sigmatch::classify(&buffer, &catalog).unwrap();
    assert_eq!(best.desc, "JPEG image");
    assert_eq!(secondary.len(), 1);
    assert_eq!(secondary[0].desc, "unknown binary");
}

#[test]
fn classify_reports_no_match() {
    let catalog = vec![
        sig(Some("00 11"), None, "a", "first"),
        sig(Some("AA BB"), None, "b", "second"),
    ];
    let buffer = vec![0x4d, 0x5a];
    assert_eq!(
        sigmatch::classify(&buffer, &catalog),
        Err(SigError::NoMatchFound)
    );
}

#[test]
fn classify_rejects_corrupt_catalog() {
    let catalog = vec![
        sig(Some("4D 5A"), None, "exe", "fine"),
        sig(Some("NOPE"), None, "bad", "corrupt"),
    ];
    let buffer = vec![0x4d, 0x5a];
    assert_eq!(
        sigmatch::classify(&buffer, &catalog),
        Err(SigError::MalformedSignature { index: 1 })
    );
}

#[test]
fn classify_on_empty_catalog_is_no_match() {
    let buffer = vec![0x00];
    assert_eq!(
        sigmatch::classify(&buffer, &vec![]),
        Err(SigError::NoMatchFound)
    );
}
