use self_update_example::requirement::DownloadVersion;

#[test]
fn latest_case_variants() {
    for s in ["latest", "LATEST", "Latest", "lAtEsT", "laTEst", "LATESt"] {
        assert_eq!(DownloadVersion::from_str(s), Ok(DownloadVersion::Latest));
    }
}

#[test]
fn range_expression_kept_verbatim() {
    assert_eq!(
        DownloadVersion::from_str("^1.0"),
        Ok(DownloadVersion::Pinned("^1.0".to_string()))
    );
    assert_eq!(
        DownloadVersion::from_str(">=2.0, <3.0"),
        Ok(DownloadVersion::Pinned(">=2.0, <3.0".to_string()))
    );
    assert_eq!(
        DownloadVersion::from_str("1.2.*"),
        Ok(DownloadVersion::Pinned("1.2.*".to_string()))
    );
}

#[test]
fn bad_requirement_rejected_not_coerced() {
    let err = DownloadVersion::from_str("not a version").unwrap_err();
    assert_eq!(err.offending_input, "not a version");
    assert!(!err.reason.is_empty());
    let err = DownloadVersion::from_str("@1.0.0").unwrap_err();
    assert_eq!(err.offending_input, "@1.0.0");
}

#[test]
fn near_latest_spellings_are_not_latest() {
    // A seventh character or a different word must not be taken for "latest".
    assert!(DownloadVersion::from_str("latests").is_err());
    assert!(DownloadVersion::from_str("newest").is_err());
}

#[test]
fn default_is_latest() {
    assert_eq!(DownloadVersion::default(), DownloadVersion::Latest);
}

#[test]
fn display_round_trip() {
    let latest = DownloadVersion::Latest;
    assert_eq!(latest.display_text(), "latest");
    assert_eq!(
        DownloadVersion::from_str(&latest.display_text()),
        Ok(DownloadVersion::Latest)
    );
    let pinned = DownloadVersion::from_str("~0.27").unwrap();
    assert_eq!(pinned.display_text(), "~0.27");
    assert_eq!(
        DownloadVersion::from_str(&pinned.display_text()),
        Ok(pinned)
    );
}
