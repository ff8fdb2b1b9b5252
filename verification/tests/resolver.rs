use self_update_example::requirement::DownloadVersion;
use self_update_example::resolver::{
    resolve, resolve_update, select_asset, Asset, Release, ResolveError,
};

fn rel(tag: &str, date: i64) -> Release {
    Release {
        name: tag.to_string(),
        raw_tag: tag.to_string(),
        date,
        assets: Vec::new(),
    }
}

fn asset(name: &str, size: u64) -> Asset {
    Asset {
        file_name: name.to_string(),
        download_url: format!("https://releases.example/{}", name),
        size,
    }
}

#[test]
fn latest_picks_greatest_version() {
    let releases = vec![rel("v1.0.0", 1), rel("v1.2.0", 2), rel("v1.1.5", 3)];
    let picked = resolve(&DownloadVersion::Latest, "v", &releases).unwrap();
    assert_eq!(picked.release_index, 1);
    assert_eq!(picked.version.major, 1);
    assert_eq!(picked.version.minor, 2);
    assert_eq!(picked.version.patch, 0);
    assert!(picked.version.pre.is_empty());
}

#[test]
fn foreign_tags_and_bad_suffixes_excluded_without_error() {
    let releases = vec![
        rel("docs-2.0.0", 1),
        rel("v1.2.0", 2),
        rel("v1.x", 3),
        rel("v1.0.0", 4),
    ];
    let picked = resolve(&DownloadVersion::Latest, "v", &releases).unwrap();
    assert_eq!(picked.release_index, 1);
}

#[test]
fn range_excludes_versions_outside_it() {
    let releases = vec![rel("v1.2.0", 1), rel("v2.0.0", 2)];
    let req = DownloadVersion::from_str("^1.0").unwrap();
    let picked = resolve(&req, "v", &releases).unwrap();
    assert_eq!(picked.release_index, 0);
    assert_eq!(picked.version.major, 1);
    assert_eq!(picked.version.minor, 2);
}

#[test]
fn no_eligible_release_is_an_error() {
    let releases = vec![rel("alpha", 1), rel("beta", 2)];
    let err = resolve(&DownloadVersion::Latest, "v", &releases).unwrap_err();
    assert_eq!(
        err,
        ResolveError::NoMatchingRelease {
            any_eligible: false
        }
    );
    let err = resolve(&DownloadVersion::Latest, "v", &Vec::new()).unwrap_err();
    assert_eq!(
        err,
        ResolveError::NoMatchingRelease {
            any_eligible: false
        }
    );
}

#[test]
fn eligible_but_out_of_range_is_distinguished_in_detail() {
    let releases = vec![rel("v1.2.0", 1)];
    let req = DownloadVersion::from_str("^3.0").unwrap();
    let err = resolve(&req, "v", &releases).unwrap_err();
    assert_eq!(err, ResolveError::NoMatchingRelease { any_eligible: true });
}

#[test]
fn identical_version_and_date_is_ambiguous() {
    let releases = vec![rel("v1.0.0", 7), rel("v1.0.0", 7)];
    let err = resolve(&DownloadVersion::Latest, "v", &releases).unwrap_err();
    assert_eq!(err, ResolveError::AmbiguousMatch);
}

#[test]
fn equal_versions_tie_break_on_later_date() {
    let releases = vec![rel("v1.0.0", 5), rel("v1.0.0", 9)];
    let picked = resolve(&DownloadVersion::Latest, "v", &releases).unwrap();
    assert_eq!(picked.release_index, 1);
}

#[test]
fn full_release_outranks_prerelease() {
    let releases = vec![rel("v1.0.0-alpha", 9), rel("v1.0.0", 1)];
    let picked = resolve(&DownloadVersion::Latest, "v", &releases).unwrap();
    assert_eq!(picked.release_index, 1);
    let only_pre = vec![rel("v1.0.0-alpha", 1), rel("v1.0.0-beta", 1)];
    let picked = resolve(&DownloadVersion::Latest, "v", &only_pre).unwrap();
    assert_eq!(picked.release_index, 1);
    assert_eq!(picked.version.pre, b"beta".to_vec());
}

#[test]
fn empty_prefix_accepts_bare_tags() {
    let releases = vec![rel("0.9.0", 1), rel("1.0.0", 2)];
    let picked = resolve(&DownloadVersion::Latest, "", &releases).unwrap();
    assert_eq!(picked.release_index, 1);
}

#[test]
fn one_matching_asset_is_selected() {
    let assets = vec![
        asset("tool-x86_64-unknown-linux-gnu.tar.gz", 100),
        asset("tool-aarch64-apple-darwin.tar.gz", 90),
    ];
    let i = select_asset(&assets, "x86_64-unknown-linux-gnu").unwrap();
    assert_eq!(i, 0);
}

#[test]
fn zero_or_several_matching_assets_fail() {
    let assets = vec![
        asset("tool-x86_64-unknown-linux-gnu.tar.gz", 100),
        asset("tool-aarch64-apple-darwin.tar.gz", 90),
    ];
    assert_eq!(
        select_asset(&assets, "pc-windows-msvc").unwrap_err(),
        ResolveError::NoMatchingAsset { found: 0 }
    );
    let doubled = vec![
        asset("tool-x86_64-unknown-linux-gnu.tar.gz", 100),
        asset("tool-x86_64-unknown-linux-gnu.zip", 80),
    ];
    assert_eq!(
        select_asset(&doubled, "x86_64-unknown-linux-gnu").unwrap_err(),
        ResolveError::NoMatchingAsset { found: 2 }
    );
}

#[test]
fn resolve_update_combines_release_and_asset() {
    let mut winner = rel("v1.2.0", 2);
    winner.assets = vec![
        asset("tool-x86_64-unknown-linux-gnu.tar.gz", 4096),
        asset("tool-aarch64-apple-darwin.tar.gz", 2048),
    ];
    let releases = vec![rel("v1.0.0", 1), winner];
    let plan = resolve_update(
        &DownloadVersion::Latest,
        "v",
        &releases,
        "x86_64-unknown-linux-gnu",
    )
    .unwrap();
    assert_eq!(plan.release_index, 1);
    assert_eq!(plan.asset_index, 0);
    assert_eq!(plan.version.minor, 2);
    assert_eq!(plan.download_size, 4096);
}

#[test]
fn resolve_update_reports_asset_miss() {
    let mut winner = rel("v1.2.0", 2);
    winner.assets = vec![asset("tool-aarch64-apple-darwin.tar.gz", 2048)];
    let releases = vec![winner];
    let err = resolve_update(
        &DownloadVersion::Latest,
        "v",
        &releases,
        "x86_64-unknown-linux-gnu",
    )
    .unwrap_err();
    assert_eq!(err, ResolveError::NoMatchingAsset { found: 0 });
}

#[test]
fn build_metadata_is_ignored_for_precedence() {
    let releases = vec![rel("v1.2.0+build5", 1), rel("v1.1.0", 2)];
    let picked = resolve(&DownloadVersion::Latest, "v", &releases).unwrap();
    assert_eq!(picked.release_index, 0);
    assert_eq!(picked.version.minor, 2);
    assert!(picked.version.pre.is_empty());
}

#[test]
fn prefix_match_is_exact_and_case_sensitive() {
    let releases = vec![rel("V2.0.0", 1), rel("v1.0.0", 2)];
    let picked = resolve(&DownloadVersion::Latest, "v", &releases).unwrap();
    assert_eq!(picked.release_index, 1);
}

#[test]
fn plain_range_does_not_admit_prereleases() {
    // A range without a pre-release component matches no pre-release version.
    let releases = vec![rel("v1.0.1-alpha", 9), rel("v1.0.0", 1)];
    let req = DownloadVersion::from_str("^1.0").unwrap();
    let picked = resolve(&req, "v", &releases).unwrap();
    assert_eq!(picked.release_index, 1);
}
