use self_update_example::bytes_order::{bytes_cmp, find_bytes, Cmp};
use self_update_example::version::{version_cmp, Version};

fn ver(major: u64, minor: u64, patch: u64, pre: &str) -> Version {
    Version {
        major,
        minor,
        patch,
        pre: pre.as_bytes().to_vec(),
    }
}

#[test]
fn numeric_components_decide_first() {
    assert_eq!(version_cmp(&ver(1, 0, 0, ""), &ver(2, 0, 0, "")), Cmp::Lt);
    assert_eq!(version_cmp(&ver(1, 2, 0, ""), &ver(1, 1, 5, "")), Cmp::Gt);
    assert_eq!(version_cmp(&ver(1, 1, 4, ""), &ver(1, 1, 5, "")), Cmp::Lt);
    assert_eq!(version_cmp(&ver(1, 1, 5, ""), &ver(1, 1, 5, "")), Cmp::Eq);
}

#[test]
fn prerelease_ranks_below_full_release() {
    assert_eq!(
        version_cmp(&ver(1, 0, 0, "alpha"), &ver(1, 0, 0, "")),
        Cmp::Lt
    );
    assert_eq!(
        version_cmp(&ver(1, 0, 0, ""), &ver(1, 0, 0, "rc.1")),
        Cmp::Gt
    );
}

#[test]
fn prerelease_precedence_chain() {
    // The ascending chain the semver rules prescribe.
    let chain = [
        "alpha",
        "alpha.1",
        "alpha.beta",
        "beta",
        "beta.2",
        "beta.11",
        "rc.1",
    ];
    for w in chain.windows(2) {
        assert_eq!(
            version_cmp(&ver(1, 0, 0, w[0]), &ver(1, 0, 0, w[1])),
            Cmp::Lt,
            "{} should precede {}",
            w[0],
            w[1]
        );
    }
    assert_eq!(
        version_cmp(&ver(1, 0, 0, "rc.1"), &ver(1, 0, 0, "rc.1")),
        Cmp::Eq
    );
}

#[test]
fn numeric_identifiers_compare_by_value() {
    assert_eq!(
        version_cmp(&ver(1, 0, 0, "rc.9"), &ver(1, 0, 0, "rc.10")),
        Cmp::Lt
    );
    // Identifiers with a letter compare in ASCII order instead.
    assert_eq!(
        version_cmp(&ver(1, 0, 0, "pre12"), &ver(1, 0, 0, "pre8")),
        Cmp::Lt
    );
}

#[test]
fn byte_comparison_is_lexicographic() {
    assert_eq!(bytes_cmp(b"abc", b"abd"), Cmp::Lt);
    assert_eq!(bytes_cmp(b"ab", b"abc"), Cmp::Lt);
    assert_eq!(bytes_cmp(b"abc", b"abc"), Cmp::Eq);
    assert_eq!(bytes_cmp(b"b", b"abc"), Cmp::Gt);
    assert_eq!(bytes_cmp(b"", b""), Cmp::Eq);
}

#[test]
fn substring_search_finds_runs() {
    assert!(find_bytes(b"tool-x86_64-linux.tar.gz", b"x86_64"));
    assert!(find_bytes(b"abc", b""));
    assert!(!find_bytes(b"abc", b"abcd"));
    assert!(!find_bytes(b"tool-aarch64.tar.gz", b"x86_64"));
}
