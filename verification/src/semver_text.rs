//! The boundary to the `semver` crate. Version texts and range expressions
//! follow the semantic-versioning grammar, which the `semver` crate
//! implements; the functions here call it and are trusted, with the outcomes
//! named by uninterpreted spec functions, since the grammar itself is not
//! restated in this crate.

use vstd::prelude::*;
use crate::version::{Version, VersionView};

verus! {

/// The bytes of a text, UTF-8 encoded.
pub open spec fn bytes_of(s: Seq<char>) -> Seq<u8> {
    vstd::utf8::encode_utf8(s)
}

/// What `semver::Version::parse` yields on the given bytes: `None` where
/// they are not UTF-8 or not a semantic version.
pub uninterp spec fn parsed_version_of(s: Seq<u8>) -> Option<VersionView>;

/// Whether `semver::VersionReq::parse` accepts the given bytes as a range
/// expression.
pub uninterp spec fn valid_range_expr(s: Seq<u8>) -> bool;

/// What `semver::VersionReq::matches` yields for a range expression and a
/// version; bytes that are no valid range expression match nothing.
pub uninterp spec fn range_matches(expr: Seq<u8>, v: VersionView) -> bool;

/// Relies on `semver::Version::parse`: the result is a function of the text
/// alone. Build metadata is dropped, as semver precedence ignores it.
#[verifier::external_body]
pub fn parse_version_bytes(s: &[u8]) -> (r: Option<Version>)
    ensures
        match r {
            Some(v) => parsed_version_of(s@) == Some(v@),
            None => parsed_version_of(s@) is None,
        },
{
    let text = core::str::from_utf8(s).ok()?;
    let v = semver::Version::parse(text).ok()?;
    Some(
        Version {
            major: v.major,
            minor: v.minor,
            patch: v.patch,
            pre: v.pre.as_str().as_bytes().to_vec(),
        },
    )
}

/// Relies on `semver::VersionReq::parse`: whether the text is a valid range
/// expression depends on the text alone. `Err` carries the parser's rendered
/// message.
#[verifier::external_body]
pub fn check_range_expr(s: &str) -> (r: Result<(), String>)
    ensures
        r is Ok <==> valid_range_expr(bytes_of(s@)),
{
    match semver::VersionReq::parse(s) {
        Ok(_) => Ok(()),
        Err(e) => Err(format!("{}", e)),
    }
}

/// Relies on `semver::VersionReq::matches`: the outcome is a function of the
/// range text and the version alone.
#[verifier::external_body]
pub fn eval_range(expr: &str, v: &Version) -> (r: bool)
    ensures
        r == range_matches(bytes_of(expr@), v@),
{
    let req = match semver::VersionReq::parse(expr) {
        Ok(q) => q,
        Err(_) => return false,
    };
    let pre_text = core::str::from_utf8(&v.pre).unwrap_or("");
    let pre = semver::Prerelease::new(pre_text).unwrap_or(semver::Prerelease::EMPTY);
    let build = semver::BuildMetadata::EMPTY;
    let sv = semver::Version { major: v.major, minor: v.minor, patch: v.patch, pre, build };
    req.matches(&sv)
}

} // verus!
