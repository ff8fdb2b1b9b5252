//! The declarative version requirement: either "the latest release" or a
//! semantic-version range expression, parsed from one shared routine so the
//! config field and a CLI override cannot drift apart.

use vstd::prelude::*;
use crate::semver_text::{bytes_of, check_range_expr, valid_range_expr};

verus! {

/// Which release to download: the latest one, or one pinned by a range
/// expression. `Pinned` keeps the expression text exactly as given.
#[derive(Debug, Clone, PartialEq, Eq)]
pub enum DownloadVersion {
    /// Download the latest version.
    Latest,
    /// Download a version or requirement.
    Pinned(String),
}

/// A rejected requirement text: the parser's reason and the text itself.
#[derive(Debug, Clone, PartialEq, Eq)]
pub struct ParseError {
    pub reason: String,
    pub offending_input: String,
}

/// True exactly of the bytes of `"latest"` in any mixture of ASCII case
/// (each position the lower- or upper-case code of l, a, t, e, s, t).
pub open spec fn is_latest_text(s: Seq<u8>) -> bool {
    &&& s.len() == 6
    &&& (s[0] == 108 || s[0] == 76)
    &&& (s[1] == 97 || s[1] == 65)
    &&& (s[2] == 116 || s[2] == 84)
    &&& (s[3] == 101 || s[3] == 69)
    &&& (s[4] == 115 || s[4] == 83)
    &&& (s[5] == 116 || s[5] == 84)
}

/// Case-insensitive test for the literal `latest`.
fn latest_literal(s: &[u8]) -> (r: bool)
    ensures
        r == is_latest_text(s@),
{
    if s.len() != 6 {
        return false;
    }
    (s[0] == 108 || s[0] == 76) && (s[1] == 97 || s[1] == 65) && (s[2] == 116 || s[2]
        == 84) && (s[3] == 101 || s[3] == 69) && (s[4] == 115 || s[4] == 83) && (s[5]
        == 116 || s[5] == 84)
}

impl DownloadVersion {
    /// Parses a requirement text: any case variant of `latest` yields
    /// `Latest`; anything else must be a valid range expression and is kept
    /// verbatim in `Pinned`; the rest is rejected, never coerced to
    /// `Latest`. Both the config reader and the CLI go through this one
    /// function.
    pub fn from_str(s: &str) -> (r: Result<DownloadVersion, ParseError>)
        ensures
            match r {
                Ok(DownloadVersion::Latest) => is_latest_text(bytes_of(s@)),
                Ok(DownloadVersion::Pinned(e)) => !is_latest_text(bytes_of(s@))
                    && valid_range_expr(bytes_of(s@)) && e@ == s@,
                Err(p) => !is_latest_text(bytes_of(s@)) && !valid_range_expr(bytes_of(s@))
                    && p.offending_input@ == s@,
            },
    {
        if latest_literal(s.as_bytes()) {
            return Ok(DownloadVersion::Latest);
        }
        match check_range_expr(s) {
            Ok(_) => Ok(DownloadVersion::Pinned(s.to_owned())),
            Err(reason) => Err(ParseError { reason, offending_input: s.to_owned() }),
        }
    }

    /// The display text the requirement round-trips through.
    pub fn display_text(&self) -> (r: String)
        ensures
            match self {
                DownloadVersion::Latest => r@ == "latest"@,
                DownloadVersion::Pinned(e) => r@ == e@,
            },
    {
        match self {
            DownloadVersion::Latest => "latest".to_owned(),
            DownloadVersion::Pinned(e) => e.as_str().to_owned(),
        }
    }
}

// serde and the CLI layer use the Default::default impl.
impl Default for DownloadVersion {
    /// An absent requirement defaults to the latest release.
    fn default() -> (r: Self)
        ensures
            r is Latest,
    {
        DownloadVersion::Latest
    }
}

} // verus!
