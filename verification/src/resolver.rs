//! The release resolver: applies a version requirement to a catalog listing,
//! after stripping the configured tag prefix, and deterministically selects
//! one release, or reports why none can be selected. Resolution is pure: no
//! network, no filesystem.

use vstd::prelude::*;
use crate::bytes_order::{contains_bytes, find_bytes, copy_suffix, has_prefix, Cmp};
use crate::requirement::DownloadVersion;
use crate::semver_text::{bytes_of, eval_range, parse_version_bytes, parsed_version_of, range_matches};
use crate::version::{version_cmp, version_lt, version_lt_asymmetric, version_lt_irreflexive, version_lt_transitive, Version, VersionView};

verus! {

/// A downloadable artifact attached to a release.
#[derive(Debug, Clone, PartialEq, Eq)]
pub struct Asset {
    pub file_name: String,
    pub download_url: String,
    pub size: u64,
}

/// One published release as the catalog lists it. `raw_tag` is the
/// repository's tag text and need not be a bare semantic version; `date` is
/// the publish timestamp.
#[derive(Debug, Clone, PartialEq, Eq)]
pub struct Release {
    pub name: String,
    pub raw_tag: String,
    pub date: i64,
    pub assets: Vec<Asset>,
}

/// The resolver's pick: which release of the list won, and its parsed
/// version.
#[derive(Debug, Clone, PartialEq, Eq)]
pub struct ResolvedRelease {
    pub release_index: usize,
    pub version: Version,
}

/// A resolved release together with the platform asset to download.
#[derive(Debug, Clone, PartialEq, Eq)]
pub struct UpdatePlan {
    pub release_index: usize,
    pub asset_index: usize,
    pub version: Version,
    pub download_size: u64,
}

/// Why resolution failed.
#[derive(Debug, Clone, Copy, PartialEq, Eq, Structural)]
pub enum ResolveError {
    /// No release is left to select. `any_eligible` tells whether the
    /// catalog held eligible releases at all, so callers can report "found
    /// releases but none satisfy the constraint".
    NoMatchingRelease { any_eligible: bool },
    /// Two candidates tie on version and publish date: a catalog
    /// inconsistency, surfaced rather than decided arbitrarily.
    AmbiguousMatch,
    /// Not exactly one asset of the chosen release fits the platform;
    /// `found` is how many did.
    NoMatchingAsset { found: usize },
}

/// The tag text of a release, as bytes.
pub open spec fn tag_bytes(r: Release) -> Seq<u8> {
    bytes_of(r.raw_tag@)
}

/// Eligible: the tag starts with the prefix and the rest parses as a
/// semantic version.
pub open spec fn eligible(r: Release, prefix: Seq<u8>) -> bool {
    &&& prefix.is_prefix_of(tag_bytes(r))
    &&& parsed_version_of(tag_bytes(r).skip(prefix.len() as int)) is Some
}

/// The parsed version of an eligible release.
pub open spec fn version_of(r: Release, prefix: Seq<u8>) -> VersionView
    recommends
        eligible(r, prefix),
{
    parsed_version_of(tag_bytes(r).skip(prefix.len() as int)).unwrap()
}

/// Admitted: eligible, and inside the requested range where one is given.
pub open spec fn admitted(req: DownloadVersion, r: Release, prefix: Seq<u8>) -> bool {
    &&& eligible(r, prefix)
    &&& match req {
        DownloadVersion::Latest => true,
        DownloadVersion::Pinned(e) => range_matches(bytes_of(e@), version_of(r, prefix)),
    }
}

/// The selection order on candidates: greater version wins, then later
/// publish date.
pub open spec fn candidate_precedes(v1: VersionView, d1: i64, v2: VersionView, d2: i64) -> bool {
    version_lt(v1, v2) || (v1 == v2 && d1 < d2)
}

/// Precedes or ties exactly.
pub open spec fn weak_precedes(v1: VersionView, d1: i64, v2: VersionView, d2: i64) -> bool {
    candidate_precedes(v1, d1, v2, d2) || (v1 == v2 && d1 == d2)
}

/// Release `i` is the one deterministic pick: admitted, and every other
/// admitted release comes strictly before it in the selection order.
pub open spec fn is_selected(req: DownloadVersion, prefix: Seq<u8>, rels: Seq<Release>, i: int) -> bool {
    &&& 0 <= i < rels.len()
    &&& admitted(req, rels[i], prefix)
    &&& forall|j: int|
        0 <= j < rels.len() && j != i && #[trigger] admitted(req, rels[j], prefix)
            ==> candidate_precedes(
            version_of(rels[j], prefix),
            rels[j].date,
            version_of(rels[i], prefix),
            rels[i].date,
        )
}

/// No release of the list is admitted.
pub open spec fn no_admitted(req: DownloadVersion, prefix: Seq<u8>, rels: Seq<Release>) -> bool {
    forall|j: int| 0 <= j < rels.len() ==> !#[trigger] admitted(req, rels[j], prefix)
}

/// Some release of the list is eligible.
pub open spec fn some_eligible(prefix: Seq<u8>, rels: Seq<Release>) -> bool {
    exists|j: int| 0 <= j < rels.len() && #[trigger] eligible(rels[j], prefix)
}

proof fn candidate_precedes_irreflexive(v: VersionView, d: i64)
    ensures
        !candidate_precedes(v, d, v, d),
{
    version_lt_irreflexive(v);
}

proof fn candidate_precedes_asymmetric(v1: VersionView, d1: i64, v2: VersionView, d2: i64)
    requires
        candidate_precedes(v1, d1, v2, d2),
    ensures
        !candidate_precedes(v2, d2, v1, d1),
{
    version_lt_irreflexive(v1);
    if version_lt(v1, v2) && version_lt(v2, v1) {
        version_lt_asymmetric(v1, v2);
    }
}

proof fn candidate_weak_then_strict(
    v1: VersionView,
    d1: i64,
    v2: VersionView,
    d2: i64,
    v3: VersionView,
    d3: i64,
)
    requires
        weak_precedes(v1, d1, v2, d2),
        candidate_precedes(v2, d2, v3, d3),
    ensures
        candidate_precedes(v1, d1, v3, d3),
{
    if version_lt(v1, v2) && version_lt(v2, v3) {
        version_lt_transitive(v1, v2, v3);
    }
}

/// Applies the requirement to the catalog listing and picks one release.
///
/// Releases whose tag lacks the prefix, or whose remainder is no semantic
/// version, are silently excluded, never an error. Of the admitted
/// releases the greatest version wins; an exact tie on version and date is
/// surfaced as `AmbiguousMatch` rather than decided arbitrarily.
pub fn resolve(req: &DownloadVersion, prefix: &str, releases: &Vec<Release>) -> (r: Result<
    ResolvedRelease,
    ResolveError,
>)
    ensures
        match r {
            Ok(sel) => is_selected(*req, bytes_of(prefix@), releases@, sel.release_index as int)
                && sel.version@ == version_of(
                releases@[sel.release_index as int],
                bytes_of(prefix@),
            ),
            Err(ResolveError::NoMatchingRelease { any_eligible }) => no_admitted(
                *req,
                bytes_of(prefix@),
                releases@,
            ) && any_eligible == some_eligible(bytes_of(prefix@), releases@),
            Err(ResolveError::AmbiguousMatch) => !no_admitted(*req, bytes_of(prefix@), releases@)
                && forall|i: int| !#[trigger] is_selected(*req, bytes_of(prefix@), releases@, i),
            Err(ResolveError::NoMatchingAsset { .. }) => false,
        },
{
    let ghost gp: Seq<u8> = bytes_of(prefix@);
    let ghost rels: Seq<Release> = releases@;
    let pb: &[u8] = prefix.as_bytes();
    let mut best: Option<Version> = None;
    let mut best_idx: usize = 0;
    let mut best_date: i64 = 0;
    let mut tied: bool = false;
    let mut any_eligible: bool = false;
    let mut k: usize = 0;
    while k < releases.len()
        invariant
            0 <= k <= rels.len(),
            rels == releases@,
            gp == bytes_of(prefix@),
            pb@ == gp,
            any_eligible == exists|j: int| 0 <= j < k && #[trigger] eligible(rels[j], gp),
            best is None ==> forall|j: int|
                0 <= j < k ==> !#[trigger] admitted(*req, rels[j], gp),
            best matches Some(bv) ==> {
                &&& 0 <= best_idx < k
                &&& admitted(*req, rels[best_idx as int], gp)
                &&& bv@ == version_of(rels[best_idx as int], gp)
                &&& best_date == rels[best_idx as int].date
                &&& forall|j: int|
                    0 <= j < k && j != best_idx && #[trigger] admitted(*req, rels[j], gp)
                        ==> weak_precedes(version_of(rels[j], gp), rels[j].date, bv@, best_date)
                &&& tied == exists|j: int|
                    0 <= j < k && j != best_idx && #[trigger] admitted(*req, rels[j], gp)
                        && version_of(rels[j], gp) == bv@ && rels[j].date == best_date
            },
        decreases rels.len() - k,
    {
        let rel = &releases[k];
        let tb: &[u8] = rel.raw_tag.as_str().as_bytes();
        proof {
            assert(tb@ == tag_bytes(rels[k as int]));
        }
        if has_prefix(tb, pb) {
            let suffix = copy_suffix(tb, pb.len());
            if let Some(v) = parse_version_bytes(suffix.as_slice()) {
                proof {
                    assert(eligible(rels[k as int], gp));
                    assert(version_of(rels[k as int], gp) == v@);
                }
                any_eligible = true;
                let in_range = match req {
                    DownloadVersion::Latest => true,
                    DownloadVersion::Pinned(e) => eval_range(e.as_str(), &v),
                };
                if in_range {
                    proof {
                        assert(admitted(*req, rels[k as int], gp));
                    }
                    match &best {
                        None => {
                            best = Some(v);
                            best_idx = k;
                            best_date = rel.date;
                            tied = false;
                        },
                        Some(bv) => {
                            let ghost obv: VersionView = bv@;
                            let ghost obd: i64 = best_date;
                            let c = version_cmp(&v, bv);
                            let newer = match c {
                                Cmp::Gt => true,
                                Cmp::Eq => rel.date > best_date,
                                Cmp::Lt => false,
                            };
                            if newer {
                                proof {
                                    assert(candidate_precedes(obv, obd, v@, rels[k as int].date));
                                    assert forall|j: int|
                                        0 <= j < k + 1 && j != k && #[trigger] admitted(
                                            *req,
                                            rels[j],
                                            gp,
                                        ) implies weak_precedes(
                                        version_of(rels[j], gp),
                                        rels[j].date,
                                        v@,
                                        rels[k as int].date,
                                    ) && !(version_of(rels[j], gp) == v@ && rels[j].date
                                        == rels[k as int].date) by {
                                        candidate_weak_then_strict(
                                            version_of(rels[j], gp),
                                            rels[j].date,
                                            obv,
                                            obd,
                                            v@,
                                            rels[k as int].date,
                                        );
                                        candidate_precedes_irreflexive(v@, rels[k as int].date);
                                        candidate_precedes_asymmetric(
                                            version_of(rels[j], gp),
                                            rels[j].date,
                                            v@,
                                            rels[k as int].date,
                                        );
                                    }
                                }
                                best = Some(v);
                                best_idx = k;
                                best_date = rel.date;
                                tied = false;
                            } else {
                                let is_tie = match c {
                                    Cmp::Eq => rel.date == best_date,
                                    _ => false,
                                };
                                proof {
                                    if c is Lt && version_of(rels[k as int], gp) == obv {
                                        version_lt_irreflexive(obv);
                                    }
                                }
                                if is_tie {
                                    tied = true;
                                }
                            }
                        },
                    }
                }
            }
        }
        k += 1;
    }
    match best {
        None => Err(ResolveError::NoMatchingRelease { any_eligible }),
        Some(bv) => {
            if tied {
                proof {
                    let j0 = choose|j: int|
                        0 <= j < rels.len() && j != best_idx && #[trigger] admitted(
                            *req,
                            rels[j],
                            gp,
                        ) && version_of(rels[j], gp) == bv@ && rels[j].date == best_date;
                    assert(admitted(*req, rels[j0], gp));
                    assert(!no_admitted(*req, gp, rels));
                    assert forall|i: int| !#[trigger] is_selected(*req, gp, rels, i) by {
                        if is_selected(*req, gp, rels, i) {
                            candidate_precedes_irreflexive(bv@, best_date);
                            if i == best_idx {
                                assert(candidate_precedes(
                                    version_of(rels[j0], gp),
                                    rels[j0].date,
                                    version_of(rels[i], gp),
                                    rels[i].date,
                                ));
                            } else if i == j0 {
                                assert(candidate_precedes(
                                    version_of(rels[best_idx as int], gp),
                                    rels[best_idx as int].date,
                                    version_of(rels[i], gp),
                                    rels[i].date,
                                ));
                            } else {
                                assert(candidate_precedes(
                                    version_of(rels[best_idx as int], gp),
                                    rels[best_idx as int].date,
                                    version_of(rels[i], gp),
                                    rels[i].date,
                                ));
                                candidate_precedes_asymmetric(
                                    version_of(rels[best_idx as int], gp),
                                    rels[best_idx as int].date,
                                    version_of(rels[i], gp),
                                    rels[i].date,
                                );
                            }
                        }
                    }
                }
                Err(ResolveError::AmbiguousMatch)
            } else {
                proof {
                    assert forall|j: int|
                        0 <= j < rels.len() && j != best_idx && #[trigger] admitted(
                            *req,
                            rels[j],
                            gp,
                        ) implies candidate_precedes(
                        version_of(rels[j], gp),
                        rels[j].date,
                        bv@,
                        best_date,
                    ) by {}
                    assert(is_selected(*req, gp, rels, best_idx as int));
                }
                Ok(ResolvedRelease { release_index: best_idx, version: bv })
            }
        },
    }
}

/// Under the `Latest` requirement a release is admitted exactly when it is
/// eligible: the selection then runs over every release whose tag starts
/// with the prefix and parses, and picks the greatest version among them.
pub proof fn latest_admits_every_eligible(r: Release, prefix: Seq<u8>)
    ensures
        admitted(DownloadVersion::Latest, r, prefix) <==> eligible(r, prefix),
{
}

/// Two distinct admitted releases that tie exactly — same parsed version,
/// same publish date — and sit at the top of the selection order leave no
/// release selectable: resolution must surface the ambiguity.
pub proof fn equal_top_candidates_ambiguous(
    req: DownloadVersion,
    prefix: Seq<u8>,
    rels: Seq<Release>,
    i: int,
    j: int,
)
    requires
        0 <= i < rels.len(),
        0 <= j < rels.len(),
        i != j,
        admitted(req, rels[i], prefix),
        admitted(req, rels[j], prefix),
        version_of(rels[i], prefix) == version_of(rels[j], prefix),
        rels[i].date == rels[j].date,
        forall|k: int|
            0 <= k < rels.len() && #[trigger] admitted(req, rels[k], prefix) ==> weak_precedes(
                version_of(rels[k], prefix),
                rels[k].date,
                version_of(rels[i], prefix),
                rels[i].date,
            ),
    ensures
        forall|w: int| !#[trigger] is_selected(req, prefix, rels, w),
        !no_admitted(req, prefix, rels),
{
    let vi = version_of(rels[i], prefix);
    let di = rels[i].date;
    assert forall|w: int| !#[trigger] is_selected(req, prefix, rels, w) by {
        if is_selected(req, prefix, rels, w) {
            candidate_precedes_irreflexive(vi, di);
            if w == i {
                assert(candidate_precedes(
                    version_of(rels[j], prefix),
                    rels[j].date,
                    version_of(rels[w], prefix),
                    rels[w].date,
                ));
            } else {
                assert(candidate_precedes(
                    version_of(rels[i], prefix),
                    rels[i].date,
                    version_of(rels[w], prefix),
                    rels[w].date,
                ));
                candidate_precedes_asymmetric(vi, di, version_of(rels[w], prefix), rels[w].date);
            }
        }
    }
}

/// The asset fits the platform: its file name contains the target name.
pub open spec fn asset_matches(a: Asset, target: Seq<u8>) -> bool {
    contains_bytes(bytes_of(a.file_name@), target)
}

/// How many assets of the list fit the platform.
pub open spec fn matching_assets(assets: Seq<Asset>, target: Seq<u8>) -> nat
    decreases assets.len(),
{
    if assets.len() == 0 {
        0
    } else {
        matching_assets(assets.drop_last(), target) + (if asset_matches(assets.last(), target) {
            1nat
        } else {
            0nat
        })
    }
}

proof fn matching_assets_take_step(assets: Seq<Asset>, target: Seq<u8>, k: int)
    requires
        0 <= k < assets.len(),
    ensures
        matching_assets(assets.take(k + 1), target) == matching_assets(assets.take(k), target) + (
        if asset_matches(assets[k], target) {
            1int
        } else {
            0int
        }),
{
    assert(assets.take(k + 1).drop_last() =~= assets.take(k));
    assert(assets.take(k + 1).last() == assets[k]);
}

/// Picks the one asset whose file name names the current platform; zero
/// matches or several are a `NoMatchingAsset` error carrying the count.
pub fn select_asset(assets: &Vec<Asset>, target: &str) -> (r: Result<usize, ResolveError>)
    ensures
        match r {
            Ok(i) => i < assets@.len() && asset_matches(assets@[i as int], bytes_of(target@))
                && matching_assets(assets@, bytes_of(target@)) == 1 && forall|j: int|
                0 <= j < assets@.len() && j != i ==> !#[trigger] asset_matches(
                    assets@[j],
                    bytes_of(target@),
                ),
            Err(ResolveError::NoMatchingAsset { found }) => found == matching_assets(
                assets@,
                bytes_of(target@),
            ) && matching_assets(assets@, bytes_of(target@)) != 1,
            Err(_) => false,
        },
{
    let ghost gt: Seq<u8> = bytes_of(target@);
    let tb: &[u8] = target.as_bytes();
    let mut count: usize = 0;
    let mut midx: usize = 0;
    let mut k: usize = 0;
    while k < assets.len()
        invariant
            0 <= k <= assets@.len(),
            gt == bytes_of(target@),
            tb@ == gt,
            count == matching_assets(assets@.take(k as int), gt),
            count <= k,
            count == 0 ==> forall|j: int| 0 <= j < k ==> !#[trigger] asset_matches(assets@[j], gt),
            count >= 1 ==> midx < k && asset_matches(assets@[midx as int], gt),
            count == 1 ==> forall|j: int|
                0 <= j < k && j != midx ==> !#[trigger] asset_matches(assets@[j], gt),
        decreases assets@.len() - k,
    {
        let a = &assets[k];
        let fb: &[u8] = a.file_name.as_str().as_bytes();
        proof {
            matching_assets_take_step(assets@, gt, k as int);
        }
        if find_bytes(fb, tb) {
            proof {
                assert(asset_matches(assets@[k as int], gt));
            }
            if count == 0 {
                midx = k;
            }
            count = count + 1;
        } else {
            proof {
                assert(!asset_matches(assets@[k as int], gt));
            }
        }
        k += 1;
    }
    proof {
        assert(assets@.take(assets@.len() as int) =~= assets@);
    }
    if count == 1 {
        Ok(midx)
    } else {
        Err(ResolveError::NoMatchingAsset { found: count })
    }
}

/// Resolution and platform-asset selection in one step: the winning release
/// with the one asset to download and its catalog-reported size.
pub fn resolve_update(
    req: &DownloadVersion,
    prefix: &str,
    releases: &Vec<Release>,
    target: &str,
) -> (r: Result<UpdatePlan, ResolveError>)
    ensures
        match r {
            Ok(p) => {
                &&& is_selected(*req, bytes_of(prefix@), releases@, p.release_index as int)
                &&& p.version@ == version_of(
                    releases@[p.release_index as int],
                    bytes_of(prefix@),
                )
                &&& p.asset_index < releases@[p.release_index as int].assets@.len()
                &&& asset_matches(
                    releases@[p.release_index as int].assets@[p.asset_index as int],
                    bytes_of(target@),
                )
                &&& forall|j: int|
                    0 <= j < releases@[p.release_index as int].assets@.len() && j
                        != p.asset_index ==> !#[trigger] asset_matches(
                        releases@[p.release_index as int].assets@[j],
                        bytes_of(target@),
                    )
                &&& p.download_size
                    == releases@[p.release_index as int].assets@[p.asset_index as int].size
            },
            Err(ResolveError::NoMatchingRelease { any_eligible }) => no_admitted(
                *req,
                bytes_of(prefix@),
                releases@,
            ) && any_eligible == some_eligible(bytes_of(prefix@), releases@),
            Err(ResolveError::AmbiguousMatch) => !no_admitted(*req, bytes_of(prefix@), releases@)
                && forall|i: int| !#[trigger] is_selected(*req, bytes_of(prefix@), releases@, i),
            Err(ResolveError::NoMatchingAsset { found }) => exists|i: int|
                #[trigger] is_selected(*req, bytes_of(prefix@), releases@, i) && found
                    == matching_assets(releases@[i].assets@, bytes_of(target@)) && matching_assets(
                    releases@[i].assets@,
                    bytes_of(target@),
                ) != 1,
        },
{
    let sel = match resolve(req, prefix, releases) {
        Ok(s) => s,
        Err(e) => {
            return Err(e);
        },
    };
    let rel = &releases[sel.release_index];
    match select_asset(&rel.assets, target) {
        Ok(ai) => Ok(
            UpdatePlan {
                release_index: sel.release_index,
                asset_index: ai,
                version: sel.version,
                download_size: rel.assets[ai].size,
            },
        ),
        Err(e) => Err(e),
    }
}

/// A release that is not eligible — its tag lacks the prefix or its
/// remainder is no semantic version — has no bearing on resolution:
/// appending it to the catalog list changes neither which release is
/// selected nor whether any release is admitted.
pub proof fn appended_ineligible_ignored(
    req: DownloadVersion,
    prefix: Seq<u8>,
    rels: Seq<Release>,
    extra: Release,
)
    requires
        !eligible(extra, prefix),
    ensures
        forall|i: int|
            #[trigger] is_selected(req, prefix, rels.push(extra), i) <==> is_selected(
                req,
                prefix,
                rels,
                i,
            ),
        no_admitted(req, prefix, rels.push(extra)) <==> no_admitted(req, prefix, rels),
{
    let rels2 = rels.push(extra);
    assert(rels2[rels.len() as int] == extra);
    assert(!admitted(req, extra, prefix));
    assert forall|j: int| 0 <= j < rels.len() implies rels2[j] == rels[j] by {}
    assert forall|i: int| #[trigger] is_selected(req, prefix, rels2, i) implies is_selected(
        req,
        prefix,
        rels,
        i,
    ) by {
        assert(i < rels.len());
        assert forall|j: int|
            0 <= j < rels.len() && j != i && #[trigger] admitted(req, rels[j], prefix) implies
            candidate_precedes(
            version_of(rels[j], prefix),
            rels[j].date,
            version_of(rels[i], prefix),
            rels[i].date,
        ) by {
            assert(admitted(req, rels2[j], prefix));
        }
    }
    assert forall|i: int| #[trigger] is_selected(req, prefix, rels, i) implies is_selected(
        req,
        prefix,
        rels2,
        i,
    ) by {
        assert forall|j: int|
            0 <= j < rels2.len() && j != i && #[trigger] admitted(req, rels2[j], prefix) implies
            candidate_precedes(
            version_of(rels2[j], prefix),
            rels2[j].date,
            version_of(rels2[i], prefix),
            rels2[i].date,
        ) by {
            assert(j < rels.len());
            assert(admitted(req, rels[j], prefix));
        }
    }
    if no_admitted(req, prefix, rels) {
        assert forall|j: int| 0 <= j < rels2.len() implies !#[trigger] admitted(
            req,
            rels2[j],
            prefix,
        ) by {
            if j < rels.len() {
                assert(!admitted(req, rels[j], prefix));
            }
        }
    }
}

} // verus!
