//! Published releases: choosing the patch archive for a target and deciding
//! whether the patcher should update itself.
use vstd::prelude::*;
use crate::error::{PatcherError, PatcherErrorModel};
use crate::semver::{is_semver_newer, normalize_semver, normalize_semver_spec, semver_newer_spec};
use crate::text::{
    append_str, ascii_upper_seq, contains, contains_seq, ends_with, eq_ignore_ascii_case,
    eq_ignore_ascii_case_seq, owned, starts_with, to_ascii_uppercase,
};

verus! {

/// A downloadable file of a release.
pub struct GithubAsset {
    pub name: String,
    pub browser_download_url: String,
}

/// A published release.
pub struct GithubRelease {
    pub tag_name: String,
    pub assets: Vec<GithubAsset>,
}

impl GithubRelease {
    /// The names of the release's assets, in order.
    pub open spec fn asset_names(&self) -> Seq<Seq<char>> {
        Seq::new(self.assets@.len(), |i: int| self.assets@[i].name@)
    }
}

/// The index of the first name at or after `i` that satisfies `pred`.
pub open spec fn first_match(names: Seq<Seq<char>>, pred: spec_fn(Seq<char>) -> bool, i: int) -> Option<int>
    decreases names.len() - i,
{
    if i < 0 || i >= names.len() {
        None
    } else if pred(names[i]) {
        Some(i)
    } else {
        first_match(names, pred, i + 1)
    }
}

proof fn lemma_first_match_from(names: Seq<Seq<char>>, pred: spec_fn(Seq<char>) -> bool, k: int)
    requires
        0 <= k <= names.len(),
    ensures
        first_match(names, pred, k) is None <==> forall|j: int| k <= j < names.len() ==> !pred(names[j]),
        forall|i: int|
            k <= i < names.len() && #[trigger] pred(names[i]) && (forall|j: int| k <= j < i ==> !pred(names[j]))
                ==> first_match(names, pred, k) == Some(i),
    decreases names.len() - k,
{
    if k < names.len() {
        lemma_first_match_from(names, pred, k + 1);
        assert forall|i: int|
            k <= i < names.len() && #[trigger] pred(names[i]) && (forall|j: int| k <= j < i ==> !pred(names[j]))
            implies first_match(names, pred, k) == Some(i) by {
            if i > k {
                assert(!pred(names[k]));
            }
        }
    }
}

/// The first name that satisfies `pred` is the one matched: where the name
/// at `i` satisfies it and none before it does, the match is `i`; there is
/// no match exactly when no name satisfies it.
pub proof fn lemma_first_match_is_first(names: Seq<Seq<char>>, pred: spec_fn(Seq<char>) -> bool)
    ensures
        first_match(names, pred, 0) is None <==> forall|j: int| 0 <= j < names.len() ==> !pred(names[j]),
        forall|i: int|
            0 <= i < names.len() && #[trigger] pred(names[i]) && (forall|j: int| 0 <= j < i ==> !pred(names[j]))
                ==> first_match(names, pred, 0) == Some(i),
{
    lemma_first_match_from(names, pred, 0);
}

/// The asset is the Korean patch archive for the target.
pub open spec fn is_patch_asset(name: Seq<char>, target: Seq<char>) -> bool {
    let upper = ascii_upper_seq(name);
    &&& "ASTRALPARTY-KOREAN-PATCH-"@.is_prefix_of(upper)
    &&& contains_seq(upper, "-"@ + ascii_upper_seq(target) + "-"@)
    &&& ".ZIP"@.is_suffix_of(upper)
}

/// The asset is the patcher's own executable: an `.exe` that is not a setup
/// program and that carries the running executable's name (any ASCII case),
/// or, when that name is unknown, the patcher's name.
pub open spec fn is_self_update_asset(name: Seq<char>, current_exe_name: Option<Seq<char>>) -> bool {
    let upper = ascii_upper_seq(name);
    &&& ".EXE"@.is_suffix_of(upper)
    &&& !contains_seq(upper, "SETUP"@)
    &&& match current_exe_name {
        Some(n) => eq_ignore_ascii_case_seq(name, n),
        None => contains_seq(upper, "ASTRALAUTOPATCHER"@),
    }
}

/// Whether an asset name is the patch archive for the target.
pub fn is_patch_asset_name(name: &str, target: &str) -> (b: bool)
    ensures
        b == is_patch_asset(name@, target@),
{
    let upper = to_ascii_uppercase(name);
    let mut marker = owned("-");
    let t = to_ascii_uppercase(target);
    append_str(&mut marker, t.as_str());
    append_str(&mut marker, "-");
    starts_with(upper.as_str(), "ASTRALPARTY-KOREAN-PATCH-") && contains(upper.as_str(), marker.as_str())
        && ends_with(upper.as_str(), ".ZIP")
}

/// The index of the release's patch archive for the target.
pub fn select_patch_asset(release: &GithubRelease, target: &str) -> (r: Result<usize, PatcherError>)
    ensures
        match first_match(release.asset_names(), |n: Seq<char>| is_patch_asset(n, target@), 0) {
            Some(i) => r matches Ok(j) && j == i,
            None => r matches Err(e) && e@ == PatcherErrorModel::PatchAssetNotFound(target@),
        },
        forall|i: int|
            0 <= i < release.assets.len() && #[trigger] is_patch_asset(release.asset_names()[i], target@) && (forall|
                j: int,
            |
                0 <= j < i ==> !is_patch_asset(release.asset_names()[j], target@)) ==> r == Ok::<usize, PatcherError>(
                i as usize,
            ),
        r is Err <==> forall|i: int| 0 <= i < release.assets.len() ==> !is_patch_asset(release.asset_names()[i], target@),
{
    let ghost names = release.asset_names();
    let ghost pred = |n: Seq<char>| is_patch_asset(n, target@);
    proof {
        lemma_first_match_is_first(names, pred);
        assert forall|i: int|
            0 <= i < release.assets.len() && #[trigger] is_patch_asset(names[i], target@) && (forall|j: int|
                0 <= j < i ==> !is_patch_asset(names[j], target@)) implies first_match(names, pred, 0) == Some(i) by {
            assert(pred(names[i]));
            assert forall|j: int| 0 <= j < i implies !pred(names[j]) by {
                assert(!is_patch_asset(names[j], target@));
            }
        }
        assert((forall|i: int| 0 <= i < release.assets.len() ==> !is_patch_asset(names[i], target@)) ==> (forall|
            j: int,
        |
            0 <= j < names.len() ==> !pred(names[j])));
        assert((forall|j: int| 0 <= j < names.len() ==> !pred(names[j])) ==> (forall|i: int|
            0 <= i < release.assets.len() ==> !is_patch_asset(names[i], target@)));
    }
    let ghost first = first_match(names, pred, 0);
    let mut i: usize = 0;
    while i < release.assets.len()
        invariant
            i <= release.assets.len(),
            names == release.asset_names(),
            pred == (|n: Seq<char>| is_patch_asset(n, target@)),
            first_match(names, pred, 0) == first_match(names, pred, i as int),
            first == first_match(names, pred, 0),
            forall|k: int|
                0 <= k < release.assets.len() && #[trigger] is_patch_asset(names[k], target@) && (forall|j: int|
                    0 <= j < k ==> !is_patch_asset(names[j], target@)) ==> first == Some(k),
            first is None <==> forall|k: int| 0 <= k < release.assets.len() ==> !is_patch_asset(names[k], target@),
        decreases release.assets.len() - i,
    {
        if is_patch_asset_name(release.assets[i].name.as_str(), target) {
            return Ok(i);
        }
        i += 1;
    }
    Err(PatcherError::PatchAssetNotFound(owned(target)))
}

/// Whether an asset name is the patcher's own executable.
pub fn is_self_update_asset_name(name: &str, current_exe_name: &Option<String>) -> (b: bool)
    ensures
        b == is_self_update_asset(name@, current_exe_name.deep_view()),
{
    let upper = to_ascii_uppercase(name);
    if !ends_with(upper.as_str(), ".EXE") {
        return false;
    }
    if contains(upper.as_str(), "SETUP") {
        return false;
    }
    match current_exe_name {
        Some(n) => eq_ignore_ascii_case(name, n.as_str()),
        None => contains(upper.as_str(), "ASTRALAUTOPATCHER"),
    }
}

/// What the self-update check decided.
pub enum SelfUpdateDecision {
    /// The published release is not newer than the running version.
    UpToDate,
    /// A newer release exists but has no executable for this patcher.
    NoExecutableAsset,
    /// Update to `latest_version` with the asset at `asset_index`.
    Update { latest_version: String, asset_index: usize },
}

/// Decides whether to update to the latest release: only when its normalised
/// tag is a newer version than the normalised running version, and then with
/// the first asset that is the patcher's executable.
pub fn plan_self_update(
    release: &GithubRelease,
    current_version: &str,
    current_exe_name: &Option<String>,
) -> (d: SelfUpdateDecision)
    ensures
        ({
            let latest = normalize_semver_spec(release.tag_name@);
            let current = normalize_semver_spec(current_version@);
            if !semver_newer_spec(latest, current) {
                d is UpToDate
            } else {
                match first_match(
                    release.asset_names(),
                    |n: Seq<char>| is_self_update_asset(n, current_exe_name.deep_view()),
                    0,
                ) {
                    Some(i) => d matches SelfUpdateDecision::Update { latest_version, asset_index }
                        && latest_version@ == latest && asset_index == i,
                    None => d is NoExecutableAsset,
                }
            }
        }),
        d is UpToDate <==> !semver_newer_spec(
            normalize_semver_spec(release.tag_name@),
            normalize_semver_spec(current_version@),
        ),
        forall|i: int|
            0 <= i < release.assets.len() && semver_newer_spec(
                normalize_semver_spec(release.tag_name@),
                normalize_semver_spec(current_version@),
            ) && #[trigger] is_self_update_asset(release.asset_names()[i], current_exe_name.deep_view()) && (forall|
                j: int,
            |
                0 <= j < i ==> !is_self_update_asset(release.asset_names()[j], current_exe_name.deep_view()))
                ==> (d matches SelfUpdateDecision::Update { latest_version, asset_index } && asset_index == i
                && latest_version@ == normalize_semver_spec(release.tag_name@)),
        d is NoExecutableAsset <==> semver_newer_spec(
            normalize_semver_spec(release.tag_name@),
            normalize_semver_spec(current_version@),
        ) && forall|i: int|
            0 <= i < release.assets.len() ==> !is_self_update_asset(
                release.asset_names()[i],
                current_exe_name.deep_view(),
            ),
{
    let latest = normalize_semver(release.tag_name.as_str());
    let current = normalize_semver(current_version);
    if !is_semver_newer(latest.as_str(), current.as_str()) {
        return SelfUpdateDecision::UpToDate;
    }
    let ghost names = release.asset_names();
    let ghost cur = current_exe_name.deep_view();
    let ghost pred = |n: Seq<char>| is_self_update_asset(n, current_exe_name.deep_view());
    proof {
        lemma_first_match_is_first(names, pred);
        assert forall|i: int|
            0 <= i < release.assets.len() && #[trigger] is_self_update_asset(names[i], cur) && (forall|j: int|
                0 <= j < i ==> !is_self_update_asset(names[j], cur)) implies first_match(names, pred, 0) == Some(
            i,
        ) by {
            assert(pred(names[i]));
            assert forall|j: int| 0 <= j < i implies !pred(names[j]) by {
                assert(!is_self_update_asset(names[j], cur));
            }
        }
        assert((forall|i: int| 0 <= i < release.assets.len() ==> !is_self_update_asset(names[i], cur)) ==> (forall|
            j: int,
        |
            0 <= j < names.len() ==> !pred(names[j])));
        assert((forall|j: int| 0 <= j < names.len() ==> !pred(names[j])) ==> (forall|i: int|
            0 <= i < release.assets.len() ==> !is_self_update_asset(names[i], cur)));
    }
    let ghost first = first_match(names, pred, 0);
    let mut i: usize = 0;
    while i < release.assets.len()
        invariant
            i <= release.assets.len(),
            names == release.asset_names(),
            pred == (|n: Seq<char>| is_self_update_asset(n, current_exe_name.deep_view())),
            cur == current_exe_name.deep_view(),
            first == first_match(names, pred, 0),
            forall|k: int|
                0 <= k < release.assets.len() && #[trigger] is_self_update_asset(names[k], cur) && (forall|j: int|
                    0 <= j < k ==> !is_self_update_asset(names[j], cur)) ==> first == Some(k),
            first is None <==> forall|k: int| 0 <= k < release.assets.len() ==> !is_self_update_asset(names[k], cur),
            latest@ == normalize_semver_spec(release.tag_name@),
            semver_newer_spec(latest@, normalize_semver_spec(current_version@)),
            first_match(names, pred, 0) == first_match(names, pred, i as int),
        decreases release.assets.len() - i,
    {
        if is_self_update_asset_name(release.assets[i].name.as_str(), current_exe_name) {
            return SelfUpdateDecision::Update { latest_version: latest, asset_index: i };
        }
        i += 1;
    }
    SelfUpdateDecision::NoExecutableAsset
}

/// The detail shown once the patch archive is ready; a pre-release tag adds a warning.
pub open spec fn prepared_patch_detail_spec(release_tag: Seq<char>, asset_name: Seq<char>) -> Seq<char> {
    let base = "[버전] "@ + release_tag + "\n[파일] "@ + asset_name;
    if "-pre"@.is_suffix_of(release_tag) {
        base + "\n⚠ Pre-release 버전에서는 일부 번역되지 않은 요소가 존재할 수 있습니다."@
    } else {
        base
    }
}

/// The detail shown once the patch archive is ready.
pub fn prepared_patch_detail(release_tag: &str, asset_name: &str) -> (r: String)
    ensures
        r@ == prepared_patch_detail_spec(release_tag@, asset_name@),
{
    let mut detail = owned("[버전] ");
    append_str(&mut detail, release_tag);
    append_str(&mut detail, "\n[파일] ");
    append_str(&mut detail, asset_name);
    if ends_with(release_tag, "-pre") {
        append_str(&mut detail, "\n⚠ Pre-release 버전에서는 일부 번역되지 않은 요소가 존재할 수 있습니다.");
    }
    detail
}

} // verus!
