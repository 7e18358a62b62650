//! The errors that the patcher's own rules can raise, with the text shown to the user.
use vstd::prelude::*;
use crate::report::{bullet_list, bullet_list_seq};
use crate::text::{append_str, owned};

verus! {

/// A refusal by one of the patcher's rules.
pub enum PatcherError {
    /// The patch target was missing or blank.
    EmptyPatchTarget,
    /// The (upper-cased) patch target is not one the patcher supports.
    UnsupportedPatchTarget(String),
    /// `--resume-patch` was given without a target after it.
    MissingResumeTarget,
    /// An `astral://` argument that is neither a patch nor a remove route.
    InvalidProtocolRoute(String),
    /// A target that a target-specific step does not handle.
    UnsupportedTarget(String),
    /// The removal rules (fetched from the given address) name no AssetBundles root id.
    NoAssetBundleRootIds(String),
    /// None of the checked Steam library paths holds the game.
    GameInstallDirNotFound(Vec<String>),
    /// The release has no patch archive for the target.
    PatchAssetNotFound(String),
    /// The extracted bundle under the given root has no `AssetBundles` directory.
    AssetBundlesNotExtracted(String),
    /// The extracted bundle under the given root has no `StandaloneWindows64` directory.
    StandaloneNotExtracted(String),
    /// A required path does not exist.
    PathNotFound(String),
    /// The bilibili game data directory does not exist.
    BilibiliGameDirNotFound(String),
    /// The bilibili game root recorded in the registry does not exist.
    BilibiliGameRootMissing(String),
}

/// The abstract value of a [`PatcherError`].
pub enum PatcherErrorModel {
    EmptyPatchTarget,
    UnsupportedPatchTarget(Seq<char>),
    MissingResumeTarget,
    InvalidProtocolRoute(Seq<char>),
    UnsupportedTarget(Seq<char>),
    NoAssetBundleRootIds(Seq<char>),
    GameInstallDirNotFound(Seq<Seq<char>>),
    PatchAssetNotFound(Seq<char>),
    AssetBundlesNotExtracted(Seq<char>),
    StandaloneNotExtracted(Seq<char>),
    PathNotFound(Seq<char>),
    BilibiliGameDirNotFound(Seq<char>),
    BilibiliGameRootMissing(Seq<char>),
}

impl View for PatcherError {
    type V = PatcherErrorModel;

    open spec fn view(&self) -> PatcherErrorModel {
        match self {
            PatcherError::EmptyPatchTarget => PatcherErrorModel::EmptyPatchTarget,
            PatcherError::UnsupportedPatchTarget(t) => PatcherErrorModel::UnsupportedPatchTarget(t@),
            PatcherError::MissingResumeTarget => PatcherErrorModel::MissingResumeTarget,
            PatcherError::InvalidProtocolRoute(a) => PatcherErrorModel::InvalidProtocolRoute(a@),
            PatcherError::UnsupportedTarget(t) => PatcherErrorModel::UnsupportedTarget(t@),
            PatcherError::NoAssetBundleRootIds(u) => PatcherErrorModel::NoAssetBundleRootIds(u@),
            PatcherError::GameInstallDirNotFound(p) => PatcherErrorModel::GameInstallDirNotFound(
                p.deep_view(),
            ),
            PatcherError::PatchAssetNotFound(t) => PatcherErrorModel::PatchAssetNotFound(t@),
            PatcherError::AssetBundlesNotExtracted(r) => PatcherErrorModel::AssetBundlesNotExtracted(r@),
            PatcherError::StandaloneNotExtracted(r) => PatcherErrorModel::StandaloneNotExtracted(r@),
            PatcherError::PathNotFound(p) => PatcherErrorModel::PathNotFound(p@),
            PatcherError::BilibiliGameDirNotFound(p) => PatcherErrorModel::BilibiliGameDirNotFound(p@),
            PatcherError::BilibiliGameRootMissing(p) => PatcherErrorModel::BilibiliGameRootMissing(p@),
        }
    }
}

/// The text shown to the user for an error.
pub open spec fn error_message(e: PatcherErrorModel) -> Seq<char> {
    match e {
        PatcherErrorModel::EmptyPatchTarget =>
            "패치 실행 대상이 비어 있습니다.\n지원 형식: astral://patch/<TARGET>\nTARGET: INT_STEAM, CN_BILIBILI"@,
        PatcherErrorModel::UnsupportedPatchTarget(t) =>
            "지원하지 않는 패치 대상입니다.\n"@ + t + "\n지원 대상: INT_STEAM, CN_BILIBILI"@,
        PatcherErrorModel::MissingResumeTarget =>
            "재개 패치 실행 인자에 대상(route)이 없습니다.\n지원 형식: --resume-patch <TARGET>"@,
        PatcherErrorModel::InvalidProtocolRoute(a) =>
            "잘못된 프로토콜 실행 경로입니다.\n"@ + a
                + "\n지원 형식: astral://patch/<TARGET> 또는 astral://remove/<TARGET>\nTARGET: INT_STEAM, CN_BILIBILI"@,
        PatcherErrorModel::UnsupportedTarget(t) => "현재 지원하지 않는 대상입니다.\n"@ + t,
        PatcherErrorModel::NoAssetBundleRootIds(u) =>
            "제거 규칙에서 AssetBundles 대상 root_id를 찾지 못했습니다.\n"@ + u,
        PatcherErrorModel::GameInstallDirNotFound(p) =>
            "Astral Party 설치 경로를 찾지 못했습니다.\n[확인 대상]\n"@ + bullet_list_seq(p),
        PatcherErrorModel::PatchAssetNotFound(t) => t + "에 해당하는 패치 ZIP 에셋을 찾지 못했습니다."@,
        PatcherErrorModel::AssetBundlesNotExtracted(r) =>
            "압축 해제 결과에서 AssetBundles 폴더를 찾지 못했습니다.\n"@ + r,
        PatcherErrorModel::StandaloneNotExtracted(r) =>
            "압축 해제 결과에서 StandaloneWindows64 폴더를 찾지 못했습니다.\n"@ + r,
        PatcherErrorModel::PathNotFound(p) => "경로가 존재하지 않습니다.\n"@ + p,
        PatcherErrorModel::BilibiliGameDirNotFound(p) =>
            "bilibili Astral Party 설치 경로를 찾지 못했습니다.\n[확인] "@ + p,
        PatcherErrorModel::BilibiliGameRootMissing(p) =>
            "레지스트리에 등록된 bilibili 게임 경로가 존재하지 않습니다.\n"@ + p,
    }
}

fn text_then(before: &str, after: &str) -> (r: String)
    ensures
        r@ == before@ + after@,
{
    let mut r = owned(before);
    append_str(&mut r, after);
    r
}

fn text_around(before: &str, middle: &str, after: &str) -> (r: String)
    ensures
        r@ == before@ + middle@ + after@,
{
    let mut r = owned(before);
    append_str(&mut r, middle);
    append_str(&mut r, after);
    r
}

impl PatcherError {
    /// The text shown to the user for this error.
    pub fn message(&self) -> (m: String)
        ensures
            m@ == error_message(self@),
    {
        match self {
            PatcherError::EmptyPatchTarget => owned(
                "패치 실행 대상이 비어 있습니다.\n지원 형식: astral://patch/<TARGET>\nTARGET: INT_STEAM, CN_BILIBILI",
            ),
            PatcherError::UnsupportedPatchTarget(t) => text_around(
                "지원하지 않는 패치 대상입니다.\n",
                t.as_str(),
                "\n지원 대상: INT_STEAM, CN_BILIBILI",
            ),
            PatcherError::MissingResumeTarget => owned(
                "재개 패치 실행 인자에 대상(route)이 없습니다.\n지원 형식: --resume-patch <TARGET>",
            ),
            PatcherError::InvalidProtocolRoute(a) => text_around(
                "잘못된 프로토콜 실행 경로입니다.\n",
                a.as_str(),
                "\n지원 형식: astral://patch/<TARGET> 또는 astral://remove/<TARGET>\nTARGET: INT_STEAM, CN_BILIBILI",
            ),
            PatcherError::UnsupportedTarget(t) => {
                text_then("현재 지원하지 않는 대상입니다.\n", t.as_str())
            },
            PatcherError::NoAssetBundleRootIds(u) => text_then("제거 규칙에서 AssetBundles 대상 root_id를 찾지 못했습니다.\n", u.as_str()),
            PatcherError::GameInstallDirNotFound(p) => {
                let list = bullet_list(p);
                text_then("Astral Party 설치 경로를 찾지 못했습니다.\n[확인 대상]\n", list.as_str())
            },
            PatcherError::PatchAssetNotFound(t) => text_then(t.as_str(), "에 해당하는 패치 ZIP 에셋을 찾지 못했습니다."),
            PatcherError::AssetBundlesNotExtracted(r) => text_then("압축 해제 결과에서 AssetBundles 폴더를 찾지 못했습니다.\n", r.as_str()),
            PatcherError::StandaloneNotExtracted(r) => text_then("압축 해제 결과에서 StandaloneWindows64 폴더를 찾지 못했습니다.\n", r.as_str()),
            PatcherError::PathNotFound(p) => text_then("경로가 존재하지 않습니다.\n", p.as_str()),
            PatcherError::BilibiliGameDirNotFound(p) => text_then("bilibili Astral Party 설치 경로를 찾지 못했습니다.\n[확인] ", p.as_str()),
            PatcherError::BilibiliGameRootMissing(p) => text_then("레지스트리에 등록된 bilibili 게임 경로가 존재하지 않습니다.\n", p.as_str()),
        }
    }
}

} // verus!
