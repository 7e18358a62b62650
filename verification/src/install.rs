//! Installing the patcher itself: relaunch arguments, the `astral://`
//! protocol registration, the clean-up of the downloaded executable and of
//! the first version's leftovers, and the details shown for each.
use vstd::prelude::*;
use crate::removal::{
    failed_among, lemma_outcomes_partition, missing_among, outcome_models, removed_among, sort_outcomes,
    DeletionOutcome,
};
use crate::report::{bullet_list, bullet_list_seq};
use crate::text::{append_str, chars_of, decimal_seq, decimal_string, join, join_seq, owned, push_char};

verus! {

/// The arguments that make a relaunched patcher resume: the patch of the
/// target, or the install.
pub fn resume_args(patch_target: Option<&str>) -> (args: Vec<String>)
    ensures
        patch_target matches Some(t) ==> args.deep_view() == seq!["--resume-patch"@, t@],
        patch_target is None ==> args.deep_view() == seq!["--resume-install"@],
{
    let mut args: Vec<String> = Vec::new();
    match patch_target {
        Some(t) => {
            args.push(owned("--resume-patch"));
            args.push(owned(t));
            assert(args.deep_view() =~= seq!["--resume-patch"@, t@]);
        },
        None => {
            args.push(owned("--resume-install"));
            assert(args.deep_view() =~= seq!["--resume-install"@]);
        },
    }
    args
}

/// The command registered for `astral://` links: the executable, then the link.
pub fn protocol_command(exe_path: &str) -> (c: String)
    ensures
        c@ == "\""@ + exe_path@ + "\" \"%1\""@,
{
    let mut c = owned("\"");
    append_str(&mut c, exe_path);
    append_str(&mut c, "\" \"%1\"");
    c
}

/// The icon registered for `astral://` links.
pub fn protocol_icon(exe_path: &str) -> (c: String)
    ensures
        c@ == "\""@ + exe_path@ + "\",1"@,
{
    let mut c = owned("\"");
    append_str(&mut c, exe_path);
    append_str(&mut c, "\",1");
    c
}

/// The detail shown once the protocol is registered.
pub fn protocol_registration_detail(command: &str) -> (d: String)
    ensures
        d@ == "[HKCU\\Software\\Classes\\astral]\n"@ + command@,
{
    let mut d = owned("[HKCU\\Software\\Classes\\astral]\n");
    append_str(&mut d, command);
    d
}

/// `"` written as PowerShell's escaped quote.
pub open spec fn escape_quotes(s: Seq<char>) -> Seq<char>
    decreases s.len(),
{
    if s.len() == 0 {
        Seq::empty()
    } else {
        escape_quotes(s.drop_last()) + if s.last() == '"' {
            seq!['`', '"']
        } else {
            seq![s.last()]
        }
    }
}

/// The PowerShell script that keeps trying to delete the file for five minutes.
pub open spec fn deferred_delete_script_spec(path: Seq<char>) -> Seq<char> {
    "$p=\""@ + escape_quotes(path)
        + "\"; for($i=0; $i -lt 600; $i++) { try { Remove-Item -LiteralPath $p -Force -ErrorAction Stop; break } catch { Start-Sleep -Milliseconds 500 } }"@
}

/// The script that deletes a file once it is no longer in use.
pub fn deferred_delete_script(path: &str) -> (script: String)
    ensures
        script@ == deferred_delete_script_spec(path@),
{
    let v = chars_of(path);
    let mut script = owned("$p=\"");
    let ghost prefix = script@;
    let mut i: usize = 0;
    while i < v.len()
        invariant
            i <= v.len(),
            script@ == prefix + escape_quotes(v@.take(i as int)),
        decreases v.len() - i,
    {
        assert(v@.take(i + 1).drop_last() =~= v@.take(i as int));
        if v[i] == '"' {
            push_char(&mut script, '`');
            push_char(&mut script, '"');
        } else {
            push_char(&mut script, v[i]);
        }
        i += 1;
        assert(script@ =~= prefix + escape_quotes(v@.take(i as int)));
    }
    assert(v@.take(i as int) =~= v@);
    append_str(
        &mut script,
        "\"; for($i=0; $i -lt 600; $i++) { try { Remove-Item -LiteralPath $p -Force -ErrorAction Stop; break } catch { Start-Sleep -Milliseconds 500 } }",
    );
    script
}

/// What became of the downloaded executable after the install copied it.
pub enum SourceCleanup {
    /// The program already ran from the install path.
    SameFile,
    /// It was deleted.
    Removed,
    /// It was already gone.
    AlreadyGone,
    /// Deleting it was denied and a deferred deletion was scheduled.
    Scheduled,
    /// Deleting it was denied and no deferred deletion could be scheduled.
    ScheduleFailed,
    /// Deleting it failed otherwise.
    RemoveFailed,
}

pub open spec fn source_cleanup_note_spec(outcome: SourceCleanup) -> Seq<char> {
    match outcome {
        SourceCleanup::SameFile => "원본 실행 파일 정리 단계는 건너뛰었습니다."@,
        SourceCleanup::Removed => "다운로드 폴더의 원본 실행 파일을 삭제했습니다."@,
        SourceCleanup::AlreadyGone => "원본 실행 파일이 이미 없어 정리할 파일이 없습니다."@,
        SourceCleanup::Scheduled => ""@,
        SourceCleanup::ScheduleFailed => "원본 실행 파일 삭제 권한이 없어 자동 정리를 예약하지 못했습니다."@,
        SourceCleanup::RemoveFailed => "원본 실행 파일 삭제에 실패했습니다. 수동으로 삭제해 주세요."@,
    }
}

/// The note on what became of the downloaded executable.
pub fn source_cleanup_note(outcome: SourceCleanup) -> (note: String)
    ensures
        note@ == source_cleanup_note_spec(outcome),
{
    match outcome {
        SourceCleanup::SameFile => owned("원본 실행 파일 정리 단계는 건너뛰었습니다."),
        SourceCleanup::Removed => owned("다운로드 폴더의 원본 실행 파일을 삭제했습니다."),
        SourceCleanup::AlreadyGone => owned("원본 실행 파일이 이미 없어 정리할 파일이 없습니다."),
        SourceCleanup::Scheduled => owned(""),
        SourceCleanup::ScheduleFailed => owned(
            "원본 실행 파일 삭제 권한이 없어 자동 정리를 예약하지 못했습니다.",
        ),
        SourceCleanup::RemoveFailed => owned("원본 실행 파일 삭제에 실패했습니다. 수동으로 삭제해 주세요."),
    }
}

/// The detail shown when the program already runs from the install directory.
pub fn already_installed_detail(install_dir: &str) -> (d: String)
    ensures
        d@ == "프로그램이 이미 설치 경로에서 실행 중입니다.\n"@ + install_dir@,
{
    let mut d = owned("프로그램이 이미 설치 경로에서 실행 중입니다.\n");
    append_str(&mut d, install_dir);
    d
}

pub open spec fn installed_detail_spec(installed_exe: Seq<char>, cleanup_note: Seq<char>, replaced_in_place: bool) -> Seq<char> {
    if replaced_in_place {
        "프로그램을 최신 버전으로 업데이트했습니다.\n"@ + installed_exe + "\n"@ + cleanup_note
    } else {
        installed_exe + "\n"@ + cleanup_note
    }
}

/// The detail shown once the executable is installed; `replaced_in_place` when
/// it ran from the install directory under another name, i.e. an update.
pub fn installed_detail(installed_exe: &str, cleanup_note: &str, replaced_in_place: bool) -> (d: String)
    ensures
        d@ == installed_detail_spec(installed_exe@, cleanup_note@, replaced_in_place),
{
    let mut d = if replaced_in_place {
        owned("프로그램을 최신 버전으로 업데이트했습니다.\n")
    } else {
        String::new()
    };
    let ghost start = d@;
    append_str(&mut d, installed_exe);
    append_str(&mut d, "\n");
    append_str(&mut d, cleanup_note);
    proof {
        if !replaced_in_place {
            assert(start + installed_exe@ + "\n"@ + cleanup_note@ =~= installed_exe@ + "\n"@ + cleanup_note@);
        }
    }
    d
}

/// A first-version executable that could not be deleted.
pub struct FailedRemoval {
    pub path: String,
    pub error: String,
}

/// What became of the first version's executables.
pub enum LegacyExeCleanup {
    /// The Steam libraries were searched: what was deleted, what was not
    /// there, and what could not be deleted.
    Searched { removed: Vec<String>, not_found: Vec<String>, failed: Vec<FailedRemoval> },
    /// The Steam install was not found (with the reason).
    SteamNotFound(String),
}

/// What became of the first version's `HKEY_CLASSES_ROOT\astral` key.
pub enum LegacyRegistryCleanup {
    Deleted,
    DeleteFailed(String),
    Absent,
    CheckFailed(String),
}

pub open spec fn failed_lines(failed: Seq<(Seq<char>, Seq<char>)>) -> Seq<char> {
    if failed.len() == 0 {
        "-"@
    } else {
        join_seq(Seq::new(failed.len(), |i: int| "- "@ + failed[i].0 + " ("@ + failed[i].1 + ")"@), "\n"@)
    }
}

pub open spec fn failed_model(failed: Seq<FailedRemoval>) -> Seq<(Seq<char>, Seq<char>)> {
    Seq::new(failed.len(), |i: int| (failed[i].path@, failed[i].error@))
}

pub open spec fn legacy_exe_report(exes: LegacyExeCleanup) -> Seq<char> {
    match exes {
        LegacyExeCleanup::Searched { removed, not_found, failed } => "[v1 실행 파일]\n삭제 완료 "@
            + decimal_seq(removed@.len()) + "개\n"@ + bullet_list_seq(removed.deep_view()) + "\n미존재 "@
            + decimal_seq(not_found@.len()) + "개\n"@ + bullet_list_seq(not_found.deep_view())
            + "\n삭제 실패 "@ + decimal_seq(failed@.len()) + "개\n"@ + failed_lines(failed_model(failed@)),
        LegacyExeCleanup::SteamNotFound(reason) => "[v1 실행 파일]\nSteam 경로를 찾지 못해 건너뜀\n"@ + reason@,
    }
}

pub open spec fn legacy_registry_report(registry: LegacyRegistryCleanup) -> Seq<char> {
    match registry {
        LegacyRegistryCleanup::Deleted => "[HKEY_CLASSES_ROOT\\astral]\n삭제 완료"@,
        LegacyRegistryCleanup::DeleteFailed(e) => "[HKEY_CLASSES_ROOT\\astral]\n삭제 실패\n"@ + e@,
        LegacyRegistryCleanup::Absent => "[HKEY_CLASSES_ROOT\\astral]\n대상이 없어 건너뜀"@,
        LegacyRegistryCleanup::CheckFailed(e) => "[HKEY_CLASSES_ROOT\\astral]\n확인 실패\n"@ + e@,
    }
}

/// Sorts what became of each first-version executable, path by path: the
/// deleted, the missing and the failed paths, each list in the order of the
/// paths, and together as many as the paths.
pub fn sort_legacy_outcomes(paths: &Vec<String>, outcomes: &Vec<DeletionOutcome>) -> (r: LegacyExeCleanup)
    requires
        outcomes.len() == paths.len(),
    ensures
        r matches LegacyExeCleanup::Searched { removed, not_found, failed } && removed.deep_view()
            == removed_among(paths.deep_view(), outcome_models(outcomes@), paths.len() as nat)
            && not_found.deep_view() == missing_among(
            paths.deep_view(),
            outcome_models(outcomes@),
            paths.len() as nat,
        ) && failed_model(failed@) == failed_among(
            paths.deep_view(),
            outcome_models(outcomes@),
            paths.len() as nat,
        ) && removed.len() + not_found.len() + failed.len() == paths.len(),
{
    let (removed, not_found, pairs) = sort_outcomes(paths, outcomes, paths.len());
    let ghost want = Seq::new(pairs@.len(), |i: int| (pairs@[i].0@, pairs@[i].1@));
    let mut failed: Vec<FailedRemoval> = Vec::new();
    let mut i: usize = 0;
    while i < pairs.len()
        invariant
            i <= pairs.len(),
            want == Seq::new(pairs@.len(), |k: int| (pairs@[k].0@, pairs@[k].1@)),
            failed_model(failed@) == want.take(i as int),
        decreases pairs.len() - i,
    {
        let ghost before = failed_model(failed@);
        failed.push(FailedRemoval { path: pairs[i].0.clone(), error: pairs[i].1.clone() });
        assert(failed_model(failed@) =~= before.push(want[i as int]));
        i += 1;
        assert(want.take(i as int) =~= before.push(want[i - 1]));
    }
    assert(want.take(i as int) =~= want);
    proof {
        lemma_outcomes_partition(paths.deep_view(), outcome_models(outcomes@), paths.len() as nat);
    }
    LegacyExeCleanup::Searched { removed, not_found, failed }
}

fn failed_report(failed: &Vec<FailedRemoval>) -> (r: String)
    ensures
        r@ == failed_lines(failed_model(failed@)),
{
    if failed.len() == 0 {
        return owned("-");
    }
    let ghost fm = failed_model(failed@);
    let ghost want = Seq::new(fm.len(), |i: int| "- "@ + fm[i].0 + " ("@ + fm[i].1 + ")"@);
    let mut lines: Vec<String> = Vec::new();
    let mut i: usize = 0;
    while i < failed.len()
        invariant
            i <= failed.len(),
            fm == failed_model(failed@),
            want == Seq::new(fm.len(), |i: int| "- "@ + fm[i].0 + " ("@ + fm[i].1 + ")"@),
            lines@.len() == i,
            lines.deep_view() == want.take(i as int),
        decreases failed.len() - i,
    {
        let mut line = owned("- ");
        append_str(&mut line, failed[i].path.as_str());
        append_str(&mut line, " (");
        append_str(&mut line, failed[i].error.as_str());
        append_str(&mut line, ")");
        let ghost before = lines@;
        let ghost lv = line@;
        assert(lv == want[i as int]);
        lines.push(line);
        proof {
            assert forall|j: int| 0 <= j < i + 1 implies lines.deep_view()[j] == want[j] by {
                assert(lines.deep_view()[j] == lines@[j]@);
                if j < i {
                    assert(lines@[j] == before[j]);
                    assert(before[j]@ == want.take(i as int)[j]);
                }
            }
        }
        i += 1;
        assert(lines.deep_view() =~= want.take(i as int));
    }
    assert(want.take(i as int) =~= want);
    join(&lines, "\n")
}

fn legacy_exe_section(exes: &LegacyExeCleanup) -> (r: String)
    ensures
        r@ == legacy_exe_report(*exes),
{
    match exes {
        LegacyExeCleanup::Searched { removed, not_found, failed } => {
            let mut r = owned("[v1 실행 파일]\n삭제 완료 ");
            let n = decimal_string(removed.len() as u64);
            append_str(&mut r, n.as_str());
            append_str(&mut r, "개\n");
            let l = bullet_list(removed);
            append_str(&mut r, l.as_str());
            append_str(&mut r, "\n미존재 ");
            let n2 = decimal_string(not_found.len() as u64);
            append_str(&mut r, n2.as_str());
            append_str(&mut r, "개\n");
            let l2 = bullet_list(not_found);
            append_str(&mut r, l2.as_str());
            append_str(&mut r, "\n삭제 실패 ");
            let n3 = decimal_string(failed.len() as u64);
            append_str(&mut r, n3.as_str());
            append_str(&mut r, "개\n");
            let f = failed_report(failed);
            append_str(&mut r, f.as_str());
            r
        },
        LegacyExeCleanup::SteamNotFound(reason) => {
            let mut r = owned("[v1 실행 파일]\nSteam 경로를 찾지 못해 건너뜀\n");
            append_str(&mut r, reason.as_str());
            r
        },
    }
}

fn legacy_registry_section(registry: &LegacyRegistryCleanup) -> (r: String)
    ensures
        r@ == legacy_registry_report(*registry),
{
    match registry {
        LegacyRegistryCleanup::Deleted => owned("[HKEY_CLASSES_ROOT\\astral]\n삭제 완료"),
        LegacyRegistryCleanup::DeleteFailed(e) => {
            let mut r = owned("[HKEY_CLASSES_ROOT\\astral]\n삭제 실패\n");
            append_str(&mut r, e.as_str());
            r
        },
        LegacyRegistryCleanup::Absent => owned("[HKEY_CLASSES_ROOT\\astral]\n대상이 없어 건너뜀"),
        LegacyRegistryCleanup::CheckFailed(e) => {
            let mut r = owned("[HKEY_CLASSES_ROOT\\astral]\n확인 실패\n");
            append_str(&mut r, e.as_str());
            r
        },
    }
}

/// The report on the clean-up of the first version: its executables, then its
/// registry key, separated by a blank line.
pub fn cleanup_legacy_v1_artifacts(exes: &LegacyExeCleanup, registry: &LegacyRegistryCleanup) -> (r: String)
    ensures
        r@ == legacy_exe_report(*exes) + "\n\n"@ + legacy_registry_report(*registry),
{
    let mut r = legacy_exe_section(exes);
    append_str(&mut r, "\n\n");
    let g = legacy_registry_section(registry);
    append_str(&mut r, g.as_str());
    r
}

} // verus!
