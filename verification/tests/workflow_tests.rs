use astral_auto_patcher::workflow::{Action, Outcome, SelfUpdatePlan, Task, TaskValue, Workflow};

/// Runs a workflow, answering tasks with `answer`, and returns the sent events
/// as (step, state, message, detail, progress) and the final result.
fn run(
    mut w: Workflow,
    mut answer: impl FnMut(&Task) -> Outcome,
) -> (Vec<(usize, String, String, Option<String>, u8)>, Vec<String>, Result<(), String>) {
    let mut events = Vec::new();
    let mut other = Vec::new();
    let mut outcome = Outcome::Begin;
    loop {
        assert!(w.accepts(&outcome));
        match w.step(outcome) {
            Action::Emit(e) => {
                events.push((e.step_index, e.state.clone(), e.message.clone(), e.detail.clone(), e.progress));
                outcome = Outcome::Emitted(Ok(()));
            }
            Action::Run(t) => outcome = answer(&t),
            Action::Relaunch { exe_path, resume_target } => {
                other.push(format!("relaunch {exe_path} {resume_target:?}"));
                outcome = Outcome::Relaunched(Ok(()));
            }
            Action::Sleep => {
                other.push("sleep".to_string());
                outcome = Outcome::Slept;
            }
            Action::Exit { log_message } => {
                other.push(log_message);
                outcome = Outcome::Exited;
            }
            Action::Finish(r) => {
                assert!(w.is_finished());
                return (events, other, r);
            }
        }
    }
}

fn text(s: &str) -> Outcome {
    Outcome::Done(Ok(TaskValue::Text(s.to_string())))
}

#[test]
fn patch_workflow_runs_all_steps() {
    let w = Workflow::patch("INT_STEAM".to_string(), "2.0.0".to_string());
    let (events, other, result) = run(w, |t| match t {
        Task::CheckSelfUpdate => Outcome::Checked(Ok(None)),
        Task::FindGameDir { target } => {
            assert_eq!(target, "INT_STEAM");
            text("G")
        }
        Task::FindLocalFeimo { .. } => text("L"),
        Task::PrepareBundle { .. } => Outcome::Done(Ok(TaskValue::Prepared {
            release_tag: "1.0-pre".to_string(),
            asset_name: "a.zip".to_string(),
            extract_dir: "X".to_string(),
        })),
        Task::ApplyBundle { extract_dir, game_dir, local_feimo_dir, .. } => {
            assert_eq!((extract_dir.as_str(), game_dir.as_str(), local_feimo_dir.as_str()), ("X", "G", "L"));
            text("applied")
        }
        _ => panic!("unexpected task"),
    });
    assert_eq!(result, Ok(()));
    assert_eq!(events[0], (1, "current".to_string(), "프로그램 버전을 확인하는 중...".to_string(), None, 0));
    assert_eq!(
        events[1],
        (1, "done".to_string(), "프로그램 버전 확인 완료".to_string(), Some("v2.0.0".to_string()), 10)
    );
    assert_eq!(events[3].3, Some("G".to_string()));
    assert_eq!(
        events[7].3,
        Some("[버전] 1.0-pre\n[파일] a.zip\n⚠ Pre-release 버전에서는 일부 번역되지 않은 요소가 존재할 수 있습니다.".to_string())
    );
    assert_eq!(events[10], (6, "current".to_string(), "마무리 작업을 진행하는 중...".to_string(), None, 95));
    assert_eq!(events.len(), 21);
    assert_eq!(
        events[11],
        (6, "done".to_string(), "작업 완료".to_string(), Some("10초 후 프로그램이 자동으로 종료됩니다.".to_string()), 100)
    );
    assert_eq!(events[20].3, Some("1초 후 프로그램이 자동으로 종료됩니다.".to_string()));
    assert_eq!(other.iter().filter(|o| o.as_str() == "sleep").count(), 10);
    assert_eq!(other.last().unwrap(), "패치 작업이 완료되어 10초 후 프로그램을 자동 종료합니다.");
    for pair in events.windows(2) {
        assert!(pair[0].4 <= pair[1].4);
        assert!(pair[0].0 <= pair[1].0);
    }
}

#[test]
fn failed_step_reports_error_and_stops() {
    let w = Workflow::patch("CN_BILIBILI".to_string(), "2.0.0".to_string());
    let (events, _, result) = run(w, |t| match t {
        Task::CheckSelfUpdate => Outcome::Checked(Ok(None)),
        Task::FindGameDir { .. } => Outcome::Done(Err("no game".to_string())),
        _ => panic!("unexpected task"),
    });
    assert_eq!(result, Err("no game".to_string()));
    let last = events.last().unwrap();
    assert_eq!(last, &(2, "error".to_string(), "게임 설치 경로 확인 실패".to_string(), Some("no game".to_string()), 10));
}

#[test]
fn self_update_check_failure_stops_without_event() {
    let w = Workflow::install("2.0.0".to_string());
    let (events, _, result) = run(w, |_| Outcome::Checked(Err("temp".to_string())));
    assert_eq!(result, Err("temp".to_string()));
    assert_eq!(events.len(), 1);
}

#[test]
fn update_relaunches_and_resumes_the_patch() {
    let w = Workflow::patch("INT_STEAM".to_string(), "2.0.0".to_string());
    let (events, other, result) = run(w, |_| {
        Outcome::Checked(Ok(Some(SelfUpdatePlan { latest_version: "2.1.0".to_string(), exe_path: "N.exe".to_string() })))
    });
    assert_eq!(result, Ok(()));
    assert_eq!(
        events[1],
        (
            1,
            "done".to_string(),
            "신규 버전을 확인해 업데이트를 시작합니다.".to_string(),
            Some("v2.0.0 -> v2.1.0\n새 버전 실행 후 패치 작업(INT_STEAM)을 이어갑니다.".to_string()),
            10
        )
    );
    assert_eq!(other, vec!["relaunch N.exe Some(\"INT_STEAM\")".to_string()]);
}

#[test]
fn install_workflow() {
    let w = Workflow::install("2.0.0".to_string());
    let (events, other, result) = run(w, |t| match t {
        Task::CheckSelfUpdate => Outcome::Checked(Ok(None)),
        Task::CleanupLegacy => text("legacy"),
        Task::RelocateRuntime => Outcome::Done(Ok(TaskValue::Relocated {
            exe_path: "C:\\P\\a.exe".to_string(),
            detail: "installed".to_string(),
        })),
        Task::RegisterProtocol { exe_path } => {
            assert_eq!(exe_path, "C:\\P\\a.exe");
            text("registered")
        }
        _ => panic!("unexpected task"),
    });
    assert_eq!(result, Ok(()));
    assert!(other.is_empty());
    assert_eq!(events.len(), 10);
    assert_eq!(
        events[9],
        (
            5,
            "done".to_string(),
            "프로그램 실행 준비 완료".to_string(),
            Some("astral.maynutlab.com에 접속해 자동 패치를 진행할 수 있습니다.".to_string()),
            100
        )
    );
    assert_eq!(events[1].4, 20);
    assert_eq!(events[3], (2, "done".to_string(), "구버전 프로그램 정리 완료".to_string(), Some("legacy".to_string()), 35));
}

#[test]
fn install_update_relaunches_the_install() {
    let w = Workflow::install("2.0.0".to_string());
    let (events, other, _) = run(w, |_| {
        Outcome::Checked(Ok(Some(SelfUpdatePlan { latest_version: "3.0.0".to_string(), exe_path: "N.exe".to_string() })))
    });
    assert_eq!(events[1].2, "신규 버전 확인. 업데이트를 시작합니다.");
    assert_eq!(events[1].3, Some("v2.0.0 -> v3.0.0\n프로그램을 신규 버전으로 재시작합니다.".to_string()));
    assert_eq!(events[1].4, 20);
    assert_eq!(other, vec!["relaunch N.exe None".to_string()]);
}

#[test]
fn remove_workflow_counts_down_with_the_report() {
    let w = Workflow::remove("INT_STEAM".to_string());
    let (events, other, result) = run(w, |t| match t {
        Task::FindLocalFeimo { .. } => text("L"),
        Task::FetchRootIds { .. } => Outcome::Done(Ok(TaskValue::RootIds(vec!["a".to_string(), "b".to_string()]))),
        Task::RemoveRoots { local_feimo_dir, root_ids } => {
            assert_eq!(local_feimo_dir, "L");
            assert_eq!(root_ids, &vec!["a".to_string(), "b".to_string()]);
            text("report")
        }
        _ => panic!("unexpected task"),
    });
    assert_eq!(result, Ok(()));
    assert_eq!(events[3].3, Some("AssetBundles 대상 root_id 2개".to_string()));
    assert_eq!(events[7].3, Some("report\n\n10초 후 프로그램이 자동으로 종료됩니다.".to_string()));
    assert_eq!(events[7].2, "제거 모드 완료");
    assert_eq!(other.last().unwrap(), "제거 작업이 완료되어 10초 후 프로그램을 자동 종료합니다.");
}

#[test]
fn failed_send_ends_the_workflow() {
    let mut w = Workflow::remove("INT_STEAM".to_string());
    assert!(matches!(w.step(Outcome::Begin), Action::Emit(_)));
    match w.step(Outcome::Emitted(Err("send".to_string()))) {
        Action::Finish(r) => assert_eq!(r, Err("send".to_string())),
        _ => panic!("expected the end"),
    }
    assert!(w.is_finished());
    assert!(!w.accepts(&Outcome::Begin));
}

#[test]
fn mismatched_outcome_is_not_accepted() {
    let mut w = Workflow::remove("INT_STEAM".to_string());
    assert!(!w.accepts(&Outcome::Slept));
    w.step(Outcome::Begin);
    w.step(Outcome::Emitted(Ok(())));
    assert!(!w.accepts(&Outcome::Done(Ok(TaskValue::RootIds(Vec::new())))));
    assert!(w.accepts(&Outcome::Done(Ok(TaskValue::Text("L".to_string())))));
}
