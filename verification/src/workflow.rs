//! The install, patch and remove workflows as a state machine: the runner
//! performs each action (sending a progress event, doing a task, sleeping,
//! relaunching, exiting) and hands back its outcome; the machine decides the
//! next action.
use vstd::prelude::*;
use crate::release::{prepared_patch_detail, prepared_patch_detail_spec};
use crate::text::{append_str, decimal_seq, decimal_string, owned};

verus! {

/// Which workflow runs.
#[derive(Clone, Copy, PartialEq, Eq, Structural)]
pub enum WorkflowKind {
    Install,
    Patch,
    Remove,
}

/// Where the machine stands within the current step.
#[derive(Clone, Copy, PartialEq, Eq, Structural)]
pub enum Phase {
    /// Nothing sent yet.
    Start,
    /// The step's "current" event was sent.
    Announced,
    /// The step's task was handed out.
    Working,
    /// The step's "done" event was sent.
    Concluding,
    /// The step's "error" event was sent; the workflow fails next.
    Failing,
    /// The update notice was sent; the relaunch comes next.
    Updating,
    /// The relaunch was handed out.
    Relaunching,
    /// A countdown event was sent.
    Counting,
    /// A one-second pause was handed out.
    Sleeping,
    /// The exit was handed out.
    Exiting,
    /// The workflow is over.
    Finished,
}

/// A progress event for the user interface.
pub struct PatchEvent {
    pub step_index: usize,
    pub title: String,
    pub state: String,
    pub message: String,
    pub detail: Option<String>,
    pub progress: u8,
}

/// Outside work that a step needs.
pub enum Task {
    CheckSelfUpdate,
    CleanupLegacy,
    RelocateRuntime,
    RegisterProtocol { exe_path: String },
    FindGameDir { target: String },
    FindLocalFeimo { target: String },
    PrepareBundle { target: String },
    ApplyBundle { target: String, extract_dir: String, game_dir: String, local_feimo_dir: String },
    FetchRootIds { target: String },
    RemoveRoots { local_feimo_dir: String, root_ids: Vec<String> },
}

/// What the runner does next.
pub enum Action {
    /// Send the event (and log it).
    Emit(PatchEvent),
    /// Do the task.
    Run(Task),
    /// Start the updated executable, resuming the given patch target (or the install).
    Relaunch { exe_path: String, resume_target: Option<String> },
    /// Wait one second.
    Sleep,
    /// Log the message and end the program.
    Exit { log_message: String },
    /// The workflow is over with this result.
    Finish(Result<(), String>),
}

/// A newer release that was downloaded.
pub struct SelfUpdatePlan {
    pub latest_version: String,
    pub exe_path: String,
}

/// What a task produced.
pub enum TaskValue {
    /// A text: a detail to show, or a path that was found.
    Text(String),
    /// The installed executable and the detail to show.
    Relocated { exe_path: String, detail: String },
    /// The prepared patch archive.
    Prepared { release_tag: String, asset_name: String, extract_dir: String },
    /// The root ids to remove.
    RootIds(Vec<String>),
}

/// What the runner hands back after an action.
pub enum Outcome {
    /// The workflow starts.
    Begin,
    /// An event was sent, or failed to be.
    Emitted(Result<(), String>),
    /// The self-update check ended.
    Checked(Result<Option<SelfUpdatePlan>, String>),
    /// A task ended.
    Done(Result<TaskValue, String>),
    /// The relaunch ended.
    Relaunched(Result<(), String>),
    /// The pause ended.
    Slept,
    /// The exit was performed.
    Exited,
}

/// One step of a workflow: `step_index`, title, the messages of its three
/// states and its progress when it starts and when it is done.
pub struct StageText {
    pub title: &'static str,
    pub current: &'static str,
    pub done: &'static str,
    pub error: &'static str,
    pub start: u8,
    pub end: u8,
}

pub struct StageModel {
    pub title: Seq<char>,
    pub current: Seq<char>,
    pub done: Seq<char>,
    pub error: Seq<char>,
    pub start: u8,
    pub end: u8,
}

impl View for StageText {
    type V = StageModel;

    open spec fn view(&self) -> StageModel {
        StageModel {
            title: self.title@,
            current: self.current@,
            done: self.done@,
            error: self.error@,
            start: self.start,
            end: self.end,
        }
    }
}

pub open spec fn stage_model(title: &str, current: &str, done: &str, error: &str, start: u8, end: u8) -> StageModel {
    StageModel { title: title@, current: current@, done: done@, error: error@, start, end }
}

/// The number of steps of a workflow; the last one is the closing step.
pub open spec fn stage_count(kind: WorkflowKind) -> nat {
    match kind {
        WorkflowKind::Install => 5,
        WorkflowKind::Patch => 6,
        WorkflowKind::Remove => 4,
    }
}

/// The texts and progress of each step.
pub open spec fn stage_spec(kind: WorkflowKind, stage: nat) -> StageModel {
    match kind {
        WorkflowKind::Install => if stage == 1 {
            stage_model("프로그램 버전 확인", "프로그램 버전을 확인하는 중...", "프로그램 버전 확인 완료", "", 0, 20)
        } else if stage == 2 {
            stage_model("레거시 데이터 정리", "구버전 프로그램을 정리하는 중...", "구버전 프로그램 정리 완료", "", 20, 35)
        } else if stage == 3 {
            stage_model("프로그램 설치", "프로그램을 설치하는 중...", "프로그램 설치 완료", "프로그램 설치 실패", 35, 70)
        } else if stage == 4 {
            stage_model("연결 프로토콜 등록", "연결 프로토콜을 등록하는 중...", "연결 프로토콜 등록 완료", "연결 프로토콜 등록 실패", 70, 90)
        } else {
            stage_model("결과", "마무리 작업을 진행하는 중...", "프로그램 실행 준비 완료", "", 90, 100)
        },
        WorkflowKind::Patch => if stage == 1 {
            stage_model("프로그램 버전 확인", "프로그램 버전을 확인하는 중...", "프로그램 버전 확인 완료", "", 0, 10)
        } else if stage == 2 {
            stage_model("게임 설치 경로 확인", "게임 설치 경로를 확인하는 중...", "게임 설치 경로 확인 완료", "게임 설치 경로 확인 실패", 10, 30)
        } else if stage == 3 {
            stage_model("로컬 다운로드 경로 확인", "로컬 다운로드 경로를 확인하는 중...", "로컬 다운로드 경로 확인 완료", "로컬 다운로드 경로 확인 실패", 30, 45)
        } else if stage == 4 {
            stage_model("한글 패치 파일 준비", "한글 패치 파일 다운로드 중...", "한글 패치 파일 준비 완료", "한글 패치 파일 준비 실패", 45, 70)
        } else if stage == 5 {
            stage_model("한글 패치 적용", "한글 패치를 적용하는 중...", "한글 패치 적용 완료", "한글 패치 적용 실패", 70, 95)
        } else {
            stage_model("결과", "마무리 작업을 진행하는 중...", "작업 완료", "", 95, 100)
        },
        WorkflowKind::Remove => if stage == 1 {
            stage_model("로컬 다운로드 경로 확인", "로컬 다운로드 경로를 확인하는 중...", "로컬 다운로드 경로 확인 완료", "로컬 다운로드 경로 확인 실패", 0, 30)
        } else if stage == 2 {
            stage_model("제거 규칙 조회", "제거 대상 규칙을 조회하는 중...", "제거 규칙 조회 완료", "제거 규칙 조회 실패", 30, 55)
        } else if stage == 3 {
            stage_model("한글 패치 제거", "설치된 한글 패치 데이터를 제거하는 중...", "한글 패치 제거 완료", "한글 패치 제거 실패", 55, 90)
        } else {
            stage_model("결과", "마무리 작업을 진행하는 중...", "제거 모드 완료", "", 90, 100)
        },
    }
}

/// The texts and progress of a step.
pub fn stage_text(kind: WorkflowKind, stage: usize) -> (t: StageText)
    ensures
        t@ == stage_spec(kind, stage as nat),
{
    let (title, current, done, error, start, end): (&'static str, &'static str, &'static str, &'static str, u8, u8) =
        match kind {
        WorkflowKind::Install => if stage == 1 {
            ("프로그램 버전 확인", "프로그램 버전을 확인하는 중...", "프로그램 버전 확인 완료", "", 0, 20)
        } else if stage == 2 {
            ("레거시 데이터 정리", "구버전 프로그램을 정리하는 중...", "구버전 프로그램 정리 완료", "", 20, 35)
        } else if stage == 3 {
            ("프로그램 설치", "프로그램을 설치하는 중...", "프로그램 설치 완료", "프로그램 설치 실패", 35, 70)
        } else if stage == 4 {
            ("연결 프로토콜 등록", "연결 프로토콜을 등록하는 중...", "연결 프로토콜 등록 완료", "연결 프로토콜 등록 실패", 70, 90)
        } else {
            ("결과", "마무리 작업을 진행하는 중...", "프로그램 실행 준비 완료", "", 90, 100)
        },
        WorkflowKind::Patch => if stage == 1 {
            ("프로그램 버전 확인", "프로그램 버전을 확인하는 중...", "프로그램 버전 확인 완료", "", 0, 10)
        } else if stage == 2 {
            ("게임 설치 경로 확인", "게임 설치 경로를 확인하는 중...", "게임 설치 경로 확인 완료", "게임 설치 경로 확인 실패", 10, 30)
        } else if stage == 3 {
            ("로컬 다운로드 경로 확인", "로컬 다운로드 경로를 확인하는 중...", "로컬 다운로드 경로 확인 완료", "로컬 다운로드 경로 확인 실패", 30, 45)
        } else if stage == 4 {
            ("한글 패치 파일 준비", "한글 패치 파일 다운로드 중...", "한글 패치 파일 준비 완료", "한글 패치 파일 준비 실패", 45, 70)
        } else if stage == 5 {
            ("한글 패치 적용", "한글 패치를 적용하는 중...", "한글 패치 적용 완료", "한글 패치 적용 실패", 70, 95)
        } else {
            ("결과", "마무리 작업을 진행하는 중...", "작업 완료", "", 95, 100)
        },
        WorkflowKind::Remove => if stage == 1 {
            ("로컬 다운로드 경로 확인", "로컬 다운로드 경로를 확인하는 중...", "로컬 다운로드 경로 확인 완료", "로컬 다운로드 경로 확인 실패", 0, 30)
        } else if stage == 2 {
            ("제거 규칙 조회", "제거 대상 규칙을 조회하는 중...", "제거 규칙 조회 완료", "제거 규칙 조회 실패", 30, 55)
        } else if stage == 3 {
            ("한글 패치 제거", "설치된 한글 패치 데이터를 제거하는 중...", "한글 패치 제거 완료", "한글 패치 제거 실패", 55, 90)
        } else {
            ("결과", "마무리 작업을 진행하는 중...", "제거 모드 완료", "", 90, 100)
        },
    };
    StageText { title, current, done, error, start, end }
}


/// The abstract value of a [`PatchEvent`].
pub struct PatchEventModel {
    pub step_index: usize,
    pub title: Seq<char>,
    pub state: Seq<char>,
    pub message: Seq<char>,
    pub detail: Option<Seq<char>>,
    pub progress: u8,
}

impl View for PatchEvent {
    type V = PatchEventModel;

    open spec fn view(&self) -> PatchEventModel {
        PatchEventModel {
            step_index: self.step_index,
            title: self.title@,
            state: self.state@,
            message: self.message@,
            detail: self.detail.deep_view(),
            progress: self.progress,
        }
    }
}

/// The abstract value of a [`Task`].
pub enum TaskModel {
    CheckSelfUpdate,
    CleanupLegacy,
    RelocateRuntime,
    RegisterProtocol(Seq<char>),
    FindGameDir(Seq<char>),
    FindLocalFeimo(Seq<char>),
    PrepareBundle(Seq<char>),
    ApplyBundle(Seq<char>, Seq<char>, Seq<char>, Seq<char>),
    FetchRootIds(Seq<char>),
    RemoveRoots(Seq<char>, Seq<Seq<char>>),
}

impl View for Task {
    type V = TaskModel;

    open spec fn view(&self) -> TaskModel {
        match self {
            Task::CheckSelfUpdate => TaskModel::CheckSelfUpdate,
            Task::CleanupLegacy => TaskModel::CleanupLegacy,
            Task::RelocateRuntime => TaskModel::RelocateRuntime,
            Task::RegisterProtocol { exe_path } => TaskModel::RegisterProtocol(exe_path@),
            Task::FindGameDir { target } => TaskModel::FindGameDir(target@),
            Task::FindLocalFeimo { target } => TaskModel::FindLocalFeimo(target@),
            Task::PrepareBundle { target } => TaskModel::PrepareBundle(target@),
            Task::ApplyBundle { target, extract_dir, game_dir, local_feimo_dir } => TaskModel::ApplyBundle(
                target@,
                extract_dir@,
                game_dir@,
                local_feimo_dir@,
            ),
            Task::FetchRootIds { target } => TaskModel::FetchRootIds(target@),
            Task::RemoveRoots { local_feimo_dir, root_ids } => TaskModel::RemoveRoots(
                local_feimo_dir@,
                root_ids.deep_view(),
            ),
        }
    }
}

/// The abstract value of an [`Action`].
pub enum ActionModel {
    Emit(PatchEventModel),
    Run(TaskModel),
    Relaunch(Seq<char>, Option<Seq<char>>),
    Sleep,
    Exit(Seq<char>),
    Finish(Result<(), Seq<char>>),
}

impl View for Action {
    type V = ActionModel;

    open spec fn view(&self) -> ActionModel {
        match self {
            Action::Emit(e) => ActionModel::Emit(e@),
            Action::Run(t) => ActionModel::Run(t@),
            Action::Relaunch { exe_path, resume_target } => ActionModel::Relaunch(
                exe_path@,
                resume_target.deep_view(),
            ),
            Action::Sleep => ActionModel::Sleep,
            Action::Exit { log_message } => ActionModel::Exit(log_message@),
            Action::Finish(r) => ActionModel::Finish(
                match r {
                    Ok(()) => Ok(()),
                    Err(e) => Err(e@),
                },
            ),
        }
    }
}

/// The abstract value of a [`TaskValue`].
pub enum TaskValueModel {
    Text(Seq<char>),
    Relocated(Seq<char>, Seq<char>),
    Prepared(Seq<char>, Seq<char>, Seq<char>),
    RootIds(Seq<Seq<char>>),
}

impl View for TaskValue {
    type V = TaskValueModel;

    open spec fn view(&self) -> TaskValueModel {
        match self {
            TaskValue::Text(t) => TaskValueModel::Text(t@),
            TaskValue::Relocated { exe_path, detail } => TaskValueModel::Relocated(exe_path@, detail@),
            TaskValue::Prepared { release_tag, asset_name, extract_dir } => TaskValueModel::Prepared(
                release_tag@,
                asset_name@,
                extract_dir@,
            ),
            TaskValue::RootIds(ids) => TaskValueModel::RootIds(ids.deep_view()),
        }
    }
}

/// The abstract value of an [`Outcome`].
pub enum OutcomeModel {
    Begin,
    Emitted(Result<(), Seq<char>>),
    Checked(Result<Option<(Seq<char>, Seq<char>)>, Seq<char>>),
    Done(Result<TaskValueModel, Seq<char>>),
    Relaunched(Result<(), Seq<char>>),
    Slept,
    Exited,
}

pub open spec fn unit_result(r: Result<(), String>) -> Result<(), Seq<char>> {
    match r {
        Ok(()) => Ok(()),
        Err(e) => Err(e@),
    }
}

impl View for Outcome {
    type V = OutcomeModel;

    open spec fn view(&self) -> OutcomeModel {
        match self {
            Outcome::Begin => OutcomeModel::Begin,
            Outcome::Emitted(r) => OutcomeModel::Emitted(unit_result(*r)),
            Outcome::Checked(r) => OutcomeModel::Checked(
                match r {
                    Ok(Some(p)) => Ok(Some((p.latest_version@, p.exe_path@))),
                    Ok(None) => Ok(None),
                    Err(e) => Err(e@),
                },
            ),
            Outcome::Done(r) => OutcomeModel::Done(
                match r {
                    Ok(v) => Ok(v@),
                    Err(e) => Err(e@),
                },
            ),
            Outcome::Relaunched(r) => OutcomeModel::Relaunched(unit_result(*r)),
            Outcome::Slept => OutcomeModel::Slept,
            Outcome::Exited => OutcomeModel::Exited,
        }
    }
}

/// A running workflow.
pub struct Workflow {
    kind: WorkflowKind,
    target: String,
    version: String,
    stage: usize,
    phase: Phase,
    countdown: u64,
    pending_error: String,
    update_exe: String,
    game_dir: String,
    local_feimo_dir: String,
    extract_dir: String,
    safe_exe: String,
    root_ids: Vec<String>,
    removal_detail: String,
    last_progress: u8,
}

/// The abstract value of a [`Workflow`]: its kind, target and running
/// version, the step and phase it stands at, what earlier steps found, and
/// the progress of the last event it sent.
pub struct WorkflowModel {
    pub kind: WorkflowKind,
    pub target: Seq<char>,
    pub version: Seq<char>,
    pub stage: nat,
    pub phase: Phase,
    pub countdown: nat,
    pub pending_error: Seq<char>,
    pub update_exe: Seq<char>,
    pub game_dir: Seq<char>,
    pub local_feimo_dir: Seq<char>,
    pub extract_dir: Seq<char>,
    pub safe_exe: Seq<char>,
    pub root_ids: Seq<Seq<char>>,
    pub removal_detail: Seq<char>,
    pub last_progress: u8,
}

impl View for Workflow {
    type V = WorkflowModel;

    closed spec fn view(&self) -> WorkflowModel {
        WorkflowModel {
            kind: self.kind,
            target: self.target@,
            version: self.version@,
            stage: self.stage as nat,
            phase: self.phase,
            countdown: self.countdown as nat,
            pending_error: self.pending_error@,
            update_exe: self.update_exe@,
            game_dir: self.game_dir@,
            local_feimo_dir: self.local_feimo_dir@,
            extract_dir: self.extract_dir@,
            safe_exe: self.safe_exe@,
            root_ids: self.root_ids.deep_view(),
            removal_detail: self.removal_detail@,
            last_progress: self.last_progress,
        }
    }
}

/// Seconds counted down before a finished patch or removal exits.
pub open spec fn countdown_seconds() -> nat {
    10
}

pub open spec fn event(step: nat, title: Seq<char>, state: Seq<char>, message: Seq<char>, detail: Option<Seq<char>>, progress: u8) -> ActionModel {
    ActionModel::Emit(
        PatchEventModel { step_index: step as usize, title, state, message, detail, progress },
    )
}

/// The "current" event of the step the workflow stands at.
pub open spec fn current_event(m: WorkflowModel) -> ActionModel {
    let s = stage_spec(m.kind, m.stage);
    event(m.stage, s.title, "current"@, s.current, None, s.start)
}

/// The "done" event of the current step with the given detail.
pub open spec fn done_event(m: WorkflowModel, detail: Seq<char>) -> ActionModel {
    let s = stage_spec(m.kind, m.stage);
    event(m.stage, s.title, "done"@, s.done, Some(detail), s.end)
}

/// The "error" event of the current step with the given message.
pub open spec fn error_event(m: WorkflowModel, message: Seq<char>) -> ActionModel {
    let s = stage_spec(m.kind, m.stage);
    event(m.stage, s.title, "error"@, s.error, Some(message), s.start)
}

/// The event announcing an update to `latest`.
pub open spec fn update_event(m: WorkflowModel, latest: Seq<char>) -> ActionModel {
    let s = stage_spec(m.kind, m.stage);
    if m.kind == WorkflowKind::Install {
        event(
            m.stage,
            s.title,
            "done"@,
            "신규 버전 확인. 업데이트를 시작합니다."@,
            Some("v"@ + m.version + " -> v"@ + latest + "\n프로그램을 신규 버전으로 재시작합니다."@),
            s.end,
        )
    } else {
        event(
            m.stage,
            s.title,
            "done"@,
            "신규 버전을 확인해 업데이트를 시작합니다."@,
            Some(
                "v"@ + m.version + " -> v"@ + latest + "\n새 버전 실행 후 패치 작업("@ + m.target
                    + ")을 이어갑니다."@,
            ),
            s.end,
        )
    }
}

/// The countdown event with `n` seconds left.
pub open spec fn countdown_event(m: WorkflowModel, n: nat) -> ActionModel {
    let s = stage_spec(m.kind, m.stage);
    let left = decimal_seq(n) + "초 후 프로그램이 자동으로 종료됩니다."@;
    if m.kind == WorkflowKind::Remove {
        event(m.stage, s.title, "done"@, s.done, Some(m.removal_detail + "\n\n"@ + left), 100)
    } else {
        event(m.stage, s.title, "done"@, s.done, Some(left), 100)
    }
}

/// The message logged before the program exits.
pub open spec fn exit_log(kind: WorkflowKind) -> Seq<char> {
    if kind == WorkflowKind::Remove {
        "제거 작업이 완료되어 10초 후 프로그램을 자동 종료합니다."@
    } else {
        "패치 작업이 완료되어 10초 후 프로그램을 자동 종료합니다."@
    }
}

/// The task of the step the workflow stands at.
pub open spec fn task_spec(m: WorkflowModel) -> TaskModel {
    match m.kind {
        WorkflowKind::Install => if m.stage == 1 {
            TaskModel::CheckSelfUpdate
        } else if m.stage == 2 {
            TaskModel::CleanupLegacy
        } else if m.stage == 3 {
            TaskModel::RelocateRuntime
        } else {
            TaskModel::RegisterProtocol(m.safe_exe)
        },
        WorkflowKind::Patch => if m.stage == 1 {
            TaskModel::CheckSelfUpdate
        } else if m.stage == 2 {
            TaskModel::FindGameDir(m.target)
        } else if m.stage == 3 {
            TaskModel::FindLocalFeimo(m.target)
        } else if m.stage == 4 {
            TaskModel::PrepareBundle(m.target)
        } else {
            TaskModel::ApplyBundle(m.target, m.extract_dir, m.game_dir, m.local_feimo_dir)
        },
        WorkflowKind::Remove => if m.stage == 1 {
            TaskModel::FindLocalFeimo(m.target)
        } else if m.stage == 2 {
            TaskModel::FetchRootIds(m.target)
        } else {
            TaskModel::RemoveRoots(m.local_feimo_dir, m.root_ids)
        },
    }
}

/// The value a task produces has the shape that task gives.
pub open spec fn fits_task(t: TaskModel, v: TaskValueModel) -> bool {
    match t {
        TaskModel::RelocateRuntime => v is Relocated,
        TaskModel::PrepareBundle(_) => v is Prepared,
        TaskModel::FetchRootIds(_) => v is RootIds,
        _ => v is Text,
    }
}

/// The detail shown when a task succeeds.
pub open spec fn task_detail(v: TaskValueModel) -> Seq<char> {
    match v {
        TaskValueModel::Text(t) => t,
        TaskValueModel::Relocated(_, d) => d,
        TaskValueModel::Prepared(tag, asset, _) => prepared_patch_detail_spec(tag, asset),
        TaskValueModel::RootIds(ids) => "AssetBundles 대상 root_id "@ + decimal_seq(ids.len()) + "개"@,
    }
}

/// What the workflow keeps from a task's value.
pub open spec fn record_value(m: WorkflowModel, t: TaskModel, v: TaskValueModel) -> WorkflowModel {
    match (t, v) {
        (TaskModel::RelocateRuntime, TaskValueModel::Relocated(exe, _)) => WorkflowModel { safe_exe: exe, ..m },
        (TaskModel::FindGameDir(_), TaskValueModel::Text(p)) => WorkflowModel { game_dir: p, ..m },
        (TaskModel::FindLocalFeimo(_), TaskValueModel::Text(p)) => WorkflowModel { local_feimo_dir: p, ..m },
        (TaskModel::PrepareBundle(_), TaskValueModel::Prepared(_, _, dir)) => WorkflowModel { extract_dir: dir, ..m },
        (TaskModel::FetchRootIds(_), TaskValueModel::RootIds(ids)) => WorkflowModel { root_ids: ids, ..m },
        (TaskModel::RemoveRoots(_, _), TaskValueModel::Text(d)) => WorkflowModel { removal_detail: d, ..m },
        _ => m,
    }
}

pub open spec fn is_closing_stage(m: WorkflowModel) -> bool {
    m.stage == stage_count(m.kind)
}

pub open spec fn checks_for_update(m: WorkflowModel) -> bool {
    m.kind != WorkflowKind::Remove && m.stage == 1
}

/// The outcome answers the action the workflow handed out last.
pub open spec fn accepts(m: WorkflowModel, o: OutcomeModel) -> bool {
    match m.phase {
        Phase::Start => o is Begin,
        Phase::Announced | Phase::Concluding | Phase::Failing | Phase::Updating | Phase::Counting => o is Emitted,
        Phase::Working => if checks_for_update(m) {
            o is Checked
        } else {
            o matches OutcomeModel::Done(r) && (r matches Ok(v) ==> fits_task(task_spec(m), v))
        },
        Phase::Relaunching => o is Relaunched,
        Phase::Sleeping => o is Slept,
        Phase::Exiting => o is Exited,
        Phase::Finished => false,
    }
}

pub open spec fn with_phase(m: WorkflowModel, phase: Phase) -> WorkflowModel {
    WorkflowModel { phase, ..m }
}

pub open spec fn finish(m: WorkflowModel, r: Result<(), Seq<char>>) -> (WorkflowModel, ActionModel) {
    (with_phase(m, Phase::Finished), ActionModel::Finish(r))
}

/// Sends `a`, an event, and records its progress.
pub open spec fn sending(m: WorkflowModel, a: ActionModel) -> (WorkflowModel, ActionModel) {
    match a {
        ActionModel::Emit(e) => (WorkflowModel { last_progress: e.progress, ..m }, a),
        _ => (m, a),
    }
}

/// The step of the workflow: from its state and the outcome of the last
/// action, the next state and action.
pub open spec fn next(m: WorkflowModel, o: OutcomeModel) -> (WorkflowModel, ActionModel) {
    match (m.phase, o) {
        (Phase::Start, _) => sending(with_phase(m, Phase::Announced), current_event(m)),
        (_, OutcomeModel::Emitted(Err(e))) => finish(m, Err(e)),
        (Phase::Announced, _) => if is_closing_stage(m) {
            if m.kind == WorkflowKind::Install {
                sending(
                    with_phase(m, Phase::Concluding),
                    done_event(m, "astral.maynutlab.com에 접속해 자동 패치를 진행할 수 있습니다."@),
                )
            } else {
                let c = WorkflowModel { phase: Phase::Counting, countdown: countdown_seconds(), ..m };
                sending(c, countdown_event(c, countdown_seconds()))
            }
        } else {
            (with_phase(m, Phase::Working), ActionModel::Run(task_spec(m)))
        },
        (Phase::Working, OutcomeModel::Checked(Err(e))) => finish(m, Err(e)),
        (Phase::Working, OutcomeModel::Checked(Ok(None))) => sending(
            with_phase(m, Phase::Concluding),
            done_event(m, "v"@ + m.version),
        ),
        (Phase::Working, OutcomeModel::Checked(Ok(Some((latest, exe))))) => sending(
            WorkflowModel { phase: Phase::Updating, update_exe: exe, ..m },
            update_event(m, latest),
        ),
        (Phase::Working, OutcomeModel::Done(Err(msg))) => sending(
            WorkflowModel { phase: Phase::Failing, pending_error: msg, ..m },
            error_event(m, msg),
        ),
        (Phase::Working, OutcomeModel::Done(Ok(v))) => sending(
            with_phase(record_value(m, task_spec(m), v), Phase::Concluding),
            done_event(m, task_detail(v)),
        ),
        (Phase::Concluding, _) => if is_closing_stage(m) {
            finish(m, Ok(()))
        } else {
            let n = WorkflowModel { phase: Phase::Announced, stage: m.stage + 1, ..m };
            sending(n, current_event(n))
        },
        (Phase::Failing, _) => finish(m, Err(m.pending_error)),
        (Phase::Updating, _) => (
            with_phase(m, Phase::Relaunching),
            ActionModel::Relaunch(
                m.update_exe,
                if m.kind == WorkflowKind::Patch {
                    Some(m.target)
                } else {
                    None
                },
            ),
        ),
        (Phase::Relaunching, OutcomeModel::Relaunched(r)) => finish(m, r),
        (Phase::Counting, _) => (with_phase(m, Phase::Sleeping), ActionModel::Sleep),
        (Phase::Sleeping, _) => if m.countdown > 1 {
            let c = WorkflowModel { phase: Phase::Counting, countdown: (m.countdown - 1) as nat, ..m };
            sending(c, countdown_event(c, c.countdown))
        } else {
            (with_phase(m, Phase::Exiting), ActionModel::Exit(exit_log(m.kind)))
        },
        (Phase::Exiting, _) => finish(m, Ok(())),
        _ => (m, ActionModel::Finish(Ok(()))),
    }
}

/// The invariant of a workflow: it stands at one of its steps, and the last
/// event it sent carries the progress that its phase implies.
pub open spec fn wf(m: WorkflowModel) -> bool {
    let s = stage_spec(m.kind, m.stage);
    &&& 1 <= m.stage <= stage_count(m.kind)
    &&& m.kind == WorkflowKind::Install ==> m.target.len() == 0
    &&& match m.phase {
        Phase::Start => m.stage == 1 && m.last_progress == 0,
        Phase::Announced | Phase::Working | Phase::Failing => m.last_progress == s.start,
        Phase::Concluding | Phase::Updating | Phase::Relaunching => m.last_progress == s.end,
        Phase::Counting | Phase::Sleeping => m.last_progress == 100 && 1 <= m.countdown <= countdown_seconds()
            && is_closing_stage(m),
        Phase::Exiting | Phase::Finished => m.last_progress <= 100,
    }
    &&& (m.phase == Phase::Working ==> !is_closing_stage(m))
    &&& (m.phase == Phase::Updating || m.phase == Phase::Relaunching ==> checks_for_update(m))
}


/// Progress never goes back along a workflow's steps, and the closing step ends at 100.
pub proof fn lemma_stage_progress(kind: WorkflowKind, stage: nat)
    requires
        1 <= stage <= stage_count(kind),
    ensures
        stage_spec(kind, stage).start <= stage_spec(kind, stage).end <= 100,
        stage < stage_count(kind) ==> stage_spec(kind, stage).end <= stage_spec(kind, stage + 1).start,
        stage == stage_count(kind) ==> stage_spec(kind, stage).end == 100,
{
}

/// Every step keeps the workflow's invariant.
pub proof fn lemma_next_keeps_wf(m: WorkflowModel, o: OutcomeModel)
    requires
        wf(m),
        accepts(m, o),
    ensures
        wf(next(m, o).0),
{
    lemma_stage_progress(m.kind, m.stage);
    if m.stage < stage_count(m.kind) {
        lemma_stage_progress(m.kind, m.stage + 1);
    }
}

/// The events a workflow sends never lower the progress, and never pass 100.
pub proof fn lemma_progress_never_decreases(m: WorkflowModel, o: OutcomeModel)
    requires
        wf(m),
        accepts(m, o),
    ensures
        next(m, o).1 matches ActionModel::Emit(e) ==> m.last_progress <= e.progress <= 100
            && next(m, o).0.last_progress == e.progress,
        !(next(m, o).1 is Emit) ==> next(m, o).0.last_progress == m.last_progress,
{
    lemma_stage_progress(m.kind, m.stage);
    if m.stage < stage_count(m.kind) {
        lemma_stage_progress(m.kind, m.stage + 1);
    }
}

/// A failed task is reported with an error event carrying its message, after
/// which the workflow ends with that message.
pub proof fn lemma_failed_task_ends_workflow(m: WorkflowModel, msg: Seq<char>)
    requires
        wf(m),
        m.phase == Phase::Working,
        !checks_for_update(m),
    ensures
        next(m, OutcomeModel::Done(Err(msg))).1 == error_event(m, msg),
        next(next(m, OutcomeModel::Done(Err(msg))).0, OutcomeModel::Emitted(Ok(()))).1 == ActionModel::Finish(
            Err(msg),
        ),
{
}

/// A workflow that ended accepts no further outcome.
pub proof fn lemma_finished_is_final(m: WorkflowModel, o: OutcomeModel)
    requires
        m.phase == Phase::Finished,
    ensures
        !accepts(m, o),
{
}


/// The state of a workflow that has not started.
pub open spec fn initial_model(kind: WorkflowKind, target: Seq<char>, version: Seq<char>) -> WorkflowModel {
    WorkflowModel {
        kind,
        target,
        version,
        stage: 1,
        phase: Phase::Start,
        countdown: 0,
        pending_error: Seq::empty(),
        update_exe: Seq::empty(),
        game_dir: Seq::empty(),
        local_feimo_dir: Seq::empty(),
        extract_dir: Seq::empty(),
        safe_exe: Seq::empty(),
        root_ids: Seq::empty(),
        removal_detail: Seq::empty(),
        last_progress: 0,
    }
}

/// The target a task works for, where it takes one.
pub open spec fn task_target(t: TaskModel) -> Option<Seq<char>> {
    match t {
        TaskModel::FindGameDir(x) => Some(x),
        TaskModel::FindLocalFeimo(x) => Some(x),
        TaskModel::PrepareBundle(x) => Some(x),
        TaskModel::ApplyBundle(x, _, _, _) => Some(x),
        TaskModel::FetchRootIds(x) => Some(x),
        _ => None,
    }
}

/// An action of a workflow of `kind` for `target` works for that target: a
/// task that takes a target takes this one, and a relaunch resumes the patch
/// of this target (the install, for an install).
pub open spec fn acts_for(a: ActionModel, kind: WorkflowKind, target: Seq<char>) -> bool {
    match a {
        ActionModel::Run(t) => task_target(t) is None || task_target(t) == Some(target),
        ActionModel::Relaunch(_, resume) => resume == (if kind == WorkflowKind::Patch {
            Some(target)
        } else {
            None
        }),
        _ => true,
    }
}

/// The state and the actions after the runner hands back `outcomes` in turn.
pub open spec fn run(m: WorkflowModel, outcomes: Seq<OutcomeModel>) -> (WorkflowModel, Seq<ActionModel>)
    decreases outcomes.len(),
{
    if outcomes.len() == 0 {
        (m, Seq::empty())
    } else {
        let s = next(m, outcomes[0]);
        let rest = run(s.0, outcomes.drop_first());
        (rest.0, seq![s.1] + rest.1)
    }
}

/// A step never changes which workflow runs, for which target, or the
/// running version.
pub proof fn lemma_step_keeps_identity(m: WorkflowModel, o: OutcomeModel)
    ensures
        next(m, o).0.kind == m.kind,
        next(m, o).0.target == m.target,
        next(m, o).0.version == m.version,
{
}

/// Every action a step hands out works for the workflow's own target.
pub proof fn lemma_step_acts_for_target(m: WorkflowModel, o: OutcomeModel)
    ensures
        acts_for(next(m, o).1, m.kind, m.target),
{
}

/// The tasks of the patch workflow, step by step: the update check, then the
/// game directory, the local download directory and the patch bundle of the
/// workflow's target, then applying that bundle with what the earlier steps
/// found.
pub proof fn lemma_patch_tasks(m: WorkflowModel, o: OutcomeModel)
    requires
        m.kind == WorkflowKind::Patch,
        next(m, o).1 is Run,
    ensures
        m.stage == 1 ==> next(m, o).1 == ActionModel::Run(TaskModel::CheckSelfUpdate),
        m.stage == 2 ==> next(m, o).1 == ActionModel::Run(TaskModel::FindGameDir(m.target)),
        m.stage == 3 ==> next(m, o).1 == ActionModel::Run(TaskModel::FindLocalFeimo(m.target)),
        m.stage == 4 ==> next(m, o).1 == ActionModel::Run(TaskModel::PrepareBundle(m.target)),
        m.stage == 5 ==> next(m, o).1 == ActionModel::Run(
            TaskModel::ApplyBundle(m.target, m.extract_dir, m.game_dir, m.local_feimo_dir),
        ),
{
}

/// The tasks of the remove workflow, step by step: the local download
/// directory and the removal rules of the workflow's target, then deleting
/// the roots those rules name from that directory.
pub proof fn lemma_remove_tasks(m: WorkflowModel, o: OutcomeModel)
    requires
        m.kind == WorkflowKind::Remove,
        next(m, o).1 is Run,
    ensures
        m.stage == 1 ==> next(m, o).1 == ActionModel::Run(TaskModel::FindLocalFeimo(m.target)),
        m.stage == 2 ==> next(m, o).1 == ActionModel::Run(TaskModel::FetchRootIds(m.target)),
        m.stage == 3 ==> next(m, o).1 == ActionModel::Run(TaskModel::RemoveRoots(m.local_feimo_dir, m.root_ids)),
{
}

/// What a step finds is what later steps use: the game and local download
/// directories, the extracted bundle and the root ids are kept as the tasks
/// gave them.
pub proof fn lemma_found_values_kept(m: WorkflowModel, v: TaskValueModel)
    requires
        m.phase == Phase::Working,
        !checks_for_update(m),
    ensures
        m.kind == WorkflowKind::Patch && m.stage == 2 ==> (v matches TaskValueModel::Text(p) ==> next(
            m,
            OutcomeModel::Done(Ok(v)),
        ).0.game_dir == p),
        (m.kind == WorkflowKind::Patch && m.stage == 3) || (m.kind == WorkflowKind::Remove && m.stage == 1) ==> (
        v matches TaskValueModel::Text(p) ==> next(m, OutcomeModel::Done(Ok(v))).0.local_feimo_dir == p),
        m.kind == WorkflowKind::Patch && m.stage == 4 ==> (v matches TaskValueModel::Prepared(_, _, d) ==> next(
            m,
            OutcomeModel::Done(Ok(v)),
        ).0.extract_dir == d),
        m.kind == WorkflowKind::Remove && m.stage == 2 ==> (v matches TaskValueModel::RootIds(ids) ==> next(
            m,
            OutcomeModel::Done(Ok(v)),
        ).0.root_ids == ids),
{
}

/// A failed send or a failed update check ends the workflow with its error,
/// and a relaunch ends it with the relaunch's result.
pub proof fn lemma_failures_end_workflow(m: WorkflowModel, e: Seq<char>, r: Result<(), Seq<char>>)
    ensures
        m.phase != Phase::Start ==> next(m, OutcomeModel::Emitted(Err(e))).1 == ActionModel::Finish(Err(e))
            && next(m, OutcomeModel::Emitted(Err(e))).0.phase == Phase::Finished,
        m.phase == Phase::Working ==> next(m, OutcomeModel::Checked(Err(e))).1 == ActionModel::Finish(Err(e))
            && next(m, OutcomeModel::Checked(Err(e))).0.phase == Phase::Finished,
        m.phase == Phase::Relaunching ==> next(m, OutcomeModel::Relaunched(r)).1 == ActionModel::Finish(r)
            && next(m, OutcomeModel::Relaunched(r)).0.phase == Phase::Finished,
{
}

/// A newer release found by the update check is announced and then started,
/// resuming the patch of the workflow's own target (or the install).
pub proof fn lemma_update_relaunches_for_target(m: WorkflowModel, latest: Seq<char>, exe: Seq<char>)
    requires
        m.phase == Phase::Working,
        checks_for_update(m),
    ensures
        ({
            let s = next(m, OutcomeModel::Checked(Ok(Some((latest, exe)))));
            &&& s.1 == update_event(m, latest)
            &&& next(s.0, OutcomeModel::Emitted(Ok(()))).1 == ActionModel::Relaunch(
                exe,
                if m.kind == WorkflowKind::Patch {
                    Some(m.target)
                } else {
                    None
                },
            )
        }),
{
}

proof fn lemma_run_acts_for(m: WorkflowModel, outcomes: Seq<OutcomeModel>)
    ensures
        run(m, outcomes).0.kind == m.kind,
        run(m, outcomes).0.target == m.target,
        forall|i: int| 0 <= i < run(m, outcomes).1.len() ==> acts_for(#[trigger] run(m, outcomes).1[i], m.kind, m.target),
    decreases outcomes.len(),
{
    if outcomes.len() > 0 {
        let s = next(m, outcomes[0]);
        lemma_step_keeps_identity(m, outcomes[0]);
        lemma_step_acts_for_target(m, outcomes[0]);
        lemma_run_acts_for(s.0, outcomes.drop_first());
        let rest = run(s.0, outcomes.drop_first());
        assert forall|i: int| 0 <= i < run(m, outcomes).1.len() implies acts_for(
            #[trigger] run(m, outcomes).1[i],
            m.kind,
            m.target,
        ) by {
            if i > 0 {
                assert(run(m, outcomes).1[i] == rest.1[i - 1]);
            }
        }
    }
}

/// A workflow started for `target` works for that target throughout,
/// whatever the runner hands back: every task that takes a target is handed
/// out for it, and a relaunch resumes the patch of it (the install, for an
/// install).
pub proof fn lemma_workflow_acts_for_its_target(
    kind: WorkflowKind,
    target: Seq<char>,
    version: Seq<char>,
    outcomes: Seq<OutcomeModel>,
)
    ensures
        run(initial_model(kind, target, version), outcomes).0.target == target,
        forall|i: int|
            0 <= i < run(initial_model(kind, target, version), outcomes).1.len() ==> acts_for(
                #[trigger] run(initial_model(kind, target, version), outcomes).1[i],
                kind,
                target,
            ),
{
    lemma_run_acts_for(initial_model(kind, target, version), outcomes);
}

/// What the runner hands back over `n` rounds of a countdown in which every
/// event is sent and every pause is taken: "sent", "slept", in turn.
pub open spec fn countdown_outcomes(n: nat) -> Seq<OutcomeModel> {
    Seq::new(2 * n, |i: int| if i % 2 == 0 {
        OutcomeModel::Emitted(Ok(()))
    } else {
        OutcomeModel::Slept
    })
}

proof fn lemma_countdown_from_sleep(m: WorkflowModel, n: nat)
    requires
        m.phase == Phase::Sleeping,
        m.countdown == n,
        1 <= n,
    ensures
        run(m, seq![OutcomeModel::Slept] + countdown_outcomes((n - 1) as nat)).1 == Seq::new(
            (2 * n - 1) as nat,
            |i: int| if i == 2 * n - 2 {
                ActionModel::Exit(exit_log(m.kind))
            } else if i % 2 == 0 {
                countdown_event(m, (n - 1 - i / 2) as nat)
            } else {
                ActionModel::Sleep
            },
        ),
        run(m, seq![OutcomeModel::Slept] + countdown_outcomes((n - 1) as nat)).0.phase == Phase::Exiting,
    decreases n,
{
    let os = seq![OutcomeModel::Slept] + countdown_outcomes((n - 1) as nat);
    let want = Seq::new(
        (2 * n - 1) as nat,
        |i: int| if i == 2 * n - 2 {
            ActionModel::Exit(exit_log(m.kind))
        } else if i % 2 == 0 {
            countdown_event(m, (n - 1 - i / 2) as nat)
        } else {
            ActionModel::Sleep
        },
    );
    if n == 1 {
        assert(countdown_outcomes(0) =~= Seq::<OutcomeModel>::empty());
        assert(os.drop_first() =~= Seq::<OutcomeModel>::empty());
        let s = next(m, OutcomeModel::Slept);
        assert(s.1 == ActionModel::Exit(exit_log(m.kind)));
        assert(run(s.0, Seq::<OutcomeModel>::empty()).1 =~= Seq::<ActionModel>::empty());
        assert(run(m, os).1 =~= want);
    } else {
        let s1 = next(m, OutcomeModel::Slept);
        let c = s1.0;
        assert(c.phase == Phase::Counting && c.countdown == n - 1);
        assert(s1.1 == countdown_event(m, (n - 1) as nat));
        let rest1 = os.drop_first();
        assert(rest1 =~= countdown_outcomes((n - 1) as nat));
        assert(rest1[0] == OutcomeModel::Emitted(Ok(())));
        let s2 = next(c, rest1[0]);
        assert(s2.1 == ActionModel::Sleep);
        let p = s2.0;
        assert(p.phase == Phase::Sleeping && p.countdown == n - 1);
        let rest2 = rest1.drop_first();
        assert(rest2 =~= seq![OutcomeModel::Slept] + countdown_outcomes((n - 2) as nat));
        lemma_countdown_from_sleep(p, (n - 1) as nat);
        let tail = run(p, rest2).1;
        assert(run(c, rest1).1 == seq![ActionModel::Sleep] + tail);
        assert(run(m, os).1 == seq![s1.1] + (seq![ActionModel::Sleep] + tail));
        assert forall|i: int| 0 <= i < want.len() implies #[trigger] run(m, os).1[i] == want[i] by {
            if i >= 2 {
                assert(run(m, os).1[i] == tail[i - 2]);
                assert(countdown_event(p, (n - 2 - (i - 2) / 2) as nat) == countdown_event(
                    m,
                    (n - 1 - i / 2) as nat,
                ));
            }
        }
        assert(run(m, os).1 =~= want);
    }
}

/// Once a patch or remove workflow reaches its closing step and its
/// announcement is sent, it counts down: it sends the events of 10, 9, ..., 1
/// seconds left, takes one pause of a second after each, and only after the
/// last pause hands out the exit.
pub proof fn lemma_closing_countdown(m: WorkflowModel)
    requires
        m.phase == Phase::Announced,
        is_closing_stage(m),
        m.kind != WorkflowKind::Install,
    ensures
        run(m, seq![OutcomeModel::Emitted(Ok(()))] + countdown_outcomes(countdown_seconds())).1 == Seq::new(
            2 * countdown_seconds() + 1,
            |i: int| if i == 2 * countdown_seconds() {
                ActionModel::Exit(exit_log(m.kind))
            } else if i % 2 == 0 {
                countdown_event(m, (countdown_seconds() - i / 2) as nat)
            } else {
                ActionModel::Sleep
            },
        ),
        run(m, seq![OutcomeModel::Emitted(Ok(()))] + countdown_outcomes(countdown_seconds())).0.phase == Phase::Exiting,
{
    let n = countdown_seconds();
    let os = seq![OutcomeModel::Emitted(Ok(()))] + countdown_outcomes(n);
    let want = Seq::new(
        2 * n + 1,
        |i: int| if i == 2 * n {
            ActionModel::Exit(exit_log(m.kind))
        } else if i % 2 == 0 {
            countdown_event(m, (n - i / 2) as nat)
        } else {
            ActionModel::Sleep
        },
    );
    assert(os[0] == OutcomeModel::Emitted(Ok(())));
    let s1 = next(m, os[0]);
    let c = s1.0;
    assert(c.phase == Phase::Counting && c.countdown == n);
    assert(s1.1 == countdown_event(m, n));
    let rest1 = os.drop_first();
    assert(rest1[0] == OutcomeModel::Emitted(Ok(())));
    let s2 = next(c, rest1[0]);
    assert(s2.1 == ActionModel::Sleep);
    let p = s2.0;
    assert(p.phase == Phase::Sleeping && p.countdown == n);
    let rest2 = rest1.drop_first();
    assert(rest2 =~= seq![OutcomeModel::Slept] + countdown_outcomes((n - 1) as nat));
    lemma_countdown_from_sleep(p, n);
    let tail = run(p, rest2).1;
    assert(run(c, rest1).1 == seq![ActionModel::Sleep] + tail);
    assert(run(m, os).1 == seq![s1.1] + (seq![ActionModel::Sleep] + tail));
    assert forall|i: int| 0 <= i < want.len() implies #[trigger] run(m, os).1[i] == want[i] by {
        if i >= 2 {
            assert(run(m, os).1[i] == tail[i - 2]);
            assert(countdown_event(p, (n - 1 - (i - 2) / 2) as nat) == countdown_event(m, (n - i / 2) as nat));
        }
    }
    assert(run(m, os).1 =~= want);
}

proof fn lemma_run_step(m: WorkflowModel, outcomes: Seq<OutcomeModel>, i: int)
    requires
        0 <= i < outcomes.len(),
    ensures
        run(m, outcomes.skip(i)).1 == seq![next(m, outcomes[i]).1] + run(next(m, outcomes[i]).0, outcomes.skip(i + 1)).1,
        run(m, outcomes.skip(i)).0 == run(next(m, outcomes[i]).0, outcomes.skip(i + 1)).0,
{
    assert(outcomes.skip(i).drop_first() =~= outcomes.skip(i + 1));
    assert(outcomes.skip(i)[0] == outcomes[i]);
}

/// A patch workflow for `target` whose every step succeeds, without an update:
/// it checks for an update, then finds the game directory and the local
/// download directory of `target`, prepares `target`'s patch bundle, applies
/// that bundle with the directories found, and reaches its closing step.
#[verifier::spinoff_prover]
#[verifier::rlimit(60)]
pub proof fn lemma_patch_run(
    target: Seq<char>,
    version: Seq<char>,
    game_dir: Seq<char>,
    local_feimo_dir: Seq<char>,
    release_tag: Seq<char>,
    asset_name: Seq<char>,
    extract_dir: Seq<char>,
    applied: Seq<char>,
)
    ensures
        ({
            let os = seq![
                OutcomeModel::Begin,
                OutcomeModel::Emitted(Ok(())),
                OutcomeModel::Checked(Ok(None)),
                OutcomeModel::Emitted(Ok(())),
                OutcomeModel::Emitted(Ok(())),
                OutcomeModel::Done(Ok(TaskValueModel::Text(game_dir))),
                OutcomeModel::Emitted(Ok(())),
                OutcomeModel::Emitted(Ok(())),
                OutcomeModel::Done(Ok(TaskValueModel::Text(local_feimo_dir))),
                OutcomeModel::Emitted(Ok(())),
                OutcomeModel::Emitted(Ok(())),
                OutcomeModel::Done(Ok(TaskValueModel::Prepared(release_tag, asset_name, extract_dir))),
                OutcomeModel::Emitted(Ok(())),
                OutcomeModel::Emitted(Ok(())),
                OutcomeModel::Done(Ok(TaskValueModel::Text(applied))),
                OutcomeModel::Emitted(Ok(())),
            ];
            let r = run(initial_model(WorkflowKind::Patch, target, version), os);
            &&& r.1.len() == 16
            &&& r.1[1] == ActionModel::Run(TaskModel::CheckSelfUpdate)
            &&& r.1[4] == ActionModel::Run(TaskModel::FindGameDir(target))
            &&& r.1[7] == ActionModel::Run(TaskModel::FindLocalFeimo(target))
            &&& r.1[10] == ActionModel::Run(TaskModel::PrepareBundle(target))
            &&& r.1[13] == ActionModel::Run(TaskModel::ApplyBundle(target, extract_dir, game_dir, local_feimo_dir))
            &&& r.0.phase == Phase::Announced
            &&& is_closing_stage(r.0)
            &&& r.0.kind == WorkflowKind::Patch
        }),
{
    let os = seq![
        OutcomeModel::Begin,
        OutcomeModel::Emitted(Ok(())),
        OutcomeModel::Checked(Ok(None)),
        OutcomeModel::Emitted(Ok(())),
        OutcomeModel::Emitted(Ok(())),
        OutcomeModel::Done(Ok(TaskValueModel::Text(game_dir))),
        OutcomeModel::Emitted(Ok(())),
        OutcomeModel::Emitted(Ok(())),
        OutcomeModel::Done(Ok(TaskValueModel::Text(local_feimo_dir))),
        OutcomeModel::Emitted(Ok(())),
        OutcomeModel::Emitted(Ok(())),
        OutcomeModel::Done(Ok(TaskValueModel::Prepared(release_tag, asset_name, extract_dir))),
        OutcomeModel::Emitted(Ok(())),
        OutcomeModel::Emitted(Ok(())),
        OutcomeModel::Done(Ok(TaskValueModel::Text(applied))),
        OutcomeModel::Emitted(Ok(())),
    ];
    let m0 = initial_model(WorkflowKind::Patch, target, version);
    assert(os.skip(0) =~= os);
    lemma_run_step(m0, os, 0);
    let m1 = next(m0, os[0]).0;
    let a0 = next(m0, os[0]).1;
    lemma_run_step(m1, os, 1);
    let m2 = next(m1, os[1]).0;
    let a1 = next(m1, os[1]).1;
    lemma_run_step(m2, os, 2);
    let m3 = next(m2, os[2]).0;
    let a2 = next(m2, os[2]).1;
    lemma_run_step(m3, os, 3);
    let m4 = next(m3, os[3]).0;
    let a3 = next(m3, os[3]).1;
    lemma_run_step(m4, os, 4);
    let m5 = next(m4, os[4]).0;
    let a4 = next(m4, os[4]).1;
    lemma_run_step(m5, os, 5);
    let m6 = next(m5, os[5]).0;
    let a5 = next(m5, os[5]).1;
    lemma_run_step(m6, os, 6);
    let m7 = next(m6, os[6]).0;
    let a6 = next(m6, os[6]).1;
    lemma_run_step(m7, os, 7);
    let m8 = next(m7, os[7]).0;
    let a7 = next(m7, os[7]).1;
    lemma_run_step(m8, os, 8);
    let m9 = next(m8, os[8]).0;
    let a8 = next(m8, os[8]).1;
    lemma_run_step(m9, os, 9);
    let m10 = next(m9, os[9]).0;
    let a9 = next(m9, os[9]).1;
    lemma_run_step(m10, os, 10);
    let m11 = next(m10, os[10]).0;
    let a10 = next(m10, os[10]).1;
    lemma_run_step(m11, os, 11);
    let m12 = next(m11, os[11]).0;
    let a11 = next(m11, os[11]).1;
    lemma_run_step(m12, os, 12);
    let m13 = next(m12, os[12]).0;
    let a12 = next(m12, os[12]).1;
    lemma_run_step(m13, os, 13);
    let m14 = next(m13, os[13]).0;
    let a13 = next(m13, os[13]).1;
    lemma_run_step(m14, os, 14);
    let m15 = next(m14, os[14]).0;
    let a14 = next(m14, os[14]).1;
    lemma_run_step(m15, os, 15);
    let m16 = next(m15, os[15]).0;
    let a15 = next(m15, os[15]).1;
    assert(os.skip(16) =~= Seq::<OutcomeModel>::empty());
    assert(run(m16, os.skip(16)).1 =~= Seq::<ActionModel>::empty());
    assert(run(m15, os.skip(15)).1 =~= seq![a15]);
    assert(run(m14, os.skip(14)).1 =~= seq![a14, a15]);
    assert(run(m13, os.skip(13)).1 =~= seq![a13, a14, a15]);
    assert(run(m12, os.skip(12)).1 =~= seq![a12, a13, a14, a15]);
    assert(run(m11, os.skip(11)).1 =~= seq![a11, a12, a13, a14, a15]);
    assert(run(m10, os.skip(10)).1 =~= seq![a10, a11, a12, a13, a14, a15]);
    assert(run(m9, os.skip(9)).1 =~= seq![a9, a10, a11, a12, a13, a14, a15]);
    assert(run(m8, os.skip(8)).1 =~= seq![a8, a9, a10, a11, a12, a13, a14, a15]);
    assert(run(m7, os.skip(7)).1 =~= seq![a7, a8, a9, a10, a11, a12, a13, a14, a15]);
    assert(run(m6, os.skip(6)).1 =~= seq![a6, a7, a8, a9, a10, a11, a12, a13, a14, a15]);
    assert(run(m5, os.skip(5)).1 =~= seq![a5, a6, a7, a8, a9, a10, a11, a12, a13, a14, a15]);
    assert(run(m4, os.skip(4)).1 =~= seq![a4, a5, a6, a7, a8, a9, a10, a11, a12, a13, a14, a15]);
    assert(run(m3, os.skip(3)).1 =~= seq![a3, a4, a5, a6, a7, a8, a9, a10, a11, a12, a13, a14, a15]);
    assert(run(m2, os.skip(2)).1 =~= seq![a2, a3, a4, a5, a6, a7, a8, a9, a10, a11, a12, a13, a14, a15]);
    assert(run(m1, os.skip(1)).1 =~= seq![a1, a2, a3, a4, a5, a6, a7, a8, a9, a10, a11, a12, a13, a14, a15]);
    assert(run(m0, os.skip(0)).1 =~= seq![a0, a1, a2, a3, a4, a5, a6, a7, a8, a9, a10, a11, a12, a13, a14, a15]);
    assert(a1 == ActionModel::Run(TaskModel::CheckSelfUpdate));
    assert(a4 == ActionModel::Run(TaskModel::FindGameDir(target)));
    assert(a7 == ActionModel::Run(TaskModel::FindLocalFeimo(target)));
    assert(a10 == ActionModel::Run(TaskModel::PrepareBundle(target)));
    assert(a13 == ActionModel::Run(TaskModel::ApplyBundle(target, extract_dir, game_dir, local_feimo_dir)));
}

/// A remove workflow for `target` whose every step succeeds: it finds the
/// local download directory of `target`, fetches `target`'s removal rules,
/// deletes the roots they name from that directory, and reaches its closing
/// step holding the removal report.
#[verifier::spinoff_prover]
#[verifier::rlimit(60)]
pub proof fn lemma_remove_run(
    target: Seq<char>,
    local_feimo_dir: Seq<char>,
    root_ids: Seq<Seq<char>>,
    report: Seq<char>,
)
    ensures
        ({
            let os = seq![
                OutcomeModel::Begin,
                OutcomeModel::Emitted(Ok(())),
                OutcomeModel::Done(Ok(TaskValueModel::Text(local_feimo_dir))),
                OutcomeModel::Emitted(Ok(())),
                OutcomeModel::Emitted(Ok(())),
                OutcomeModel::Done(Ok(TaskValueModel::RootIds(root_ids))),
                OutcomeModel::Emitted(Ok(())),
                OutcomeModel::Emitted(Ok(())),
                OutcomeModel::Done(Ok(TaskValueModel::Text(report))),
                OutcomeModel::Emitted(Ok(())),
            ];
            let r = run(initial_model(WorkflowKind::Remove, target, Seq::empty()), os);
            &&& r.1.len() == 10
            &&& r.1[1] == ActionModel::Run(TaskModel::FindLocalFeimo(target))
            &&& r.1[4] == ActionModel::Run(TaskModel::FetchRootIds(target))
            &&& r.1[7] == ActionModel::Run(TaskModel::RemoveRoots(local_feimo_dir, root_ids))
            &&& r.0.phase == Phase::Announced
            &&& is_closing_stage(r.0)
            &&& r.0.kind == WorkflowKind::Remove
            &&& r.0.removal_detail == report
        }),
{
    let os = seq![
        OutcomeModel::Begin,
        OutcomeModel::Emitted(Ok(())),
        OutcomeModel::Done(Ok(TaskValueModel::Text(local_feimo_dir))),
        OutcomeModel::Emitted(Ok(())),
        OutcomeModel::Emitted(Ok(())),
        OutcomeModel::Done(Ok(TaskValueModel::RootIds(root_ids))),
        OutcomeModel::Emitted(Ok(())),
        OutcomeModel::Emitted(Ok(())),
        OutcomeModel::Done(Ok(TaskValueModel::Text(report))),
        OutcomeModel::Emitted(Ok(())),
    ];
    let m0 = initial_model(WorkflowKind::Remove, target, Seq::empty());
    assert(os.skip(0) =~= os);
    lemma_run_step(m0, os, 0);
    let m1 = next(m0, os[0]).0;
    let a0 = next(m0, os[0]).1;
    lemma_run_step(m1, os, 1);
    let m2 = next(m1, os[1]).0;
    let a1 = next(m1, os[1]).1;
    lemma_run_step(m2, os, 2);
    let m3 = next(m2, os[2]).0;
    let a2 = next(m2, os[2]).1;
    lemma_run_step(m3, os, 3);
    let m4 = next(m3, os[3]).0;
    let a3 = next(m3, os[3]).1;
    lemma_run_step(m4, os, 4);
    let m5 = next(m4, os[4]).0;
    let a4 = next(m4, os[4]).1;
    lemma_run_step(m5, os, 5);
    let m6 = next(m5, os[5]).0;
    let a5 = next(m5, os[5]).1;
    lemma_run_step(m6, os, 6);
    let m7 = next(m6, os[6]).0;
    let a6 = next(m6, os[6]).1;
    lemma_run_step(m7, os, 7);
    let m8 = next(m7, os[7]).0;
    let a7 = next(m7, os[7]).1;
    lemma_run_step(m8, os, 8);
    let m9 = next(m8, os[8]).0;
    let a8 = next(m8, os[8]).1;
    lemma_run_step(m9, os, 9);
    let m10 = next(m9, os[9]).0;
    let a9 = next(m9, os[9]).1;
    assert(os.skip(10) =~= Seq::<OutcomeModel>::empty());
    assert(run(m10, os.skip(10)).1 =~= Seq::<ActionModel>::empty());
    assert(run(m9, os.skip(9)).1 =~= seq![a9]);
    assert(run(m8, os.skip(8)).1 =~= seq![a8, a9]);
    assert(run(m7, os.skip(7)).1 =~= seq![a7, a8, a9]);
    assert(run(m6, os.skip(6)).1 =~= seq![a6, a7, a8, a9]);
    assert(run(m5, os.skip(5)).1 =~= seq![a5, a6, a7, a8, a9]);
    assert(run(m4, os.skip(4)).1 =~= seq![a4, a5, a6, a7, a8, a9]);
    assert(run(m3, os.skip(3)).1 =~= seq![a3, a4, a5, a6, a7, a8, a9]);
    assert(run(m2, os.skip(2)).1 =~= seq![a2, a3, a4, a5, a6, a7, a8, a9]);
    assert(run(m1, os.skip(1)).1 =~= seq![a1, a2, a3, a4, a5, a6, a7, a8, a9]);
    assert(run(m0, os.skip(0)).1 =~= seq![a0, a1, a2, a3, a4, a5, a6, a7, a8, a9]);
    assert(a1 == ActionModel::Run(TaskModel::FindLocalFeimo(target)));
    assert(a4 == ActionModel::Run(TaskModel::FetchRootIds(target)));
    assert(a7 == ActionModel::Run(TaskModel::RemoveRoots(local_feimo_dir, root_ids)));
}

/// An install whose every step succeeds, without an update: it checks for an
/// update, cleans up the first version, installs the running executable,
/// registers the protocol for the executable it installed, and ends well.
#[verifier::spinoff_prover]
#[verifier::rlimit(60)]
pub proof fn lemma_install_run(
    version: Seq<char>,
    cleanup_report: Seq<char>,
    installed_exe: Seq<char>,
    install_detail: Seq<char>,
    registration_detail: Seq<char>,
)
    ensures
        ({
            let os = seq![
                OutcomeModel::Begin,
                OutcomeModel::Emitted(Ok(())),
                OutcomeModel::Checked(Ok(None)),
                OutcomeModel::Emitted(Ok(())),
                OutcomeModel::Emitted(Ok(())),
                OutcomeModel::Done(Ok(TaskValueModel::Text(cleanup_report))),
                OutcomeModel::Emitted(Ok(())),
                OutcomeModel::Emitted(Ok(())),
                OutcomeModel::Done(Ok(TaskValueModel::Relocated(installed_exe, install_detail))),
                OutcomeModel::Emitted(Ok(())),
                OutcomeModel::Emitted(Ok(())),
                OutcomeModel::Done(Ok(TaskValueModel::Text(registration_detail))),
                OutcomeModel::Emitted(Ok(())),
                OutcomeModel::Emitted(Ok(())),
                OutcomeModel::Emitted(Ok(())),
            ];
            let r = run(initial_model(WorkflowKind::Install, Seq::empty(), version), os);
            &&& r.1.len() == 15
            &&& r.1[1] == ActionModel::Run(TaskModel::CheckSelfUpdate)
            &&& r.1[4] == ActionModel::Run(TaskModel::CleanupLegacy)
            &&& r.1[7] == ActionModel::Run(TaskModel::RelocateRuntime)
            &&& r.1[10] == ActionModel::Run(TaskModel::RegisterProtocol(installed_exe))
            &&& r.1[14] == ActionModel::Finish(Ok(()))
            &&& r.0.phase == Phase::Finished
        }),
{
    let os = seq![
        OutcomeModel::Begin,
        OutcomeModel::Emitted(Ok(())),
        OutcomeModel::Checked(Ok(None)),
        OutcomeModel::Emitted(Ok(())),
        OutcomeModel::Emitted(Ok(())),
        OutcomeModel::Done(Ok(TaskValueModel::Text(cleanup_report))),
        OutcomeModel::Emitted(Ok(())),
        OutcomeModel::Emitted(Ok(())),
        OutcomeModel::Done(Ok(TaskValueModel::Relocated(installed_exe, install_detail))),
        OutcomeModel::Emitted(Ok(())),
        OutcomeModel::Emitted(Ok(())),
        OutcomeModel::Done(Ok(TaskValueModel::Text(registration_detail))),
        OutcomeModel::Emitted(Ok(())),
        OutcomeModel::Emitted(Ok(())),
        OutcomeModel::Emitted(Ok(())),
    ];
    let m0 = initial_model(WorkflowKind::Install, Seq::empty(), version);
    assert(os.skip(0) =~= os);
    lemma_run_step(m0, os, 0);
    let m1 = next(m0, os[0]).0;
    let a0 = next(m0, os[0]).1;
    lemma_run_step(m1, os, 1);
    let m2 = next(m1, os[1]).0;
    let a1 = next(m1, os[1]).1;
    lemma_run_step(m2, os, 2);
    let m3 = next(m2, os[2]).0;
    let a2 = next(m2, os[2]).1;
    lemma_run_step(m3, os, 3);
    let m4 = next(m3, os[3]).0;
    let a3 = next(m3, os[3]).1;
    lemma_run_step(m4, os, 4);
    let m5 = next(m4, os[4]).0;
    let a4 = next(m4, os[4]).1;
    lemma_run_step(m5, os, 5);
    let m6 = next(m5, os[5]).0;
    let a5 = next(m5, os[5]).1;
    lemma_run_step(m6, os, 6);
    let m7 = next(m6, os[6]).0;
    let a6 = next(m6, os[6]).1;
    lemma_run_step(m7, os, 7);
    let m8 = next(m7, os[7]).0;
    let a7 = next(m7, os[7]).1;
    lemma_run_step(m8, os, 8);
    let m9 = next(m8, os[8]).0;
    let a8 = next(m8, os[8]).1;
    lemma_run_step(m9, os, 9);
    let m10 = next(m9, os[9]).0;
    let a9 = next(m9, os[9]).1;
    lemma_run_step(m10, os, 10);
    let m11 = next(m10, os[10]).0;
    let a10 = next(m10, os[10]).1;
    lemma_run_step(m11, os, 11);
    let m12 = next(m11, os[11]).0;
    let a11 = next(m11, os[11]).1;
    lemma_run_step(m12, os, 12);
    let m13 = next(m12, os[12]).0;
    let a12 = next(m12, os[12]).1;
    lemma_run_step(m13, os, 13);
    let m14 = next(m13, os[13]).0;
    let a13 = next(m13, os[13]).1;
    lemma_run_step(m14, os, 14);
    let m15 = next(m14, os[14]).0;
    let a14 = next(m14, os[14]).1;
    assert(os.skip(15) =~= Seq::<OutcomeModel>::empty());
    assert(run(m15, os.skip(15)).1 =~= Seq::<ActionModel>::empty());
    assert(run(m14, os.skip(14)).1 =~= seq![a14]);
    assert(run(m13, os.skip(13)).1 =~= seq![a13, a14]);
    assert(run(m12, os.skip(12)).1 =~= seq![a12, a13, a14]);
    assert(run(m11, os.skip(11)).1 =~= seq![a11, a12, a13, a14]);
    assert(run(m10, os.skip(10)).1 =~= seq![a10, a11, a12, a13, a14]);
    assert(run(m9, os.skip(9)).1 =~= seq![a9, a10, a11, a12, a13, a14]);
    assert(run(m8, os.skip(8)).1 =~= seq![a8, a9, a10, a11, a12, a13, a14]);
    assert(run(m7, os.skip(7)).1 =~= seq![a7, a8, a9, a10, a11, a12, a13, a14]);
    assert(run(m6, os.skip(6)).1 =~= seq![a6, a7, a8, a9, a10, a11, a12, a13, a14]);
    assert(run(m5, os.skip(5)).1 =~= seq![a5, a6, a7, a8, a9, a10, a11, a12, a13, a14]);
    assert(run(m4, os.skip(4)).1 =~= seq![a4, a5, a6, a7, a8, a9, a10, a11, a12, a13, a14]);
    assert(run(m3, os.skip(3)).1 =~= seq![a3, a4, a5, a6, a7, a8, a9, a10, a11, a12, a13, a14]);
    assert(run(m2, os.skip(2)).1 =~= seq![a2, a3, a4, a5, a6, a7, a8, a9, a10, a11, a12, a13, a14]);
    assert(run(m1, os.skip(1)).1 =~= seq![a1, a2, a3, a4, a5, a6, a7, a8, a9, a10, a11, a12, a13, a14]);
    assert(run(m0, os.skip(0)).1 =~= seq![a0, a1, a2, a3, a4, a5, a6, a7, a8, a9, a10, a11, a12, a13, a14]);
    assert(a1 == ActionModel::Run(TaskModel::CheckSelfUpdate));
    assert(a4 == ActionModel::Run(TaskModel::CleanupLegacy));
    assert(a7 == ActionModel::Run(TaskModel::RelocateRuntime));
    assert(a10 == ActionModel::Run(TaskModel::RegisterProtocol(installed_exe)));
    assert(a14 == ActionModel::Finish(Ok(())));
}

fn text3(a: &str, b: &str, c: &str) -> (r: String)
    ensures
        r@ == a@ + b@ + c@,
{
    let mut r = owned(a);
    append_str(&mut r, b);
    append_str(&mut r, c);
    r
}

impl Workflow {
    fn new(kind: WorkflowKind, target: String, version: String) -> (w: Workflow)
        ensures
            w@ == initial_model(kind, target@, version@),
    {
        let w = Workflow {
            kind,
            target,
            version,
            stage: 1,
            phase: Phase::Start,
            countdown: 0,
            pending_error: String::new(),
            update_exe: String::new(),
            game_dir: String::new(),
            local_feimo_dir: String::new(),
            extract_dir: String::new(),
            safe_exe: String::new(),
            root_ids: Vec::new(),
            removal_detail: String::new(),
            last_progress: 0,
        };
        assert(w@.root_ids =~= Seq::<Seq<char>>::empty());
        w
    }

    /// The install workflow of the running `version`.
    pub fn install(version: String) -> (w: Workflow)
        ensures
            w@ == initial_model(WorkflowKind::Install, Seq::empty(), version@),
            wf(w@),
    {
        Workflow::new(WorkflowKind::Install, String::new(), version)
    }

    /// The patch workflow for `target`, of the running `version`.
    pub fn patch(target: String, version: String) -> (w: Workflow)
        ensures
            w@ == initial_model(WorkflowKind::Patch, target@, version@),
            wf(w@),
    {
        Workflow::new(WorkflowKind::Patch, target, version)
    }

    /// The remove workflow for `target`.
    pub fn remove(target: String) -> (w: Workflow)
        ensures
            w@ == initial_model(WorkflowKind::Remove, target@, Seq::empty()),
            wf(w@),
    {
        Workflow::new(WorkflowKind::Remove, target, String::new())
    }

    /// Whether the workflow is over.
    pub fn is_finished(&self) -> (b: bool)
        ensures
            b == (self@.phase == Phase::Finished),
    {
        self.phase == Phase::Finished
    }

    /// Whether `outcome` answers the action the workflow handed out last.
    pub fn accepts(&self, outcome: &Outcome) -> (b: bool)
        ensures
            b == accepts(self@, outcome@),
    {
        match self.phase {
            Phase::Start => matches!(outcome, Outcome::Begin),
            Phase::Announced | Phase::Concluding | Phase::Failing | Phase::Updating | Phase::Counting => matches!(
                outcome,
                Outcome::Emitted(_)
            ),
            Phase::Working => {
                if self.kind != WorkflowKind::Remove && self.stage == 1 {
                    matches!(outcome, Outcome::Checked(_))
                } else {
                    match outcome {
                        Outcome::Done(Ok(v)) => {
                            let t = self.task();
                            match t {
                                Task::RelocateRuntime => matches!(v, TaskValue::Relocated { .. }),
                                Task::PrepareBundle { .. } => matches!(v, TaskValue::Prepared { .. }),
                                Task::FetchRootIds { .. } => matches!(v, TaskValue::RootIds(_)),
                                _ => matches!(v, TaskValue::Text(_)),
                            }
                        },
                        Outcome::Done(Err(_)) => true,
                        _ => false,
                    }
                }
            },
            Phase::Relaunching => matches!(outcome, Outcome::Relaunched(_)),
            Phase::Sleeping => matches!(outcome, Outcome::Slept),
            Phase::Exiting => matches!(outcome, Outcome::Exited),
            Phase::Finished => false,
        }
    }

    /// The task of the current step.
    fn task(&self) -> (t: Task)
        ensures
            t@ == task_spec(self@),
    {
        match self.kind {
            WorkflowKind::Install => if self.stage == 1 {
                Task::CheckSelfUpdate
            } else if self.stage == 2 {
                Task::CleanupLegacy
            } else if self.stage == 3 {
                Task::RelocateRuntime
            } else {
                Task::RegisterProtocol { exe_path: self.safe_exe.clone() }
            },
            WorkflowKind::Patch => if self.stage == 1 {
                Task::CheckSelfUpdate
            } else if self.stage == 2 {
                Task::FindGameDir { target: self.target.clone() }
            } else if self.stage == 3 {
                Task::FindLocalFeimo { target: self.target.clone() }
            } else if self.stage == 4 {
                Task::PrepareBundle { target: self.target.clone() }
            } else {
                Task::ApplyBundle {
                    target: self.target.clone(),
                    extract_dir: self.extract_dir.clone(),
                    game_dir: self.game_dir.clone(),
                    local_feimo_dir: self.local_feimo_dir.clone(),
                }
            },
            WorkflowKind::Remove => if self.stage == 1 {
                Task::FindLocalFeimo { target: self.target.clone() }
            } else if self.stage == 2 {
                Task::FetchRootIds { target: self.target.clone() }
            } else {
                let ids = self.root_ids.clone();
                assert(ids.deep_view() =~= self.root_ids.deep_view());
                Task::RemoveRoots { local_feimo_dir: self.local_feimo_dir.clone(), root_ids: ids }
            },
        }
    }

    /// Sends an event of the current step and records its progress.
    fn send(&mut self, state: &str, message: &str, detail: Option<String>, progress: u8) -> (a: Action)
        ensures
            final(self)@ == (WorkflowModel { last_progress: progress, ..old(self)@ }),
            a@ == event(
                old(self)@.stage,
                stage_spec(old(self)@.kind, old(self)@.stage).title,
                state@,
                message@,
                detail.deep_view(),
                progress,
            ),
    {
        let t = stage_text(self.kind, self.stage);
        self.last_progress = progress;
        Action::Emit(
            PatchEvent {
                step_index: self.stage,
                title: owned(t.title),
                state: owned(state),
                message: owned(message),
                detail,
                progress,
            },
        )
    }

    fn countdown_detail(&self, n: u64) -> (d: String)
        ensures
            ({
                let left = decimal_seq(n as nat) + "초 후 프로그램이 자동으로 종료됩니다."@;
                d@ == if self@.kind == WorkflowKind::Remove {
                    self@.removal_detail + "\n\n"@ + left
                } else {
                    left
                }
            }),
    {
        let n_text = decimal_string(n);
        let left = text3("", n_text.as_str(), "초 후 프로그램이 자동으로 종료됩니다.");
        proof {
            reveal_strlit("");
            assert(""@ + n_text@ =~= n_text@);
        }
        if self.kind == WorkflowKind::Remove {
            text3(self.removal_detail.as_str(), "\n\n", left.as_str())
        } else {
            left
        }
    }
}


impl Workflow {
    fn finish_with(&mut self, r: Result<(), String>) -> (a: Action)
        ensures
            (final(self)@, a@) == finish(old(self)@, unit_result(r)),
    {
        self.phase = Phase::Finished;
        Action::Finish(r)
    }

    /// Sends the "current" event of the step the workflow stands at.
    fn announce(&mut self) -> (a: Action)
        requires
            old(self).phase == Phase::Announced,
        ensures
            (final(self)@, a@) == sending(old(self)@, current_event(old(self)@)),
    {
        let t = stage_text(self.kind, self.stage);
        self.send("current", t.current, None, t.start)
    }

    /// Takes the outcome of the last action and decides the next one.
    pub fn step(&mut self, outcome: Outcome) -> (a: Action)
        requires
            wf(old(self)@),
            accepts(old(self)@, outcome@),
        ensures
            (final(self)@, a@) == next(old(self)@, outcome@),
            wf(final(self)@),
    {
        proof {
            lemma_next_keeps_wf(self@, outcome@);
        }
        let ghost m = self@;
        match (self.phase, outcome) {
            (Phase::Start, _) => {
                self.phase = Phase::Announced;
                self.announce()
            },
            (_, Outcome::Emitted(Err(e))) => self.finish_with(Err(e)),
            (Phase::Announced, _) => {
                let t = stage_text(self.kind, self.stage);
                let closing = (self.kind == WorkflowKind::Install && self.stage == 5) || (self.kind
                    == WorkflowKind::Patch && self.stage == 6) || (self.kind == WorkflowKind::Remove
                    && self.stage == 4);
                if closing {
                    if self.kind == WorkflowKind::Install {
                        self.phase = Phase::Concluding;
                        self.send(
                            "done",
                            t.done,
                            Some(owned("astral.maynutlab.com에 접속해 자동 패치를 진행할 수 있습니다.")),
                            t.end,
                        )
                    } else {
                        self.phase = Phase::Counting;
                        self.countdown = 10;
                        let d = self.countdown_detail(10);
                        self.send("done", t.done, Some(d), 100)
                    }
                } else {
                    self.phase = Phase::Working;
                    Action::Run(self.task())
                }
            },
            (Phase::Working, Outcome::Checked(Err(e))) => self.finish_with(Err(e)),
            (Phase::Working, Outcome::Checked(Ok(None))) => {
                let t = stage_text(self.kind, self.stage);
                self.phase = Phase::Concluding;
                let d = text3("v", self.version.as_str(), "");
                proof {
                    reveal_strlit("");
                    assert("v"@ + self.version@ + ""@ =~= "v"@ + self.version@);
                }
                self.send("done", t.done, Some(d), t.end)
            },
            (Phase::Working, Outcome::Checked(Ok(Some(plan)))) => {
                let t = stage_text(self.kind, self.stage);
                let mut d = text3("v", self.version.as_str(), " -> v");
                append_str(&mut d, plan.latest_version.as_str());
                self.phase = Phase::Updating;
                self.update_exe = plan.exe_path;
                if self.kind == WorkflowKind::Install {
                    append_str(&mut d, "\n프로그램을 신규 버전으로 재시작합니다.");
                    self.send("done", "신규 버전 확인. 업데이트를 시작합니다.", Some(d), t.end)
                } else {
                    append_str(&mut d, "\n새 버전 실행 후 패치 작업(");
                    append_str(&mut d, self.target.as_str());
                    append_str(&mut d, ")을 이어갑니다.");
                    self.send("done", "신규 버전을 확인해 업데이트를 시작합니다.", Some(d), t.end)
                }
            },
            (Phase::Working, Outcome::Done(Err(msg))) => {
                let t = stage_text(self.kind, self.stage);
                self.phase = Phase::Failing;
                let shown = msg.clone();
                self.pending_error = msg;
                self.send("error", t.error, Some(shown), t.start)
            },
            (Phase::Working, Outcome::Done(Ok(v))) => {
                let t = stage_text(self.kind, self.stage);
                let ghost task = task_spec(m);
                let ghost vm = v@;
                let detail = match v {
                    TaskValue::Text(text) => {
                        let shown = text.clone();
                        if self.kind == WorkflowKind::Patch && self.stage == 2 {
                            self.game_dir = text;
                        } else if (self.kind == WorkflowKind::Patch && self.stage == 3) || (self.kind
                            == WorkflowKind::Remove && self.stage == 1) {
                            self.local_feimo_dir = text;
                        } else if self.kind == WorkflowKind::Remove && self.stage == 3 {
                            self.removal_detail = text;
                        }
                        shown
                    },
                    TaskValue::Relocated { exe_path, detail } => {
                        self.safe_exe = exe_path;
                        detail
                    },
                    TaskValue::Prepared { release_tag, asset_name, extract_dir } => {
                        self.extract_dir = extract_dir;
                        prepared_patch_detail(release_tag.as_str(), asset_name.as_str())
                    },
                    TaskValue::RootIds(ids) => {
                        let n = decimal_string(ids.len() as u64);
                        let d = text3("AssetBundles 대상 root_id ", n.as_str(), "개");
                        self.root_ids = ids;
                        d
                    },
                };
                self.phase = Phase::Concluding;
                proof {
                    assert(self@ == with_phase(record_value(m, task, vm), Phase::Concluding));
                }
                self.send("done", t.done, Some(detail), t.end)
            },
            (Phase::Concluding, _) => {
                let closing = (self.kind == WorkflowKind::Install && self.stage == 5) || (self.kind
                    == WorkflowKind::Patch && self.stage == 6) || (self.kind == WorkflowKind::Remove
                    && self.stage == 4);
                if closing {
                    self.finish_with(Ok(()))
                } else {
                    self.phase = Phase::Announced;
                    self.stage = self.stage + 1;
                    self.announce()
                }
            },
            (Phase::Failing, _) => {
                let e = self.pending_error.clone();
                self.finish_with(Err(e))
            },
            (Phase::Updating, _) => {
                self.phase = Phase::Relaunching;
                let resume_target = if self.kind == WorkflowKind::Patch {
                    Some(self.target.clone())
                } else {
                    None
                };
                Action::Relaunch { exe_path: self.update_exe.clone(), resume_target }
            },
            (Phase::Relaunching, Outcome::Relaunched(r)) => self.finish_with(r),
            (Phase::Counting, _) => {
                self.phase = Phase::Sleeping;
                Action::Sleep
            },
            (Phase::Sleeping, _) => {
                if self.countdown > 1 {
                    let t = stage_text(self.kind, self.stage);
                    self.phase = Phase::Counting;
                    self.countdown = self.countdown - 1;
                    let d = self.countdown_detail(self.countdown);
                    self.send("done", t.done, Some(d), 100)
                } else {
                    self.phase = Phase::Exiting;
                    let log_message = if self.kind == WorkflowKind::Remove {
                        owned("제거 작업이 완료되어 10초 후 프로그램을 자동 종료합니다.")
                    } else {
                        owned("패치 작업이 완료되어 10초 후 프로그램을 자동 종료합니다.")
                    };
                    Action::Exit { log_message }
                }
            },
            (Phase::Exiting, _) => self.finish_with(Ok(())),
            _ => Action::Finish(Ok(())),
        }
    }
}

} // verus!
