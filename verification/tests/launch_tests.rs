use astral_auto_patcher::error::PatcherError;
use astral_auto_patcher::launch::parse_launch_context;

fn args(list: &[&str]) -> Vec<String> {
    list.iter().map(|s| s.to_string()).collect()
}

#[test]
fn no_arguments_means_install() {
    let c = parse_launch_context(&args(&["patcher.exe"])).ok().unwrap();
    assert_eq!(c.mode, "install");
    assert_eq!(c.target, "INT_STEAM");
    assert_eq!(c.protocol_arg, None);
    let empty = parse_launch_context(&Vec::new()).ok().unwrap();
    assert_eq!(empty.mode, "install");
}

#[test]
fn protocol_patch_route() {
    let c = parse_launch_context(&args(&["patcher.exe", "astral://patch/int_steam/"])).ok().unwrap();
    assert_eq!(c.mode, "patch");
    assert_eq!(c.target, "INT_STEAM");
    assert_eq!(c.protocol_arg, Some("astral://patch/int_steam/".to_string()));
}

#[test]
fn protocol_remove_route_stops_at_query() {
    let c = parse_launch_context(&args(&["p", "astral://remove/CN_BILIBILI?x=1#y"])).ok().unwrap();
    assert_eq!(c.mode, "remove");
    assert_eq!(c.target, "CN_BILIBILI");
}

#[test]
fn protocol_route_without_target_is_blank() {
    let e = parse_launch_context(&args(&["p", "astral://patch/"])).err().unwrap();
    assert!(matches!(e, PatcherError::EmptyPatchTarget));
}

#[test]
fn protocol_with_unknown_mode_is_refused() {
    match parse_launch_context(&args(&["p", "astral://update/INT_STEAM"])) {
        Err(PatcherError::InvalidProtocolRoute(a)) => assert_eq!(a, "astral://update/INT_STEAM"),
        _ => panic!("expected an invalid route"),
    }
    let e = parse_launch_context(&args(&["p", "astral://x"])).err().unwrap();
    assert_eq!(
        e.message(),
        "잘못된 프로토콜 실행 경로입니다.\nastral://x\n지원 형식: astral://patch/<TARGET> 또는 astral://remove/<TARGET>\nTARGET: INT_STEAM, CN_BILIBILI"
    );
}

#[test]
fn resume_flags_win_over_protocol_arguments() {
    let c = parse_launch_context(&args(&["p", "astral://remove/INT_STEAM", "--resume-install"])).ok().unwrap();
    assert_eq!(c.mode, "install");
    assert_eq!(c.protocol_arg, None);
    let d = parse_launch_context(&args(&["p", "--resume-patch", "cn_bilibili", "astral://remove/INT_STEAM"]))
        .ok()
        .unwrap();
    assert_eq!(d.mode, "patch");
    assert_eq!(d.target, "CN_BILIBILI");
    assert_eq!(d.protocol_arg, None);
}

#[test]
fn resume_patch_needs_a_target() {
    let e = parse_launch_context(&args(&["p", "--resume-patch"])).err().unwrap();
    assert!(matches!(e, PatcherError::MissingResumeTarget));
    assert_eq!(
        e.message(),
        "재개 패치 실행 인자에 대상(route)이 없습니다.\n지원 형식: --resume-patch <TARGET>"
    );
}

#[test]
fn program_name_is_not_a_resume_flag_but_may_be_a_protocol_arg() {
    let c = parse_launch_context(&args(&["--resume-install", "x"])).ok().unwrap();
    assert_eq!(c.mode, "install");
    let d = parse_launch_context(&args(&["astral://patch/INT_STEAM"])).ok().unwrap();
    assert_eq!(d.mode, "patch");
}

#[test]
fn first_protocol_argument_decides() {
    let c = parse_launch_context(&args(&["p", "astral://remove/INT_STEAM", "astral://patch/CN_BILIBILI"]))
        .ok()
        .unwrap();
    assert_eq!(c.mode, "remove");
    assert_eq!(c.target, "INT_STEAM");
}

#[test]
fn resume_arguments_resume_the_same_work() {
    let mut a = vec!["C:\\Temp\\AstralAutoPatcher.exe".to_string()];
    a.extend(astral_auto_patcher::install::resume_args(Some("CN_BILIBILI")));
    let c = parse_launch_context(&a).ok().unwrap();
    assert_eq!((c.mode.as_str(), c.target.as_str(), c.protocol_arg), ("patch", "CN_BILIBILI", None));
    let mut b = vec!["p".to_string()];
    b.extend(astral_auto_patcher::install::resume_args(None));
    let d = parse_launch_context(&b).ok().unwrap();
    assert_eq!((d.mode.as_str(), d.target.as_str()), ("install", "INT_STEAM"));
}

#[test]
fn protocol_route_law_fails_when_program_name_is_a_link() {
    let c = parse_launch_context(&args(&["astral://remove/INT_STEAM", "astral://patch/CN_BILIBILI"])).ok().unwrap();
    assert_eq!(c.mode, "remove");
}
