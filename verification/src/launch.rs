//! How the patcher decides, from its command line, what it was launched to do.
use vstd::prelude::*;
use crate::error::{PatcherError, PatcherErrorModel};
use crate::target::{
    cn_bilibili, int_steam, is_supported_target, lemma_resolve_supported_is_identity, resolve_patch_target,
    resolve_target_spec,
};
use crate::text::{chars_of, owned, starts_with, string_from_range, text_eq};

verus! {

/// What the patcher was launched to do: `install`, `patch` or `remove`, for which
/// target, and the `astral://` argument that asked for it, if any.
pub struct LaunchContext {
    pub mode: String,
    pub target: String,
    pub protocol_arg: Option<String>,
}

/// The abstract value of a [`LaunchContext`].
pub struct LaunchContextModel {
    pub mode: Seq<char>,
    pub target: Seq<char>,
    pub protocol_arg: Option<Seq<char>>,
}

impl View for LaunchContext {
    type V = LaunchContextModel;

    open spec fn view(&self) -> LaunchContextModel {
        LaunchContextModel {
            mode: self.mode@,
            target: self.target@,
            protocol_arg: self.protocol_arg.deep_view(),
        }
    }
}

pub open spec fn resume_install_flag() -> Seq<char> {
    "--resume-install"@
}

pub open spec fn resume_patch_flag() -> Seq<char> {
    "--resume-patch"@
}

pub open spec fn protocol_prefix() -> Seq<char> {
    "astral://"@
}

pub open spec fn patch_route_prefix() -> Seq<char> {
    "astral://patch/"@
}

pub open spec fn remove_route_prefix() -> Seq<char> {
    "astral://remove/"@
}

/// The index of the first resume flag at or after `i`.
pub open spec fn first_resume_flag(args: Seq<Seq<char>>, i: int) -> Option<int>
    decreases args.len() - i,
{
    if i < 0 || i >= args.len() {
        None
    } else if args[i] == resume_install_flag() || args[i] == resume_patch_flag() {
        Some(i)
    } else {
        first_resume_flag(args, i + 1)
    }
}

/// The index of the first `astral://` argument at or after `i`.
pub open spec fn first_protocol_arg(args: Seq<Seq<char>>, i: int) -> Option<int>
    decreases args.len() - i,
{
    if i < 0 || i >= args.len() {
        None
    } else if protocol_prefix().is_prefix_of(args[i]) {
        Some(i)
    } else {
        first_protocol_arg(args, i + 1)
    }
}

/// Characters that end the target segment of a protocol route.
pub open spec fn is_route_separator(c: char) -> bool {
    c == '/' || c == '?' || c == '#'
}

/// The text up to the first route separator.
pub open spec fn route_segment(s: Seq<char>) -> Seq<char>
    decreases s.len(),
{
    if s.len() == 0 || is_route_separator(s[0]) {
        Seq::empty()
    } else {
        seq![s[0]] + route_segment(s.drop_first())
    }
}

pub open spec fn context_model(mode: Seq<char>, target: Seq<char>, protocol_arg: Option<Seq<char>>) -> LaunchContextModel {
    LaunchContextModel { mode, target, protocol_arg }
}

/// A context in `mode` for the resolved target, or the resolution's error.
pub open spec fn with_target(
    resolved: Result<Seq<char>, PatcherErrorModel>,
    mode: Seq<char>,
    protocol_arg: Option<Seq<char>>,
) -> Result<LaunchContextModel, PatcherErrorModel> {
    match resolved {
        Ok(t) => Ok(context_model(mode, t, protocol_arg)),
        Err(e) => Err(e),
    }
}

/// What the protocol argument `a` asks for.
pub open spec fn protocol_launch(a: Seq<char>) -> Result<LaunchContextModel, PatcherErrorModel> {
    if patch_route_prefix().is_prefix_of(a) {
        with_target(
            resolve_target_spec(Some(route_segment(a.skip(patch_route_prefix().len() as int)))),
            "patch"@,
            Some(a),
        )
    } else if remove_route_prefix().is_prefix_of(a) {
        with_target(
            resolve_target_spec(Some(route_segment(a.skip(remove_route_prefix().len() as int)))),
            "remove"@,
            Some(a),
        )
    } else {
        Err(PatcherErrorModel::InvalidProtocolRoute(a))
    }
}

/// The launch decision for the command line `args` (program name first):
/// a resume flag after the program name wins, then the first `astral://`
/// argument, and otherwise the program installs itself.
pub open spec fn launch_spec(args: Seq<Seq<char>>) -> Result<LaunchContextModel, PatcherErrorModel> {
    match first_resume_flag(args, 1) {
        Some(j) => if args[j] == resume_install_flag() {
            Ok(context_model("install"@, int_steam(), None))
        } else if j + 1 < args.len() {
            with_target(resolve_target_spec(Some(args[j + 1])), "patch"@, None)
        } else {
            Err(PatcherErrorModel::MissingResumeTarget)
        },
        None => match first_protocol_arg(args, 0) {
            Some(k) => protocol_launch(args[k]),
            None => Ok(context_model("install"@, int_steam(), None)),
        },
    }
}

/// The abstract value of a launch decision.
pub open spec fn launch_result(r: Result<LaunchContext, PatcherError>) -> Result<LaunchContextModel, PatcherErrorModel> {
    match r {
        Ok(c) => Ok(c@),
        Err(e) => Err(e@),
    }
}

/// The target segment of a route: the text of `v[from..]` up to the first separator.
fn route_segment_from(v: &Vec<char>, from: usize) -> (r: String)
    requires
        from <= v.len(),
    ensures
        r@ == route_segment(v@.skip(from as int)),
{
    let mut end = from;
    while end < v.len() && !(v[end] == '/' || v[end] == '?' || v[end] == '#')
        invariant
            from <= end <= v.len(),
            route_segment(v@.skip(from as int)) == v@.subrange(from as int, end as int) + route_segment(
                v@.skip(end as int),
            ),
        decreases v.len() - end,
    {
        proof {
            let rest = v@.skip(end as int);
            assert(rest.drop_first() =~= v@.skip(end + 1));
            assert(v@.subrange(from as int, end + 1) =~= v@.subrange(from as int, end as int) + seq![
                rest[0],
            ]);
        }
        end += 1;
    }
    proof {
        let rest = v@.skip(end as int);
        assert(route_segment(rest) == Seq::<char>::empty());
    }
    string_from_range(v, from, end)
}

fn launch_in_mode(mode: &str, raw_target: &str, protocol_arg: Option<String>) -> (r: Result<LaunchContext, PatcherError>)
    ensures
        launch_result(r) == with_target(resolve_target_spec(Some(raw_target@)), mode@, protocol_arg.deep_view()),
{
    match resolve_patch_target(Some(raw_target)) {
        Ok(target) => Ok(LaunchContext { mode: owned(mode), target, protocol_arg }),
        Err(e) => Err(e),
    }
}

fn route_launch(arg: &String) -> (r: Result<LaunchContext, PatcherError>)
    ensures
        launch_result(r) == protocol_launch(arg@),
{
    let v = chars_of(arg.as_str());
    if starts_with(arg.as_str(), "astral://patch/") {
        let n = chars_of("astral://patch/").len();
        let route = route_segment_from(&v, n);
        launch_in_mode("patch", route.as_str(), Some(arg.clone()))
    } else if starts_with(arg.as_str(), "astral://remove/") {
        let n = chars_of("astral://remove/").len();
        let route = route_segment_from(&v, n);
        launch_in_mode("remove", route.as_str(), Some(arg.clone()))
    } else {
        Err(PatcherError::InvalidProtocolRoute(arg.clone()))
    }
}

/// Decides from the command line (program name first) what the patcher was
/// launched to do.
pub fn parse_launch_context(args: &Vec<String>) -> (r: Result<LaunchContext, PatcherError>)
    ensures
        launch_result(r) == launch_spec(args.deep_view()),
{
    let ghost a = args.deep_view();
    let mut i: usize = 1;
    while i < args.len()
        invariant
            1 <= i,
            a == args.deep_view(),
            first_resume_flag(a, 1) == first_resume_flag(a, i as int),
        decreases args.len() - i,
    {
        assert(a[i as int] == args@[i as int]@);
        if text_eq(args[i].as_str(), "--resume-install") {
            return Ok(LaunchContext {
                mode: owned("install"),
                target: owned("INT_STEAM"),
                protocol_arg: None,
            });
        }
        if text_eq(args[i].as_str(), "--resume-patch") {
            proof {
                reveal_strlit("--resume-install");
                reveal_strlit("--resume-patch");
                assert(resume_install_flag().len() != resume_patch_flag().len());
            }
            if i + 1 < args.len() {
                assert(a[i + 1] == args@[i + 1]@);
                return launch_in_mode("patch", args[i + 1].as_str(), None);
            } else {
                return Err(PatcherError::MissingResumeTarget);
            }
        }
        i += 1;
    }
    let mut k: usize = 0;
    while k < args.len()
        invariant
            a == args.deep_view(),
            first_resume_flag(a, 1) is None,
            first_protocol_arg(a, 0) == first_protocol_arg(a, k as int),
        decreases args.len() - k,
    {
        assert(a[k as int] == args@[k as int]@);
        if starts_with(args[k].as_str(), "astral://") {
            return route_launch(&args[k]);
        }
        k += 1;
    }
    Ok(LaunchContext { mode: owned("install"), target: owned("INT_STEAM"), protocol_arg: None })
}


proof fn lemma_route_segment_of_plain(t: Seq<char>, rest: Seq<char>)
    requires
        forall|i: int| 0 <= i < t.len() ==> !is_route_separator(#[trigger] t[i]),
        rest.len() == 0 || is_route_separator(rest[0]),
    ensures
        route_segment(t + rest) == t,
    decreases t.len(),
{
    if t.len() == 0 {
        assert(t + rest =~= rest);
    } else {
        assert(!is_route_separator(t[0]));
        assert((t + rest)[0] == t[0]);
        assert((t + rest).drop_first() =~= t.drop_first() + rest);
        assert forall|i: int| 0 <= i < t.drop_first().len() implies !is_route_separator(#[trigger] t.drop_first()[i]) by {
            assert(t.drop_first()[i] == t[i + 1]);
        }
        lemma_route_segment_of_plain(t.drop_first(), rest);
        assert(seq![t[0]] + t.drop_first() =~= t);
    }
}

proof fn lemma_supported_target_has_no_separator(t: Seq<char>)
    requires
        is_supported_target(t),
    ensures
        forall|i: int| 0 <= i < t.len() ==> !is_route_separator(#[trigger] t[i]),
{
    reveal_strlit("INT_STEAM");
    reveal_strlit("CN_BILIBILI");
    if t == int_steam() {
        assert(t =~= seq!['I', 'N', 'T', '_', 'S', 'T', 'E', 'A', 'M']);
    } else {
        assert(t == cn_bilibili());
        assert(t =~= seq!['C', 'N', '_', 'B', 'I', 'L', 'I', 'B', 'I', 'L', 'I']);
    }
}

/// The protocol of the patcher: `astral://patch/<TARGET>` and
/// `astral://remove/<TARGET>` (optionally followed by `/`, `?` or `#` and
/// more) launch the patch or the removal of a supported target, with the
/// argument kept, provided the program name itself is not an `astral://` link.
pub proof fn lemma_protocol_launch(program: Seq<char>, mode: Seq<char>, target: Seq<char>, rest: Seq<char>)
    requires
        mode == "patch"@ || mode == "remove"@,
        is_supported_target(target),
        rest.len() == 0 || is_route_separator(rest[0]),
        !protocol_prefix().is_prefix_of(program),
    ensures
        launch_spec(seq![program, "astral://"@ + mode + "/"@ + target + rest]) == Ok::<
            LaunchContextModel,
            PatcherErrorModel,
        >(context_model(mode, target, Some("astral://"@ + mode + "/"@ + target + rest))),
{
    reveal_strlit("astral://");
    reveal_strlit("patch");
    reveal_strlit("remove");
    reveal_strlit("/");
    reveal_strlit("astral://patch/");
    reveal_strlit("astral://remove/");
    reveal_strlit("--resume-install");
    reveal_strlit("--resume-patch");
    let arg = "astral://"@ + mode + "/"@ + target + rest;
    let args = seq![program, arg];
    assert(arg[0] == 'a');
    assert(resume_install_flag()[0] == '-');
    assert(resume_patch_flag()[0] == '-');
    assert(args[1] == arg);
    assert(first_resume_flag(args, 2) == None::<int>);
    assert(first_resume_flag(args, 1) == None::<int>);
    assert(arg.subrange(0, 9) =~= protocol_prefix());
    assert(protocol_prefix().is_prefix_of(arg));
    assert(first_protocol_arg(args, 1) == Some(1int));
    assert(first_protocol_arg(args, 0) == Some(1int));
    lemma_supported_target_has_no_separator(target);
    lemma_route_segment_of_plain(target, rest);
    lemma_resolve_supported_is_identity(target);
    if mode == "patch"@ {
        assert(arg.subrange(0, 15) =~= patch_route_prefix());
        assert(arg.skip(15) =~= target + rest);
    } else {
        assert(arg[9] == 'r');
        assert(patch_route_prefix()[9] == 'p');
        assert(!patch_route_prefix().is_prefix_of(arg));
        assert(arg.subrange(0, 16) =~= remove_route_prefix());
        assert(arg.skip(16) =~= target + rest);
    }
}


/// A relaunch for resuming (see `install::resume_args`) resumes the same work:
/// `--resume-patch <TARGET>` resumes the patch of that target and
/// `--resume-install` resumes the install, whatever the program name.
pub proof fn lemma_resume_launch(program: Seq<char>, target: Seq<char>)
    requires
        is_supported_target(target),
    ensures
        launch_spec(seq![program, "--resume-patch"@, target]) == Ok::<LaunchContextModel, PatcherErrorModel>(
            context_model("patch"@, target, None),
        ),
        launch_spec(seq![program, "--resume-install"@]) == Ok::<LaunchContextModel, PatcherErrorModel>(
            context_model("install"@, int_steam(), None),
        ),
{
    reveal_strlit("--resume-install");
    reveal_strlit("--resume-patch");
    assert(resume_install_flag().len() != resume_patch_flag().len());
    let a = seq![program, "--resume-patch"@, target];
    assert(a[1] == resume_patch_flag());
    assert(first_resume_flag(a, 1) == Some(1int));
    let b = seq![program, "--resume-install"@];
    assert(b[1] == resume_install_flag());
    assert(first_resume_flag(b, 1) == Some(1int));
    assert(a[2] == target);
    lemma_resolve_supported_is_identity(target);
}

} // verus!
