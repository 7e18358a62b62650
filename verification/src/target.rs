//! Patch targets: which game editions the patcher handles and how a requested
//! target is normalised.
use vstd::prelude::*;
use crate::error::{PatcherError, PatcherErrorModel};
use crate::text::{
    ascii_upper_seq, chars_of, is_ascii_seq, owned, text_eq, trim, trim_end_seq, trim_seq, trim_start_seq,
};

verus! {

/// The Steam global edition.
pub open spec fn int_steam() -> Seq<char> {
    "INT_STEAM"@
}

/// The bilibili PC edition.
pub open spec fn cn_bilibili() -> Seq<char> {
    "CN_BILIBILI"@
}

/// The editions the patcher supports.
pub open spec fn is_supported_target(t: Seq<char>) -> bool {
    t == int_steam() || t == cn_bilibili()
}

/// Unicode upper-casing (`str::to_uppercase`), as a function of the text.
pub uninterp spec fn unicode_uppercase(s: Seq<char>) -> Seq<char>;

/// Calls `str::to_uppercase`. Trusted to return `unicode_uppercase` of its input, and,
/// on ASCII input, the ASCII upper-casing (the std documentation of
/// `to_ascii_uppercase` defers to `to_uppercase` for ASCII plus non-ASCII letters).
#[verifier::external_body]
fn to_uppercase(s: &str) -> (r: String)
    ensures
        r@ == unicode_uppercase(s@),
        is_ascii_seq(s@) ==> r@ == ascii_upper_seq(s@),
{
    s.to_uppercase()
}

/// The outcome of resolving an already upper-cased, non-blank target.
pub open spec fn check_target_spec(upper: Seq<char>) -> Result<Seq<char>, PatcherErrorModel> {
    if is_supported_target(upper) {
        Ok(upper)
    } else {
        Err(PatcherErrorModel::UnsupportedPatchTarget(upper))
    }
}

/// Upper-casing of a trimmed request: ASCII upper-casing for ASCII text,
/// Unicode upper-casing otherwise.
pub open spec fn upper_target(t: Seq<char>) -> Seq<char> {
    if is_ascii_seq(t) {
        ascii_upper_seq(t)
    } else {
        unicode_uppercase(t)
    }
}

/// The outcome of resolving a requested target: blank is refused, the rest is
/// trimmed, upper-cased and checked against the supported editions.
pub open spec fn resolve_target_spec(raw: Option<Seq<char>>) -> Result<Seq<char>, PatcherErrorModel> {
    match raw {
        None => Err(PatcherErrorModel::EmptyPatchTarget),
        Some(r) => if trim_seq(r).len() == 0 {
            Err(PatcherErrorModel::EmptyPatchTarget)
        } else {
            check_target_spec(upper_target(trim_seq(r)))
        },
    }
}

/// The abstract value of a `Result<String, PatcherError>`.
pub open spec fn text_result(r: Result<String, PatcherError>) -> Result<Seq<char>, PatcherErrorModel> {
    match r {
        Ok(s) => Ok(s@),
        Err(e) => Err(e@),
    }
}

/// The two supported editions have different names.
pub proof fn lemma_targets_distinct()
    ensures
        int_steam() != cn_bilibili(),
{
    reveal_strlit("INT_STEAM");
    reveal_strlit("CN_BILIBILI");
    assert(int_steam().len() != cn_bilibili().len());
}

/// Whether the target is one the patcher supports.
pub fn is_supported_patch_target(target: &str) -> (b: bool)
    ensures
        b == is_supported_target(target@),
{
    text_eq(target, "INT_STEAM") || text_eq(target, "CN_BILIBILI")
}

/// Checks an upper-cased, non-blank target against the supported editions.
pub fn check_patch_target(upper: String) -> (r: Result<String, PatcherError>)
    ensures
        text_result(r) == check_target_spec(upper@),
{
    if is_supported_patch_target(upper.as_str()) {
        Ok(upper)
    } else {
        Err(PatcherError::UnsupportedPatchTarget(upper))
    }
}

/// Resolves a requested patch target: trims it, refuses a blank one,
/// upper-cases it and checks that it is supported.
pub fn resolve_patch_target(raw_target: Option<&str>) -> (r: Result<String, PatcherError>)
    ensures
        text_result(r) == resolve_target_spec(raw_target.deep_view()),
{
    match raw_target {
        None => Err(PatcherError::EmptyPatchTarget),
        Some(raw) => {
            let trimmed = trim(raw);
            if chars_of(trimmed.as_str()).len() == 0 {
                return Err(PatcherError::EmptyPatchTarget);
            }
            let upper = to_uppercase(trimmed.as_str());
            check_patch_target(upper)
        },
    }
}

/// The address of the removal rules published for a target.
pub fn resolve_rules_api(target: &str) -> (r: Result<&'static str, PatcherError>)
    ensures
        target@ == int_steam() ==> (r matches Ok(u) && u@
            == "https://raw.githubusercontent.com/maynut02/astralparty-korean-patch/refs/heads/main/src/astral_patch/patch/rules/int_steam.json"@),
        target@ == cn_bilibili() ==> (r matches Ok(u) && u@
            == "https://raw.githubusercontent.com/maynut02/astralparty-korean-patch/refs/heads/main/src/astral_patch/patch/rules/cn_bilibili.json"@),
        !is_supported_target(target@) ==> (r matches Err(e) && e@ == PatcherErrorModel::UnsupportedTarget(target@)),
{
    proof {
        lemma_targets_distinct();
    }
    if text_eq(target, "INT_STEAM") {
        Ok("https://raw.githubusercontent.com/maynut02/astralparty-korean-patch/refs/heads/main/src/astral_patch/patch/rules/int_steam.json")
    } else if text_eq(target, "CN_BILIBILI") {
        Ok("https://raw.githubusercontent.com/maynut02/astralparty-korean-patch/refs/heads/main/src/astral_patch/patch/rules/cn_bilibili.json")
    } else {
        Err(PatcherError::UnsupportedTarget(owned(target)))
    }
}

/// A resolved target is always one of the supported editions.
pub proof fn lemma_resolved_target_is_supported(raw: Option<Seq<char>>)
    ensures
        resolve_target_spec(raw) matches Ok(t) ==> is_supported_target(t),
{
}


proof fn lemma_plain_upper_word(t: Seq<char>)
    requires
        t.len() > 0,
        forall|i: int| 0 <= i < t.len() ==> ('A' <= #[trigger] t[i] <= 'Z' || t[i] == '_'),
    ensures
        trim_seq(t) == t,
        is_ascii_seq(t),
        ascii_upper_seq(t) == t,
{
    assert('A' <= t[0] <= 'Z' || t[0] == '_');
    assert(trim_start_seq(t) == t);
    assert('A' <= t[t.len() - 1] <= 'Z' || t[t.len() - 1] == '_');
    assert(trim_end_seq(t) == t);
    assert(ascii_upper_seq(t) =~= t);
}

/// Resolving a supported target gives it back: resolution is idempotent.
pub proof fn lemma_resolve_supported_is_identity(t: Seq<char>)
    requires
        is_supported_target(t),
    ensures
        resolve_target_spec(Some(t)) == Ok::<Seq<char>, PatcherErrorModel>(t),
{
    reveal_strlit("INT_STEAM");
    reveal_strlit("CN_BILIBILI");
    if t == int_steam() {
        assert(t =~= seq!['I', 'N', 'T', '_', 'S', 'T', 'E', 'A', 'M']);
    } else {
        assert(t =~= seq!['C', 'N', '_', 'B', 'I', 'L', 'I', 'B', 'I', 'L', 'I']);
    }
    lemma_plain_upper_word(t);
}

} // verus!
