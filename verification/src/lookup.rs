//! Target-specific lookups: which edition's lookup answers for a target.
use vstd::prelude::*;
use crate::error::{error_message, PatcherError, PatcherErrorModel};
use crate::target::{cn_bilibili, int_steam, is_supported_target, lemma_targets_distinct};
use crate::semver::trim_start_char;
use crate::text::{chars_of, owned, string_from_range, text_eq, trim, trim_seq};

verus! {

/// The answer of a target-specific lookup for `target`: the Steam lookup's
/// for `INT_STEAM`, the bilibili lookup's for `CN_BILIBILI`, and the
/// unsupported-target message otherwise. A lookup's precondition is asked for
/// only when its own target is given, so no other lookup can be run: for an
/// unsupported target, none is.
fn lookup_for_target<F, G>(target: &str, int_steam_lookup: F, cn_bilibili_lookup: G) -> (r: Result<String, String>)
    where
        F: FnOnce() -> Result<String, String>,
        G: FnOnce() -> Result<String, String>,
    requires
        target@ == int_steam() ==> call_requires(int_steam_lookup, ()),
        target@ == cn_bilibili() ==> call_requires(cn_bilibili_lookup, ()),
    ensures
        target@ == int_steam() ==> call_ensures(int_steam_lookup, (), r),
        target@ == cn_bilibili() ==> call_ensures(cn_bilibili_lookup, (), r),
        !is_supported_target(target@) ==> (r matches Err(m) && m@ == error_message(
            PatcherErrorModel::UnsupportedTarget(target@),
        )),
{
    proof {
        lemma_targets_distinct();
    }
    if text_eq(target, "INT_STEAM") {
        int_steam_lookup()
    } else if text_eq(target, "CN_BILIBILI") {
        cn_bilibili_lookup()
    } else {
        Err(PatcherError::UnsupportedTarget(owned(target)).message())
    }
}

/// The game's install directory for the target, found by that edition's
/// lookup; only that lookup may run, and none for an unsupported target.
pub fn find_game_install_dir<F, G>(target: &str, int_steam_lookup: F, cn_bilibili_lookup: G) -> (r: Result<String, String>)
    where
        F: FnOnce() -> Result<String, String>,
        G: FnOnce() -> Result<String, String>,
    requires
        target@ == int_steam() ==> call_requires(int_steam_lookup, ()),
        target@ == cn_bilibili() ==> call_requires(cn_bilibili_lookup, ()),
    ensures
        target@ == int_steam() ==> call_ensures(int_steam_lookup, (), r),
        target@ == cn_bilibili() ==> call_ensures(cn_bilibili_lookup, (), r),
        !is_supported_target(target@) ==> (r matches Err(m) && m@ == error_message(
            PatcherErrorModel::UnsupportedTarget(target@),
        )),
{
    lookup_for_target(target, int_steam_lookup, cn_bilibili_lookup)
}


/// The local download directory for the target, found by that edition's
/// lookup; only that lookup may run, and none for an unsupported target.
pub fn find_local_feimo_path<F, G>(target: &str, int_steam_lookup: F, cn_bilibili_lookup: G) -> (r: Result<String, String>)
    where
        F: FnOnce() -> Result<String, String>,
        G: FnOnce() -> Result<String, String>,
    requires
        target@ == int_steam() ==> call_requires(int_steam_lookup, ()),
        target@ == cn_bilibili() ==> call_requires(cn_bilibili_lookup, ()),
    ensures
        target@ == int_steam() ==> call_ensures(int_steam_lookup, (), r),
        target@ == cn_bilibili() ==> call_ensures(cn_bilibili_lookup, (), r),
        !is_supported_target(target@) ==> (r matches Err(m) && m@ == error_message(
            PatcherErrorModel::UnsupportedTarget(target@),
        )),
{
    lookup_for_target(target, int_steam_lookup, cn_bilibili_lookup)
}

/// `s` without trailing occurrences of `c`.
pub open spec fn trim_end_char(s: Seq<char>, c: char) -> Seq<char>
    decreases s.len(),
{
    if s.len() > 0 && s.last() == c {
        trim_end_char(s.drop_last(), c)
    } else {
        s
    }
}

/// `s` without leading and trailing occurrences of `c` (`trim_matches(c)`).
pub open spec fn trim_char(s: Seq<char>, c: char) -> Seq<char> {
    trim_end_char(trim_start_char(s, c), c)
}

/// A path read from the registry, without surrounding white space, NUL
/// characters and quotes.
pub open spec fn registry_path_spec(value: Seq<char>) -> Seq<char> {
    trim_char(trim_char(trim_seq(value), '\0'), '"')
}

fn trim_char_exec(v: &Vec<char>, c: char) -> (r: Vec<char>)
    ensures
        r@ == trim_char(v@, c),
{
    let mut start: usize = 0;
    assert(v@.skip(0) =~= v@);
    while start < v.len() && v[start] == c
        invariant
            start <= v.len(),
            trim_start_char(v@, c) == trim_start_char(v@.skip(start as int), c),
        decreases v.len() - start,
    {
        assert(v@.skip(start as int).drop_first() =~= v@.skip(start + 1));
        start += 1;
    }
    let ghost t = v@.skip(start as int);
    assert(trim_start_char(t, c) == t);
    let mut end: usize = v.len();
    assert(t.take(t.len() as int) =~= t);
    while end > start && v[end - 1] == c
        invariant
            start <= end <= v.len(),
            t == v@.skip(start as int),
            trim_end_char(t, c) == trim_end_char(t.take(end - start), c),
        decreases end,
    {
        assert(t.take(end - start).drop_last() =~= t.take(end - start - 1));
        end -= 1;
    }
    let ghost u = t.take(end - start);
    assert(u =~= v@.subrange(start as int, end as int));
    proof {
        if u.len() > 0 {
            assert(u.last() == v@[end - 1]);
        }
    }
    assert(trim_end_char(u, c) == u);
    let mut r: Vec<char> = Vec::new();
    let mut i = start;
    while i < end
        invariant
            start <= i <= end <= v.len(),
            r@ == v@.subrange(start as int, i as int),
        decreases end - i,
    {
        r.push(v[i]);
        i += 1;
        assert(r@ =~= v@.subrange(start as int, i as int));
    }
    r
}

/// Cleans a path read from the registry.
pub fn registry_path(value: &str) -> (r: String)
    ensures
        r@ == registry_path_spec(value@),
{
    let t = trim(value);
    let v = chars_of(t.as_str());
    let w = trim_char_exec(&v, '\0');
    let x = trim_char_exec(&w, '"');
    string_from_range(&x, 0, x.len())
}

/// The path, when it exists.
pub fn require_existing_path(path: &str, exists: bool) -> (r: Result<String, PatcherError>)
    ensures
        exists ==> (r matches Ok(p) && p@ == path@),
        !exists ==> (r matches Err(e) && e@ == PatcherErrorModel::PathNotFound(path@)),
{
    if exists {
        Ok(owned(path))
    } else {
        Err(PatcherError::PathNotFound(owned(path)))
    }
}

/// Decides the bilibili game directory from what was found on disk: the game
/// root recorded in the registry must exist, then its data directory.
pub fn find_cn_bilibili_game_install_dir(game_root: &str, root_exists: bool, game_dir: &str, dir_exists: bool) -> (r: Result<String, PatcherError>)
    ensures
        !root_exists ==> (r matches Err(e) && e@ == PatcherErrorModel::BilibiliGameRootMissing(game_root@)),
        root_exists && !dir_exists ==> (r matches Err(e) && e@ == PatcherErrorModel::BilibiliGameDirNotFound(
            game_dir@,
        )),
        root_exists && dir_exists ==> (r matches Ok(d) && d@ == game_dir@),
{
    if !root_exists {
        Err(PatcherError::BilibiliGameRootMissing(owned(game_root)))
    } else if !dir_exists {
        Err(PatcherError::BilibiliGameDirNotFound(owned(game_dir)))
    } else {
        Ok(owned(game_dir))
    }
}

} // verus!
