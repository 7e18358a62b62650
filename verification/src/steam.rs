//! Steam library discovery: reading `libraryfolders.vdf`, collecting the
//! library roots without duplicates, and choosing the game's install directory.
use vstd::prelude::*;
use crate::error::{PatcherError, PatcherErrorModel};
use crate::semver::{split_chars, split_seq};
use crate::text::{
    ascii_lower_seq, chars_eq, chars_of, eq_ignore_ascii_case, eq_ignore_ascii_case_seq, push_char,
    string_from_chars, to_ascii_lowercase, trim, trim_seq,
};

verus! {

/// The strings between pairs of double quotes in a line, in order; an
/// unterminated quoted text at the end is dropped.
pub open spec fn quoted_from(s: Seq<char>, i: int, in_quotes: bool, cur: Seq<char>) -> Seq<Seq<char>>
    decreases s.len() - i,
{
    if i < 0 || i >= s.len() {
        Seq::empty()
    } else if s[i] == '"' {
        if in_quotes {
            seq![cur] + quoted_from(s, i + 1, false, Seq::empty())
        } else {
            quoted_from(s, i + 1, true, cur)
        }
    } else if in_quotes {
        quoted_from(s, i + 1, true, cur.push(s[i]))
    } else {
        quoted_from(s, i + 1, false, cur)
    }
}

pub open spec fn quoted_values(line: Seq<char>) -> Seq<Seq<char>> {
    quoted_from(line, 0, false, Seq::empty())
}

/// A line without the `\r` of a `\r\n` ending.
pub open spec fn strip_cr(line: Seq<char>) -> Seq<char> {
    if line.len() > 0 && line.last() == '\r' {
        line.drop_last()
    } else {
        line
    }
}

/// The lines of a text (`str::lines`): split at `\n`, a `\r` before the `\n`
/// removed, and no empty line after a final line ending.
pub open spec fn lines_seq(s: Seq<char>) -> Seq<Seq<char>> {
    let p = split_seq(s, '\n');
    let ended = Seq::new((p.len() - 1) as nat, |i: int| strip_cr(p[i]));
    if p.last().len() == 0 {
        ended
    } else {
        ended.push(p.last())
    }
}

/// Every `\\` pair replaced by a single `\`, scanning left to right
/// (`replace("\\\\", "\\")`).
pub open spec fn collapse_backslashes(s: Seq<char>) -> Seq<char>
    decreases s.len(),
{
    if s.len() >= 2 && s[0] == '\\' && s[1] == '\\' {
        seq!['\\'] + collapse_backslashes(s.skip(2))
    } else if s.len() > 0 {
        seq![s[0]] + collapse_backslashes(s.drop_first())
    } else {
        Seq::empty()
    }
}

/// The library path that a line of `libraryfolders.vdf` declares, if any:
/// a `"path"` key (any ASCII case) with a non-blank value.
pub open spec fn vdf_path_of_line(line: Seq<char>) -> Option<Seq<char>> {
    let values = quoted_values(line);
    if values.len() < 2 || !eq_ignore_ascii_case_seq(values[0], "path"@) {
        None
    } else {
        let p = collapse_backslashes(values[1]);
        if trim_seq(p).len() == 0 {
            None
        } else {
            Some(p)
        }
    }
}

/// The library paths declared by the given lines, in order.
pub open spec fn vdf_paths(lines: Seq<Seq<char>>) -> Seq<Seq<char>>
    decreases lines.len(),
{
    if lines.len() == 0 {
        Seq::empty()
    } else {
        let before = vdf_paths(lines.drop_last());
        match vdf_path_of_line(lines.last()) {
            Some(p) => before.push(p),
            None => before,
        }
    }
}

/// `s` without trailing backslashes.
pub open spec fn trim_end_backslashes(s: Seq<char>) -> Seq<char>
    decreases s.len(),
{
    if s.len() > 0 && s.last() == '\\' {
        trim_end_backslashes(s.drop_last())
    } else {
        s
    }
}

/// `/` written as `\`.
pub open spec fn slashes_to_backslashes(s: Seq<char>) -> Seq<char> {
    Seq::new(s.len(), |i: int| if s[i] == '/' { '\\' } else { s[i] })
}

/// The key by which two library roots count as the same: separators unified,
/// trailing separators dropped, ASCII case folded.
pub open spec fn library_key(path: Seq<char>) -> Seq<char> {
    ascii_lower_seq(trim_end_backslashes(slashes_to_backslashes(path)))
}

pub open spec fn keys_of(paths: Seq<Seq<char>>) -> Seq<Seq<char>> {
    Seq::new(paths.len(), |i: int| library_key(paths[i]))
}

/// The paths in order, keeping each path whose key is non-empty and not the
/// key of a path kept before it.
pub open spec fn unique_by_key(paths: Seq<Seq<char>>) -> Seq<Seq<char>>
    decreases paths.len(),
{
    if paths.len() == 0 {
        Seq::empty()
    } else {
        let kept = unique_by_key(paths.drop_last());
        let k = library_key(paths.last());
        if k.len() == 0 || keys_of(kept).contains(k) {
            kept
        } else {
            kept.push(paths.last())
        }
    }
}

/// The Steam library roots: the Steam install root, then the paths that
/// `libraryfolders.vdf` declares (when it could be read), without duplicates.
pub open spec fn library_roots_spec(steam_root: Seq<char>, libraryfolders: Option<Seq<char>>) -> Seq<Seq<char>> {
    let declared = match libraryfolders {
        Some(content) => vdf_paths(lines_seq(content)),
        None => Seq::empty(),
    };
    unique_by_key(seq![steam_root] + declared)
}

/// The quoted values of a line of a VDF file.
pub fn extract_vdf_quoted_values(line: &str) -> (values: Vec<String>)
    ensures
        values.deep_view() == quoted_values(line@),
{
    let v = chars_of(line);
    let mut values: Vec<String> = Vec::new();
    let mut current = String::new();
    let mut in_quotes = false;
    let mut i: usize = 0;
    while i < v.len()
        invariant
            i <= v.len(),
            v@ == line@,
            quoted_values(line@) == values.deep_view() + quoted_from(v@, i as int, in_quotes, current@),
        decreases v.len() - i,
    {
        let ch = v[i];
        if ch == '"' {
            if in_quotes {
                let ghost before = values.deep_view();
                let ghost cur = current@;
                values.push(current);
                current = String::new();
                in_quotes = false;
                assert(values.deep_view() =~= before.push(cur));
                assert(before + (seq![cur] + quoted_from(v@, i + 1, false, Seq::empty())) =~= before.push(cur)
                    + quoted_from(v@, i + 1, false, current@));
            } else {
                in_quotes = true;
            }
        } else if in_quotes {
            push_char(&mut current, ch);
        }
        i += 1;
    }
    assert(values.deep_view() + Seq::<Seq<char>>::empty() =~= values.deep_view());
    values
}

/// Collapses `\\` pairs into single backslashes.
fn collapse_backslashes_exec(s: &str) -> (r: String)
    ensures
        r@ == collapse_backslashes(s@),
{
    let v = chars_of(s);
    let mut r = String::new();
    let mut i: usize = 0;
    assert(v@.skip(0) =~= v@);
    assert(r@ + collapse_backslashes(v@) =~= collapse_backslashes(v@));
    while i < v.len()
        invariant
            i <= v.len(),
            collapse_backslashes(v@) == r@ + collapse_backslashes(v@.skip(i as int)),
            v@ == s@,
        decreases v.len() - i,
    {
        let ghost rest = v@.skip(i as int);
        if i + 1 < v.len() && v[i] == '\\' && v[i + 1] == '\\' {
            push_char(&mut r, '\\');
            assert(rest.skip(2) =~= v@.skip(i + 2));
            assert(collapse_backslashes(rest) == seq!['\\'] + collapse_backslashes(rest.skip(2)));
            i += 2;
        } else {
            push_char(&mut r, v[i]);
            assert(rest.drop_first() =~= v@.skip(i + 1));
            assert(collapse_backslashes(rest) == seq![v@[i as int]] + collapse_backslashes(rest.drop_first()));
            i += 1;
        }
    }
    assert(collapse_backslashes(v@.skip(i as int)) == Seq::<char>::empty());
    assert(r@ + Seq::<char>::empty() =~= r@);
    r
}

/// The library path declared by one line, if any.
pub fn vdf_path_in_line(line: &str) -> (r: Option<String>)
    ensures
        r.deep_view() == vdf_path_of_line(line@),
{
    let values = extract_vdf_quoted_values(line);
    if values.len() < 2 {
        return None;
    }
    assert(values.deep_view()[0] == values@[0]@);
    assert(values.deep_view()[1] == values@[1]@);
    if !eq_ignore_ascii_case(values[0].as_str(), "path") {
        return None;
    }
    let normalized = collapse_backslashes_exec(values[1].as_str());
    let trimmed = trim(normalized.as_str());
    if chars_of(trimmed.as_str()).len() == 0 {
        return None;
    }
    Some(normalized)
}

/// The lines of a text (`str::lines`).
pub fn lines_of(s: &str) -> (lines: Vec<String>)
    ensures
        lines.deep_view() == lines_seq(s@),
{
    let v = chars_of(s);
    let pieces = split_chars(&v, '\n');
    let ghost p = split_seq(v@, '\n');
    assert(pieces@.map_values(|x: Vec<char>| x@) == p);
    let n = pieces.len();
    let ghost ended = Seq::new((p.len() - 1) as nat, |i: int| strip_cr(p[i]));
    let mut lines: Vec<String> = Vec::new();
    let mut i: usize = 0;
    while i + 1 < n
        invariant
            n == pieces.len() == p.len(),
            n >= 1,
            i + 1 <= n,
            pieces@.map_values(|x: Vec<char>| x@) == p,
            ended == Seq::new((p.len() - 1) as nat, |i: int| strip_cr(p[i])),
            lines.deep_view() == ended.take(i as int),
        decreases n - i,
    {
        let piece = &pieces[i];
        assert(piece@ == p[i as int]);
        let line = if piece.len() > 0 && piece[piece.len() - 1] == '\r' {
            let l = piece.len() - 1;
            let s = crate::text::string_from_range(piece, 0, l);
            assert(piece@.subrange(0, l as int) =~= piece@.drop_last());
            s
        } else {
            string_from_chars(piece)
        };
        assert(line@ == ended[i as int]);
        let ghost before = lines.deep_view();
        lines.push(line);
        assert(lines.deep_view() =~= before.push(ended[i as int]));
        assert(ended.take(i + 1) =~= ended.take(i as int).push(ended[i as int]));
        i += 1;
    }
    assert(ended.take(i as int) =~= ended);
    let last = &pieces[n - 1];
    assert(last@ == p.last());
    if last.len() > 0 {
        let l = string_from_chars(last);
        let ghost before = lines.deep_view();
        lines.push(l);
        assert(lines.deep_view() =~= before.push(p.last()));
    }
    lines
}

/// The key by which two library roots count as the same.
pub fn library_root_key(path: &str) -> (k: String)
    ensures
        k@ == library_key(path@),
{
    let v = chars_of(path);
    let mut w: Vec<char> = Vec::new();
    let mut i: usize = 0;
    while i < v.len()
        invariant
            i <= v.len(),
            w@ == slashes_to_backslashes(v@).take(i as int),
        decreases v.len() - i,
    {
        if v[i] == '/' {
            w.push('\\');
        } else {
            w.push(v[i]);
        }
        i += 1;
        assert(w@ =~= slashes_to_backslashes(v@).take(i as int));
    }
    assert(slashes_to_backslashes(v@).take(i as int) =~= slashes_to_backslashes(v@));
    let mut end = w.len();
    while end > 0 && w[end - 1] == '\\'
        invariant
            end <= w.len(),
            trim_end_backslashes(w@) == trim_end_backslashes(w@.take(end as int)),
        decreases end,
    {
        assert(w@.take(end as int).drop_last() =~= w@.take(end - 1));
        end -= 1;
    }
    assert(w@.take(end as int) =~= w@.subrange(0, end as int));
    let trimmed = crate::text::string_from_range(&w, 0, end);
    proof {
        assert(w@.take(w@.len() as int) =~= w@);
    }
    to_ascii_lowercase(trimmed.as_str())
}

/// Whether `key` is among `keys`.
fn contains_key(keys: &Vec<String>, key: &String) -> (b: bool)
    ensures
        b == keys.deep_view().contains(key@),
{
    let kv = chars_of(key.as_str());
    let mut i: usize = 0;
    while i < keys.len()
        invariant
            i <= keys.len(),
            kv@ == key@,
            forall|j: int| 0 <= j < i ==> keys.deep_view()[j] != key@,
        decreases keys.len() - i,
    {
        let kj = chars_of(keys[i].as_str());
        if chars_eq(&kj, &kv) {
            assert(keys.deep_view()[i as int] == key@);
            return true;
        }
        i += 1;
    }
    false
}

/// Adds a library root unless its key is empty or already seen; `seen` holds
/// the keys of the roots added so far.
pub fn push_unique_library_root(roots: &mut Vec<String>, seen: &mut Vec<String>, path: String)
    ensures
        ({
            let k = library_key(path@);
            if k.len() == 0 || old(seen).deep_view().contains(k) {
                final(roots).deep_view() == old(roots).deep_view() && final(seen).deep_view()
                    == old(seen).deep_view()
            } else {
                final(roots).deep_view() == old(roots).deep_view().push(path@) && final(seen).deep_view()
                    == old(seen).deep_view().push(k)
            }
        }),
{
    let key = library_root_key(path.as_str());
    if chars_of(key.as_str()).len() == 0 {
        return;
    }
    if contains_key(seen, &key) {
        return;
    }
    let ghost old_seen = seen.deep_view();
    let ghost old_roots = roots.deep_view();
    let ghost kv = key@;
    let ghost pv = path@;
    seen.push(key);
    roots.push(path);
    assert(seen.deep_view() =~= old_seen.push(kv));
    assert(roots.deep_view() =~= old_roots.push(pv));
}

/// The Steam library roots: the Steam install root and the paths declared by
/// the content of `libraryfolders.vdf` (`None` when it could not be read),
/// each root once.
pub fn find_steam_library_roots(steam_root: String, libraryfolders: Option<String>) -> (roots: Vec<String>)
    ensures
        roots.deep_view() == library_roots_spec(steam_root@, libraryfolders.deep_view()),
{
    let ghost declared = match libraryfolders.deep_view() {
        Some(content) => vdf_paths(lines_seq(content)),
        None => Seq::<Seq<char>>::empty(),
    };
    let mut paths: Vec<String> = Vec::new();
    let ghost sr = steam_root@;
    paths.push(steam_root);
    assert(paths.deep_view() =~= seq![sr]);
    match libraryfolders {
        Some(content) => {
            let lines = lines_of(content.as_str());
            let ghost ls = lines.deep_view();
            let mut i: usize = 0;
            while i < lines.len()
                invariant
                    i <= lines.len(),
                    ls == lines.deep_view(),
                    paths.deep_view() == seq![sr] + vdf_paths(ls.take(i as int)),
                decreases lines.len() - i,
            {
                assert(ls.take(i + 1).drop_last() =~= ls.take(i as int));
                assert(ls.take(i + 1).last() == lines@[i as int]@);
                match vdf_path_in_line(lines[i].as_str()) {
                    Some(p) => {
                        let ghost before = paths.deep_view();
                        let ghost pv = p@;
                        paths.push(p);
                        assert(paths.deep_view() =~= before.push(pv));
                    },
                    None => {},
                }
                i += 1;
            }
            assert(ls.take(i as int) =~= ls);
        },
        None => {
            assert(vdf_paths(Seq::<Seq<char>>::empty()) =~= Seq::<Seq<char>>::empty());
        },
    }
    let ghost all = paths.deep_view();
    assert(all == seq![sr] + declared);
    let mut roots: Vec<String> = Vec::new();
    let mut seen: Vec<String> = Vec::new();
    let mut i: usize = 0;
    while i < paths.len()
        invariant
            i <= paths.len(),
            all == paths.deep_view(),
            roots.deep_view() == unique_by_key(all.take(i as int)),
            seen.deep_view() == keys_of(roots.deep_view()),
        decreases paths.len() - i,
    {
        assert(all.take(i + 1).drop_last() =~= all.take(i as int));
        assert(all.take(i + 1).last() == paths@[i as int]@);
        let ghost before = roots.deep_view();
        push_unique_library_root(&mut roots, &mut seen, paths[i].clone());
        proof {
            let k = library_key(all[i as int]);
            if !(k.len() == 0 || keys_of(before).contains(k)) {
                assert(keys_of(before.push(all[i as int])) =~= keys_of(before).push(k));
            }
        }
        i += 1;
    }
    assert(all.take(i as int) =~= all);
    roots
}

/// The kept paths have non-empty, pairwise different keys.
pub proof fn lemma_unique_by_key_distinct(paths: Seq<Seq<char>>)
    ensures
        keys_of(unique_by_key(paths)).no_duplicates(),
        forall|i: int| 0 <= i < unique_by_key(paths).len() ==> library_key(#[trigger] unique_by_key(paths)[i]).len() > 0,
    decreases paths.len(),
{
    if paths.len() > 0 {
        lemma_unique_by_key_distinct(paths.drop_last());
        let kept = unique_by_key(paths.drop_last());
        let k = library_key(paths.last());
        if !(k.len() == 0 || keys_of(kept).contains(k)) {
            assert(keys_of(kept.push(paths.last())) =~= keys_of(kept).push(k));
        }
    }
}

/// Nothing is lost or invented: every kept path is one of the paths, every
/// path with a non-empty key is kept or has its key kept from an earlier
/// path, and the first path, if its key is non-empty, is kept first.
pub proof fn lemma_unique_by_key_complete(paths: Seq<Seq<char>>)
    ensures
        forall|i: int| 0 <= i < unique_by_key(paths).len() ==> paths.contains(#[trigger] unique_by_key(paths)[i]),
        forall|j: int|
            0 <= j < paths.len() && library_key(#[trigger] paths[j]).len() > 0 ==> keys_of(
                unique_by_key(paths),
            ).contains(library_key(paths[j])),
        paths.len() > 0 && library_key(paths[0]).len() > 0 ==> unique_by_key(paths).len() > 0
            && unique_by_key(paths)[0] == paths[0],
    decreases paths.len(),
{
    if paths.len() > 0 {
        let init = paths.drop_last();
        lemma_unique_by_key_complete(init);
        let kept = unique_by_key(init);
        let k = library_key(paths.last());
        let out = unique_by_key(paths);
        assert forall|i: int| 0 <= i < out.len() implies paths.contains(#[trigger] out[i]) by {
            if i < kept.len() {
                assert(out[i] == kept[i]);
                let w = choose|x: int| 0 <= x < init.len() && init[x] == kept[i];
                assert(paths[w] == kept[i]);
            } else {
                assert(out[i] == paths[paths.len() - 1]);
            }
        }
        assert forall|j: int|
            0 <= j < paths.len() && library_key(#[trigger] paths[j]).len() > 0 implies keys_of(out).contains(
            library_key(paths[j]),
        ) by {
            if k.len() == 0 || keys_of(kept).contains(k) {
                if j < init.len() {
                    assert(init[j] == paths[j]);
                }
            } else {
                assert(keys_of(out) =~= keys_of(kept).push(k));
                if j < init.len() {
                    assert(init[j] == paths[j]);
                    let w = choose|x: int| 0 <= x < keys_of(kept).len() && keys_of(kept)[x] == library_key(init[j]);
                    assert(keys_of(out)[w] == library_key(paths[j]));
                } else {
                    assert(keys_of(out)[keys_of(kept).len() as int] == k);
                }
            }
        }
        if library_key(paths[0]).len() > 0 {
            if init.len() > 0 {
                assert(init[0] == paths[0]);
            } else {
                assert(keys_of(kept) =~= Seq::<Seq<char>>::empty());
            }
        }
    }
}

/// The Steam library roots start with the Steam install root (when its key
/// is non-empty), hold every library path that `libraryfolders.vdf`
/// declares (by key), and hold nothing else.
pub proof fn lemma_library_roots_complete(steam_root: Seq<char>, libraryfolders: Option<Seq<char>>)
    ensures
        ({
            let declared = match libraryfolders {
                Some(content) => vdf_paths(lines_seq(content)),
                None => Seq::empty(),
            };
            let roots = library_roots_spec(steam_root, libraryfolders);
            &&& library_key(steam_root).len() > 0 ==> roots.len() > 0 && roots[0] == steam_root
            &&& forall|j: int|
                0 <= j < declared.len() && library_key(#[trigger] declared[j]).len() > 0 ==> keys_of(
                    roots,
                ).contains(library_key(declared[j]))
            &&& forall|i: int|
                0 <= i < roots.len() ==> #[trigger] roots[i] == steam_root || declared.contains(roots[i])
        }),
{
    let declared = match libraryfolders {
        Some(content) => vdf_paths(lines_seq(content)),
        None => Seq::empty(),
    };
    let all = seq![steam_root] + declared;
    lemma_unique_by_key_complete(all);
    let roots = library_roots_spec(steam_root, libraryfolders);
    assert(all[0] == steam_root);
    assert forall|j: int|
        0 <= j < declared.len() && library_key(#[trigger] declared[j]).len() > 0 implies keys_of(roots).contains(
        library_key(declared[j]),
    ) by {
        assert(all[j + 1] == declared[j]);
    }
    assert forall|i: int| 0 <= i < roots.len() implies #[trigger] roots[i] == steam_root || declared.contains(
        roots[i],
    ) by {
        assert(all.contains(roots[i]));
        let w = choose|x: int| 0 <= x < all.len() && all[x] == roots[i];
        if w > 0 {
            assert(declared[w - 1] == roots[i]);
        }
    }
}

/// Every Steam library root appears once: no two roots share a key, and no
/// root has an empty key.
pub proof fn lemma_library_roots_unique(steam_root: Seq<char>, libraryfolders: Option<Seq<char>>)
    ensures
        keys_of(library_roots_spec(steam_root, libraryfolders)).no_duplicates(),
        forall|i: int|
            0 <= i < library_roots_spec(steam_root, libraryfolders).len() ==> library_key(
                #[trigger] library_roots_spec(steam_root, libraryfolders)[i],
            ).len() > 0,
{
    let declared = match libraryfolders {
        Some(content) => vdf_paths(lines_seq(content)),
        None => Seq::empty(),
    };
    lemma_unique_by_key_distinct(seq![steam_root] + declared);
}

/// The index of the first candidate at or after `i` that exists.
pub open spec fn first_existing_spec(candidates: Seq<Seq<char>>, exists: Seq<bool>, i: int) -> Option<int>
    decreases candidates.len() - i,
{
    if i < 0 || i >= candidates.len() {
        None
    } else if exists[i] {
        Some(i)
    } else {
        first_existing_spec(candidates, exists, i + 1)
    }
}

/// The first existing candidate is the one chosen: where the candidate at
/// `i` exists and none before it does, the choice is `i`; where none exists,
/// there is no choice.
pub proof fn lemma_first_existing_is_first(candidates: Seq<Seq<char>>, exists: Seq<bool>, i: int)
    requires
        candidates.len() == exists.len(),
        0 <= i < candidates.len(),
        exists[i],
        forall|j: int| 0 <= j < i ==> !exists[j],
    ensures
        first_existing_spec(candidates, exists, 0) == Some(i),
{
    lemma_first_existing_from(candidates, exists, 0, i);
}

/// Where no candidate exists, none is chosen; where one is chosen, it exists
/// and none before it does.
pub proof fn lemma_first_existing_none(candidates: Seq<Seq<char>>, exists: Seq<bool>)
    requires
        candidates.len() == exists.len(),
    ensures
        first_existing_spec(candidates, exists, 0) is None <==> forall|j: int| 0 <= j < candidates.len() ==> !exists[j],
        first_existing_spec(candidates, exists, 0) matches Some(i) ==> 0 <= i < candidates.len() && exists[i]
            && forall|j: int| 0 <= j < i ==> !exists[j],
{
    lemma_first_existing_shape(candidates, exists, 0);
}

proof fn lemma_first_existing_from(candidates: Seq<Seq<char>>, exists: Seq<bool>, k: int, i: int)
    requires
        candidates.len() == exists.len(),
        0 <= k <= i < candidates.len(),
        exists[i],
        forall|j: int| k <= j < i ==> !exists[j],
    ensures
        first_existing_spec(candidates, exists, k) == Some(i),
    decreases i - k,
{
    if k < i {
        lemma_first_existing_from(candidates, exists, k + 1, i);
    }
}

proof fn lemma_first_existing_shape(candidates: Seq<Seq<char>>, exists: Seq<bool>, k: int)
    requires
        candidates.len() == exists.len(),
        0 <= k <= candidates.len(),
    ensures
        first_existing_spec(candidates, exists, k) is None <==> forall|j: int| k <= j < candidates.len() ==> !exists[j],
        first_existing_spec(candidates, exists, k) matches Some(i) ==> k <= i < candidates.len() && exists[i]
            && forall|j: int| k <= j < i ==> !exists[j],
    decreases candidates.len() - k,
{
    if k < candidates.len() {
        lemma_first_existing_shape(candidates, exists, k + 1);
    }
}

/// Chooses the Steam game directory: the first candidate (one per library
/// root, in order) that exists; otherwise the error lists all candidates.
pub fn find_int_steam_game_install_dir(candidates: &Vec<String>, exists: &Vec<bool>) -> (r: Result<String, PatcherError>)
    requires
        candidates.len() == exists.len(),
    ensures
        match first_existing_spec(candidates.deep_view(), exists@, 0) {
            Some(i) => r matches Ok(d) && d@ == candidates.deep_view()[i],
            None => r matches Err(e) && e@ == PatcherErrorModel::GameInstallDirNotFound(
                candidates.deep_view(),
            ),
        },
        forall|i: int|
            0 <= i < candidates.len() && #[trigger] exists@[i] && (forall|j: int| 0 <= j < i ==> !exists@[j])
                ==> (r matches Ok(d) && d@ == candidates.deep_view()[i]),
        r is Err <==> forall|i: int| 0 <= i < candidates.len() ==> !exists@[i],
{
    proof {
        lemma_first_existing_none(candidates.deep_view(), exists@);
        assert forall|i: int|
            0 <= i < candidates.len() && #[trigger] exists@[i] && (forall|j: int| 0 <= j < i ==> !exists@[j])
            implies first_existing_spec(candidates.deep_view(), exists@, 0) == Some(i) by {
            lemma_first_existing_is_first(candidates.deep_view(), exists@, i);
        }
    }
    let ghost first = first_existing_spec(candidates.deep_view(), exists@, 0);
    let mut i: usize = 0;
    while i < candidates.len()
        invariant
            i <= candidates.len() == exists.len(),
            first_existing_spec(candidates.deep_view(), exists@, 0) == first_existing_spec(
                candidates.deep_view(),
                exists@,
                i as int,
            ),
            first == first_existing_spec(candidates.deep_view(), exists@, 0),
            forall|k: int|
                0 <= k < candidates.len() && #[trigger] exists@[k] && (forall|j: int| 0 <= j < k ==> !exists@[j])
                    ==> first == Some(k),
            first is None <==> forall|k: int| 0 <= k < candidates.len() ==> !exists@[k],
        decreases candidates.len() - i,
    {
        if exists[i] {
            return Ok(candidates[i].clone());
        }
        i += 1;
    }
    Err(PatcherError::GameInstallDirNotFound(candidates.clone()))
}

} // verus!
