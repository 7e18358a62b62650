//! Removal mode: which AssetBundles roots the published rules name, and the
//! summary of what was removed.
use vstd::prelude::*;
use crate::error::{PatcherError, PatcherErrorModel};
use crate::report::{bullet_list, bullet_list_seq};
use crate::text::{
    append_str, ascii_lower_seq, chars_eq, chars_of, decimal_seq, decimal_string, eq_ignore_ascii_case,
    eq_ignore_ascii_case_seq, owned, to_ascii_lowercase, trim, trim_seq,
};

verus! {

/// One task of the published patch rules.
pub struct PatchRuleTask {
    pub source: Option<String>,
    pub root_id: Option<String>,
}

/// The published patch rules.
pub struct PatchRuleDocument {
    pub tasks: Vec<PatchRuleTask>,
}

/// The abstract value of a [`PatchRuleTask`].
pub struct PatchRuleTaskModel {
    pub source: Option<Seq<char>>,
    pub root_id: Option<Seq<char>>,
}

impl View for PatchRuleTask {
    type V = PatchRuleTaskModel;

    open spec fn view(&self) -> PatchRuleTaskModel {
        PatchRuleTaskModel { source: self.source.deep_view(), root_id: self.root_id.deep_view() }
    }
}

impl PatchRuleDocument {
    /// The tasks' abstract values, in order.
    pub open spec fn tasks_model(&self) -> Seq<PatchRuleTaskModel> {
        Seq::new(self.tasks@.len(), |i: int| self.tasks@[i]@)
    }
}

/// The AssetBundles root id a task names: its source is `AssetBundles` (any
/// ASCII case) and its trimmed root id is not empty.
pub open spec fn task_root_id(t: PatchRuleTaskModel) -> Option<Seq<char>> {
    match (t.source, t.root_id) {
        (Some(s), Some(r)) => if eq_ignore_ascii_case_seq(s, "AssetBundles"@) && trim_seq(r).len() > 0 {
            Some(trim_seq(r))
        } else {
            None
        },
        _ => None,
    }
}

pub open spec fn lowered(ids: Seq<Seq<char>>) -> Seq<Seq<char>> {
    Seq::new(ids.len(), |i: int| ascii_lower_seq(ids[i]))
}

/// The root ids the tasks name, in order, each kept only at its first
/// occurrence up to ASCII case.
pub open spec fn root_ids_spec(tasks: Seq<PatchRuleTaskModel>) -> Seq<Seq<char>>
    decreases tasks.len(),
{
    if tasks.len() == 0 {
        Seq::empty()
    } else {
        let kept = root_ids_spec(tasks.drop_last());
        match task_root_id(tasks.last()) {
            Some(r) => if lowered(kept).contains(ascii_lower_seq(r)) {
                kept
            } else {
                kept.push(r)
            },
            None => kept,
        }
    }
}

/// The root ids to remove, or the error naming the rules' address when there are none.
pub open spec fn collect_root_ids_spec(tasks: Seq<PatchRuleTaskModel>, api_url: Seq<char>) -> Result<
    Seq<Seq<char>>,
    PatcherErrorModel,
> {
    if root_ids_spec(tasks).len() == 0 {
        Err(PatcherErrorModel::NoAssetBundleRootIds(api_url))
    } else {
        Ok(root_ids_spec(tasks))
    }
}

fn task_root_id_exec(task: &PatchRuleTask) -> (r: Option<String>)
    ensures
        r.deep_view() == task_root_id(task@),
{
    match (&task.source, &task.root_id) {
        (Some(s), Some(r)) => {
            if !eq_ignore_ascii_case(s.as_str(), "AssetBundles") {
                return None;
            }
            let t = trim(r.as_str());
            if chars_of(t.as_str()).len() == 0 {
                None
            } else {
                Some(t)
            }
        },
        _ => None,
    }
}

fn contains_text(items: &Vec<String>, key: &String) -> (b: bool)
    ensures
        b == items.deep_view().contains(key@),
{
    let kv = chars_of(key.as_str());
    let mut i: usize = 0;
    while i < items.len()
        invariant
            i <= items.len(),
            kv@ == key@,
            forall|j: int| 0 <= j < i ==> items.deep_view()[j] != key@,
        decreases items.len() - i,
    {
        let c = chars_of(items[i].as_str());
        if chars_eq(&c, &kv) {
            assert(items.deep_view()[i as int] == key@);
            return true;
        }
        i += 1;
    }
    false
}

/// The AssetBundles root ids that the removal rules name, each once (ASCII
/// case ignored), in the order of their first appearance.
pub fn collect_remove_root_ids(rules: &PatchRuleDocument, api_url: &str) -> (r: Result<Vec<String>, PatcherError>)
    ensures
        match collect_root_ids_spec(rules.tasks_model(), api_url@) {
            Ok(ids) => r matches Ok(v) && v.deep_view() == ids,
            Err(e) => r matches Err(x) && x@ == e,
        },
{
    let ghost tasks = rules.tasks_model();
    let mut root_ids: Vec<String> = Vec::new();
    let mut seen: Vec<String> = Vec::new();
    let mut i: usize = 0;
    while i < rules.tasks.len()
        invariant
            i <= rules.tasks.len(),
            tasks == rules.tasks_model(),
            root_ids.deep_view() == root_ids_spec(tasks.take(i as int)),
            seen.deep_view() == lowered(root_ids.deep_view()),
        decreases rules.tasks.len() - i,
    {
        assert(tasks.take(i + 1).drop_last() =~= tasks.take(i as int));
        assert(tasks.take(i + 1).last() == rules.tasks@[i as int]@);
        match task_root_id_exec(&rules.tasks[i]) {
            Some(root_id) => {
                let key = to_ascii_lowercase(root_id.as_str());
                if !contains_text(&seen, &key) {
                    let ghost before = root_ids.deep_view();
                    let ghost seen_before = seen.deep_view();
                    let ghost rv = root_id@;
                    let ghost kv = key@;
                    seen.push(key);
                    root_ids.push(root_id);
                    assert(root_ids.deep_view() =~= before.push(rv));
                    assert(seen.deep_view() =~= seen_before.push(kv));
                    assert(lowered(before.push(rv)) =~= lowered(before).push(kv));
                }
            },
            None => {},
        }
        i += 1;
    }
    assert(tasks.take(i as int) =~= tasks);
    if root_ids.len() == 0 {
        return Err(PatcherError::NoAssetBundleRootIds(owned(api_url)));
    }
    Ok(root_ids)
}

/// Root ids that differ only in ASCII case are collected once.
pub proof fn lemma_root_ids_distinct_ignoring_case(tasks: Seq<PatchRuleTaskModel>)
    ensures
        lowered(root_ids_spec(tasks)).no_duplicates(),
    decreases tasks.len(),
{
    if tasks.len() > 0 {
        lemma_root_ids_distinct_ignoring_case(tasks.drop_last());
        let kept = root_ids_spec(tasks.drop_last());
        match task_root_id(tasks.last()) {
            Some(r) => {
                if !lowered(kept).contains(ascii_lower_seq(r)) {
                    assert(lowered(kept.push(r)) =~= lowered(kept).push(ascii_lower_seq(r)));
                }
            },
            None => {},
        }
    }
}

/// Nothing is lost or invented: every root id a task names is collected (up
/// to ASCII case), every collected id is one that a task names, and the
/// first task's root id, if it names one, comes first.
pub proof fn lemma_root_ids_complete(tasks: Seq<PatchRuleTaskModel>)
    ensures
        forall|j: int|
            0 <= j < tasks.len() && #[trigger] task_root_id(tasks[j]) is Some ==> lowered(root_ids_spec(tasks)).contains(
                ascii_lower_seq(task_root_id(tasks[j])->0),
            ),
        forall|i: int|
            0 <= i < root_ids_spec(tasks).len() ==> exists|j: int|
                0 <= j < tasks.len() && task_root_id(tasks[j]) == Some(#[trigger] root_ids_spec(tasks)[i]),
        tasks.len() > 0 && task_root_id(tasks[0]) is Some ==> root_ids_spec(tasks).len() > 0 && Some(
            root_ids_spec(tasks)[0],
        ) == task_root_id(tasks[0]),
    decreases tasks.len(),
{
    if tasks.len() > 0 {
        let init = tasks.drop_last();
        lemma_root_ids_complete(init);
        let kept = root_ids_spec(init);
        let out = root_ids_spec(tasks);
        assert forall|j: int|
            0 <= j < tasks.len() && #[trigger] task_root_id(tasks[j]) is Some implies lowered(out).contains(
            ascii_lower_seq(task_root_id(tasks[j])->0),
        ) by {
            match task_root_id(tasks.last()) {
                Some(r) => {
                    if !lowered(kept).contains(ascii_lower_seq(r)) {
                        assert(lowered(out) =~= lowered(kept).push(ascii_lower_seq(r)));
                        if j < init.len() {
                            assert(init[j] == tasks[j]);
                            let w = choose|x: int|
                                0 <= x < lowered(kept).len() && lowered(kept)[x] == ascii_lower_seq(
                                    task_root_id(init[j])->0,
                                );
                            assert(lowered(out)[w] == lowered(kept)[w]);
                        } else {
                            assert(lowered(out)[kept.len() as int] == ascii_lower_seq(r));
                        }
                    } else if j < init.len() {
                        assert(init[j] == tasks[j]);
                    }
                },
                None => {
                    if j < init.len() {
                        assert(init[j] == tasks[j]);
                    }
                },
            }
        }
        assert forall|i: int| 0 <= i < out.len() implies exists|j: int|
            0 <= j < tasks.len() && task_root_id(tasks[j]) == Some(#[trigger] out[i]) by {
            if i < kept.len() {
                assert(out[i] == kept[i]);
                let w = choose|j: int| 0 <= j < init.len() && task_root_id(init[j]) == Some(kept[i]);
                assert(tasks[w] == init[w]);
            } else {
                assert(task_root_id(tasks[tasks.len() - 1]) == Some(out[i]));
            }
        }
        if task_root_id(tasks[0]) is Some {
            if init.len() > 0 {
                assert(init[0] == tasks[0]);
            } else {
                assert(lowered(kept) =~= Seq::<Seq<char>>::empty());
            }
        }
    }
}

/// The rules are refused, naming their address, exactly when no task names an
/// AssetBundles root id.
pub proof fn lemma_no_root_ids_refused(tasks: Seq<PatchRuleTaskModel>, api_url: Seq<char>)
    ensures
        collect_root_ids_spec(tasks, api_url) is Err <==> forall|j: int|
            0 <= j < tasks.len() ==> #[trigger] task_root_id(tasks[j]) is None,
        collect_root_ids_spec(tasks, api_url) is Err ==> collect_root_ids_spec(tasks, api_url)
            == Err::<Seq<Seq<char>>, PatcherErrorModel>(PatcherErrorModel::NoAssetBundleRootIds(api_url)),
{
    lemma_root_ids_complete(tasks);
    let ids = root_ids_spec(tasks);
    if ids.len() > 0 {
        let w = choose|j: int| 0 <= j < tasks.len() && task_root_id(tasks[j]) == Some(#[trigger] ids[0]);
        assert(task_root_id(tasks[w]) is Some);
    } else {
        assert forall|j: int| 0 <= j < tasks.len() implies #[trigger] task_root_id(tasks[j]) is None by {
            if task_root_id(tasks[j]) is Some {
                assert(lowered(ids).contains(ascii_lower_seq(task_root_id(tasks[j])->0)));
            }
        }
    }
}

/// The summary of a removal: the directory, then the removed and the missing
/// root ids with their counts.
pub open spec fn removal_report_spec(dir: Seq<char>, removed: Seq<Seq<char>>, not_found: Seq<Seq<char>>) -> Seq<char> {
    "[대상]\n"@ + dir + "\n[삭제 완료] "@ + decimal_seq(removed.len()) + "개\n"@ + bullet_list_seq(removed)
        + "\n[미존재] "@ + decimal_seq(not_found.len()) + "개\n"@ + bullet_list_seq(not_found)
}

/// Summarises a removal.
pub fn format_removal_report(local_feimo_dir: &str, removed: &Vec<String>, not_found: &Vec<String>) -> (r: String)
    requires
        removed.len() <= u64::MAX,
        not_found.len() <= u64::MAX,
    ensures
        r@ == removal_report_spec(local_feimo_dir@, removed.deep_view(), not_found.deep_view()),
{
    let mut r = owned("[대상]\n");
    append_str(&mut r, local_feimo_dir);
    append_str(&mut r, "\n[삭제 완료] ");
    let n = decimal_string(removed.len() as u64);
    append_str(&mut r, n.as_str());
    append_str(&mut r, "개\n");
    let l = bullet_list(removed);
    append_str(&mut r, l.as_str());
    append_str(&mut r, "\n[미존재] ");
    let m = decimal_string(not_found.len() as u64);
    append_str(&mut r, m.as_str());
    append_str(&mut r, "개\n");
    let l2 = bullet_list(not_found);
    append_str(&mut r, l2.as_str());
    r
}


/// What became of one entry that was to be deleted.
pub enum DeletionOutcome {
    /// It did not exist.
    Missing,
    /// It was deleted.
    Removed,
    /// Deleting it failed, with this message.
    Failed(String),
}

/// The abstract value of a [`DeletionOutcome`].
pub enum DeletionOutcomeModel {
    Missing,
    Removed,
    Failed(Seq<char>),
}

impl View for DeletionOutcome {
    type V = DeletionOutcomeModel;

    open spec fn view(&self) -> DeletionOutcomeModel {
        match self {
            DeletionOutcome::Missing => DeletionOutcomeModel::Missing,
            DeletionOutcome::Removed => DeletionOutcomeModel::Removed,
            DeletionOutcome::Failed(m) => DeletionOutcomeModel::Failed(m@),
        }
    }
}

pub open spec fn outcome_models(outcomes: Seq<DeletionOutcome>) -> Seq<DeletionOutcomeModel> {
    Seq::new(outcomes.len(), |i: int| outcomes[i]@)
}

/// The names among the first `n` whose entry was deleted, in order.
pub open spec fn removed_among(names: Seq<Seq<char>>, outcomes: Seq<DeletionOutcomeModel>, n: nat) -> Seq<Seq<char>>
    decreases n,
{
    if n == 0 {
        Seq::empty()
    } else {
        let before = removed_among(names, outcomes, (n - 1) as nat);
        if outcomes[n - 1] is Removed {
            before.push(names[n - 1])
        } else {
            before
        }
    }
}

/// The names among the first `n` whose entry did not exist, in order.
pub open spec fn missing_among(names: Seq<Seq<char>>, outcomes: Seq<DeletionOutcomeModel>, n: nat) -> Seq<Seq<char>>
    decreases n,
{
    if n == 0 {
        Seq::empty()
    } else {
        let before = missing_among(names, outcomes, (n - 1) as nat);
        if outcomes[n - 1] is Missing {
            before.push(names[n - 1])
        } else {
            before
        }
    }
}

/// The names among the first `n` whose deletion failed, with the messages, in order.
pub open spec fn failed_among(names: Seq<Seq<char>>, outcomes: Seq<DeletionOutcomeModel>, n: nat) -> Seq<
    (Seq<char>, Seq<char>),
>
    decreases n,
{
    if n == 0 {
        Seq::empty()
    } else {
        let before = failed_among(names, outcomes, (n - 1) as nat);
        match outcomes[n - 1] {
            DeletionOutcomeModel::Failed(m) => before.push((names[n - 1], m)),
            _ => before,
        }
    }
}

/// The index of the first failed deletion at or after `i`.
pub open spec fn first_failure(outcomes: Seq<DeletionOutcomeModel>, i: int) -> Option<int>
    decreases outcomes.len() - i,
{
    if i < 0 || i >= outcomes.len() {
        None
    } else if outcomes[i] is Failed {
        Some(i)
    } else {
        first_failure(outcomes, i + 1)
    }
}

/// Every one of the first `n` names is deleted, missing or failed: the three
/// lists together are as long as the names.
pub proof fn lemma_outcomes_partition(names: Seq<Seq<char>>, outcomes: Seq<DeletionOutcomeModel>, n: nat)
    requires
        n <= outcomes.len(),
    ensures
        removed_among(names, outcomes, n).len() + missing_among(names, outcomes, n).len() + failed_among(
            names,
            outcomes,
            n,
        ).len() == n,
    decreases n,
{
    if n > 0 {
        lemma_outcomes_partition(names, outcomes, (n - 1) as nat);
    }
}

/// The name behind the `k`-th deleted (missing) entry: one among the first
/// `n` with that outcome.
proof fn lemma_listed_has_source(names: Seq<Seq<char>>, outcomes: Seq<DeletionOutcomeModel>, n: nat, k: int)
    requires
        n <= names.len(),
        n <= outcomes.len(),
    ensures
        0 <= k < removed_among(names, outcomes, n).len() ==> exists|i: int|
            0 <= i && i < n && outcomes[i] is Removed && names[i] == removed_among(names, outcomes, n)[k],
        0 <= k < missing_among(names, outcomes, n).len() ==> exists|i: int|
            0 <= i && i < n && outcomes[i] is Missing && names[i] == missing_among(names, outcomes, n)[k],
    decreases n,
{
    if n > 0 {
        let p = (n - 1) as nat;
        lemma_listed_has_source(names, outcomes, p, k);
        let rb = removed_among(names, outcomes, p);
        let mb = missing_among(names, outcomes, p);
        if 0 <= k < rb.len() {
            assert(removed_among(names, outcomes, n)[k] == rb[k]);
        } else if k == rb.len() && outcomes[p as int] is Removed {
            assert(names[p as int] == removed_among(names, outcomes, n)[k]);
        }
        if 0 <= k < mb.len() {
            assert(missing_among(names, outcomes, n)[k] == mb[k]);
        } else if k == mb.len() && outcomes[p as int] is Missing {
            assert(names[p as int] == missing_among(names, outcomes, n)[k]);
        }
    }
}

/// Every name among the first `n` that was deleted (missing) is in the
/// deleted (missing) list.
pub proof fn lemma_outcome_lists_exact(names: Seq<Seq<char>>, outcomes: Seq<DeletionOutcomeModel>, n: nat)
    requires
        n <= names.len(),
        n <= outcomes.len(),
    ensures
        forall|i: int| 0 <= i < n && #[trigger] outcomes[i] is Removed ==> removed_among(names, outcomes, n).contains(names[i]),
        forall|i: int| 0 <= i < n && #[trigger] outcomes[i] is Missing ==> missing_among(names, outcomes, n).contains(names[i]),
    decreases n,
{
    if n > 0 {
        let p = (n - 1) as nat;
        lemma_outcome_lists_exact(names, outcomes, p);
        let rb = removed_among(names, outcomes, p);
        let mb = missing_among(names, outcomes, p);
        let r = removed_among(names, outcomes, n);
        let m = missing_among(names, outcomes, n);
        assert forall|i: int| 0 <= i < n && #[trigger] outcomes[i] is Removed implies r.contains(names[i]) by {
            if i < p {
                let w = choose|x: int| 0 <= x < rb.len() && rb[x] == names[i];
                if outcomes[p as int] is Removed {
                    assert(r[w] == rb[w]);
                }
            } else {
                assert(r[rb.len() as int] == names[i]);
            }
        }
        assert forall|i: int| 0 <= i < n && #[trigger] outcomes[i] is Missing implies m.contains(names[i]) by {
            if i < p {
                let w = choose|x: int| 0 <= x < mb.len() && mb[x] == names[i];
                if outcomes[p as int] is Missing {
                    assert(m[w] == mb[w]);
                }
            } else {
                assert(m[mb.len() as int] == names[i]);
            }
        }
    }
}

/// Every name in the deleted (missing) list is one among the first `n` that
/// was deleted (missing).
pub proof fn lemma_listed_names_have_outcome(names: Seq<Seq<char>>, outcomes: Seq<DeletionOutcomeModel>, n: nat)
    requires
        n <= names.len(),
        n <= outcomes.len(),
    ensures
        forall|x: Seq<char>|
            #[trigger] removed_among(names, outcomes, n).contains(x) ==> exists|i: int|
                0 <= i < n && outcomes[i] is Removed && names[i] == x,
        forall|x: Seq<char>|
            #[trigger] missing_among(names, outcomes, n).contains(x) ==> exists|i: int|
                0 <= i < n && outcomes[i] is Missing && names[i] == x,
{
    assert forall|x: Seq<char>| #[trigger] removed_among(names, outcomes, n).contains(x) implies exists|i: int|
        0 <= i < n && outcomes[i] is Removed && names[i] == x by {
        let k = choose|k: int| 0 <= k < removed_among(names, outcomes, n).len() && removed_among(names, outcomes, n)[k] == x;
        lemma_listed_has_source(names, outcomes, n, k);
    }
    assert forall|x: Seq<char>| #[trigger] missing_among(names, outcomes, n).contains(x) implies exists|i: int|
        0 <= i < n && outcomes[i] is Missing && names[i] == x by {
        let k = choose|k: int| 0 <= k < missing_among(names, outcomes, n).len() && missing_among(names, outcomes, n)[k] == x;
        lemma_listed_has_source(names, outcomes, n, k);
    }
}

/// Without a failure among the first `n`, none is listed as failed.
pub proof fn lemma_no_failure_none_failed(names: Seq<Seq<char>>, outcomes: Seq<DeletionOutcomeModel>, n: nat)
    requires
        n <= outcomes.len(),
        forall|i: int| 0 <= i < n ==> !(#[trigger] outcomes[i] is Failed),
    ensures
        failed_among(names, outcomes, n).len() == 0,
    decreases n,
{
    if n > 0 {
        assert(!(outcomes[n - 1] is Failed));
        lemma_no_failure_none_failed(names, outcomes, (n - 1) as nat);
    }
}

/// The three lists of a run of deletions, one step at a time.
pub(crate) fn sort_outcomes(names: &Vec<String>, outcomes: &Vec<DeletionOutcome>, n: usize) -> (r: (Vec<String>, Vec<String>, Vec<(String, String)>))
    requires
        n <= names.len(),
        n <= outcomes.len(),
    ensures
        r.0.deep_view() == removed_among(names.deep_view(), outcome_models(outcomes@), n as nat),
        r.1.deep_view() == missing_among(names.deep_view(), outcome_models(outcomes@), n as nat),
        Seq::new(r.2@.len(), |i: int| (r.2@[i].0@, r.2@[i].1@)) == failed_among(
            names.deep_view(),
            outcome_models(outcomes@),
            n as nat,
        ),
{
    let ghost nv = names.deep_view();
    let ghost ov = outcome_models(outcomes@);
    let mut removed: Vec<String> = Vec::new();
    let mut missing: Vec<String> = Vec::new();
    let mut failed: Vec<(String, String)> = Vec::new();
    let mut i: usize = 0;
    while i < n
        invariant
            i <= n <= names.len(),
            n <= outcomes.len(),
            nv == names.deep_view(),
            ov == outcome_models(outcomes@),
            removed.deep_view() == removed_among(nv, ov, i as nat),
            missing.deep_view() == missing_among(nv, ov, i as nat),
            Seq::new(failed@.len(), |k: int| (failed@[k].0@, failed@[k].1@)) == failed_among(nv, ov, i as nat),
        decreases n - i,
    {
        assert(nv[i as int] == names@[i as int]@);
        assert(ov[i as int] == outcomes@[i as int]@);
        match &outcomes[i] {
            DeletionOutcome::Removed => {
                let ghost before = removed.deep_view();
                removed.push(names[i].clone());
                assert(removed.deep_view() =~= before.push(nv[i as int]));
            },
            DeletionOutcome::Missing => {
                let ghost before = missing.deep_view();
                missing.push(names[i].clone());
                assert(missing.deep_view() =~= before.push(nv[i as int]));
            },
            DeletionOutcome::Failed(m) => {
                let ghost before = Seq::new(failed@.len(), |k: int| (failed@[k].0@, failed@[k].1@));
                failed.push((names[i].clone(), m.clone()));
                assert(Seq::new(failed@.len(), |k: int| (failed@[k].0@, failed@[k].1@)) =~= before.push(
                    (nv[i as int], m@),
                ));
            },
        }
        i += 1;
    }
    (removed, missing, failed)
}

/// Sorts the outcomes of deleting patch roots, which stop at the first failed
/// deletion: that failure's message, or the deleted and the missing root ids
/// in order, which together are all the ids.
pub fn partition_removals(root_ids: &Vec<String>, outcomes: &Vec<DeletionOutcome>) -> (r: Result<
    (Vec<String>, Vec<String>),
    String,
>)
    requires
        outcomes.len() == root_ids.len() || (outcomes.len() > 0 && outcomes.len() <= root_ids.len()
            && outcomes@.last() is Failed),
    ensures
        match first_failure(outcome_models(outcomes@), 0) {
            Some(k) => r matches Err(m) && outcome_models(outcomes@)[k] == DeletionOutcomeModel::Failed(m@),
            None => r matches Ok((removed, missing)) && removed.deep_view() == removed_among(
                root_ids.deep_view(),
                outcome_models(outcomes@),
                root_ids.len() as nat,
            ) && missing.deep_view() == missing_among(
                root_ids.deep_view(),
                outcome_models(outcomes@),
                root_ids.len() as nat,
            ) && removed.len() + missing.len() == root_ids.len(),
        },
{
    let ghost ov = outcome_models(outcomes@);
    let mut i: usize = 0;
    while i < outcomes.len()
        invariant
            i <= outcomes.len(),
            ov == outcome_models(outcomes@),
            first_failure(ov, 0) == first_failure(ov, i as int),
            forall|j: int| 0 <= j < i ==> !(#[trigger] ov[j] is Failed),
        decreases outcomes.len() - i,
    {
        assert(ov[i as int] == outcomes@[i as int]@);
        match &outcomes[i] {
            DeletionOutcome::Failed(m) => {
                return Err(m.clone());
            },
            _ => {},
        }
        i += 1;
    }
    proof {
        if outcomes.len() != root_ids.len() {
            assert(ov[outcomes.len() - 1] == outcomes@.last()@);
        }
        lemma_outcomes_partition(root_ids.deep_view(), ov, root_ids.len() as nat);
        lemma_no_failure_none_failed(root_ids.deep_view(), ov, root_ids.len() as nat);
    }
    let (removed, missing, failed) = sort_outcomes(root_ids, outcomes, root_ids.len());
    Ok((removed, missing))
}

} // verus!
