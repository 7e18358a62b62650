//! Applying an extracted patch bundle: finding its directories and planning
//! the copies into the game.
use vstd::prelude::*;
use crate::error::{PatcherError, PatcherErrorModel};
use crate::target::{is_supported_patch_target, is_supported_target};
use crate::text::{append_str, eq_ignore_ascii_case, eq_ignore_ascii_case_seq, owned};

verus! {

/// A directory met during a search: its path and its last component, when
/// that component is valid text.
pub struct DirEntry {
    pub path: String,
    pub file_name: Option<String>,
}

pub open spec fn entry_model(e: DirEntry) -> (Seq<char>, Option<Seq<char>>) {
    (e.path@, e.file_name.deep_view())
}

/// A depth-first search for the first directory with a given name (any
/// ASCII case): the most recently added directory is looked at first.
pub struct DirSearch {
    name: String,
    stack: Vec<DirEntry>,
}

/// The abstract value of a [`DirSearch`]: the name sought and the directories
/// still to look at, the next one last.
pub struct DirSearchModel {
    pub name: Seq<char>,
    pub stack: Seq<(Seq<char>, Option<Seq<char>>)>,
}

impl View for DirSearch {
    type V = DirSearchModel;

    closed spec fn view(&self) -> DirSearchModel {
        DirSearchModel {
            name: self.name@,
            stack: Seq::new(self.stack@.len(), |i: int| entry_model(self.stack@[i])),
        }
    }
}

/// What the search asks for next.
pub enum SearchStep {
    /// This directory has the name sought.
    Found(String),
    /// List this directory's subdirectories and add them.
    Explore(String),
    /// No directory is left to look at.
    Exhausted,
}

/// The directory has the name sought.
pub open spec fn is_named(entry: (Seq<char>, Option<Seq<char>>), name: Seq<char>) -> bool {
    entry.1 matches Some(n) && eq_ignore_ascii_case_seq(n, name)
}

impl DirSearch {
    /// A search from `root`, which holds nothing to look at when the root does not exist.
    pub fn new(name: &str, root: DirEntry, root_exists: bool) -> (s: DirSearch)
        ensures
            s@.name == name@,
            s@.stack == if root_exists {
                seq![entry_model(root)]
            } else {
                Seq::empty()
            },
    {
        let ghost rm = entry_model(root);
        let mut stack: Vec<DirEntry> = Vec::new();
        if root_exists {
            stack.push(root);
        }
        let s = DirSearch { name: owned(name), stack };
        assert(s@.stack =~= if root_exists {
            seq![rm]
        } else {
            Seq::empty()
        });
        s
    }

    /// Takes the next directory: it is found when it has the name sought,
    /// and is to be explored otherwise.
    pub fn next(&mut self) -> (step: SearchStep)
        ensures
            final(self)@.name == old(self)@.name,
            old(self)@.stack.len() == 0 ==> step is Exhausted && final(self)@ == old(self)@,
            old(self)@.stack.len() > 0 ==> {
                let top = old(self)@.stack.last();
                &&& final(self)@.stack == old(self)@.stack.drop_last()
                &&& if is_named(top, old(self)@.name) {
                    step matches SearchStep::Found(p) && p@ == top.0
                } else {
                    step matches SearchStep::Explore(p) && p@ == top.0
                }
            },
    {
        let ghost before = self@.stack;
        match self.stack.pop() {
            None => SearchStep::Exhausted,
            Some(entry) => {
                assert(self@.stack =~= before.drop_last());
                let named = match &entry.file_name {
                    Some(n) => eq_ignore_ascii_case(n.as_str(), self.name.as_str()),
                    None => false,
                };
                if named {
                    SearchStep::Found(entry.path)
                } else {
                    SearchStep::Explore(entry.path)
                }
            },
        }
    }

    /// Adds the subdirectories of the directory just explored, in listing order.
    pub fn push_subdirectories(&mut self, subdirectories: Vec<DirEntry>)
        ensures
            final(self)@.name == old(self)@.name,
            final(self)@.stack == old(self)@.stack + Seq::new(
                subdirectories@.len(),
                |i: int| entry_model(subdirectories@[i]),
            ),
    {
        let ghost before = self.stack@;
        let mut subdirectories = subdirectories;
        let ghost added = subdirectories@;
        self.stack.append(&mut subdirectories);
        assert(self@.stack =~= old(self)@.stack + Seq::new(added.len(), |i: int| entry_model(added[i])));
    }
}

/// A directory of the bundle to copy into a directory of the game.
pub struct CopyJob {
    pub source: String,
    pub target: String,
}

/// The copies that apply a patch bundle, in order, and the detail shown once they are done.
pub struct PatchApplication {
    pub copies: Vec<CopyJob>,
    pub detail: String,
}

/// The detail shown once a bundle is applied.
pub open spec fn applied_detail_spec(local_feimo_dir: Seq<char>, game_dir: Seq<char>) -> Seq<char> {
    "[AssetBundles]\n"@ + local_feimo_dir + "\n[StandaloneWindows64]\n"@ + game_dir
}

/// Plans the application of an extracted bundle: its `AssetBundles` directory
/// goes to the local download directory and its `StandaloneWindows64`
/// directory to the game directory. Either directory missing from the bundle,
/// or an unsupported target, is refused, in that order.
pub fn apply_patch_bundle(
    target: &str,
    extracted_root: &str,
    assetbundles_source: Option<String>,
    standalone_source: Option<String>,
    game_dir: &str,
    local_feimo_dir: &str,
) -> (r: Result<PatchApplication, PatcherError>)
    ensures
        assetbundles_source is None ==> (r matches Err(e) && e@
            == PatcherErrorModel::AssetBundlesNotExtracted(extracted_root@)),
        assetbundles_source is Some && standalone_source is None ==> (r matches Err(e) && e@
            == PatcherErrorModel::StandaloneNotExtracted(extracted_root@)),
        assetbundles_source is Some && standalone_source is Some && !is_supported_target(target@)
            ==> (r matches Err(e) && e@ == PatcherErrorModel::UnsupportedTarget(target@)),
        assetbundles_source is Some && standalone_source is Some && is_supported_target(target@) ==> (
        r matches Ok(plan) && plan.copies@.len() == 2 && plan.copies@[0].source@
            == assetbundles_source->0@ && plan.copies@[0].target@ == local_feimo_dir@
            && plan.copies@[1].source@ == standalone_source->0@ && plan.copies@[1].target@
            == game_dir@ && plan.detail@ == applied_detail_spec(local_feimo_dir@, game_dir@)),
{
    let assetbundles = match assetbundles_source {
        Some(s) => s,
        None => return Err(PatcherError::AssetBundlesNotExtracted(owned(extracted_root))),
    };
    let standalone = match standalone_source {
        Some(s) => s,
        None => return Err(PatcherError::StandaloneNotExtracted(owned(extracted_root))),
    };
    if !is_supported_patch_target(target) {
        return Err(PatcherError::UnsupportedTarget(owned(target)));
    }
    let mut copies: Vec<CopyJob> = Vec::new();
    copies.push(CopyJob { source: assetbundles, target: owned(local_feimo_dir) });
    copies.push(CopyJob { source: standalone, target: owned(game_dir) });
    let mut detail = owned("[AssetBundles]\n");
    append_str(&mut detail, local_feimo_dir);
    append_str(&mut detail, "\n[StandaloneWindows64]\n");
    append_str(&mut detail, game_dir);
    Ok(PatchApplication { copies, detail })
}

/// The message of a failed file copy, with advice when access was denied.
pub open spec fn copy_failure_message_spec(source: Seq<char>, target: Seq<char>, permission_denied: bool, protected: bool) -> Seq<char> {
    let base = "파일 복사에 실패했습니다.\n"@ + source + " -> "@ + target;
    if permission_denied {
        let advised = base + "\n[확인] 게임과 런처를 완전히 종료한 뒤 다시 시도하세요."@;
        if protected {
            advised + "\n[권한] Program Files 아래 경로는 관리자 권한이 필요할 수 있습니다."@
        } else {
            advised
        }
    } else {
        base
    }
}

/// The message of a failed file copy.
pub fn copy_failure_message(source: &str, target: &str, permission_denied: bool, protected: bool) -> (m: String)
    ensures
        m@ == copy_failure_message_spec(source@, target@, permission_denied, protected),
{
    let mut m = owned("파일 복사에 실패했습니다.\n");
    append_str(&mut m, source);
    append_str(&mut m, " -> ");
    append_str(&mut m, target);
    if permission_denied {
        append_str(&mut m, "\n[확인] 게임과 런처를 완전히 종료한 뒤 다시 시도하세요.");
        if protected {
            append_str(&mut m, "\n[권한] Program Files 아래 경로는 관리자 권한이 필요할 수 있습니다.");
        }
    }
    m
}

} // verus!
