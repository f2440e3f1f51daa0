//! Worktree orchestrator: stable path derivation and the preparation
//! state machine.
//!
//! Every Git operation is performed by the application shell; this module
//! makes all the decisions.  `prepare_start`/`prepare_step` form a state
//! machine from state and Git result to next state and Git action, so
//! that a session always receives a usable working directory: an existing
//! managed worktree is reused, the main checkout is moved aside when it
//! occupies the requested branch, a missing branch is created, and on any
//! failure the project path itself is returned with a warning.

use vstd::prelude::*;
use crate::gitmodel::{BranchInfo, WorktreeInfo};
use crate::strutil::{str_eq, string_eq_str, string_eq};
use crate::hashing::{hex_of, sha256_of, repo_hash_prefix};
use vstd::utf8::encode_utf8;
use vstd::string::StrSliceExecFns;

verus! {

/// Result of preparing a worktree for a session.
#[derive(Clone, Debug)]
pub struct WorktreePreparationResult {
    /// The directory where the session should run (worktree or project path).
    pub working_directory: String,
    /// The worktree path, if one was created or reused.
    pub worktree_path: Option<String>,
    /// Whether a new worktree was created (vs. reused or skipped).
    pub created: bool,
    /// Warning when something unexpected happened but the launch recovered.
    pub warning: Option<String>,
}

/// Manages supervisor-owned git worktrees under a deterministic,
/// repository-specific directory.  Stateless: every path is a pure
/// function of the repository path and branch name.
pub struct WorktreeManager;

impl WorktreeManager {
    /// Creates a stateless manager.
    pub fn new() -> (r: Self)
    {
        WorktreeManager
    }
}

/// One filesystem-unsafe character replaced in branch names.
pub open spec fn sanitize_char(c: char) -> char {
    if c == '/' || c == '\\' || c == ':' || c == '*' || c == '?' || c == '"' || c == '<' || c
        == '>' || c == '|' {
        '-'
    } else {
        c
    }
}

/// The directory name for a branch: unsafe characters become `-`; the
/// empty name and the dot names map to `unnamed-branch`.
pub open spec fn sanitize_branch_spec(s: Seq<char>) -> Seq<char> {
    if s.len() == 0 || s == "."@ || s == ".."@ {
        "unnamed-branch"@
    } else {
        s.map_values(|c: char| sanitize_char(c))
    }
}

/// Replaces filesystem-unsafe characters in a branch name with hyphens;
/// `""`, `.` and `..` become `unnamed-branch`.
pub fn sanitize_branch(branch: &str) -> (r: String)
    ensures
        r@ == sanitize_branch_spec(branch@),
{
    if branch.is_empty() || str_eq(branch, ".") || str_eq(branch, "..") {
        return "unnamed-branch".to_owned();
    }
    let n = branch.unicode_len();
    let mut r = String::new();
    let mut i: usize = 0;
    while i < n
        invariant
            i <= n,
            n == branch@.len(),
            r@ == branch@.map_values(|c: char| sanitize_char(c)).take(i as int),
        decreases n - i,
    {
        let c = branch.get_char(i);
        let s: char = if c == '/' || c == '\\' || c == ':' || c == '*' || c == '?' || c == '"' || c
            == '<' || c == '>' || c == '|' {
            '-'
        } else {
            c
        };
        proof {
            assert(s == sanitize_char(branch@[i as int]));
        }
        crate::decimal::string_push(&mut r, s);
        i += 1;
        proof {
            assert(r@ =~= branch@.map_values(|c: char| sanitize_char(c)).take(i as int));
        }
    }
    proof {
        assert(r@ =~= branch@.map_values(|c: char| sanitize_char(c)));
    }
    r
}

/// True when a local branch named `name` is in `branches`.
pub open spec fn has_local_branch(branches: Seq<BranchInfo>, name: Seq<char>) -> bool {
    exists|i: int| 0 <= i < branches.len() && !branches[i].is_remote && branches[i].name@ == name
}

/// True when a remote branch named `name` is in `branches`.
pub open spec fn has_remote_branch(branches: Seq<BranchInfo>, name: Seq<char>) -> bool {
    exists|i: int| 0 <= i < branches.len() && branches[i].is_remote && branches[i].name@ == name
}

/// The index of the first `'/'` in `s`, or `s.len()` if there is none.
pub open spec fn first_slash(s: Seq<char>) -> int
    decreases s.len(),
{
    if s.len() == 0 {
        0
    } else if s[0] == '/' {
        0
    } else {
        1 + first_slash(s.drop_first())
    }
}

/// `first_slash` returns the least index holding `'/'`, or the length.
pub proof fn lemma_first_slash(s: Seq<char>)
    ensures
        0 <= first_slash(s) <= s.len(),
        first_slash(s) < s.len() ==> s[first_slash(s)] == '/',
        forall|k: int| 0 <= k < first_slash(s) ==> s[k] != '/',
    decreases s.len(),
{
    if s.len() == 0 {
    } else if s[0] == '/' {
    } else {
        lemma_first_slash(s.drop_first());
        assert(forall|k: int| 1 <= k < first_slash(s) ==> s[k] == s.drop_first()[k - 1]);
    }
}

/// The local branch name a requested ref resolves to: a name that exists
/// as a local branch is used verbatim (even with slashes); otherwise a
/// slashed name is treated as a remote ref and its first segment dropped.
pub open spec fn resolve_local_spec(branch: Seq<char>, branches: Seq<BranchInfo>) -> Seq<char> {
    if has_local_branch(branches, branch) {
        branch
    } else if first_slash(branch) < branch.len() {
        branch.skip(first_slash(branch) + 1)
    } else {
        branch
    }
}

/// Resolves a branch reference to the local branch name.
pub fn resolve_local_branch_name(branch: &str, local_branches: &Vec<BranchInfo>) -> (r: String)
    ensures
        r@ == resolve_local_spec(branch@, local_branches@),
{
    let n = local_branches.len();
    let mut i: usize = 0;
    while i < n
        invariant
            i <= n,
            n == local_branches@.len(),
            forall|k: int|
                0 <= k < i ==> !(!local_branches@[k].is_remote && local_branches@[k].name@
                    == branch@),
        decreases n - i,
    {
        let b = &local_branches[i];
        if !b.is_remote && string_eq_str(&b.name, branch) {
            return branch.to_owned();
        }
        i += 1;
    }
    proof {
        assert(!has_local_branch(local_branches@, branch@));
        lemma_first_slash(branch@);
    }
    // not a local branch: strip the first segment of a remote-style ref
    let bn = branch.unicode_len();
    let mut p: usize = 0;
    while p < bn && branch.get_char(p) != '/'
        invariant
            p <= bn,
            bn == branch@.len(),
            forall|k: int| 0 <= k < p ==> branch@[k] != '/',
        decreases bn - p,
    {
        p += 1;
    }
    proof {
        lemma_slash_exact(branch@, p as int);
    }
    if p < bn {
        let r = branch.substring_char(p + 1, bn).to_owned();
        proof {
            assert(r@ =~= branch@.skip(p + 1));
        }
        r
    } else {
        branch.to_owned()
    }
}

/// Any index holding the first `'/'` (or the length, with none before) is
/// `first_slash`.
proof fn lemma_slash_exact(s: Seq<char>, i: int)
    requires
        0 <= i <= s.len(),
        forall|k: int| 0 <= k < i ==> s[k] != '/',
        i < s.len() ==> s[i] == '/',
    ensures
        first_slash(s) == i,
{
    lemma_first_slash(s);
    let f = first_slash(s);
    if f < i {
        assert(s[f] == '/');
    }
    if i < f {
        assert(s[i] != '/');
    }
}

/// True when `r` is the correct fallback answer for moving the main
/// checkout off `avoid`: the configured default branch if usable, else
/// the first of `main`, `master`, `develop` that exists locally, else
/// some other local branch, else nothing.
pub open spec fn is_fallback_answer(
    r: Option<String>,
    default_branch: Option<Seq<char>>,
    branches: Seq<BranchInfo>,
    avoid: Seq<char>,
) -> bool {
    if default_branch is Some && default_branch->0 != avoid {
        r is Some && r->0@ == default_branch->0
    } else if has_local_branch(branches, "main"@) && "main"@ != avoid {
        r is Some && r->0@ == "main"@
    } else if has_local_branch(branches, "master"@) && "master"@ != avoid {
        r is Some && r->0@ == "master"@
    } else if has_local_branch(branches, "develop"@) && "develop"@ != avoid {
        r is Some && r->0@ == "develop"@
    } else if exists|i: int|
        0 <= i < branches.len() && !branches[i].is_remote && branches[i].name@ != avoid {
        r is Some && (exists|i: int|
            0 <= i < branches.len() && !branches[i].is_remote && branches[i].name@ != avoid
                && branches[i].name@ == r->0@)
    } else {
        r is None
    }
}

/// Picks a branch to switch the main checkout to when the requested
/// branch is currently checked out there.  Tries the configured default
/// branch, then `main`, `master`, `develop`, then any other local branch;
/// `None` in a single-branch repository.
#[verifier::loop_isolation(false)]
pub fn choose_fallback_branch(
    default_branch: &Option<String>,
    branches: &Vec<BranchInfo>,
    avoid: &str,
) -> (r: Option<String>)
    ensures
        is_fallback_answer(
            r,
            match default_branch {
                Option::Some(d) => Some(d@),
                Option::None => None,
            },
            branches@,
            avoid@,
        ),
{
    match default_branch {
        Some(d) => {
            if !string_eq_str(d, avoid) {
                return Some(d.clone());
            }
        },
        None => {},
    }
    if find_local(branches, "main") && !str_eq("main", avoid) {
        return Some("main".to_owned());
    }
    if find_local(branches, "master") && !str_eq("master", avoid) {
        return Some("master".to_owned());
    }
    if find_local(branches, "develop") && !str_eq("develop", avoid) {
        return Some("develop".to_owned());
    }
    let n = branches.len();
    let mut i: usize = 0;
    while i < n
        invariant
            i <= n,
            n == branches@.len(),
            forall|k: int|
                0 <= k < i ==> !(!branches@[k].is_remote && branches@[k].name@ != avoid@),
        decreases n - i,
    {
        let b = &branches[i];
        if !b.is_remote && !string_eq_str(&b.name, avoid) {
            return Some(b.name.clone());
        }
        i += 1;
    }
    None
}

/// Whether a local branch named `name` exists.
fn find_local(branches: &Vec<BranchInfo>, name: &str) -> (r: bool)
    ensures
        r == has_local_branch(branches@, name@),
{
    let n = branches.len();
    let mut i: usize = 0;
    while i < n
        invariant
            i <= n,
            n == branches@.len(),
            forall|k: int|
                0 <= k < i ==> !(!branches@[k].is_remote && branches@[k].name@ == name@),
        decreases n - i,
    {
        let b = &branches[i];
        if !b.is_remote && string_eq_str(&b.name, name) {
            return true;
        }
        i += 1;
    }
    false
}

/// How a missing local branch is brought into existence.
#[derive(Clone, Debug)]
pub enum BranchPlan {
    /// The local branch already exists; nothing to create.
    AlreadyLocal,
    /// Create a local tracking branch from the named remote ref.
    CreateTracking { start_point: String },
    /// Create the branch from HEAD.
    CreateFromHead,
}

/// The plan for ensuring `local_branch` exists: nothing if it is local
/// already; a tracking branch if the requested ref is a slashed name that
/// exists remotely; otherwise creation from HEAD.
pub fn ensure_branch_plan(
    original_branch: &str,
    local_branch: &str,
    branches: &Vec<BranchInfo>,
) -> (r: BranchPlan)
    ensures
        has_local_branch(branches@, local_branch@) <==> r is AlreadyLocal,
        !has_local_branch(branches@, local_branch@) && first_slash(original_branch@)
            < original_branch@.len() && has_remote_branch(branches@, original_branch@) ==> (
        r matches BranchPlan::CreateTracking { start_point } && start_point@ == original_branch@),
        !has_local_branch(branches@, local_branch@) && !(first_slash(original_branch@)
            < original_branch@.len() && has_remote_branch(branches@, original_branch@))
            ==> r is CreateFromHead,
{
    if find_local(branches, local_branch) {
        return BranchPlan::AlreadyLocal;
    }
    let is_remote_ref = contains_slash(original_branch);
    let remote_exists = find_remote(branches, original_branch);
    if is_remote_ref && remote_exists {
        BranchPlan::CreateTracking { start_point: original_branch.to_owned() }
    } else {
        BranchPlan::CreateFromHead
    }
}

/// Whether the name contains a `'/'`.
fn contains_slash(s: &str) -> (r: bool)
    ensures
        r == (first_slash(s@) < s@.len()),
{
    let n = s.unicode_len();
    let mut p: usize = 0;
    while p < n && s.get_char(p) != '/'
        invariant
            p <= n,
            n == s@.len(),
            forall|k: int| 0 <= k < p ==> s@[k] != '/',
        decreases n - p,
    {
        p += 1;
    }
    proof {
        lemma_slash_exact(s@, p as int);
    }
    p < n
}

/// Whether a remote branch named `name` exists.
fn find_remote(branches: &Vec<BranchInfo>, name: &str) -> (r: bool)
    ensures
        r == has_remote_branch(branches@, name@),
{
    let n = branches.len();
    let mut i: usize = 0;
    while i < n
        invariant
            i <= n,
            n == branches@.len(),
            forall|k: int|
                0 <= k < i ==> !(branches@[k].is_remote && branches@[k].name@ == name@),
        decreases n - i,
    {
        let b = &branches[i];
        if b.is_remote && string_eq_str(&b.name, name) {
            return true;
        }
        i += 1;
    }
    false
}

/// The first reusable managed worktree for `local_branch`: not the main
/// worktree, and checked out on that branch.
pub open spec fn reusable_spec(worktrees: Seq<WorktreeInfo>, local_branch: Seq<char>) -> Option<
    Seq<char>,
> {
    if exists|i: int|
        0 <= i < worktrees.len() && !worktrees[i].is_main_worktree && worktrees[i].branch is Some
            && worktrees[i].branch->0@ == local_branch {
        let i = choose|i: int|
            0 <= i < worktrees.len() && !worktrees[i].is_main_worktree
                && worktrees[i].branch is Some && worktrees[i].branch->0@ == local_branch;
        Some(worktrees[i].path@)
    } else {
        None
    }
}

/// Finds an existing managed worktree already on `local_branch`, skipping
/// the main worktree.
pub fn find_reusable_worktree(worktrees: &Vec<WorktreeInfo>, local_branch: &str) -> (r: Option<
    String,
>)
    ensures
        match r {
            Some(p) => exists|i: int|
                0 <= i < worktrees@.len() && !worktrees@[i].is_main_worktree
                    && worktrees@[i].branch is Some && worktrees@[i].branch->0@ == local_branch@
                    && worktrees@[i].path@ == p@,
            None => !(exists|i: int|
                0 <= i < worktrees@.len() && !worktrees@[i].is_main_worktree
                    && worktrees@[i].branch is Some && worktrees@[i].branch->0@ == local_branch@),
        },
{
    let n = worktrees.len();
    let mut i: usize = 0;
    while i < n
        invariant
            i <= n,
            n == worktrees@.len(),
            forall|k: int|
                0 <= k < i ==> !(!worktrees@[k].is_main_worktree && worktrees@[k].branch is Some
                    && worktrees@[k].branch->0@ == local_branch@),
        decreases n - i,
    {
        let wt = &worktrees[i];
        if !wt.is_main_worktree {
            match &wt.branch {
                Some(b) => {
                    if string_eq_str(b, local_branch) {
                        return Some(wt.path.clone());
                    }
                },
                None => {},
            }
        }
        i += 1;
    }
    None
}

/// The views of a list of path strings.
pub open spec fn path_views(v: Seq<String>) -> Seq<Seq<char>> {
    v.map_values(|s: String| s@)
}

/// The predicate selecting paths absent from the active list.
pub open spec fn not_active(active: Seq<Seq<char>>) -> spec_fn(Seq<char>) -> bool {
    |p: Seq<char>| !active.contains(p)
}

/// The managed-directory entries to prune: exactly those (canonical)
/// entry paths, in order, that the live worktree list does not contain.
pub fn orphaned_entries(
    entry_paths_canonical: &Vec<String>,
    active_canonical: &Vec<String>,
) -> (r: Vec<String>)
    ensures
        path_views(r@) == path_views(entry_paths_canonical@).filter(
            not_active(path_views(active_canonical@)),
        ),
{
    let ghost entries = path_views(entry_paths_canonical@);
    let ghost active = path_views(active_canonical@);
    let n = entry_paths_canonical.len();
    let mut r: Vec<String> = Vec::new();
    let mut i: usize = 0;
    proof {
        assert(entries.take(0).filter(not_active(active)) =~= Seq::<Seq<char>>::empty());
        assert(path_views(r@) =~= Seq::<Seq<char>>::empty());
    }
    while i < n
        invariant
            i <= n,
            n == entry_paths_canonical@.len(),
            entries == path_views(entry_paths_canonical@),
            active == path_views(active_canonical@),
            path_views(r@) == entries.take(i as int).filter(not_active(active)),
        decreases n - i,
    {
        proof {
            assert(entries.take(i + 1) =~= entries.take(i as int).push(entries[i as int]));
            entries.take(i as int).lemma_filter_push(entries[i as int], not_active(active));
            assert(entries.take(i + 1).filter(not_active(active)) == entries.take(i as int).push(
                entries[i as int],
            ).filter(not_active(active)));
        }
        let ghost before = path_views(r@);
        if !list_contains(active_canonical, entry_paths_canonical[i].as_str()) {
            r.push(entry_paths_canonical[i].clone());
            proof {
                assert(path_views(r@) =~= before.push(entries[i as int]));
            }
        }
        i += 1;
    }
    proof {
        assert(entries.take(n as int) =~= entries);
    }
    r
}

/// Whether a path list contains the given path, at the character level.
fn list_contains(v: &Vec<String>, p: &str) -> (r: bool)
    ensures
        r == path_views(v@).contains(p@),
{
    let n = v.len();
    let mut i: usize = 0;
    while i < n
        invariant
            i <= n,
            n == v@.len(),
            forall|k: int| 0 <= k < i ==> v@[k]@ != p@,
        decreases n - i,
    {
        if string_eq_str(&v[i], p) {
            proof {
                assert(path_views(v@)[i as int] == p@);
            }
            return true;
        }
        i += 1;
    }
    proof {
        if path_views(v@).contains(p@) {
            let w = choose|w: int| 0 <= w < path_views(v@).len() && path_views(v@)[w] == p@;
            assert(v@[w]@ == p@);
        }
    }
    false
}

/// The typed conflict when the requested branch is already checked out
/// in some worktree: the error carries the branch and that worktree's
/// path; nothing when no worktree holds the branch.
pub fn branch_checkout_conflict(branch: &str, worktrees: &Vec<WorktreeInfo>) -> (r: Option<
    crate::errors::GitError,
>)
    ensures
        match r {
            Some(e) => e matches crate::errors::GitError::BranchAlreadyCheckedOut {
                branch: b,
                path,
            } && b@ == branch@ && (exists|i: int|
                0 <= i < worktrees@.len() && (#[trigger] worktrees@[i].branch) is Some
                    && worktrees@[i].branch->0@ == branch@ && worktrees@[i].path@ == path@),
            None => !(exists|i: int|
                0 <= i < worktrees@.len() && (#[trigger] worktrees@[i].branch) is Some
                    && worktrees@[i].branch->0@ == branch@),
        },
{
    let n = worktrees.len();
    let mut i: usize = 0;
    while i < n
        invariant
            i <= n,
            n == worktrees@.len(),
            forall|k: int|
                0 <= k < i ==> !((#[trigger] worktrees@[k].branch) is Some
                    && worktrees@[k].branch->0@ == branch@),
        decreases n - i,
    {
        let wt = &worktrees[i];
        match &wt.branch {
            Some(b) => {
                if string_eq_str(b, branch) {
                    return Some(
                        crate::errors::GitError::BranchAlreadyCheckedOut {
                            branch: branch.to_owned(),
                            path: wt.path.clone(),
                        },
                    );
                }
            },
            None => {},
        }
        i += 1;
    }
    None
}

/// The inputs a preparation run carries from state to state.
#[derive(Clone, Debug)]
pub struct PrepareData {
    /// Canonicalized project path; the fallback working directory.
    pub project_path: String,
    /// The branch as requested.
    pub branch: String,
    /// The managed worktree base directory.
    pub base_dir: String,
}

impl PrepareData {
    /// An exact copy.
    pub fn duplicate(&self) -> (r: PrepareData)
        ensures
            r == *self,
    {
        PrepareData {
            project_path: self.project_path.clone(),
            branch: self.branch.clone(),
            base_dir: self.base_dir.clone(),
        }
    }
}

/// Where a preparation run stands: which Git answer it is waiting for.
#[derive(Debug)]
pub enum PrepareState {
    /// Waiting for the branch list.
    AwaitBranches { data: PrepareData },
    /// Waiting for the worktree list.
    AwaitWorktrees { data: PrepareData, local_branch: String, branches: Vec<BranchInfo> },
    /// Waiting for the currently checked-out branch.
    AwaitCurrent { data: PrepareData, local_branch: String, branches: Vec<BranchInfo> },
    /// Waiting for the configured default branch.
    AwaitDefault { data: PrepareData, local_branch: String, branches: Vec<BranchInfo> },
    /// Waiting for the checkout / detach of the main worktree to finish.
    AwaitSwitch { data: PrepareData, local_branch: String, branches: Vec<BranchInfo> },
    /// Waiting for the local branch to be created.
    AwaitCreateBranch { data: PrepareData, local_branch: String, warning: Option<String> },
    /// Waiting for the worktree itself to be created.
    AwaitWorktreeAdd { data: PrepareData, local_branch: String, warning: Option<String> },
    /// The run is over; the last action was `Finish`.
    Finished,
}

/// What the application shell must do next with the Git layer.
#[derive(Debug)]
pub enum PrepareAction {
    /// Run the branch listing and reply with `Branches`.
    ListBranches,
    /// Run the worktree listing and reply with `Worktrees`.
    ListWorktrees,
    /// Read the current branch and reply with `CurrentBranch`.
    GetCurrentBranch,
    /// Read `init.defaultBranch` and reply with `DefaultBranch`.
    GetDefaultBranch,
    /// Check out the named branch in the main worktree; reply `SwitchDone`.
    Checkout { branch: String },
    /// Detach HEAD in the main worktree; reply with `SwitchDone`.
    DetachHead,
    /// Create the local branch, from the start point if one is given;
    /// reply with `BranchCreated`.
    CreateBranch { name: String, start_point: Option<String> },
    /// Create the worktree for the branch at the path (parents included);
    /// reply with `WorktreeAdded`.
    AddWorktree { branch: String, path: String },
    /// The run is complete; hand this result to the session launcher.
    Finish { result: WorktreePreparationResult },
}

/// What the Git layer answered.
#[derive(Debug)]
pub enum PrepareEvent {
    /// The branch list; empty on failure.
    Branches { branches: Vec<BranchInfo> },
    /// The worktree list, or `None` on failure.
    Worktrees { worktrees: Option<Vec<WorktreeInfo>> },
    /// The current branch, or `None` on failure or detached HEAD.
    CurrentBranch { current: Option<String> },
    /// The configured default branch, if set.
    DefaultBranch { default: Option<String> },
    /// Checkout or detach finished; the error text if it failed.
    SwitchDone { error: Option<String> },
    /// Branch creation finished; the error text if it failed.
    BranchCreated { error: Option<String> },
    /// Worktree creation finished: the created path, or the error text.
    WorktreeAdded { result: Result<String, String> },
}

/// Internal consistency of a preparation result: a created worktree is
/// the working directory; without one the session falls back to the
/// project path, or reuses an existing worktree.
pub open spec fn result_wf(res: WorktreePreparationResult, project: Seq<char>) -> bool {
    &&& (res.created ==> res.worktree_path is Some && res.worktree_path->0@
        == res.working_directory@)
    &&& (!res.created && res.worktree_path is None ==> res.working_directory@ == project)
    &&& (!res.created && res.worktree_path is Some ==> res.working_directory@
        == res.worktree_path->0@)
}

/// The three comparable fields of the carried data.
pub open spec fn data_view(d: PrepareData) -> (Seq<char>, Seq<char>, Seq<char>) {
    (d.project_path@, d.branch@, d.base_dir@)
}

/// Starts a preparation run.  Without a branch (or with an empty one) the
/// run finishes at once with the project path; otherwise the first Git
/// question is the branch list.
pub fn prepare_start(project_path: String, branch: Option<String>, base_dir: String) -> (r: (
    PrepareState,
    PrepareAction,
))
    ensures
        match branch {
            Option::Some(b) if b@.len() > 0 => {
                &&& r.0 matches PrepareState::AwaitBranches { data } && data.project_path@
                    == project_path@ && data.branch@ == b@ && data.base_dir@ == base_dir@
                &&& r.1 is ListBranches
            },
            _ => {
                &&& r.0 is Finished
                &&& r.1 matches PrepareAction::Finish { result } && result.working_directory@
                    == project_path@ && result.worktree_path is None && !result.created
                    && result.warning is None && result_wf(result, project_path@)
            },
        },
{
    match branch {
        Some(b) => {
            if b.unicode_len() > 0 {
                (
                    PrepareState::AwaitBranches {
                        data: PrepareData { project_path, branch: b, base_dir },
                    },
                    PrepareAction::ListBranches,
                )
            } else {
                (
                    PrepareState::Finished,
                    PrepareAction::Finish {
                        result: WorktreePreparationResult {
                            working_directory: project_path,
                            worktree_path: None,
                            created: false,
                            warning: None,
                        },
                    },
                )
            }
        },
        None => (
            PrepareState::Finished,
            PrepareAction::Finish {
                result: WorktreePreparationResult {
                    working_directory: project_path,
                    worktree_path: None,
                    created: false,
                    warning: None,
                },
            },
        ),
    }
}

/// Advances a preparation run by one Git answer.
///
/// The contract pins each transition: branch resolution, reuse of a
/// managed worktree, the fallback switch of the main checkout, branch
/// creation, worktree creation, and every failure path's fallback to the
/// project path.  Every `Finish` result satisfies [`result_wf`] for the
/// run's project path.  A reply that does not answer the pending question
/// ends the run.
pub fn prepare_step(state: PrepareState, event: PrepareEvent) -> (r: (
    PrepareState,
    PrepareAction,
))
    ensures
        state matches PrepareState::AwaitBranches { data } ==> event matches PrepareEvent::Branches { branches } ==> {
            &&& r.0 matches PrepareState::AwaitWorktrees {
                data: d2,
                local_branch,
                branches: b2,
            } && data_view(d2) == data_view(data) && local_branch@ == resolve_local_spec(
                data.branch@,
                branches@,
            ) && b2@ == branches@
            &&& r.1 is ListWorktrees
        },
        state matches PrepareState::AwaitWorktrees { data, local_branch, branches } ==> event matches PrepareEvent::Worktrees { worktrees } ==> {
            if worktrees is Some && reusable_spec(worktrees->0@, local_branch@) is Some {
                &&& r.0 is Finished
                &&& r.1 matches PrepareAction::Finish { result } && !result.created
                    && result.worktree_path is Some && result.working_directory@
                    == result.worktree_path->0@ && result.warning is None && (exists|i: int|
                    0 <= i < worktrees->0@.len() && !worktrees->0@[i].is_main_worktree
                        && worktrees->0@[i].branch is Some && worktrees->0@[i].branch->0@
                        == local_branch@ && worktrees->0@[i].path@ == result.working_directory@)
                    && result_wf(result, data.project_path@)
            } else {
                &&& r.0 matches PrepareState::AwaitCurrent {
                    data: d2,
                    local_branch: l2,
                    branches: b2,
                } && data_view(d2) == data_view(data) && l2@ == local_branch@ && b2@ == branches@
                &&& r.1 is GetCurrentBranch
            }
        },
        state matches PrepareState::AwaitCurrent { data, local_branch, branches } ==> event matches PrepareEvent::CurrentBranch { current } ==> {
            if current is Some && current->0@ == local_branch@ {
                &&& r.0 matches PrepareState::AwaitDefault {
                    data: d2,
                    local_branch: l2,
                    branches: b2,
                } && data_view(d2) == data_view(data) && l2@ == local_branch@ && b2@ == branches@
                &&& r.1 is GetDefaultBranch
            } else {
                after_switch_spec(r, data, local_branch@, branches@, None)
            }
        },
        state matches PrepareState::AwaitDefault { data, local_branch, branches } ==> event matches PrepareEvent::DefaultBranch { default } ==> {
            &&& r.0 matches PrepareState::AwaitSwitch {
                data: d2,
                local_branch: l2,
                branches: b2,
            } && data_view(d2) == data_view(data) && l2@ == local_branch@ && b2@ == branches@
            &&& match r.1 {
                PrepareAction::Checkout { branch } => is_fallback_answer(
                    Some(branch),
                    match default {
                        Option::Some(d) => Some(d@),
                        Option::None => None,
                    },
                    branches@,
                    local_branch@,
                ),
                PrepareAction::DetachHead => is_fallback_answer(
                    None,
                    match default {
                        Option::Some(d) => Some(d@),
                        Option::None => None,
                    },
                    branches@,
                    local_branch@,
                ),
                _ => false,
            }
        },
        state matches PrepareState::AwaitSwitch { data, local_branch, branches } ==> event matches PrepareEvent::SwitchDone { error } ==> after_switch_spec(
            r,
            data,
            local_branch@,
            branches@,
            match error {
                Option::Some(e) => Some(e@),
                Option::None => None,
            },
        ),
        state matches PrepareState::AwaitCreateBranch { data, local_branch, warning } ==> event matches PrepareEvent::BranchCreated { error } ==> {
            match error {
                Option::Some(e) => {
                    &&& r.0 is Finished
                    &&& r.1 matches PrepareAction::Finish { result }
                        && result.working_directory@ == data.project_path@
                        && result.worktree_path is None && !result.created && (
                    result.warning matches Option::Some(w) && w@ == e@) && result_wf(
                        result,
                        data.project_path@,
                    )
                },
                Option::None => {
                    &&& r.0 matches PrepareState::AwaitWorktreeAdd {
                        data: d2,
                        local_branch: l2,
                        warning: w2,
                    } && data_view(d2) == data_view(data) && l2@ == local_branch@
                        && opt_str_view(w2) == opt_str_view(warning)
                    &&& (r.1 matches PrepareAction::AddWorktree { branch, path } && branch@
                        == local_branch@ && path@ == worktree_path_spec(
                        data.base_dir@,
                        data.project_path@,
                        local_branch@,
                    ))
                },
            }
        },
        state matches PrepareState::AwaitWorktreeAdd { data, local_branch, warning } ==> event matches PrepareEvent::WorktreeAdded { result: res } ==> {
            match res {
                Result::Ok(p) => {
                    &&& r.0 is Finished
                    &&& r.1 matches PrepareAction::Finish { result } && result.created && (
                    result.worktree_path matches Option::Some(wp) && wp@ == p@)
                        && result.working_directory@ == p@ && opt_str_view(result.warning)
                        == opt_str_view(warning) && result_wf(result, data.project_path@)
                },
                Result::Err(e) => {
                    &&& r.0 is Finished
                    &&& r.1 matches PrepareAction::Finish { result }
                        && result.working_directory@ == data.project_path@
                        && result.worktree_path is None && !result.created && (
                    result.warning matches Option::Some(w) && w@ == e@) && result_wf(
                        result,
                        data.project_path@,
                    )
                },
            }
        },
{
    match (state, event) {
        (
            PrepareState::AwaitBranches { data },
            PrepareEvent::Branches { branches },
        ) => {
            let local_branch = resolve_local_branch_name(data.branch.as_str(), &branches);
            (
                PrepareState::AwaitWorktrees { data, local_branch, branches },
                PrepareAction::ListWorktrees,
            )
        },
        (
            PrepareState::AwaitWorktrees { data, local_branch, branches },
            PrepareEvent::Worktrees { worktrees },
        ) => {
            let reusable = match &worktrees {
                Some(wts) => find_reusable_worktree(wts, local_branch.as_str()),
                None => None,
            };
            proof {
                if worktrees is Some {
                    lemma_reusable_agrees(worktrees->0@, local_branch@, reusable);
                }
            }
            match reusable {
                Some(path) => (
                    PrepareState::Finished,
                    PrepareAction::Finish {
                        result: WorktreePreparationResult {
                            working_directory: path.clone(),
                            worktree_path: Some(path),
                            created: false,
                            warning: None,
                        },
                    },
                ),
                None => (
                    PrepareState::AwaitCurrent { data, local_branch, branches },
                    PrepareAction::GetCurrentBranch,
                ),
            }
        },
        (
            PrepareState::AwaitCurrent { data, local_branch, branches },
            PrepareEvent::CurrentBranch { current },
        ) => {
            let occupied = match &current {
                Some(c) => string_eq_str(c, local_branch.as_str()),
                None => false,
            };
            if occupied {
                (
                    PrepareState::AwaitDefault { data, local_branch, branches },
                    PrepareAction::GetDefaultBranch,
                )
            } else {
                after_switch(data, local_branch, &branches, None)
            }
        },
        (
            PrepareState::AwaitDefault { data, local_branch, branches },
            PrepareEvent::DefaultBranch { default },
        ) => {
            let fallback = choose_fallback_branch(&default, &branches, local_branch.as_str());
            let action = match fallback {
                Some(fb) => PrepareAction::Checkout { branch: fb },
                None => PrepareAction::DetachHead,
            };
            (PrepareState::AwaitSwitch { data, local_branch, branches }, action)
        },
        (
            PrepareState::AwaitSwitch { data, local_branch, branches },
            PrepareEvent::SwitchDone { error },
        ) => after_switch(data, local_branch, &branches, error),
        (
            PrepareState::AwaitCreateBranch { data, local_branch, warning },
            PrepareEvent::BranchCreated { error },
        ) => {
            match error {
                Some(e) => (
                    PrepareState::Finished,
                    PrepareAction::Finish {
                        result: WorktreePreparationResult {
                            working_directory: data.project_path,
                            worktree_path: None,
                            created: false,
                            warning: Some(e),
                        },
                    },
                ),
                None => {
                    let path = derive_worktree_path(
                        data.base_dir.as_str(),
                        data.project_path.as_str(),
                        local_branch.as_str(),
                    );
                    let branch_copy = local_branch.clone();
                    (
                        PrepareState::AwaitWorktreeAdd { data, local_branch, warning },
                        PrepareAction::AddWorktree { branch: branch_copy, path },
                    )
                },
            }
        },
        (
            PrepareState::AwaitWorktreeAdd { data, local_branch: _, warning },
            PrepareEvent::WorktreeAdded { result },
        ) => {
            match result {
                Ok(p) => (
                    PrepareState::Finished,
                    PrepareAction::Finish {
                        result: WorktreePreparationResult {
                            working_directory: p.clone(),
                            worktree_path: Some(p),
                            created: true,
                            warning,
                        },
                    },
                ),
                Err(e) => (
                    PrepareState::Finished,
                    PrepareAction::Finish {
                        result: WorktreePreparationResult {
                            working_directory: data.project_path,
                            worktree_path: None,
                            created: false,
                            warning: Some(e),
                        },
                    },
                ),
            }
        },
        _ => (
            PrepareState::Finished,
            PrepareAction::Finish {
                result: WorktreePreparationResult {
                    working_directory: String::new(),
                    worktree_path: None,
                    created: false,
                    warning: Some("preparation run out of order".to_owned()),
                },
            },
        ),
    }
}

/// The view of an optional warning string.
pub open spec fn opt_str_view(o: Option<String>) -> Option<Seq<char>> {
    match o {
        Option::Some(s) => Some(s@),
        Option::None => None,
    }
}

/// What holds after the (possibly failed, possibly skipped) switch of the
/// main checkout: the branch plan decides whether a branch is created
/// first or the worktree is added directly, and a switch failure is
/// carried as a warning.
pub open spec fn after_switch_spec(
    r: (PrepareState, PrepareAction),
    data: PrepareData,
    local_branch: Seq<char>,
    branches: Seq<BranchInfo>,
    switch_error: Option<Seq<char>>,
) -> bool {
    if has_local_branch(branches, local_branch) {
        &&& r.0 matches PrepareState::AwaitWorktreeAdd {
            data: d2,
            local_branch: l2,
            warning: w2,
        } && data_view(d2) == data_view(data) && l2@ == local_branch && opt_str_view(w2)
            == switch_error
        &&& (r.1 matches PrepareAction::AddWorktree { branch, path } && branch@ == local_branch
            && path@ == worktree_path_spec(data.base_dir@, data.project_path@, local_branch))
    } else {
        &&& r.0 matches PrepareState::AwaitCreateBranch {
            data: d2,
            local_branch: l2,
            warning: w2,
        } && data_view(d2) == data_view(data) && l2@ == local_branch && opt_str_view(w2)
            == switch_error
        &&& (r.1 matches PrepareAction::CreateBranch { name, start_point } && name@
            == local_branch && (if first_slash(data.branch@) < data.branch@.len()
            && has_remote_branch(branches, data.branch@) {
            start_point matches Option::Some(sp) && sp@ == data.branch@
        } else {
            start_point is None
        }))
    }
}

/// Continues after the switch phase (or when no switch was needed).
fn after_switch(
    data: PrepareData,
    local_branch: String,
    branches: &Vec<BranchInfo>,
    switch_error: Option<String>,
) -> (r: (PrepareState, PrepareAction))
    ensures
        after_switch_spec(
            r,
            data,
            local_branch@,
            branches@,
            opt_str_view(switch_error),
        ),
{
    let plan = ensure_branch_plan(data.branch.as_str(), local_branch.as_str(), branches);
    match plan {
        BranchPlan::AlreadyLocal => {
            let path = derive_worktree_path(
                data.base_dir.as_str(),
                data.project_path.as_str(),
                local_branch.as_str(),
            );
            let branch_copy = local_branch.clone();
            (
                PrepareState::AwaitWorktreeAdd { data, local_branch, warning: switch_error },
                PrepareAction::AddWorktree { branch: branch_copy, path },
            )
        },
        BranchPlan::CreateTracking { start_point } => {
            let name = local_branch.clone();
            (
                PrepareState::AwaitCreateBranch { data, local_branch, warning: switch_error },
                PrepareAction::CreateBranch { name, start_point: Some(start_point) },
            )
        },
        BranchPlan::CreateFromHead => {
            let name = local_branch.clone();
            (
                PrepareState::AwaitCreateBranch { data, local_branch, warning: switch_error },
                PrepareAction::CreateBranch { name, start_point: None },
            )
        },
    }
}

/// `find_reusable_worktree`'s answer agrees with `reusable_spec`'s
/// existence test.
proof fn lemma_reusable_agrees(
    worktrees: Seq<WorktreeInfo>,
    local_branch: Seq<char>,
    r: Option<String>,
)
    requires
        match r {
            Option::Some(p) => exists|i: int|
                0 <= i < worktrees.len() && !worktrees[i].is_main_worktree
                    && worktrees[i].branch is Some && worktrees[i].branch->0@ == local_branch
                    && worktrees[i].path@ == p@,
            Option::None => !(exists|i: int|
                0 <= i < worktrees.len() && !worktrees[i].is_main_worktree
                    && worktrees[i].branch is Some && worktrees[i].branch->0@ == local_branch),
        },
    ensures
        r is Some <==> reusable_spec(worktrees, local_branch) is Some,
{
}

/// The derived worktree path: `<base>/<16-hex repo key>/<sanitized branch>`.
pub open spec fn worktree_path_spec(
    base_dir: Seq<char>,
    repo_path: Seq<char>,
    branch: Seq<char>,
) -> Seq<char> {
    base_dir + "/"@ + hex_of(sha256_of(encode_utf8(repo_path))).take(16) + "/"@
        + sanitize_branch_spec(branch)
}

/// Derives the stable worktree path for a repository and branch under the
/// managed base directory.
pub fn derive_worktree_path(base_dir: &str, repo_path: &str, branch: &str) -> (r: String)
    ensures
        r@ == worktree_path_spec(base_dir@, repo_path@, branch@),
{
    let mut r = base_dir.to_owned();
    r.append("/");
    let key = repo_hash_prefix(repo_path);
    r.append(key.as_str());
    r.append("/");
    let leaf = sanitize_branch(branch);
    r.append(leaf.as_str());
    r
}

} // verus!
