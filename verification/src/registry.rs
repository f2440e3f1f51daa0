//! Session registry: per-session metadata keyed by id.
//!
//! The registry stores one record per live session.  Ids are unique; the
//! lookup, update and removal contracts below pin each operation down to
//! the record with the given id and leave every other record unchanged.
//! The application shell wraps a registry in a lock for concurrent use.

use vstd::prelude::*;
use crate::strutil::string_eq_str;

verus! {

/// Which AI backend a session is configured to use.  `Plain` is a raw
/// terminal with no agent attached.
#[derive(Clone, Copy, Debug, PartialEq, Eq, Structural)]
pub enum AiMode {
    Claude,
    Gemini,
    Codex,
    Plain,
}

/// Lifecycle state of a session, tracked for UI status indicators.
/// Transitions are driven by the external status source; the registry does
/// not enforce a state machine.
#[derive(Clone, Copy, Debug, PartialEq, Eq, Structural)]
pub enum SessionStatus {
    Starting,
    Idle,
    Working,
    NeedsInput,
    Done,
    Error,
}

/// Frontend-visible configuration and state for a single session.
/// `branch` and `worktree_path` stay `None` until `assign_branch` runs,
/// so sessions can be created before their worktree is ready.
#[derive(Clone, Debug)]
pub struct SessionConfig {
    pub id: u32,
    pub mode: AiMode,
    pub branch: Option<String>,
    pub status: SessionStatus,
    pub worktree_path: Option<String>,
    /// Canonicalized absolute path of the owning project.
    pub project_path: String,
}

impl SessionConfig {
    /// An exact copy of the record.
    pub fn duplicate(&self) -> (r: SessionConfig)
        ensures
            r == *self,
    {
        SessionConfig {
            id: self.id,
            mode: self.mode,
            branch: match &self.branch {
                Some(b) => Some(b.clone()),
                None => None,
            },
            status: self.status,
            worktree_path: match &self.worktree_path {
                Some(w) => Some(w.clone()),
                None => None,
            },
            project_path: self.project_path.clone(),
        }
    }
}

/// True when `s` holds at most one record per id.
pub open spec fn unique_ids(s: Seq<SessionConfig>) -> bool {
    forall|i: int, j: int| 0 <= i < j < s.len() ==> s[i].id != s[j].id
}

/// True when some record in `s` has the given id.
pub open spec fn contains_id(s: Seq<SessionConfig>, id: u32) -> bool {
    exists|i: int| 0 <= i < s.len() && s[i].id == id
}

/// The record in `s` with the given id, if any.
pub open spec fn spec_get(s: Seq<SessionConfig>, id: u32) -> Option<SessionConfig> {
    if contains_id(s, id) {
        let i = choose|i: int| 0 <= i < s.len() && s[i].id == id;
        Some(s[i])
    } else {
        None
    }
}

/// Predicate holding of the records that survive removing `id`.
pub open spec fn keeps_id(id: u32) -> spec_fn(SessionConfig) -> bool {
    |c: SessionConfig| c.id != id
}

/// Predicate holding of the records owned by project `p`.
pub open spec fn with_project(p: Seq<char>) -> spec_fn(SessionConfig) -> bool {
    |c: SessionConfig| c.project_path@ == p
}

/// Predicate holding of the records not owned by project `p`.
pub open spec fn without_project(p: Seq<char>) -> spec_fn(SessionConfig) -> bool {
    |c: SessionConfig| c.project_path@ != p
}

/// The records of `s` whose id is not `id`, in order.
pub open spec fn spec_remove(s: Seq<SessionConfig>, id: u32) -> Seq<SessionConfig> {
    s.filter(keeps_id(id))
}

/// Session registry.  All queries return copies of the stored records.
pub struct SessionManager {
    sessions: Vec<SessionConfig>,
}

impl SessionManager {
    /// The stored records, in insertion order.
    pub closed spec fn records(&self) -> Seq<SessionConfig> {
        self.sessions@
    }

    /// The registry never holds two records with one id.
    pub closed spec fn wf(&self) -> bool {
        unique_ids(self.sessions@)
    }

    /// Creates an empty session registry.
    pub fn new() -> (r: Self)
        ensures
            r.wf(),
            r.records() == Seq::<SessionConfig>::empty(),
    {
        SessionManager { sessions: Vec::new() }
    }

    /// The index of the record with the given id, if any.
    fn find(&self, id: u32) -> (r: Option<usize>)
        ensures
            match r {
                Some(i) => i < self.records().len() && self.records()[i as int].id == id,
                None => !contains_id(self.records(), id),
            },
    {
        let n = self.sessions.len();
        let mut i: usize = 0;
        while i < n
            invariant
                i <= n,
                n == self.records().len(),
                forall|k: int| 0 <= k < i ==> self.records()[k].id != id,
            decreases n - i,
        {
            if self.sessions[i].id == id {
                return Some(i);
            }
            i += 1;
        }
        None
    }

    /// Inserts a new session with `Starting` status and no branch assigned.
    /// Fails with the existing record if the id is already present.
    pub fn create_session(&mut self, id: u32, mode: AiMode, project_path: String) -> (r: Result<
        SessionConfig,
        SessionConfig,
    >)
        requires
            old(self).wf(),
        ensures
            final(self).wf(),
            match r {
                Ok(c) => {
                    &&& !contains_id(old(self).records(), id)
                    &&& c == (SessionConfig {
                        id,
                        mode,
                        branch: None,
                        status: SessionStatus::Starting,
                        worktree_path: None,
                        project_path,
                    })
                    &&& final(self).records() == old(self).records().push(c)
                },
                Err(c) => {
                    &&& contains_id(old(self).records(), id)
                    &&& spec_get(old(self).records(), id) == Some(c)
                    &&& final(self).records() == old(self).records()
                },
            },
    {
        match self.find(id) {
            Some(i) => {
                let existing = self.sessions[i].duplicate();
                proof {
                    let w = choose|w: int|
                        0 <= w < self.records().len() && self.records()[w].id == id;
                    assert(w == i);
                }
                Err(existing)
            },
            None => {
                let config = SessionConfig {
                    id,
                    mode,
                    branch: None,
                    status: SessionStatus::Starting,
                    worktree_path: None,
                    project_path,
                };
                let copy = config.duplicate();
                self.sessions.push(config);
                Ok(copy)
            },
        }
    }

    /// A snapshot of the record with the given id, or `None`.
    pub fn get_session(&self, id: u32) -> (r: Option<SessionConfig>)
        requires
            self.wf(),
        ensures
            r == spec_get(self.records(), id),
    {
        match self.find(id) {
            Some(i) => {
                let c = self.sessions[i].duplicate();
                proof {
                    let w = choose|w: int|
                        0 <= w < self.records().len() && self.records()[w].id == id;
                    assert(w == i);
                }
                Some(c)
            },
            None => None,
        }
    }

    /// Updates the status of the record with the given id, in place.
    /// Returns `false` (and changes nothing) if the id is absent.
    pub fn update_status(&mut self, id: u32, status: SessionStatus) -> (r: bool)
        requires
            old(self).wf(),
        ensures
            final(self).wf(),
            r == contains_id(old(self).records(), id),
            final(self).records().len() == old(self).records().len(),
            forall|k: int|
                0 <= k < old(self).records().len() && old(self).records()[k].id != id
                    ==> final(self).records()[k] == old(self).records()[k],
            forall|k: int|
                0 <= k < old(self).records().len() && old(self).records()[k].id == id
                    ==> final(self).records()[k] == (SessionConfig {
                    status,
                    ..old(self).records()[k]
                }),
    {
        match self.find(id) {
            Some(i) => {
                let updated = SessionConfig { status, ..self.sessions[i].duplicate() };
                self.sessions.set(i, updated);
                proof {
                    assert(forall|k: int|
                        0 <= k < old(self).records().len() && old(self).records()[k].id == id
                            ==> k == i);
                }
                true
            },
            None => false,
        }
    }

    /// Associates a branch (and optional worktree path) with an existing
    /// session.  Returns the updated record, or `None` if the id is absent.
    pub fn assign_branch(&mut self, id: u32, branch: String, worktree_path: Option<String>) -> (r:
        Option<SessionConfig>)
        requires
            old(self).wf(),
        ensures
            final(self).wf(),
            r is Some == contains_id(old(self).records(), id),
            final(self).records().len() == old(self).records().len(),
            forall|k: int|
                0 <= k < old(self).records().len() && old(self).records()[k].id != id
                    ==> final(self).records()[k] == old(self).records()[k],
            forall|k: int|
                0 <= k < old(self).records().len() && old(self).records()[k].id == id
                    ==> final(self).records()[k] == (SessionConfig {
                    branch: Some(branch),
                    worktree_path,
                    ..old(self).records()[k]
                }) && r == Some(final(self).records()[k]),
    {
        match self.find(id) {
            Some(i) => {
                let wt_copy = match &worktree_path {
                    Some(w) => Some(w.clone()),
                    None => None,
                };
                let updated = SessionConfig {
                    branch: Some(branch),
                    worktree_path: wt_copy,
                    ..self.sessions[i].duplicate()
                };
                let copy = updated.duplicate();
                self.sessions.set(i, updated);
                proof {
                    assert(forall|k: int|
                        0 <= k < old(self).records().len() && old(self).records()[k].id == id
                            ==> k == i);
                }
                Some(copy)
            },
            None => None,
        }
    }

    /// A snapshot of all records, in insertion order.
    pub fn all_sessions(&self) -> (r: Vec<SessionConfig>)
        ensures
            r@ == self.records(),
    {
        let n = self.sessions.len();
        let mut r: Vec<SessionConfig> = Vec::new();
        let mut i: usize = 0;
        while i < n
            invariant
                i <= n,
                n == self.records().len(),
                r@ == self.records().take(i as int),
            decreases n - i,
        {
            r.push(self.sessions[i].duplicate());
            i += 1;
            proof {
                assert(r@ =~= self.records().take(i as int));
            }
        }
        proof {
            assert(r@ =~= self.records());
        }
        r
    }

    /// Removes and returns the record with the given id, or `None`.
    /// The other records keep their order.
    pub fn remove_session(&mut self, id: u32) -> (r: Option<SessionConfig>)
        requires
            old(self).wf(),
        ensures
            final(self).wf(),
            r == spec_get(old(self).records(), id),
            final(self).records() == spec_remove(old(self).records(), id),
    {
        let ghost s = old(self).records();
        match self.find(id) {
            Some(i) => {
                let removed = self.sessions[i].duplicate();
                proof {
                    let w = choose|w: int| 0 <= w < s.len() && s[w].id == id;
                    assert(w == i);
                }
                let n = self.sessions.len();
                let mut kept: Vec<SessionConfig> = Vec::new();
                let mut j: usize = 0;
                proof {
                    assert(s.take(0).filter(keeps_id(id)) =~= Seq::<SessionConfig>::empty());
                }
                while j < n
                    invariant
                        j <= n,
                        n == s.len(),
                        self.records() == s,
                        kept@ == s.take(j as int).filter(keeps_id(id)),
                    decreases n - j,
                {
                    proof {
                        assert(s.take(j + 1) =~= s.take(j as int).push(s[j as int]));
                        s.take(j as int).lemma_filter_push(s[j as int], keeps_id(id));
                        assert(s.take(j + 1).filter(keeps_id(id)) == s.take(j as int).push(
                            s[j as int],
                        ).filter(keeps_id(id)));
                    }
                    let e = &self.sessions[j];
                    if e.id != id {
                        kept.push(e.duplicate());
                    }
                    j += 1;
                }
                self.sessions = kept;
                proof {
                    assert(s.take(n as int) =~= s);
                    lemma_filter_keeps_unique(s, keeps_id(id));
                }
                Some(removed)
            },
            None => {
                proof {
                    lemma_filter_all_kept(s, id);
                }
                None
            },
        }
    }

    /// Snapshots of all records whose project path equals `project_path`,
    /// in insertion order.
    pub fn get_sessions_for_project(&self, project_path: &str) -> (r: Vec<SessionConfig>)
        ensures
            r@ == self.records().filter(with_project(project_path@)),
    {
        let ghost p = project_path@;
        let ghost s = self.records();
        let n = self.sessions.len();
        let mut r: Vec<SessionConfig> = Vec::new();
        let mut i: usize = 0;
        while i < n
            invariant
                i <= n,
                n == s.len(),
                s == self.records(),
                r@ == s.take(i as int).filter(with_project(p)),
                p == project_path@,
            decreases n - i,
        {
            proof {
                assert(s.take(i + 1) =~= s.take(i as int).push(s[i as int]));
                s.take(i as int).lemma_filter_push(s[i as int], with_project(p));
                assert(s.take(i + 1).filter(with_project(p)) == s.take(i as int).push(
                    s[i as int],
                ).filter(with_project(p)));
            }
            if string_eq_str(&self.sessions[i].project_path, project_path) {
                r.push(self.sessions[i].duplicate());
            }
            i += 1;
        }
        proof {
            assert(s.take(n as int) =~= s);
        }
        r
    }

    /// Removes all records for a project and returns them, in insertion
    /// order; the remaining records keep their order.
    pub fn remove_sessions_for_project(&mut self, project_path: &str) -> (r: Vec<SessionConfig>)
        requires
            old(self).wf(),
        ensures
            final(self).wf(),
            r@ == old(self).records().filter(with_project(project_path@)),
            final(self).records() == old(self).records().filter(without_project(project_path@)),
    {
        let ghost p = project_path@;
        let ghost orig = old(self).records();
        let n = self.sessions.len();
        let mut removed: Vec<SessionConfig> = Vec::new();
        let mut kept: Vec<SessionConfig> = Vec::new();
        let mut i: usize = 0;
        while i < n
            invariant
                i <= n,
                n == orig.len(),
                self.records() == orig,
                removed@ == orig.take(i as int).filter(with_project(p)),
                kept@ == orig.take(i as int).filter(without_project(p)),
                p == project_path@,
            decreases n - i,
        {
            proof {
                assert(orig.take(i + 1) =~= orig.take(i as int).push(orig[i as int]));
                orig.take(i as int).lemma_filter_push(orig[i as int], with_project(p));
                orig.take(i as int).lemma_filter_push(orig[i as int], without_project(p));
                assert(orig.take(i + 1).filter(with_project(p)) == orig.take(i as int).push(
                    orig[i as int],
                ).filter(with_project(p)));
                assert(orig.take(i + 1).filter(without_project(p)) == orig.take(i as int).push(
                    orig[i as int],
                ).filter(without_project(p)));
            }
            if string_eq_str(&self.sessions[i].project_path, project_path) {
                removed.push(self.sessions[i].duplicate());
            } else {
                kept.push(self.sessions[i].duplicate());
            }
            i += 1;
        }
        proof {
            assert(orig.take(n as int) =~= orig);
            lemma_filter_keeps_unique(orig, without_project(p));
        }
        self.sessions = kept;
        removed
    }
}

/// Filtering with a predicate every element satisfies keeps the sequence.
proof fn lemma_filter_all_kept_gen(s: Seq<SessionConfig>, pred: spec_fn(SessionConfig) -> bool)
    requires
        forall|k: int| 0 <= k < s.len() ==> pred(#[trigger] s[k]),
    ensures
        s.filter(pred) == s,
    decreases s.len(),
{
    if s.len() == 0 {
        assert(s.filter(pred) =~= s);
    } else {
        assert(s =~= s.drop_last().push(s.last()));
        s.drop_last().lemma_filter_push(s.last(), pred);
        assert(s.filter(pred) == s.drop_last().push(s.last()).filter(pred));
        lemma_filter_all_kept_gen(s.drop_last(), pred);
        assert(s.filter(pred) =~= s);
    }
}

/// A registry with no record under `id` is unchanged by removing `id`.
proof fn lemma_filter_all_kept(s: Seq<SessionConfig>, id: u32)
    requires
        !contains_id(s, id),
    ensures
        s.filter(keeps_id(id)) == s,
{
    assert(forall|k: int| 0 <= k < s.len() ==> #[trigger] s[k].id != id);
    assert(forall|k: int| 0 <= k < s.len() ==> keeps_id(id)(#[trigger] s[k]));
    lemma_filter_all_kept_gen(s, keeps_id(id));
}

/// Filtering preserves id uniqueness.
proof fn lemma_filter_keeps_unique(s: Seq<SessionConfig>, pred: spec_fn(SessionConfig) -> bool)
    requires
        unique_ids(s),
    ensures
        unique_ids(s.filter(pred)),
    decreases s.len(),
{
    if s.len() == 0 {
    } else {
        assert(s =~= s.drop_last().push(s.last()));
        s.drop_last().lemma_filter_push(s.last(), pred);
        assert(s.filter(pred) == s.drop_last().push(s.last()).filter(pred));
        lemma_filter_keeps_unique(s.drop_last(), pred);
        let f = s.filter(pred);
        let g = s.drop_last().filter(pred);
        if pred(s.last()) {
            assert(f == g.push(s.last()));
            assert forall|i: int| 0 <= i < g.len() implies #[trigger] g[i].id != s.last().id by {
                s.drop_last().lemma_filter_pred(pred, i);
                lemma_filter_element_from(s.drop_last(), pred, i);
                let k = choose|k: int|
                    0 <= k < s.drop_last().len() && s.drop_last()[k] == g[i];
                assert(s[k] == g[i]);
                assert(s[k].id != s[s.len() - 1].id);
            }
        } else {
            assert(f == g);
        }
    }
}

/// Every element of a filtered sequence occurs in the original.
proof fn lemma_filter_element_from(
    s: Seq<SessionConfig>,
    pred: spec_fn(SessionConfig) -> bool,
    i: int,
)
    requires
        0 <= i < s.filter(pred).len(),
    ensures
        exists|k: int| 0 <= k < s.len() && s[k] == s.filter(pred)[i],
    decreases s.len(),
{
    if s.len() == 0 {
    } else {
        assert(s =~= s.drop_last().push(s.last()));
        s.drop_last().lemma_filter_push(s.last(), pred);
        assert(s.filter(pred) == s.drop_last().push(s.last()).filter(pred));
        let g = s.drop_last().filter(pred);
        if pred(s.last()) && i == s.filter(pred).len() - 1 {
            assert(s[s.len() - 1] == s.filter(pred)[i]);
        } else {
            assert(s.filter(pred)[i] == g[i]);
            lemma_filter_element_from(s.drop_last(), pred, i);
            let k = choose|k: int| 0 <= k < s.drop_last().len() && s.drop_last()[k] == g[i];
            assert(s[k] == s.filter(pred)[i]);
        }
    }
}

/// A freshly created record is found again under its id: inserting a record
/// whose id is not yet present and looking that id up returns exactly it.
pub proof fn lemma_create_then_get(s: Seq<SessionConfig>, c: SessionConfig)
    requires
        unique_ids(s),
        !contains_id(s, c.id),
    ensures
        spec_get(s.push(c), c.id) == Some(c),
{
    let t = s.push(c);
    assert(t[s.len() as int] == c);
    assert(contains_id(t, c.id));
    let w = choose|w: int| 0 <= w < t.len() && t[w].id == c.id;
    if w < s.len() {
        assert(s[w].id == c.id);
        assert(false);
    }
}

/// After removing an id, looking it up returns nothing.
pub proof fn lemma_remove_then_get(s: Seq<SessionConfig>, id: u32)
    ensures
        spec_get(spec_remove(s, id), id) is None,
{
    let t = spec_remove(s, id);
    if contains_id(t, id) {
        let w = choose|w: int| 0 <= w < t.len() && t[w].id == id;
        s.lemma_filter_pred(keeps_id(id), w);
        assert(keeps_id(id)(t[w]));
    }
}

} // verus!
