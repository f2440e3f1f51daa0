//! Decision core of the PTY session engine.
//!
//! The engine's I/O (opening pseudoterminals, spawning shells, signalling
//! process groups) lives in the application shell.  What is verified here is
//! the engine's bookkeeping: monotonically increasing session ids that are
//! never reused, the pid/process-group table, the dimension check for
//! resizes, and the remove-before-signal rule for kills.

use vstd::prelude::*;
use crate::errors::{PtyError, PtyErrorCode};

verus! {

/// What the engine must remember about one live PTY session to write to,
/// resize, or kill it later: the child pid and, on POSIX, the process-group
/// id captured from the PTY at spawn time.
#[derive(Clone, Copy, Debug, PartialEq, Eq, Structural)]
pub struct PtyRecord {
    pub child_pid: i32,
    pub pgid: i32,
}

/// True when `s` holds at most one entry per session id.
pub open spec fn unique_keys(s: Seq<(u32, PtyRecord)>) -> bool {
    forall|i: int, j: int| 0 <= i < j < s.len() ==> s[i].0 != s[j].0
}

/// True when some entry in `s` has the given id.
pub open spec fn has_key(s: Seq<(u32, PtyRecord)>, id: u32) -> bool {
    exists|i: int| 0 <= i < s.len() && s[i].0 == id
}

/// The record stored under `id`, if any.
pub open spec fn spec_lookup(s: Seq<(u32, PtyRecord)>, id: u32) -> Option<PtyRecord> {
    if has_key(s, id) {
        let i = choose|i: int| 0 <= i < s.len() && s[i].0 == id;
        Some(s[i].1)
    } else {
        None
    }
}

/// Predicate holding of the entries that survive removing `id`.
pub open spec fn keeps_key(id: u32) -> spec_fn((u32, PtyRecord)) -> bool {
    |e: (u32, PtyRecord)| e.0 != id
}

/// Registry of live PTY sessions and the id counter.
///
/// Ids start at 1 and only ever grow; an id handed out once is never handed
/// out again within the registry's lifetime, even after its session is
/// removed.
pub struct PtyRegistry {
    sessions: Vec<(u32, PtyRecord)>,
    next_id: u32,
    issued: Ghost<Seq<u32>>,
}

impl PtyRegistry {
    /// The live sessions, in registration order.
    pub closed spec fn entries(&self) -> Seq<(u32, PtyRecord)> {
        self.sessions@
    }

    /// Every id handed out so far, in allocation order.
    pub closed spec fn issued_ids(&self) -> Seq<u32> {
        self.issued@
    }

    /// The id the next allocation will return.
    pub closed spec fn counter(&self) -> u32 {
        self.next_id
    }

    /// Ids are unique in the table, issued ids grow strictly, and every
    /// issued id is below the counter.
    pub closed spec fn wf(&self) -> bool {
        &&& unique_keys(self.sessions@)
        &&& (forall|i: int, j: int|
            0 <= i < j < self.issued@.len() ==> self.issued@[i] < self.issued@[j])
        &&& (forall|i: int| 0 <= i < self.issued@.len() ==> self.issued@[i] < self.next_id)
    }

    /// Creates an empty registry whose first session id will be 1.
    pub fn new() -> (r: Self)
        ensures
            r.wf(),
            r.entries() == Seq::<(u32, PtyRecord)>::empty(),
            r.issued_ids() == Seq::<u32>::empty(),
            r.counter() == 1,
    {
        PtyRegistry { sessions: Vec::new(), next_id: 1, issued: Ghost(Seq::empty()) }
    }

    /// Hands out the next session id.  Fails with `IdOverflow` once the
    /// 32-bit counter is exhausted; ids are never recycled.
    pub fn allocate_id(&mut self) -> (r: Result<u32, PtyError>)
        requires
            old(self).wf(),
        ensures
            final(self).wf(),
            final(self).entries() == old(self).entries(),
            match r {
                Ok(id) => {
                    &&& id == old(self).counter()
                    &&& old(self).counter() < u32::MAX
                    &&& final(self).counter() == id + 1
                    &&& final(self).issued_ids() == old(self).issued_ids().push(id)
                },
                Err(e) => {
                    &&& e.code == PtyErrorCode::IdOverflow
                    &&& old(self).counter() == u32::MAX
                    &&& final(self).counter() == old(self).counter()
                    &&& final(self).issued_ids() == old(self).issued_ids()
                },
            },
    {
        if self.next_id == u32::MAX {
            Err(PtyError::id_overflow())
        } else {
            let id = self.next_id;
            self.next_id = id + 1;
            proof {
                self.issued@ = self.issued@.push(id);
            }
            Ok(id)
        }
    }

    /// Ids handed out by one registry strictly increase in allocation
    /// order: of any two, the one allocated earlier is the smaller.
    pub proof fn lemma_ids_strictly_increasing(&self, i: int, j: int)
        requires
            self.wf(),
            0 <= i < j < self.issued_ids().len(),
        ensures
            self.issued_ids()[i] < self.issued_ids()[j],
    {
    }

    /// An id at or above the counter has never been issued, so a freshly
    /// allocated id is never one issued before.
    pub proof fn lemma_fresh_id(&self, id: u32)
        requires
            self.wf(),
            id >= self.counter(),
        ensures
            forall|k: int| 0 <= k < self.issued_ids().len() ==> self.issued_ids()[k] != id,
    {
    }

    /// The index of the entry with the given id, if any.
    fn find(&self, id: u32) -> (r: Option<usize>)
        ensures
            match r {
                Some(i) => i < self.entries().len() && self.entries()[i as int].0 == id,
                None => !has_key(self.entries(), id),
            },
    {
        let n = self.sessions.len();
        let mut i: usize = 0;
        while i < n
            invariant
                i <= n,
                n == self.entries().len(),
                forall|k: int| 0 <= k < i ==> self.entries()[k].0 != id,
            decreases n - i,
        {
            if self.sessions[i].0 == id {
                return Some(i);
            }
            i += 1;
        }
        None
    }

    /// Stores the pids for a freshly spawned session.  Fails (and changes
    /// nothing) if the id is already present.
    pub fn register(&mut self, id: u32, record: PtyRecord) -> (r: Result<(), PtyError>)
        requires
            old(self).wf(),
        ensures
            final(self).wf(),
            final(self).issued_ids() == old(self).issued_ids(),
            final(self).counter() == old(self).counter(),
            match r {
                Ok(()) => {
                    &&& !has_key(old(self).entries(), id)
                    &&& final(self).entries() == old(self).entries().push((id, record))
                },
                Err(e) => {
                    &&& has_key(old(self).entries(), id)
                    &&& e.code == PtyErrorCode::SpawnFailed
                    &&& final(self).entries() == old(self).entries()
                },
            },
    {
        match self.find(id) {
            Some(_) => Err(PtyError::spawn_failed("session id already registered".to_owned())),
            None => {
                self.sessions.push((id, record));
                Ok(())
            },
        }
    }

    /// The pids for a live session, or `None`.
    pub fn lookup(&self, id: u32) -> (r: Option<PtyRecord>)
        requires
            self.wf(),
        ensures
            r == spec_lookup(self.entries(), id),
    {
        match self.find(id) {
            Some(i) => {
                proof {
                    let w = choose|w: int|
                        0 <= w < self.entries().len() && self.entries()[w].0 == id;
                    assert(w == i);
                }
                Some(self.sessions[i].1)
            },
            None => None,
        }
    }

    /// Removes a session's entry and returns its pids, or fails with
    /// `SessionNotFound`.  The entry is gone as soon as this returns, so a
    /// concurrent second kill of the same id fails: the caller signals the
    /// process group only after this step.
    pub fn take_session(&mut self, id: u32) -> (r: Result<PtyRecord, PtyError>)
        requires
            old(self).wf(),
        ensures
            final(self).wf(),
            final(self).issued_ids() == old(self).issued_ids(),
            final(self).counter() == old(self).counter(),
            match r {
                Ok(rec) => {
                    &&& spec_lookup(old(self).entries(), id) == Some(rec)
                    &&& final(self).entries() == old(self).entries().filter(keeps_key(id))
                    &&& !has_key(final(self).entries(), id)
                },
                Err(e) => {
                    &&& !has_key(old(self).entries(), id)
                    &&& e.code == PtyErrorCode::SessionNotFound
                    &&& final(self).entries() == old(self).entries()
                },
            },
    {
        let ghost s = old(self).entries();
        match self.find(id) {
            Some(i) => {
                let entry = self.sessions[i];
                proof {
                    let w = choose|w: int| 0 <= w < s.len() && s[w].0 == id;
                    assert(w == i);
                }
                let n = self.sessions.len();
                let mut kept: Vec<(u32, PtyRecord)> = Vec::new();
                let mut j: usize = 0;
                while j < n
                    invariant
                        j <= n,
                        n == s.len(),
                        self.entries() == s,
                        kept@ == s.take(j as int).filter(keeps_key(id)),
                    decreases n - j,
                {
                    proof {
                        assert(s.take(j + 1) =~= s.take(j as int).push(s[j as int]));
                        s.take(j as int).lemma_filter_push(s[j as int], keeps_key(id));
                        assert(s.take(j + 1).filter(keeps_key(id)) == s.take(j as int).push(
                            s[j as int],
                        ).filter(keeps_key(id)));
                    }
                    let e = self.sessions[j];
                    if e.0 != id {
                        kept.push(e);
                    }
                    j += 1;
                }
                self.sessions = kept;
                proof {
                    assert(s.take(n as int) =~= s);
                    lemma_filter_keeps_unique_keys(s, keeps_key(id));
                    if has_key(self.entries(), id) {
                        let v = choose|v: int|
                            0 <= v < self.entries().len() && self.entries()[v].0 == id;
                        s.lemma_filter_pred(keeps_key(id), v);
                    }
                }
                Ok(entry.1)
            },
            None => {
                proof {
                    lemma_filter_all_kept_keys(s, id);
                }
                Err(PtyError::session_not_found(id))
            },
        }
    }

    /// All live session ids with their root pids, in registration order.
    pub fn all_session_pids(&self) -> (r: Vec<(u32, i32)>)
        ensures
            r@.len() == self.entries().len(),
            forall|k: int|
                0 <= k < r@.len() ==> r@[k] == (self.entries()[k].0, self.entries()[k].1.child_pid),
    {
        let n = self.sessions.len();
        let mut r: Vec<(u32, i32)> = Vec::new();
        let mut i: usize = 0;
        while i < n
            invariant
                i <= n,
                n == self.entries().len(),
                r@.len() == i,
                forall|k: int|
                    0 <= k < i ==> r@[k] == (self.entries()[k].0, self.entries()[k].1.child_pid),
            decreases n - i,
        {
            let e = self.sessions[i];
            r.push((e.0, e.1.child_pid));
            i += 1;
        }
        r
    }
}

/// Filtering with a predicate every element satisfies keeps the sequence.
proof fn lemma_filter_all_kept_keys_gen(
    s: Seq<(u32, PtyRecord)>,
    pred: spec_fn((u32, PtyRecord)) -> bool,
)
    requires
        forall|k: int| 0 <= k < s.len() ==> pred(#[trigger] s[k]),
    ensures
        s.filter(pred) == s,
    decreases s.len(),
{
    if s.len() == 0 {
        assert(s.filter(pred) =~= s);
    } else {
        assert(s =~= s.drop_last().push(s.last()));
        s.drop_last().lemma_filter_push(s.last(), pred);
        assert(s.filter(pred) == s.drop_last().push(s.last()).filter(pred));
        lemma_filter_all_kept_keys_gen(s.drop_last(), pred);
        assert(s.filter(pred) =~= s);
    }
}

/// A table with no entry under `id` is unchanged by removing `id`.
proof fn lemma_filter_all_kept_keys(s: Seq<(u32, PtyRecord)>, id: u32)
    requires
        !has_key(s, id),
    ensures
        s.filter(keeps_key(id)) == s,
{
    assert(forall|k: int| 0 <= k < s.len() ==> #[trigger] s[k].0 != id);
    assert(forall|k: int| 0 <= k < s.len() ==> keeps_key(id)(#[trigger] s[k]));
    lemma_filter_all_kept_keys_gen(s, keeps_key(id));
}

/// Filtering preserves key uniqueness.
proof fn lemma_filter_keeps_unique_keys(
    s: Seq<(u32, PtyRecord)>,
    pred: spec_fn((u32, PtyRecord)) -> bool,
)
    requires
        unique_keys(s),
    ensures
        unique_keys(s.filter(pred)),
    decreases s.len(),
{
    if s.len() == 0 {
    } else {
        assert(s =~= s.drop_last().push(s.last()));
        s.drop_last().lemma_filter_push(s.last(), pred);
        assert(s.filter(pred) == s.drop_last().push(s.last()).filter(pred));
        lemma_filter_keeps_unique_keys(s.drop_last(), pred);
        let f = s.filter(pred);
        let g = s.drop_last().filter(pred);
        if pred(s.last()) {
            assert(f == g.push(s.last()));
            assert forall|i: int| 0 <= i < g.len() implies #[trigger] g[i].0 != s.last().0 by {
                lemma_filter_element_from_keys(s.drop_last(), pred, i);
                let k = choose|k: int|
                    0 <= k < s.drop_last().len() && s.drop_last()[k] == g[i];
                assert(s[k] == g[i]);
                assert(s[k].0 != s[s.len() - 1].0);
            }
        } else {
            assert(f == g);
        }
    }
}

/// Every element of a filtered table occurs in the original.
proof fn lemma_filter_element_from_keys(
    s: Seq<(u32, PtyRecord)>,
    pred: spec_fn((u32, PtyRecord)) -> bool,
    i: int,
)
    requires
        0 <= i < s.filter(pred).len(),
    ensures
        exists|k: int| 0 <= k < s.len() && s[k] == s.filter(pred)[i],
    decreases s.len(),
{
    if s.len() == 0 {
    } else {
        assert(s =~= s.drop_last().push(s.last()));
        s.drop_last().lemma_filter_push(s.last(), pred);
        assert(s.filter(pred) == s.drop_last().push(s.last()).filter(pred));
        let g = s.drop_last().filter(pred);
        if pred(s.last()) && i == s.filter(pred).len() - 1 {
            assert(s[s.len() - 1] == s.filter(pred)[i]);
        } else {
            assert(s.filter(pred)[i] == g[i]);
            lemma_filter_element_from_keys(s.drop_last(), pred, i);
            let k = choose|k: int| 0 <= k < s.drop_last().len() && s.drop_last()[k] == g[i];
            assert(s[k] == s.filter(pred)[i]);
        }
    }
}

/// Checks requested terminal dimensions: both must be nonzero and at most
/// 500.  Exactly the out-of-range requests fail, with `ResizeFailed`.
pub fn validate_resize(rows: u16, cols: u16) -> (r: Result<(), PtyError>)
    ensures
        r is Ok <==> (1 <= rows <= 500 && 1 <= cols <= 500),
        r is Err ==> r->Err_0.code == PtyErrorCode::ResizeFailed,
{
    if rows == 0 || cols == 0 || rows > 500 || cols > 500 {
        Err(PtyError::resize_failed("Invalid dimensions".to_owned()))
    } else {
        Ok(())
    }
}

} // verus!
