//! Process-tree inspection for session child processes.
//!
//! The application shell snapshots the platform process list once and
//! hands it over as plain records; this module builds the tree of a
//! session's descendants from the parent links and decides which pids a
//! targeted kill may touch.  A registered session-root pid is always
//! refused — whole sessions are killed through the PTY engine instead.

use vstd::prelude::*;
use crate::errors::ProcessError;

verus! {

/// One process in the snapshot.
#[derive(Clone, Debug)]
pub struct ProcessInfo {
    /// Process id.
    pub pid: u32,
    /// Executable name.
    pub name: String,
    /// Full command line, if available.
    pub command: Vec<String>,
    /// Parent process id, if known.
    pub parent_pid: Option<u32>,
    /// CPU usage in thousandths of one core.
    pub cpu_permille: u32,
    /// Memory usage in bytes.
    pub memory_bytes: u64,
}

/// The mathematical shape of a snapshot record.
pub struct ProcessView {
    pub pid: u32,
    pub name: Seq<char>,
    pub command: Seq<Seq<char>>,
    pub parent_pid: Option<u32>,
    pub cpu_permille: u32,
    pub memory_bytes: u64,
}

/// The view of a snapshot record.
pub open spec fn proc_view(p: ProcessInfo) -> ProcessView {
    ProcessView {
        pid: p.pid,
        name: p.name@,
        command: p.command@.map_values(|s: String| s@),
        parent_pid: p.parent_pid,
        cpu_permille: p.cpu_permille,
        memory_bytes: p.memory_bytes,
    }
}

impl ProcessInfo {
    /// A copy of the record, equal under the view.
    pub fn duplicate(&self) -> (r: ProcessInfo)
        ensures
            proc_view(r) == proc_view(*self),
            r.pid == self.pid,
    {
        let mut command: Vec<String> = Vec::new();
        let mut i: usize = 0;
        while i < self.command.len()
            invariant
                i <= self.command@.len(),
                command@ == self.command@.take(i as int),
            decreases self.command@.len() - i,
        {
            command.push(self.command[i].clone());
            i += 1;
            proof {
                assert(command@ =~= self.command@.take(i as int));
            }
        }
        proof {
            assert(command@ =~= self.command@);
            assert(command@.map_values(|s: String| s@) =~= self.command@.map_values(
                |s: String| s@,
            ));
        }
        ProcessInfo {
            pid: self.pid,
            name: self.name.clone(),
            command,
            parent_pid: self.parent_pid,
            cpu_permille: self.cpu_permille,
            memory_bytes: self.memory_bytes,
        }
    }
}

/// A process tree rooted at a session's shell process: a flat list of the
/// root and its descendants.
#[derive(Clone, Debug)]
pub struct SessionProcessTree {
    /// Session this tree belongs to.
    pub session_id: u32,
    /// Pid of the root shell process.
    pub root_pid: i32,
    /// The root and all its descendants found in the snapshot.
    pub processes: Vec<ProcessInfo>,
}

/// True when the snapshot has an entry for `pid`.
pub open spec fn table_has(t: Seq<ProcessInfo>, pid: u32) -> bool {
    exists|k: int| 0 <= k < t.len() && t[k].pid == pid
}

/// True when some snapshot entry says `child`'s parent is `parent`.
pub open spec fn is_child_of(t: Seq<ProcessInfo>, parent: u32, child: u32) -> bool {
    exists|k: int| 0 <= k < t.len() && t[k].pid == child && t[k].parent_pid == Some(parent)
}

/// `pid` is reachable from `root` through at most `fuel` parent links.
pub open spec fn reachable_in(t: Seq<ProcessInfo>, root: u32, pid: u32, fuel: nat) -> bool
    decreases fuel,
{
    pid == root || (fuel > 0 && exists|p: u32|
        reachable_in(t, root, p, (fuel - 1) as nat) && is_child_of(t, p, pid))
}

/// `pid` is the root or one of its descendants in the snapshot.
pub open spec fn descendant(t: Seq<ProcessInfo>, root: u32, pid: u32) -> bool {
    exists|fuel: nat| reachable_in(t, root, pid, fuel)
}

/// The pids of a list of records.
pub open spec fn pids_of(s: Seq<ProcessInfo>) -> Seq<u32> {
    s.map_values(|e: ProcessInfo| e.pid)
}

/// Pushing onto a sequence adds exactly that element to its set.
proof fn lemma_push_to_set(s: Seq<u32>, x: u32)
    ensures
        s.push(x).to_set() == s.to_set().insert(x),
        s.push(x).contains(x),
        forall|y: u32| s.contains(y) ==> #[trigger] s.push(x).contains(y),
        !s.contains(x) && s.no_duplicates() ==> s.push(x).no_duplicates(),
{
    broadcast use vstd::set::group_set_axioms;

    assert(s.push(x)[s.len() as int] == x);
    assert forall|y: u32| s.contains(y) implies #[trigger] s.push(x).contains(y) by {
        let w = choose|w: int| 0 <= w < s.len() && s[w] == y;
        assert(s.push(x)[w] == y);
    }
    assert forall|y: u32| s.push(x).contains(y) implies s.contains(y) || y == x by {
        let w = choose|w: int| 0 <= w < s.push(x).len() && s.push(x)[w] == y;
        if w < s.len() {
            assert(s[w] == y);
        }
    }
    assert(s.push(x).to_set() =~= s.to_set().insert(x));
}

/// The pids of a record list extend pointwise under push.
proof fn lemma_pids_push(s: Seq<ProcessInfo>, e: ProcessInfo)
    ensures
        pids_of(s.push(e)) == pids_of(s).push(e.pid),
{
    assert(pids_of(s.push(e)) =~= pids_of(s).push(e.pid));
}

/// Builds the process tree for a session from a snapshot: the root entry
/// and every descendant found through parent links, each pid once.
///
/// Returns `None` exactly when the snapshot has no entry for the root.
/// Every returned record matches a snapshot entry, every returned pid is
/// a descendant of the root, no pid repeats, the root pid is returned,
/// and the result is closed under the child relation: a snapshot entry
/// whose parent was returned is returned too.
pub fn build_process_tree(session_id: u32, root_pid: i32, table: &Vec<ProcessInfo>) -> (r: Option<
    SessionProcessTree,
>)
    ensures
        r is Some <==> table_has(table@, root_pid as u32),
        r matches Option::Some(tree) ==> {
            &&& tree.session_id == session_id
            &&& tree.root_pid == root_pid
            &&& (forall|j: int|
                0 <= j < tree.processes@.len() ==> exists|k: int|
                    0 <= k < table@.len() && proc_view(#[trigger] tree.processes@[j]) == proc_view(
                        table@[k],
                    ))
            &&& (forall|j: int|
                0 <= j < tree.processes@.len() ==> descendant(
                    table@,
                    root_pid as u32,
                    (#[trigger] tree.processes@[j]).pid,
                ))
            &&& pids_of(tree.processes@).no_duplicates()
            &&& pids_of(tree.processes@).contains(root_pid as u32)
            &&& (forall|k: int|
                0 <= k < table@.len() && (#[trigger] table@[k].parent_pid) is Some && pids_of(
                    tree.processes@,
                ).contains(table@[k].parent_pid->0) ==> pids_of(tree.processes@).contains(
                    table@[k].pid,
                ))
        },
{
    broadcast use vstd::set::group_set_axioms;
    broadcast use vstd::seq_lib::seq_to_set_is_finite;

    let root = root_pid as u32;
    if !table_contains(table, root) {
        return None;
    }
    let ghost tv = table@;
    // `seen` holds every pid ever pushed; each seen pid is either already
    // emitted or still on the stack
    let mut seen: Vec<u32> = Vec::new();
    let mut stack: Vec<u32> = Vec::new();
    let mut out: Vec<ProcessInfo> = Vec::new();
    seen.push(root);
    stack.push(root);
    proof {
        assert(reachable_in(tv, root, root, 0));
        assert(descendant(tv, root, root));
        assert(seen@ =~= seq![root]);
        assert(stack@ =~= seq![root]);
        assert(seen@[0] == root);
        assert(seen@.contains(root));
        assert(stack@[0] == root);
        assert(stack@.contains(root));
        assert(pids_of(out@) =~= Seq::<u32>::empty());
        assert(seen@.to_set() =~= pids_of(out@).to_set().union(stack@.to_set()));
    }
    while stack.len() > 0
        invariant
            tv == table@,
            seen@.to_set() == pids_of(out@).to_set().union(stack@.to_set()),
            seen@.no_duplicates(),
            out@.len() + stack@.len() == seen@.len(),
            forall|j: int|
                0 <= j < out@.len() ==> exists|k: int|
                    0 <= k < tv.len() && proc_view(#[trigger] out@[j]) == proc_view(tv[k]),
            forall|j: int| 0 <= j < seen@.len() ==> descendant(tv, root, #[trigger] seen@[j]),
            seen@.contains(root),
            forall|k: int|
                0 <= k < tv.len() && (#[trigger] tv[k].parent_pid) is Some && pids_of(
                    out@,
                ).contains(tv[k].parent_pid->0) ==> seen@.contains(tv[k].pid),
            forall|j: int| 0 <= j < seen@.len() ==> table_has(tv, #[trigger] seen@[j]),
            forall|j: int| 0 <= j < stack@.len() ==> seen@.contains(#[trigger] stack@[j]),
        decreases tv.len() + 1 - seen@.len(), stack@.len(),
    {
        proof {
            lemma_unique_in_pids_bound(seen@, tv);
        }
        let ghost old_out = out@;
        let ghost old_stack = stack@;
        let ghost old_seen = seen@;
        let p = stack.pop().unwrap();
        proof {
            assert(old_stack[old_stack.len() - 1] == p);
            assert(old_stack.contains(p));
            assert(seen@.contains(p));
            assert(stack@ =~= old_stack.drop_last());
            assert(table_has(tv, p)) by {
                let w = choose|w: int| 0 <= w < seen@.len() && seen@[w] == p;
            }
            assert(descendant(tv, root, p)) by {
                let w = choose|w: int| 0 <= w < seen@.len() && seen@[w] == p;
            }
        }
        // emit the snapshot entry for `p`
        let entry = match find_entry(table, p) {
            Some(e) => e,
            None => {
                // unreachable: everything on the stack has a snapshot entry
                proof {
                    assert(false);
                }
                return None;
            },
        };
        out.push(entry);
        proof {
            broadcast use vstd::set::group_set_axioms;

            lemma_pids_push(old_out, entry);
            assert(pids_of(out@) == pids_of(old_out).push(p));
            lemma_push_to_set(pids_of(old_out), p);
            assert(old_stack =~= stack@.push(p));
            lemma_push_to_set(stack@, p);
            assert(old_seen.to_set() == pids_of(old_out).to_set().union(old_stack.to_set()));
            assert(seen@.to_set() =~= pids_of(out@).to_set().union(stack@.to_set()));
        }
        let ghost mid_out = out@;
        // push every not-yet-seen child of `p`
        let mut k: usize = 0;
        while k < table.len()
            invariant
                tv == table@,
                k <= tv.len(),
                out@ == mid_out,
                pids_of(out@) == pids_of(old_out).push(p),
                seen@.to_set() == pids_of(out@).to_set().union(stack@.to_set()),
                seen@.no_duplicates(),
                out@.len() + stack@.len() == seen@.len(),
                forall|j: int|
                    0 <= j < out@.len() ==> exists|kk: int|
                        0 <= kk < tv.len() && proc_view(#[trigger] out@[j]) == proc_view(tv[kk]),
                forall|j: int| 0 <= j < seen@.len() ==> descendant(tv, root, #[trigger] seen@[j]),
                seen@.contains(root),
                forall|kk: int|
                    0 <= kk < tv.len() && (#[trigger] tv[kk].parent_pid) is Some && pids_of(
                        old_out,
                    ).contains(tv[kk].parent_pid->0) ==> seen@.contains(tv[kk].pid),
                forall|kk: int|
                    0 <= kk < k && tv[kk].parent_pid == Some(p) ==> seen@.contains(
                        #[trigger] tv[kk].pid,
                    ),
                forall|j: int| 0 <= j < seen@.len() ==> table_has(tv, #[trigger] seen@[j]),
                forall|j: int| 0 <= j < stack@.len() ==> seen@.contains(#[trigger] stack@[j]),
                descendant(tv, root, p),
                old_seen.len() <= seen@.len(),
            decreases tv.len() - k,
        {
            let is_child = match table[k].parent_pid {
                Some(pp) => pp == p,
                None => false,
            };
            if is_child {
                let child = table[k].pid;
                if !vec_contains(&seen, child) {
                    let ghost pre_seen = seen@;
                    let ghost pre_stack = stack@;
                    seen.push(child);
                    stack.push(child);
                    proof {
                        broadcast use vstd::set::group_set_axioms;

                        assert(is_child_of(tv, p, child)) by {
                            assert(tv[k as int].pid == child && tv[k as int].parent_pid == Some(
                                p,
                            ));
                        }
                        let fuel = choose|fuel: nat| reachable_in(tv, root, p, fuel);
                        assert(reachable_in(tv, root, child, fuel + 1)) by {
                            assert(reachable_in(tv, root, p, fuel));
                        }
                        assert(descendant(tv, root, child));
                        assert(seen@ =~= pre_seen.push(child));
                        assert(stack@ =~= pre_stack.push(child));
                        lemma_push_to_set(pre_seen, child);
                        lemma_push_to_set(pre_stack, child);
                        assert(seen@.to_set() =~= pids_of(out@).to_set().union(stack@.to_set()));
                        assert(table_has(tv, child)) by {
                            assert(tv[k as int].pid == child);
                        }
                        assert(forall|j: int|
                            0 <= j < pre_seen.len() ==> seen@[j] == pre_seen[j]);
                        assert(seen@[pre_seen.len() as int] == child);
                        assert(seen@.contains(root)) by {
                            let w = choose|w: int|
                                0 <= w < pre_seen.len() && pre_seen[w] == root;
                            assert(seen@[w] == root);
                        }
                    }
                }
            }
            k += 1;
        }
        proof {
            // closure extends from old_out to out: the newly emitted pid is
            // `p`, whose children were all just scanned
            assert forall|kk: int|
                0 <= kk < tv.len() && (#[trigger] tv[kk].parent_pid) is Some && pids_of(
                    out@,
                ).contains(tv[kk].parent_pid->0) implies seen@.contains(tv[kk].pid) by {
                let pp = tv[kk].parent_pid->0;
                let w = choose|w: int|
                    0 <= w < pids_of(out@).len() && #[trigger] pids_of(out@)[w] == pp;
                if w < old_out.len() {
                    assert(pids_of(old_out)[w] == pp);
                    assert(pids_of(old_out).contains(pp));
                } else {
                    assert(pp == p);
                    assert(tv[kk].parent_pid == Some(p));
                }
            }
            // the loop makes progress: either a child was newly seen, or
            // the stack shrank by one
            lemma_unique_in_pids_bound(seen@, tv);
            assert(seen@.len() <= tv.len());
            if seen@.len() == old_seen.len() {
                assert(stack@.len() == seen@.len() - out@.len());
                assert(old_stack.len() == old_seen.len() - old_out.len());
                assert(out@.len() == old_out.len() + 1);
                assert(stack@.len() < old_stack.len());
            } else {
                assert(seen@.len() > old_seen.len());
            }
        }
    }
    proof {
        broadcast use vstd::set::group_set_axioms;
        broadcast use vstd::seq_lib::seq_to_set_is_finite;

        assert(stack@.len() == 0);
        assert(stack@.to_set() =~= Set::<u32>::empty());
        assert(seen@.to_set() =~= pids_of(out@).to_set());
        assert(pids_of(out@).contains(root)) by {
            assert(seen@.to_set().contains(root));
        }
        // pigeonhole: as many emitted pids as distinct seen pids
        seen@.unique_seq_to_set();
        assert(pids_of(out@).to_set().len() == seen@.len());
        assert(pids_of(out@).len() == seen@.len());
        pids_of(out@).lemma_no_dup_set_cardinality();
        // the final closure speaks of emitted pids, which are the seen set
        assert forall|k: int|
            0 <= k < tv.len() && (#[trigger] tv[k].parent_pid) is Some && pids_of(
                out@,
            ).contains(tv[k].parent_pid->0) implies pids_of(out@).contains(tv[k].pid) by {
            assert(seen@.contains(tv[k].pid));
            assert(seen@.to_set().contains(tv[k].pid));
        }
        // every emitted pid was seen, hence a descendant
        assert forall|j: int|
            0 <= j < out@.len() implies descendant(tv, root, (#[trigger] out@[j]).pid) by {
            assert(pids_of(out@)[j] == out@[j].pid);
            assert(pids_of(out@).contains(out@[j].pid));
            assert(seen@.to_set().contains(out@[j].pid));
            assert(seen@.contains(out@[j].pid));
            let w = choose|w: int| 0 <= w < seen@.len() && seen@[w] == out@[j].pid;
        }
    }
    Some(SessionProcessTree { session_id, root_pid, processes: out })
}

/// A duplicate-free pid list drawn from the snapshot's pids has at most
/// as many entries as the snapshot.
proof fn lemma_unique_in_pids_bound(seen: Seq<u32>, tv: Seq<ProcessInfo>)
    requires
        seen.no_duplicates(),
        forall|j: int| 0 <= j < seen.len() ==> table_has(tv, #[trigger] seen[j]),
    ensures
        seen.len() <= tv.len(),
{
    broadcast use vstd::set::group_set_axioms;
    broadcast use vstd::seq_lib::seq_to_set_is_finite;

    seen.unique_seq_to_set();
    let pids = pids_of(tv);
    assert(forall|j: int| 0 <= j < seen.len() ==> pids.to_set().contains(#[trigger] seen[j]))
        by {
        assert forall|j: int| 0 <= j < seen.len() implies pids.to_set().contains(
            #[trigger] seen[j],
        ) by {
            let w = choose|w: int| 0 <= w < tv.len() && tv[w].pid == seen[j];
            assert(pids[w] == seen[j]);
            assert(pids.contains(seen[j]));
        }
    }
    assert(seen.to_set().subset_of(pids.to_set()));
    vstd::set_lib::lemma_len_subset(seen.to_set(), pids.to_set());
    pids.lemma_cardinality_of_set();
}

/// The first snapshot entry for `pid`, copied out.
fn find_entry(table: &Vec<ProcessInfo>, pid: u32) -> (r: Option<ProcessInfo>)
    ensures
        r is Some <==> table_has(table@, pid),
        r matches Option::Some(e) ==> e.pid == pid && exists|k: int|
            0 <= k < table@.len() && proc_view(e) == proc_view(table@[k]),
{
    let n = table.len();
    let mut i: usize = 0;
    while i < n
        invariant
            i <= n,
            n == table@.len(),
            forall|k: int| 0 <= k < i ==> table@[k].pid != pid,
        decreases n - i,
    {
        if table[i].pid == pid {
            let e = table[i].duplicate();
            proof {
                assert(proc_view(e) == proc_view(table@[i as int]));
            }
            return Some(e);
        }
        i += 1;
    }
    None
}

/// Whether the snapshot has an entry for `pid`.
fn table_contains(table: &Vec<ProcessInfo>, pid: u32) -> (r: bool)
    ensures
        r == table_has(table@, pid),
{
    let n = table.len();
    let mut i: usize = 0;
    while i < n
        invariant
            i <= n,
            n == table@.len(),
            forall|k: int| 0 <= k < i ==> table@[k].pid != pid,
        decreases n - i,
    {
        if table[i].pid == pid {
            return true;
        }
        i += 1;
    }
    false
}

/// Whether a pid list contains `pid`.
fn vec_contains(v: &Vec<u32>, pid: u32) -> (r: bool)
    ensures
        r == v@.contains(pid),
{
    let n = v.len();
    let mut i: usize = 0;
    while i < n
        invariant
            i <= n,
            n == v@.len(),
            forall|k: int| 0 <= k < i ==> v@[k] != pid,
        decreases n - i,
    {
        if v[i] == pid {
            proof {
                assert(v@[i as int] == pid);
            }
            return true;
        }
        i += 1;
    }
    false
}

/// Decides a targeted kill: a registered session-root pid is refused
/// with `CannotKillRoot`, a pid absent from the snapshot fails with
/// `NotFound`, anything else may be signalled.
pub fn kill_process_decision(pid: u32, session_root_pids: &Vec<i32>, exists_in_table: bool) -> (r:
    Result<(), ProcessError>)
    ensures
        session_root_pids@.contains(pid as i32) ==> r == Result::<(), ProcessError>::Err(
            ProcessError::CannotKillRoot,
        ),
        !session_root_pids@.contains(pid as i32) && !exists_in_table ==> r == Result::<
            (),
            ProcessError,
        >::Err(ProcessError::NotFound(pid)),
        !session_root_pids@.contains(pid as i32) && exists_in_table ==> r is Ok,
{
    let n = session_root_pids.len();
    let mut i: usize = 0;
    while i < n
        invariant
            i <= n,
            n == session_root_pids@.len(),
            forall|k: int| 0 <= k < i ==> session_root_pids@[k] != pid as i32,
        decreases n - i,
    {
        if session_root_pids[i] == pid as i32 {
            proof {
                assert(session_root_pids@[i as int] == pid as i32);
            }
            return Err(ProcessError::CannotKillRoot);
        }
        i += 1;
    }
    if !exists_in_table {
        return Err(ProcessError::NotFound(pid));
    }
    Ok(())
}

} // verus!
