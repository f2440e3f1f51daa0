//! Routing rules of the status ingress.
//!
//! Child assistants report their state by POSTing JSON to a loopback HTTP
//! endpoint.  The transport lives in the application shell; what is
//! verified here is the decision core: reject reports carrying a foreign
//! instance id, route reports for registered sessions to an event, and
//! buffer reports that arrive before their session registers, within a
//! fixed bound.  Registration flushes a buffered report exactly once.

use vstd::prelude::*;
use crate::strutil::{str_eq, string_eq};

verus! {

/// The pending-status buffer never holds more than this many entries; a
/// report that would exceed it is dropped.
pub const MAX_PENDING_STATUSES: usize = 100;

/// Status payload received from a sidecar.
#[derive(Clone, Debug)]
pub struct StatusRequest {
    pub session_id: u32,
    pub instance_id: String,
    pub state: String,
    pub message: String,
    pub needs_input_prompt: Option<String>,
    pub timestamp: String,
}

impl StatusRequest {
    /// An exact copy of the request.
    pub fn duplicate(&self) -> (r: StatusRequest)
        ensures
            r == *self,
    {
        StatusRequest {
            session_id: self.session_id,
            instance_id: self.instance_id.clone(),
            state: self.state.clone(),
            message: self.message.clone(),
            needs_input_prompt: match &self.needs_input_prompt {
                Some(p) => Some(p.clone()),
                None => None,
            },
            timestamp: self.timestamp.clone(),
        }
    }
}

/// Payload emitted to the frontend for status changes.
#[derive(Clone, Debug)]
pub struct SessionStatusPayload {
    pub session_id: u32,
    pub project_path: String,
    pub status: String,
    pub message: String,
    pub needs_input_prompt: Option<String>,
}

/// The canonical status for a sidecar state string: the five known states
/// map to their canonical names, everything else to `Unknown`.
pub open spec fn map_state_spec(s: Seq<char>) -> Seq<char> {
    if s == "idle"@ {
        "Idle"@
    } else if s == "working"@ {
        "Working"@
    } else if s == "needs_input"@ {
        "NeedsInput"@
    } else if s == "finished"@ {
        "Done"@
    } else if s == "error"@ {
        "Error"@
    } else {
        "Unknown"@
    }
}

/// Maps a sidecar state string to the canonical status name.
pub fn map_state(state: &str) -> (r: String)
    ensures
        r@ == map_state_spec(state@),
{
    if str_eq(state, "idle") {
        "Idle".to_owned()
    } else if str_eq(state, "working") {
        "Working".to_owned()
    } else if str_eq(state, "needs_input") {
        "NeedsInput".to_owned()
    } else if str_eq(state, "finished") {
        "Done".to_owned()
    } else if str_eq(state, "error") {
        "Error".to_owned()
    } else {
        "Unknown".to_owned()
    }
}

/// True when `p` is the event that reporting `req` for a session of
/// project `project` emits.
pub open spec fn is_emission_of(
    p: SessionStatusPayload,
    req: StatusRequest,
    project: Seq<char>,
) -> bool {
    &&& p.session_id == req.session_id
    &&& p.project_path@ == project
    &&& p.status@ == map_state_spec(req.state@)
    &&& p.message@ == req.message@
    &&& match (p.needs_input_prompt, req.needs_input_prompt) {
        (Option::None, Option::None) => true,
        (Option::Some(a), Option::Some(b)) => a@ == b@,
        _ => false,
    }
}

/// True when some entry in `s` has the given key.
pub open spec fn skey_has<V>(s: Seq<(u32, V)>, id: u32) -> bool {
    exists|i: int| 0 <= i < s.len() && s[i].0 == id
}

/// True when `s` holds at most one entry per key.
pub open spec fn skey_unique<V>(s: Seq<(u32, V)>) -> bool {
    forall|i: int, j: int| 0 <= i < j < s.len() ==> s[i].0 != s[j].0
}

/// The value stored under `id`, if any.
pub open spec fn skey_get<V>(s: Seq<(u32, V)>, id: u32) -> Option<V> {
    if skey_has(s, id) {
        let i = choose|i: int| 0 <= i < s.len() && s[i].0 == id;
        Some(s[i].1)
    } else {
        None
    }
}

/// Decision core of the status ingress.  The application shell holds one
/// behind the HTTP endpoint, under a lock, and publishes the events this
/// core hands back.
pub struct StatusIngress {
    instance_id: String,
    /// session id -> project path, for routing.
    session_projects: Vec<(u32, String)>,
    /// Reports that arrived before their session registered.
    pending: Vec<(u32, StatusRequest)>,
}

impl StatusIngress {
    /// The instance identity this ingress accepts.
    pub closed spec fn instance(&self) -> Seq<char> {
        self.instance_id@
    }

    /// The routing table, in registration order.
    pub closed spec fn projects(&self) -> Seq<(u32, String)> {
        self.session_projects@
    }

    /// The buffered early reports.
    pub closed spec fn buffered(&self) -> Seq<(u32, StatusRequest)> {
        self.pending@
    }

    /// Keys are unique and the buffer respects its bound.
    pub closed spec fn wf(&self) -> bool {
        &&& skey_unique(self.session_projects@)
        &&& skey_unique(self.pending@)
        &&& self.pending@.len() <= MAX_PENDING_STATUSES
    }

    /// Creates an ingress that accepts reports for `instance_id` only.
    pub fn new(instance_id: String) -> (r: Self)
        ensures
            r.wf(),
            r.instance() == instance_id@,
            r.projects() == Seq::<(u32, String)>::empty(),
            r.buffered() == Seq::<(u32, StatusRequest)>::empty(),
    {
        StatusIngress { instance_id, session_projects: Vec::new(), pending: Vec::new() }
    }

    /// The index of the routing entry for `id`, if any.
    fn find_project(&self, id: u32) -> (r: Option<usize>)
        ensures
            match r {
                Some(i) => i < self.projects().len() && self.projects()[i as int].0 == id,
                None => !skey_has(self.projects(), id),
            },
    {
        let n = self.session_projects.len();
        let mut i: usize = 0;
        while i < n
            invariant
                i <= n,
                n == self.projects().len(),
                forall|k: int| 0 <= k < i ==> self.projects()[k].0 != id,
            decreases n - i,
        {
            if self.session_projects[i].0 == id {
                return Some(i);
            }
            i += 1;
        }
        None
    }

    /// The index of the buffered report for `id`, if any.
    fn find_pending(&self, id: u32) -> (r: Option<usize>)
        ensures
            match r {
                Some(i) => i < self.buffered().len() && self.buffered()[i as int].0 == id,
                None => !skey_has(self.buffered(), id),
            },
    {
        let n = self.pending.len();
        let mut i: usize = 0;
        while i < n
            invariant
                i <= n,
                n == self.buffered().len(),
                forall|k: int| 0 <= k < i ==> self.buffered()[k].0 != id,
            decreases n - i,
        {
            if self.pending[i].0 == id {
                return Some(i);
            }
            i += 1;
        }
        None
    }

    /// Handles one incoming status report.  Returns the HTTP status code to
    /// answer with, and the event to publish, if any.
    ///
    /// A report whose instance id is not this supervisor's is rejected with
    /// 403 and nothing else happens.  A report for a registered session is
    /// answered 200 and becomes exactly one event carrying the session's
    /// project path.  A report for an unregistered session is answered 202:
    /// it replaces that session's buffered report, or is appended while the
    /// buffer is below its bound, or — at the bound — is dropped.
    pub fn handle_status(&mut self, payload: StatusRequest) -> (r: (u16, Option<
        SessionStatusPayload,
    >))
        requires
            old(self).wf(),
        ensures
            final(self).wf(),
            final(self).instance() == old(self).instance(),
            final(self).projects() == old(self).projects(),
            payload.instance_id@ != old(self).instance() ==> r.0 == 403 && r.1 is None && final(self).buffered() == old(self).buffered(),
            payload.instance_id@ == old(self).instance() && skey_has(
                old(self).projects(),
                payload.session_id,
            ) ==> {
                &&& r.0 == 200
                &&& final(self).buffered() == old(self).buffered()
                &&& match r.1 {
                    Some(p) => is_emission_of(
                        p,
                        payload,
                        skey_get(old(self).projects(), payload.session_id)->0@,
                    ),
                    None => false,
                }
            },
            payload.instance_id@ == old(self).instance() && !skey_has(
                old(self).projects(),
                payload.session_id,
            ) ==> {
                &&& r.0 == 202
                &&& r.1 is None
                &&& final(self).buffered().len() <= MAX_PENDING_STATUSES
                &&& (skey_has(old(self).buffered(), payload.session_id) ==> {
                    &&& final(self).buffered().len() == old(self).buffered().len()
                    &&& forall|k: int|
                        0 <= k < old(self).buffered().len() && old(self).buffered()[k].0
                            != payload.session_id ==> final(self).buffered()[k] == old(self).buffered()[k]
                    &&& forall|k: int|
                        0 <= k < old(self).buffered().len() && old(self).buffered()[k].0
                            == payload.session_id ==> final(self).buffered()[k] == (
                        payload.session_id,
                        payload,
                    )
                })
                &&& (!skey_has(old(self).buffered(), payload.session_id) && old(self).buffered().len() < MAX_PENDING_STATUSES ==> final(self).buffered() == old(self).buffered().push((payload.session_id, payload)))
                &&& (!skey_has(old(self).buffered(), payload.session_id) && old(self).buffered().len() >= MAX_PENDING_STATUSES ==> final(self).buffered() == old(self).buffered())
            },
    {
        if !string_eq(&payload.instance_id, &self.instance_id) {
            return (403, None);
        }
        match self.find_project(payload.session_id) {
            Some(i) => {
                proof {
                    let w = choose|w: int|
                        0 <= w < self.projects().len() && self.projects()[w].0
                            == payload.session_id;
                    assert(w == i);
                }
                let project = self.session_projects[i].1.clone();
                let event = build_emission(&payload, project);
                (200, Some(event))
            },
            None => {
                match self.find_pending(payload.session_id) {
                    Some(i) => {
                        let sid = payload.session_id;
                        self.pending.set(i, (sid, payload));
                        proof {
                            assert(forall|k: int|
                                0 <= k < old(self).buffered().len() && old(self).buffered()[k].0
                                    == sid ==> k == i);
                        }
                        (202, None)
                    },
                    None => {
                        if self.pending.len() < MAX_PENDING_STATUSES {
                            let sid = payload.session_id;
                            self.pending.push((sid, payload));
                            (202, None)
                        } else {
                            (202, None)
                        }
                    },
                }
            },
        }
    }

    /// Registers a session under its project path, replacing any previous
    /// routing entry for that id, and flushes the session's buffered report:
    /// the returned event, present exactly when a report was buffered, is
    /// published once, and the buffer entry is gone.
    pub fn register_session(&mut self, session_id: u32, project_path: String) -> (r: Option<
        SessionStatusPayload,
    >)
        requires
            old(self).wf(),
        ensures
            final(self).wf(),
            final(self).instance() == old(self).instance(),
            skey_has(final(self).projects(), session_id),
            skey_get(final(self).projects(), session_id)->0@ == project_path@,
            forall|id: u32|
                id != session_id ==> #[trigger] skey_get(final(self).projects(), id) == skey_get(
                    old(self).projects(),
                    id,
                ),
            !skey_has(final(self).buffered(), session_id),
            forall|id: u32|
                id != session_id ==> #[trigger] skey_get(final(self).buffered(), id) == skey_get(
                    old(self).buffered(),
                    id,
                ),
            match r {
                Some(p) => skey_has(old(self).buffered(), session_id) && is_emission_of(
                    p,
                    skey_get(old(self).buffered(), session_id)->0,
                    project_path@,
                ),
                None => !skey_has(old(self).buffered(), session_id),
            },
    {
        match self.find_project(session_id) {
            Some(i) => {
                proof {
                    let w = choose|w: int|
                        0 <= w < self.projects().len() && self.projects()[w].0 == session_id;
                    assert(w == i);
                }
                self.session_projects.set(i, (session_id, project_path.clone()));
                proof {
                    lemma_set_preserves_others(
                        old(self).projects(),
                        self.projects(),
                        i as int,
                        session_id,
                    );
                    lemma_get_at_unique(self.projects(), i as int, session_id);
                }
            },
            None => {
                self.session_projects.push((session_id, project_path.clone()));
                proof {
                    lemma_push_preserves_others(old(self).projects(), session_id, project_path);
                    lemma_get_at_unique(
                        self.projects(),
                        self.projects().len() - 1,
                        session_id,
                    );
                }
            },
        }
        match self.find_pending(session_id) {
            Some(i) => {
                proof {
                    let w = choose|w: int|
                        0 <= w < self.buffered().len() && self.buffered()[w].0 == session_id;
                    assert(w == i);
                }
                let entry = self.pending.remove(i);
                let event = build_emission(&entry.1, project_path);
                proof {
                    lemma_remove_keeps_unique(old(self).buffered(), i as int);
                    lemma_remove_preserves_others(old(self).buffered(), i as int, session_id);
                }
                Some(event)
            },
            None => None,
        }
    }

    /// Unregisters a session: its routing entry and any buffered report are
    /// dropped; every other session is untouched.
    pub fn unregister_session(&mut self, session_id: u32)
        requires
            old(self).wf(),
        ensures
            final(self).wf(),
            final(self).instance() == old(self).instance(),
            !skey_has(final(self).projects(), session_id),
            !skey_has(final(self).buffered(), session_id),
            forall|id: u32|
                id != session_id ==> #[trigger] skey_get(final(self).projects(), id) == skey_get(
                    old(self).projects(),
                    id,
                ),
            forall|id: u32|
                id != session_id ==> #[trigger] skey_get(final(self).buffered(), id) == skey_get(
                    old(self).buffered(),
                    id,
                ),
    {
        let ghost mid = self.projects();
        match self.find_project(session_id) {
            Some(i) => {
                proof {
                    let w = choose|w: int|
                        0 <= w < self.projects().len() && self.projects()[w].0 == session_id;
                    assert(w == i);
                }
                let _ = self.session_projects.remove(i);
                proof {
                    lemma_remove_keeps_unique(old(self).projects(), i as int);
                    lemma_remove_preserves_others(old(self).projects(), i as int, session_id);
                }
            },
            None => {},
        }
        let ghost mid2 = self.buffered();
        match self.find_pending(session_id) {
            Some(i) => {
                proof {
                    let w = choose|w: int|
                        0 <= w < self.buffered().len() && self.buffered()[w].0 == session_id;
                    assert(w == i);
                }
                let _ = self.pending.remove(i);
                proof {
                    lemma_remove_keeps_unique(mid2, i as int);
                    lemma_remove_preserves_others(mid2, i as int, session_id);
                }
            },
            None => {},
        }
    }

    /// The registered session ids, in registration order.
    pub fn registered_sessions(&self) -> (r: Vec<u32>)
        ensures
            r@.len() == self.projects().len(),
            forall|k: int| 0 <= k < r@.len() ==> r@[k] == self.projects()[k].0,
    {
        let n = self.session_projects.len();
        let mut r: Vec<u32> = Vec::new();
        let mut i: usize = 0;
        while i < n
            invariant
                i <= n,
                n == self.projects().len(),
                r@.len() == i,
                forall|k: int| 0 <= k < i ==> r@[k] == self.projects()[k].0,
            decreases n - i,
        {
            r.push(self.session_projects[i].0);
            i += 1;
        }
        r
    }
}

/// Builds the frontend event for a report routed to a project.
fn build_emission(req: &StatusRequest, project_path: String) -> (r: SessionStatusPayload)
    ensures
        is_emission_of(r, *req, project_path@),
{
    SessionStatusPayload {
        session_id: req.session_id,
        project_path,
        status: map_state(req.state.as_str()),
        message: req.message.clone(),
        needs_input_prompt: match &req.needs_input_prompt {
            Some(p) => Some(p.clone()),
            None => None,
        },
    }
}

/// After updating index `i` (which held `id`), lookups of other ids are
/// unchanged.
proof fn lemma_set_preserves_others<V>(
    olds: Seq<(u32, V)>,
    news: Seq<(u32, V)>,
    i: int,
    id: u32,
)
    requires
        skey_unique(olds),
        0 <= i < olds.len(),
        olds[i].0 == id,
        news.len() == olds.len(),
        news[i].0 == id,
        forall|k: int| 0 <= k < olds.len() && k != i ==> news[k] == olds[k],
    ensures
        skey_unique(news),
        forall|o: u32| o != id ==> #[trigger] skey_get(news, o) == skey_get(olds, o),
{
    assert forall|o: u32| o != id implies #[trigger] skey_get(news, o) == skey_get(olds, o) by {
        if skey_has(news, o) {
            let w = choose|w: int| 0 <= w < news.len() && news[w].0 == o;
            assert(olds[w].0 == o);
            lemma_get_at_unique(olds, w, o);
            lemma_get_at_unique(news, w, o);
        } else {
            if skey_has(olds, o) {
                let w = choose|w: int| 0 <= w < olds.len() && olds[w].0 == o;
                assert(news[w].0 == o);
            }
        }
    }
}

/// After pushing a fresh key, lookups of other ids are unchanged.
proof fn lemma_push_preserves_others<V>(olds: Seq<(u32, V)>, id: u32, v: V)
    requires
        skey_unique(olds),
        !skey_has(olds, id),
    ensures
        skey_unique(olds.push((id, v))),
        forall|o: u32|
            o != id ==> #[trigger] skey_get(olds.push((id, v)), o) == skey_get(olds, o),
{
    let news = olds.push((id, v));
    assert(forall|k: int| 0 <= k < olds.len() ==> #[trigger] news[k] == olds[k]);
    assert forall|o: u32| o != id implies #[trigger] skey_get(news, o) == skey_get(olds, o) by {
        if skey_has(news, o) {
            let w = choose|w: int| 0 <= w < news.len() && news[w].0 == o;
            assert(w < olds.len());
            lemma_get_at_unique(olds, w, o);
            lemma_get_at_unique(news, w, o);
        } else {
            if skey_has(olds, o) {
                let w = choose|w: int| 0 <= w < olds.len() && olds[w].0 == o;
                assert(news[w].0 == o);
            }
        }
    }
}

/// In a unique-key table, the lookup of the key at index `i` yields the
/// value at `i`.
proof fn lemma_get_at_unique<V>(s: Seq<(u32, V)>, i: int, id: u32)
    requires
        skey_unique(s),
        0 <= i < s.len(),
        s[i].0 == id,
    ensures
        skey_get(s, id) == Some(s[i].1),
{
    assert(skey_has(s, id));
    let w = choose|w: int| 0 <= w < s.len() && s[w].0 == id;
    assert(w == i);
}

/// Removing an index keeps keys unique.
proof fn lemma_remove_keeps_unique<V>(s: Seq<(u32, V)>, i: int)
    requires
        skey_unique(s),
        0 <= i < s.len(),
    ensures
        skey_unique(s.remove(i)),
{
    let t = s.remove(i);
    assert forall|a: int, b: int| 0 <= a < b < t.len() implies t[a].0 != t[b].0 by {
        let a0 = if a < i {
            a
        } else {
            a + 1
        };
        let b0 = if b < i {
            b
        } else {
            b + 1
        };
        assert(t[a] == s[a0] && t[b] == s[b0]);
    }
}

/// Removing the entry at `i` (which held `id`) leaves the other ids'
/// lookups unchanged and `id` absent.
proof fn lemma_remove_preserves_others<V>(s: Seq<(u32, V)>, i: int, id: u32)
    requires
        skey_unique(s),
        0 <= i < s.len(),
        s[i].0 == id,
    ensures
        !skey_has(s.remove(i), id),
        forall|o: u32| o != id ==> #[trigger] skey_get(s.remove(i), o) == skey_get(s, o),
{
    let t = s.remove(i);
    assert(forall|k: int| 0 <= k < i ==> #[trigger] t[k] == s[k]);
    assert(forall|k: int| i <= k < t.len() ==> #[trigger] t[k] == s[k + 1]);
    if skey_has(t, id) {
        let w = choose|w: int| 0 <= w < t.len() && t[w].0 == id;
        if w < i {
            assert(s[w].0 == id);
        } else {
            assert(s[w + 1].0 == id);
        }
    }
    lemma_remove_keeps_unique(s, i);
    assert forall|o: u32| o != id implies #[trigger] skey_get(t, o) == skey_get(s, o) by {
        if skey_has(t, o) {
            let w = choose|w: int| 0 <= w < t.len() && t[w].0 == o;
            let w0 = if w < i {
                w
            } else {
                w + 1
            };
            assert(s[w0].0 == o);
            lemma_get_at_unique(s, w0, o);
            lemma_get_at_unique(t, w, o);
        } else {
            if skey_has(s, o) {
                let w = choose|w: int| 0 <= w < s.len() && s[w].0 == o;
                if w < i {
                    assert(t[w].0 == o);
                } else {
                    assert(w > i);
                    assert(t[w - 1].0 == o);
                }
            }
        }
    }
}

} // verus!
