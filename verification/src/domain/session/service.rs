use vstd::prelude::*;

use crate::domain::chat::tool_schema::{schema_entries_of, schema_parameters, tool_parameter, tool_schema, ToolSchema};
use crate::domain::hitl::models::HitlDecisionRequest;
use crate::json::{
    json_bool_at, json_bool_field, json_str_field, json_string_field, json_u64_at, json_u64_field,
    nonblank_arg, nonblank_argument, opt_view,
};
use crate::text::lemma_trim_idempotent;
use crate::domain::memory::models::UserMemorySnapshot;
use crate::domain::session::background::BackgroundManager;
use crate::domain::session::todo::{rendered, validation, views, TodoError, TodoErrorView, TodoItem, TodoItemView, TodoManager};
use crate::text::{
    concat2, is_empty_text, join_path, join_path_seq, owned, push_str, str_eq, trim, trim_seq,
};

verus! {

/// How many sessions are kept at most unless told otherwise.
pub const DEFAULT_MAX_SESSIONS: usize = 100;

/// The inbox that steering messages for the lead go to.
pub const STEERING_INBOX_NAME: &'static str = "lead-steering";

// ---------------------------------------------------------------------------
// The sessions kept, least recently used first
// ---------------------------------------------------------------------------

pub open spec fn texts_of(v: Seq<String>) -> Seq<Seq<char>> {
    v.map_values(|s: String| s@)
}

/// `order` without `id`.
pub open spec fn without(order: Seq<Seq<char>>, id: Seq<char>) -> Seq<Seq<char>> {
    order.filter(|x: Seq<char>| x != id)
}

/// `order` with `id` moved (or added) to the end, as the most recently used.
pub open spec fn touched(order: Seq<Seq<char>>, id: Seq<char>) -> Seq<Seq<char>> {
    without(order, id).push(id)
}

/// What opening a session does to the order of sessions: an open session
/// becomes the most recent; a new one is added last after the least recently
/// used sessions were dropped to make room. Gives the new order and the
/// dropped sessions.
pub open spec fn admitted(order: Seq<Seq<char>>, id: Seq<char>, max: nat) -> (
    Seq<Seq<char>>,
    Seq<Seq<char>>,
) {
    if order.contains(id) {
        (touched(order, id), Seq::empty())
    } else {
        let k: int = if order.len() >= max {
            order.len() - max + 1
        } else {
            0
        };
        (order.skip(k).push(id), order.take(k))
    }
}

/// The state of one session: its todo list, background commands, agent runs,
/// plans awaiting approval and pending human approvals.
pub struct SessionContext {
    pub session_id: String,
    pub session_dir: String,
    pub todo: TodoManager,
    pub background: BackgroundManager,
    pub runs: RunGenerations,
    pub plans: PlanRequests,
    pub hitl: HitlRegistry,
}

/// A session's state as it starts: nothing to do, no command, no run, no plan
/// and no approval yet.
pub open spec fn fresh_context(c: SessionContext, id: Seq<char>, dir: Seq<char>, workdir: Seq<char>) -> bool {
    &&& c.session_id@ == id
    &&& c.session_dir@ == dir
    &&& c.todo@.len() == 0
    &&& c.background.wf()
    &&& c.background@.workdir == workdir
    &&& c.background@.tasks.len() == 0
    &&& c.background@.notifications.len() == 0
    &&& c.background@.next_id == 1
    &&& c.runs == RunGenerations { next: 1, active: None }
    &&& c.plans@.len() == 0
    &&& c.hitl.pending@.len() == 0
}

impl SessionContext {
    /// A fresh session whose background commands run in `workdir`.
    pub fn new(session_id: &str, session_dir: &str, workdir: &str) -> (c: Self)
        ensures
            fresh_context(c, session_id@, session_dir@, workdir@),
    {
        SessionContext {
            session_id: owned(session_id),
            session_dir: owned(session_dir),
            todo: TodoManager::default(),
            background: BackgroundManager::new(owned(workdir)),
            runs: RunGenerations::new(),
            plans: PlanRequests::new(),
            hitl: HitlRegistry::new(),
        }
    }
}

pub open spec fn ids_of(cs: Seq<SessionContext>) -> Seq<Seq<char>> {
    cs.map_values(|c: SessionContext| c.session_id@)
}

/// Every session's state other than that of `id` is untouched: what is kept
/// was there before, and what was there before is kept unless its session
/// was dropped.
pub open spec fn others_kept(before: Seq<SessionContext>, after: Seq<SessionContext>, id: Seq<char>) -> bool {
    &&& forall|c: SessionContext| #[trigger] after.contains(c) && c.session_id@ != id ==> before.contains(c)
    &&& forall|c: SessionContext|
        #[trigger] before.contains(c) && ids_of(after).contains(c.session_id@) && c.session_id@ != id
            ==> after.contains(c)
}

/// The sessions a server keeps, each with its state, least recently used
/// first.
pub struct SessionService {
    repo_root: String,
    max_sessions: usize,
    contexts: Vec<SessionContext>,
}

pub struct SessionServiceView {
    pub repo_root: Seq<char>,
    pub max_sessions: usize,
    pub order: Seq<Seq<char>>,
    pub contexts: Seq<SessionContext>,
}

impl View for SessionService {
    type V = SessionServiceView;

    closed spec fn view(&self) -> SessionServiceView {
        SessionServiceView {
            repo_root: self.repo_root@,
            max_sessions: self.max_sessions,
            order: ids_of(self.contexts@),
            contexts: self.contexts@,
        }
    }
}

/// The directory of a session's files under the repository.
pub open spec fn session_dir_of(repo_root: Seq<char>, id: Seq<char>) -> Seq<char> {
    join_path_seq(join_path_seq(repo_root, ".sessions"@), id)
}

proof fn lemma_touch_contains(cs: Seq<SessionContext>, i: int)
    requires
        0 <= i < cs.len(),
    ensures
        forall|c: SessionContext| #[trigger] cs.remove(i).push(cs[i]).contains(c) <==> cs.contains(c),
{
    let t = cs.remove(i).push(cs[i]);
    assert forall|c: SessionContext| #[trigger] t.contains(c) <==> cs.contains(c) by {
        if t.contains(c) {
            let k = choose|k: int| 0 <= k < t.len() && t[k] == c;
            if k == t.len() - 1 {
                assert(cs[i] == c);
            } else if k < i {
                assert(cs[k] == c);
            } else {
                assert(cs[k + 1] == c);
            }
        }
        if cs.contains(c) {
            let k = choose|k: int| 0 <= k < cs.len() && cs[k] == c;
            if k == i {
                assert(t[t.len() - 1] == c);
            } else if k < i {
                assert(t[k] == c);
            } else {
                assert(t[k - 1] == c);
            }
        }
    }
}

proof fn lemma_remove_keeps_others(cs: Seq<SessionContext>, i: int)
    requires
        0 <= i < cs.len(),
        ids_of(cs).no_duplicates(),
    ensures
        others_kept(cs, cs.remove(i), cs[i].session_id@),
{
    let r = cs.remove(i);
    let id = cs[i].session_id@;
    assert forall|c: SessionContext| #[trigger] r.contains(c) && c.session_id@ != id implies cs.contains(c) by {
        let k = choose|k: int| 0 <= k < r.len() && r[k] == c;
        if k < i {
            assert(cs[k] == c);
        } else {
            assert(cs[k + 1] == c);
        }
    }
    assert forall|c: SessionContext|
        #[trigger] cs.contains(c) && ids_of(r).contains(c.session_id@) && c.session_id@ != id implies r.contains(c) by {
        let k = choose|k: int| 0 <= k < cs.len() && cs[k] == c;
        assert(k != i);
        if k < i {
            assert(r[k] == c);
        } else {
            assert(r[k - 1] == c);
        }
    }
}

proof fn lemma_skip_push_keeps_others(cs: Seq<SessionContext>, k: int, fresh: SessionContext)
    requires
        0 <= k <= cs.len(),
        ids_of(cs).no_duplicates(),
        !ids_of(cs).contains(fresh.session_id@),
    ensures
        others_kept(cs, cs.skip(k).push(fresh), fresh.session_id@),
{
    let n = cs.skip(k).push(fresh);
    let id = fresh.session_id@;
    assert forall|c: SessionContext| #[trigger] n.contains(c) && c.session_id@ != id implies cs.contains(c) by {
        let j = choose|j: int| 0 <= j < n.len() && n[j] == c;
        assert(j < n.len() - 1);
        assert(cs[k + j] == c);
    }
    assert forall|c: SessionContext|
        #[trigger] cs.contains(c) && ids_of(n).contains(c.session_id@) && c.session_id@ != id implies n.contains(c) by {
        let m = choose|m: int| 0 <= m < cs.len() && cs[m] == c;
        let j = choose|j: int| 0 <= j < ids_of(n).len() && ids_of(n)[j] == c.session_id@;
        assert(j < n.len() - 1);
        assert(ids_of(cs)[k + j] == ids_of(cs)[m]);
        assert(k + j == m);
        assert(n[j] == c);
    }
}

/// What opening a session did.
#[derive(Debug)]
pub struct SessionAdmission {
    /// The session's id, trimmed.
    pub session_id: String,
    /// Whether the session is new.
    pub created: bool,
    /// The sessions dropped to make room, least recently used first.
    pub evicted: Vec<String>,
}

proof fn lemma_filter_len_no_dup(s: Seq<Seq<char>>, id: Seq<char>)
    requires
        s.no_duplicates(),
    ensures
        s.contains(id) ==> without(s, id).len() == s.len() - 1,
        !s.contains(id) ==> without(s, id) == s,
        without(s, id).no_duplicates(),
        !without(s, id).contains(id),
        forall|x: Seq<char>| x != id ==> (without(s, id).contains(x) <==> s.contains(x)),
    decreases s.len(),
{
    reveal(Seq::filter);
    if s.len() == 0 {
        assert(without(s, id) =~= s);
    } else {
        let p = s.drop_last();
        assert(p.no_duplicates());
        lemma_filter_len_no_dup(p, id);
        assert(s =~= p.push(s.last()));
        if s.last() == id {
            assert(without(s, id) == without(p, id));
            assert(!p.contains(id)) by {
                if p.contains(id) {
                    let k = choose|k: int| 0 <= k < p.len() && p[k] == id;
                    assert(s[k] == s[s.len() - 1]);
                }
            }
        } else {
            assert(without(s, id) == without(p, id).push(s.last()));
            assert(!p.contains(s.last())) by {
                if p.contains(s.last()) {
                    let k = choose|k: int| 0 <= k < p.len() && p[k] == s.last();
                    assert(s[k] == s[s.len() - 1]);
                }
            }
            assert(!without(p, id).contains(s.last()));
            if !s.contains(id) {
                assert(!p.contains(id)) by {
                    if p.contains(id) {
                        let k = choose|k: int| 0 <= k < p.len() && p[k] == id;
                        assert(s[k] == id);
                    }
                }
            } else {
                assert(p.contains(id)) by {
                    let k = choose|k: int| 0 <= k < s.len() && s[k] == id;
                    assert(p[k] == id);
                }
            }
            assert forall|x: Seq<char>| x != id implies (without(s, id).contains(x) <==> s.contains(
                x,
            )) by {
                if s.contains(x) && x != s.last() {
                    let k = choose|k: int| 0 <= k < s.len() && s[k] == x;
                    assert(p[k] == x);
                }
                if without(s, id).contains(x) && x != s.last() {
                    assert(without(p, id).contains(x)) by {
                        let k = choose|k: int|
                            0 <= k < without(s, id).len() && without(s, id)[k] == x;
                        assert(without(p, id)[k] == x);
                    }
                    assert(p.contains(x));
                    let k = choose|k: int| 0 <= k < p.len() && p[k] == x;
                    assert(s[k] == x);
                }
                if x == s.last() {
                    assert(s[s.len() - 1] == x);
                    assert(without(s, id)[without(s, id).len() - 1] == x);
                }
            }
            assert(without(s, id).no_duplicates()) by {
                let w = without(s, id);
                let wp = without(p, id);
                assert forall|a: int, b: int| 0 <= a < b < w.len() implies w[a] != w[b] by {
                    if b == w.len() - 1 {
                        assert(w[b] == s.last());
                        assert(w[a] == wp[a]);
                        assert(wp.contains(wp[a]));
                    } else {
                        assert(w[a] == wp[a] && w[b] == wp[b]);
                    }
                }
            }
        }
    }
}

impl SessionService {
    pub closed spec fn wf(self) -> bool {
        &&& self@.max_sessions >= 1
        &&& self@.order.no_duplicates()
        &&& self@.order.len() <= self@.max_sessions
    }

    /// A store of at most 100 sessions.
    pub fn new(repo_root: &str) -> (s: Self)
        ensures
            s.wf(),
            s@.repo_root == repo_root@,
            s@.max_sessions == DEFAULT_MAX_SESSIONS,
            s@.order.len() == 0,
    {
        Self::with_max_sessions(repo_root, DEFAULT_MAX_SESSIONS)
    }

    /// A store of at most `max_sessions` sessions (at least one).
    pub fn with_max_sessions(repo_root: &str, max_sessions: usize) -> (s: Self)
        ensures
            s.wf(),
            s@.repo_root == repo_root@,
            s@.max_sessions == if max_sessions < 1 {
                1
            } else {
                max_sessions
            },
            s@.order.len() == 0,
    {
        let s = SessionService {
            repo_root: owned(repo_root),
            max_sessions: if max_sessions < 1 {
                1
            } else {
                max_sessions
            },
            contexts: Vec::new(),
        };
        assert(s@.order =~= Seq::<Seq<char>>::empty());
        s
    }

    /// The directory of a session's files.
    pub fn session_dir(&self, session_id: &str) -> (p: String)
        ensures
            p@ == session_dir_of(self@.repo_root, session_id@),
    {
        let dir = join_path(self.repo_root.as_str(), ".sessions");
        join_path(dir.as_str(), session_id)
    }

    fn position(&self, id: &str) -> (r: Option<usize>)
        ensures
            match r {
                Some(i) => i < self@.order.len() && self@.order[i as int] == id@,
                None => !self@.order.contains(id@),
            },
    {
        let ghost o = self@.order;
        let mut i: usize = 0;
        while i < self.contexts.len()
            invariant
                0 <= i <= self.contexts.len(),
                o == self@.order,
                o.len() == self.contexts.len(),
                forall|k: int| 0 <= k < i ==> o[k] != id@,
            decreases self.contexts.len() - i,
        {
            assert(o[i as int] == self.contexts@[i as int].session_id@);
            if str_eq(self.contexts[i].session_id.as_str(), id) {
                return Some(i);
            }
            i += 1;
        }
        None
    }

    /// The state of the session with this id, if it is kept.
    pub fn context(&self, session_id: &str) -> (r: Option<&SessionContext>)
        ensures
            match r {
                Some(c) => self@.contexts.contains(*c) && c.session_id@ == session_id@,
                None => !self@.order.contains(session_id@),
            },
    {
        match self.position(session_id) {
            Some(i) => {
                assert(self@.contexts[i as int] == self.contexts@[i as int]);
                Some(&self.contexts[i])
            },
            None => None,
        }
    }

    /// The session with this id is open: it becomes the most recently used,
    /// its state as it was.
    pub fn get(&mut self, session_id: &str) -> (found: bool)
        requires
            old(self).wf(),
        ensures
            final(self).wf(),
            found == old(self)@.order.contains(session_id@),
            final(self)@.max_sessions == old(self)@.max_sessions,
            final(self)@.repo_root == old(self)@.repo_root,
            final(self)@.order == if found {
                touched(old(self)@.order, session_id@)
            } else {
                old(self)@.order
            },
            forall|c: SessionContext| #[trigger] final(self)@.contexts.contains(c) <==> old(self)@.contexts.contains(c),
            !found ==> final(self)@.contexts == old(self)@.contexts,
            found ==> final(self)@.contexts.last().session_id@ == session_id@,
    {
        let ghost o = self@.order;
        let ghost cs = self@.contexts;
        proof {
            lemma_filter_len_no_dup(o, session_id@);
        }
        let i = match self.position(session_id) {
            Some(i) => i,
            None => {
                return false;
            },
        };
        let c = self.contexts.remove(i);
        self.contexts.push(c);
        proof {
            assert(self@.contexts =~= cs.remove(i as int).push(cs[i as int]));
            lemma_touch_contains(cs, i as int);
            reveal(Seq::filter);
            assert(ids_of(cs.remove(i as int)) =~= o.remove(i as int));
            lemma_without_remove(o, session_id@, i as int);
            assert(self@.order =~= o.remove(i as int).push(session_id@));
            assert(self@.order.no_duplicates()) by {
                let t = self@.order;
                let w = without(o, session_id@);
                assert forall|a: int, b: int| 0 <= a < b < t.len() implies t[a] != t[b] by {
                    if b == t.len() - 1 {
                        assert(t[a] == w[a]);
                        assert(w.contains(w[a]));
                    } else {
                        assert(t[a] == w[a] && t[b] == w[b]);
                    }
                }
            }
        }
        true
    }

    /// Opens the session with the trimmed id: an open one becomes the most
    /// recently used with its state as it was; for a new one the least
    /// recently used sessions are dropped until there is room, and it is added
    /// as the most recent with a fresh state. No other session's state changes.
    pub fn get_or_create(&mut self, session_id: &str) -> (a: SessionAdmission)
        requires
            old(self).wf(),
        ensures
            final(self).wf(),
            a.session_id@ == trim_seq(session_id@),
            a.created == !old(self)@.order.contains(trim_seq(session_id@)),
            (final(self)@.order, texts_of(a.evicted@)) == admitted(
                old(self)@.order,
                trim_seq(session_id@),
                old(self)@.max_sessions as nat,
            ),
            final(self)@.max_sessions == old(self)@.max_sessions,
            final(self)@.repo_root == old(self)@.repo_root,
            others_kept(old(self)@.contexts, final(self)@.contexts, trim_seq(session_id@)),
            a.created ==> fresh_context(
                final(self)@.contexts.last(),
                trim_seq(session_id@),
                session_dir_of(old(self)@.repo_root, trim_seq(session_id@)),
                old(self)@.repo_root,
            ),
            !a.created ==> old(self)@.contexts.contains(final(self)@.contexts.last()),
    {
        let id = trim(session_id);
        let ghost o = self@.order;
        let ghost cs = self@.contexts;
        if self.get(id.as_str()) {
            proof {
                lemma_filter_len_no_dup(o, id@);
                let t = self@.contexts;
                assert(t.contains(t.last()));
                assert forall|c: SessionContext| #[trigger] cs.contains(c) && ids_of(t).contains(
                    c.session_id@,
                ) && c.session_id@ != id@ implies t.contains(c) by {}
            }
            return SessionAdmission { session_id: id, created: false, evicted: Vec::new() };
        }
        let mut evicted: Vec<String> = Vec::new();
        assert(cs.skip(0) =~= cs);
        assert(o.take(0) =~= Seq::<Seq<char>>::empty());
        assert(texts_of(evicted@) =~= Seq::<Seq<char>>::empty());
        let ghost k: int = if o.len() >= self.max_sessions {
            o.len() - self.max_sessions + 1
        } else {
            0
        };
        while self.contexts.len() >= self.max_sessions
            invariant
                self@.max_sessions >= 1,
                self@.order.no_duplicates(),
                self@.order.len() <= self@.max_sessions,
                self@.max_sessions == old(self)@.max_sessions,
                self@.repo_root == old(self)@.repo_root,
                o == old(self)@.order,
                cs == old(self)@.contexts,
                o == ids_of(cs),
                o.no_duplicates(),
                !o.contains(id@),
                k == (if o.len() >= self@.max_sessions {
                    o.len() - self@.max_sessions + 1
                } else {
                    0
                }),
                texts_of(evicted@).len() <= k,
                self@.contexts == cs.skip(texts_of(evicted@).len() as int),
                texts_of(evicted@) == o.take(texts_of(evicted@).len() as int),
                self.contexts.len() == self@.order.len(),
            decreases self.contexts.len(),
        {
            let ghost n = texts_of(evicted@).len() as int;
            let ghost before_c = self.contexts@;
            let oldest = self.contexts.remove(0);
            assert(oldest == cs[n]);
            assert(self.contexts@ =~= cs.skip(n + 1));
            let ghost before_e = texts_of(evicted@);
            evicted.push(oldest.session_id);
            proof {
                assert(texts_of(evicted@) =~= before_e.push(o[n]));
                assert(texts_of(evicted@) =~= o.take(n + 1));
                assert(self@.order =~= o.skip(n + 1));
                assert(self@.order.no_duplicates()) by {
                    assert forall|a: int, b: int| 0 <= a < b < self@.order.len() implies self@.order[a]
                        != self@.order[b] by {
                        assert(self@.order[a] == o[n + 1 + a] && self@.order[b] == o[n + 1 + b]);
                    }
                }
            }
        }
        let dir = self.session_dir(id.as_str());
        let fresh = SessionContext::new(id.as_str(), dir.as_str(), self.repo_root.as_str());
        let ghost before = self@.contexts;
        let ghost kk = texts_of(evicted@).len() as int;
        self.contexts.push(fresh);
        proof {
            assert(self@.contexts =~= cs.skip(kk).push(fresh));
            assert(self@.order =~= o.skip(kk).push(id@));
            assert(ids_of(cs.skip(kk)) =~= o.skip(kk));
            lemma_skip_push_keeps_others(cs, kk, fresh);
            assert(self@.order.no_duplicates()) by {
                assert forall|a: int, b: int| 0 <= a < b < self@.order.len() implies self@.order[a]
                    != self@.order[b] by {
                    if b == self@.order.len() - 1 {
                        assert(self@.order[a] == o[kk + a]);
                        assert(o.contains(o[kk + a]));
                    } else {
                        assert(self@.order[a] == o[kk + a] && self@.order[b] == o[kk + b]);
                    }
                }
            }
        }
        SessionAdmission { session_id: id, created: true, evicted }
    }

    /// Replaces the todo list of a kept session (`None` when the session is
    /// not kept); no other session's state changes.
    pub fn update_todos(&mut self, session_id: &str, items: Vec<TodoItem>) -> (r: Option<
        Result<String, TodoError>,
    >)
        requires
            old(self).wf(),
        ensures
            final(self).wf(),
            final(self)@.order == old(self)@.order,
            final(self)@.max_sessions == old(self)@.max_sessions,
            final(self)@.repo_root == old(self)@.repo_root,
            others_kept(old(self)@.contexts, final(self)@.contexts, session_id@),
            match r {
                None => !old(self)@.order.contains(session_id@) && final(self)@.contexts == old(
                    self,
                )@.contexts,
                Some(outcome) => exists|i: int|
                    0 <= i < old(self)@.contexts.len() && old(self)@.order[i] == session_id@ && ({
                        let before = old(self)@.contexts[i];
                        let after = final(self)@.contexts[i];
                        &&& final(self)@.contexts == old(self)@.contexts.update(i, after)
                        &&& after.session_id == before.session_id
                        &&& after.session_dir == before.session_dir
                        &&& after.background == before.background
                        &&& after.runs == before.runs
                        &&& after.plans == before.plans
                        &&& after.hitl == before.hitl
                        &&& match outcome {
                            Ok(text) => validation(views(items@)) == Ok::<
                                Seq<TodoItemView>,
                                TodoErrorView,
                            >(after.todo@) && text@ == rendered(after.todo@),
                            Err(e) => validation(views(items@)) == Err::<
                                Seq<TodoItemView>,
                                TodoErrorView,
                            >(e@) && after.todo@ == before.todo@,
                        }
                    }),
            },
    {
        let ghost cs = self@.contexts;
        let i = match self.position(session_id) {
            Some(i) => i,
            None => {
                return None;
            },
        };
        let mut c = self.contexts.remove(i);
        assert(c == cs[i as int]);
        let outcome = c.todo.update(items);
        let ghost after = c;
        self.contexts.insert(i, c);
        proof {
            assert(self@.contexts =~= cs.update(i as int, after));
            assert(self@.order =~= ids_of(cs));
            let n = self@.contexts;
            assert forall|x: SessionContext| #[trigger] n.contains(x) && x.session_id@ != session_id@ implies cs.contains(x) by {
                let j = choose|j: int| 0 <= j < n.len() && n[j] == x;
                assert(j != i);
                assert(cs[j] == x);
            }
            assert forall|x: SessionContext|
                #[trigger] cs.contains(x) && ids_of(n).contains(x.session_id@) && x.session_id@ != session_id@ implies n.contains(x) by {
                let j = choose|j: int| 0 <= j < cs.len() && cs[j] == x;
                assert(j != i);
                assert(n[j] == x);
            }
        }
        Some(outcome)
    }

    /// Forgets a session and its state; says whether it was kept.
    pub fn delete(&mut self, session_id: &str) -> (was: bool)
        requires
            old(self).wf(),
        ensures
            final(self).wf(),
            was == old(self)@.order.contains(session_id@),
            final(self)@.order == without(old(self)@.order, session_id@),
            final(self)@.max_sessions == old(self)@.max_sessions,
            final(self)@.repo_root == old(self)@.repo_root,
            others_kept(old(self)@.contexts, final(self)@.contexts, session_id@),
    {
        let ghost o = self@.order;
        let ghost cs = self@.contexts;
        proof {
            lemma_filter_len_no_dup(o, session_id@);
        }
        match self.position(session_id) {
            Some(i) => {
                self.contexts.remove(i);
                proof {
                    reveal(Seq::filter);
                    assert(self@.contexts =~= cs.remove(i as int));
                    assert(self@.order =~= o.remove(i as int));
                    lemma_without_remove(o, session_id@, i as int);
                    lemma_remove_keeps_others(cs, i as int);
                }
                true
            },
            None => false,
        }
    }

    /// The ids of the sessions kept, least recently used first.
    pub fn session_ids(&self) -> (v: Vec<String>)
        ensures
            texts_of(v@) == self@.order,
    {
        let mut v: Vec<String> = Vec::new();
        let mut i: usize = 0;
        while i < self.contexts.len()
            invariant
                0 <= i <= self.contexts.len(),
                texts_of(v@) == self@.order.take(i as int),
            decreases self.contexts.len() - i,
        {
            let ghost before = texts_of(v@);
            v.push(owned(self.contexts[i].session_id.as_str()));
            assert(texts_of(v@) =~= self@.order.take(i + 1)) by {
                assert(texts_of(v@) =~= before.push(self.contexts@[i as int].session_id@));
            }
            i += 1;
        }
        assert(self@.order.take(self.contexts.len() as int) =~= self@.order);
        v
    }
}

/// Every store keeps at most as many sessions as its limit, which is at least
/// one, and no session twice.
pub proof fn lemma_store_bound(s: SessionService)
    requires
        s.wf(),
    ensures
        s@.max_sessions >= 1,
        s@.order.len() <= s@.max_sessions,
        s@.order.no_duplicates(),
{
}

proof fn lemma_without_remove(o: Seq<Seq<char>>, id: Seq<char>, i: int)
    requires
        o.no_duplicates(),
        0 <= i < o.len(),
        o[i] == id,
    ensures
        without(o, id) == o.remove(i),
    decreases o.len(),
{
    reveal(Seq::filter);
    let p = o.drop_last();
    assert(o =~= p.push(o.last()));
    if i == o.len() - 1 {
        lemma_filter_len_no_dup(p, id);
        assert(!p.contains(id)) by {
            if p.contains(id) {
                let k = choose|k: int| 0 <= k < p.len() && p[k] == id;
                assert(o[k] == o[i]);
            }
        }
        assert(without(o, id) == without(p, id));
        assert(o.remove(i) =~= p);
    } else {
        assert(p.no_duplicates());
        lemma_without_remove(p, id, i);
        assert(o.last() != id);
        assert(without(o, id) == without(p, id).push(o.last()));
        assert(o.remove(i) =~= p.remove(i).push(o.last()));
    }
}

/// Every operation keeps the sessions distinct and within the limit, and
/// a newly opened session is always kept, as the most recently used.
pub proof fn lemma_admitted_keeps_limit(order: Seq<Seq<char>>, id: Seq<char>, max: nat)
    requires
        max >= 1,
        order.no_duplicates(),
        order.len() <= max,
    ensures
        admitted(order, id, max).0.len() <= max,
        admitted(order, id, max).0.no_duplicates(),
        admitted(order, id, max).0.last() == id,
{
    lemma_filter_len_no_dup(order, id);
    if order.contains(id) {
        let t = touched(order, id);
        assert(t.no_duplicates()) by {
            assert forall|a: int, b: int| 0 <= a < b < t.len() implies t[a] != t[b] by {
                if b == t.len() - 1 {
                    assert(without(order, id).contains(t[a]));
                }
            }
        }
    } else {
        let k: int = if order.len() >= max {
            order.len() - max + 1
        } else {
            0
        };
        let r = order.skip(k).push(id);
        assert(r.no_duplicates()) by {
            assert forall|a: int, b: int| 0 <= a < b < r.len() implies r[a] != r[b] by {
                if b == r.len() - 1 {
                    assert(r[a] == order[k + a]);
                    assert(order.contains(order[k + a]));
                } else {
                    assert(r[a] == order[k + a] && r[b] == order[k + b]);
                }
            }
        }
    }
}

// ---------------------------------------------------------------------------
// Agent runs of a session
// ---------------------------------------------------------------------------

/// Which run of the agent is going on in a session, if any, and the number
/// the next run gets.
#[derive(Debug, Clone, Copy, PartialEq, Eq)]
pub struct RunGenerations {
    pub next: u64,
    pub active: Option<u64>,
}

impl RunGenerations {
    pub fn new() -> (g: Self)
        ensures
            g.next == 1,
            g.active is None,
    {
        RunGenerations { next: 1, active: None }
    }

    /// Starts a run: it gets the next number and becomes the active run.
    pub fn begin_agent_run(&mut self) -> (generation: u64)
        ensures
            generation == old(self).next,
            final(self).active == Some(generation),
            final(self).next == if old(self).next == u64::MAX {
                0
            } else {
                (old(self).next + 1) as u64
            },
    {
        let generation = self.next;
        self.next = if self.next == u64::MAX {
            0
        } else {
            self.next + 1
        };
        self.active = Some(generation);
        generation
    }

    /// Ends a run; only the active run's end clears it.
    pub fn end_agent_run(&mut self, generation: u64)
        ensures
            final(self).next == old(self).next,
            final(self).active == if old(self).active == Some(generation) {
                None
            } else {
                old(self).active
            },
    {
        if self.active == Some(generation) {
            self.active = None;
        }
    }

    pub fn active_run_generation(&self) -> (g: Option<u64>)
        ensures
            g == self.active,
    {
        self.active
    }
}

/// The messages of the steering inbox that belong to a run, by the run number
/// each carries; the rest are stale.
pub open spec fn steering_for(generations: Seq<Option<u64>>, generation: u64) -> Seq<int>
    decreases generations.len(),
{
    if generations.len() == 0 {
        Seq::empty()
    } else {
        let prev = steering_for(generations.drop_last(), generation);
        if generations.last() == Some(generation) {
            prev.push(generations.len() - 1)
        } else {
            prev
        }
    }
}

/// The positions of the steering messages of the run, and how many were
/// dropped as stale.
pub fn drain_steering_messages(generations: &Vec<Option<u64>>, generation: u64) -> (r: (
    Vec<usize>,
    usize,
))
    ensures
        r.0@.map_values(|i: usize| i as int) == steering_for(generations@, generation),
        r.1 + r.0@.len() == generations@.len(),
{
    let mut matched: Vec<usize> = Vec::new();
    let mut dropped: usize = 0;
    let mut i: usize = 0;
    while i < generations.len()
        invariant
            0 <= i <= generations.len(),
            matched@.map_values(|k: usize| k as int) == steering_for(
                generations@.take(i as int),
                generation,
            ),
            dropped + matched@.len() == i,
        decreases generations.len() - i,
    {
        assert(generations@.take(i + 1).drop_last() =~= generations@.take(i as int));
        assert(generations@.take(i + 1).last() == generations@[i as int]);
        if generations[i] == Some(generation) {
            let ghost before = matched@.map_values(|k: usize| k as int);
            matched.push(i);
            assert(matched@.map_values(|k: usize| k as int) =~= before.push(i as int));
        } else {
            dropped += 1;
        }
        i += 1;
    }
    assert(generations@.take(generations.len() as int) =~= generations@);
    (matched, dropped)
}

/// Steering sent to one run never reaches another: when every message of the
/// inbox carries the number of an earlier run, a later run drains none.
pub proof fn lemma_stale_steering_dropped(generations: Seq<Option<u64>>, first: u64, second: u64)
    requires
        first != second,
        forall|i: int| 0 <= i < generations.len() ==> generations[i] == Some(first),
    ensures
        steering_for(generations, second).len() == 0,
    decreases generations.len(),
{
    if generations.len() > 0 {
        lemma_stale_steering_dropped(generations.drop_last(), first, second);
        assert(generations.last() == Some(first));
    }
}

// ---------------------------------------------------------------------------
// Plans that teammates ask the lead to approve
// ---------------------------------------------------------------------------

/// A plan a teammate sent for approval.
#[derive(Debug, Clone)]
pub struct PlanRequest {
    pub request_id: String,
    pub from: String,
    pub status: String,
    pub content: String,
}

/// The answer to a plan, sent from the lead to the plan's sender as a
/// `plan_approval_response` message whose content is the feedback.
#[derive(Debug, Clone, PartialEq, Eq)]
pub struct PlanApprovalResponse {
    pub to: String,
    pub request_id: String,
    pub approve: bool,
    pub feedback: String,
}

impl PlanApprovalResponse {
    /// The sender of the response.
    pub fn sender(&self) -> (s: &'static str)
        ensures
            s@ == "lead"@,
    {
        "lead"
    }

    /// The type of the response message.
    pub fn message_type(&self) -> (s: &'static str)
        ensures
            s@ == "plan_approval_response"@,
    {
        "plan_approval_response"
    }
}

/// The plans received, by request id.
#[derive(Debug)]
pub struct PlanRequests {
    requests: Vec<PlanRequest>,
}

pub struct PlanView {
    pub request_id: Seq<char>,
    pub from: Seq<char>,
    pub status: Seq<char>,
    pub content: Seq<char>,
}

impl View for PlanRequest {
    type V = PlanView;

    open spec fn view(&self) -> PlanView {
        PlanView {
            request_id: self.request_id@,
            from: self.from@,
            status: self.status@,
            content: self.content@,
        }
    }
}

pub open spec fn plan_views(v: Seq<PlanRequest>) -> Seq<PlanView> {
    v.map_values(|p: PlanRequest| p@)
}

pub open spec fn plan_index(ps: Seq<PlanView>, id: Seq<char>) -> Option<int> {
    if exists|i: int| 0 <= i < ps.len() && ps[i].request_id == id {
        Some(choose|i: int| 0 <= i < ps.len() && ps[i].request_id == id)
    } else {
        None
    }
}

pub open spec fn plan_ids_unique(ps: Seq<PlanView>) -> bool {
    forall|i: int, j: int| 0 <= i < j < ps.len() ==> ps[i].request_id != ps[j].request_id
}

impl View for PlanRequests {
    type V = Seq<PlanView>;

    closed spec fn view(&self) -> Seq<PlanView> {
        plan_views(self.requests@)
    }
}

impl PlanRequests {
    /// No two plans share a request id.
    #[verifier::type_invariant]
    spec fn plans_unique(self) -> bool {
        plan_ids_unique(plan_views(self.requests@))
    }

    pub fn new() -> (p: Self)
        ensures
            p@.len() == 0,
    {
        let p = PlanRequests { requests: Vec::new() };
        assert(plan_views(p.requests@) =~= Seq::<PlanView>::empty());
        p
    }

    /// The plans received, in the order they came.
    pub fn requests(&self) -> (r: &Vec<PlanRequest>)
        ensures
            plan_views(r@) == self@,
    {
        &self.requests
    }

    fn find(&self, request_id: &str) -> (r: Option<usize>)
        ensures
            match r {
                Some(i) => plan_index(plan_views(self.requests@), request_id@) == Some(i as int)
                    && i < self.requests@.len(),
                None => plan_index(plan_views(self.requests@), request_id@) is None,
            },
    {
        proof {
            use_type_invariant(self);
        }
        let ghost ps = plan_views(self.requests@);
        let mut i: usize = 0;
        while i < self.requests.len()
            invariant
                0 <= i <= self.requests.len(),
                ps == plan_views(self.requests@),
                plan_ids_unique(ps),
                forall|k: int| 0 <= k < i ==> ps[k].request_id != request_id@,
            decreases self.requests.len() - i,
        {
            assert(ps[i as int] == self.requests@[i as int]@);
            if str_eq(self.requests[i].request_id.as_str(), request_id) {
                let ghost c = choose|k: int| 0 <= k < ps.len() && ps[k].request_id == request_id@;
                assert(c == i);
                return Some(i);
            }
            i += 1;
        }
        None
    }

    /// Records a plan request read from the lead's inbox, replacing an earlier
    /// one with the same id; a blank id is ignored.
    pub fn register(&mut self, request_id: &str, from: &str, content: &str)
        ensures
            trim_seq(request_id@).len() == 0 ==> final(self)@ == old(self)@,
            trim_seq(request_id@).len() > 0 ==> {
                let p = PlanView {
                    request_id: trim_seq(request_id@),
                    from: from@,
                    status: "pending"@,
                    content: content@,
                };
                match plan_index(old(self)@, trim_seq(request_id@)) {
                    Some(i) => final(self)@ == old(self)@.update(i, p),
                    None => final(self)@ == old(self)@.push(p),
                }
            },
    {
        proof {
            use_type_invariant(&*self);
        }
        let id = trim(request_id);
        if is_empty_text(id.as_str()) {
            return;
        }
        let ghost before = plan_views(self.requests@);
        let entry = PlanRequest {
            request_id: owned(id.as_str()),
            from: owned(from),
            status: owned("pending"),
            content: owned(content),
        };
        let ghost ev = entry@;
        let found = self.find(id.as_str());
        let mut v: Vec<PlanRequest> = Vec::new();
        std::mem::swap(&mut v, &mut self.requests);
        match found {
            Some(i) => {
                v.set(i, entry);
                proof {
                    assert(plan_views(v@) =~= before.update(i as int, ev));
                    let after = plan_views(v@);
                    assert forall|a: int, b: int| 0 <= a < b < after.len() implies after[a].request_id
                        != after[b].request_id by {
                        if a != i && b != i {
                            assert(before[a].request_id != before[b].request_id);
                        } else if a == i {
                            assert(before[a].request_id != before[b].request_id);
                        } else {
                            assert(before[a].request_id != before[b].request_id);
                        }
                    }
                }
            },
            None => {
                v.push(entry);
                proof {
                    assert(plan_views(v@) =~= before.push(ev));
                    let after = plan_views(v@);
                    assert forall|a: int, b: int| 0 <= a < b < after.len() implies after[a].request_id
                        != after[b].request_id by {
                        if b == before.len() {
                            assert(before[a].request_id != ev.request_id);
                        } else {
                            assert(before[a].request_id != before[b].request_id);
                        }
                    }
                }
            },
        }
        self.requests = v;
    }

    /// Approves or rejects a plan: the reply to the lead, and for a known plan
    /// the response that goes back to its sender.
    pub fn handle_plan_approval(&mut self, request_id: &str, approve: bool, feedback: &str) -> (r: (
        String,
        Option<PlanApprovalResponse>,
    ))
        ensures
            match plan_index(old(self)@, request_id@) {
                None => r.0@ == "Error: Unknown plan request_id '"@ + request_id@ + "'"@
                    && r.1 is None && final(self)@ == old(self)@,
                Some(i) => {
                    let p = old(self)@[i];
                    let status = if approve {
                        "approved"@
                    } else {
                        "rejected"@
                    };
                    &&& r.0@ == "Plan "@ + status + " for '"@ + p.from + "'"@
                    &&& r.1 matches Some(m) && m.to@ == p.from && m.request_id@ == request_id@
                        && m.approve == approve && m.feedback@ == feedback@
                    &&& final(self)@ == old(self)@.update(i, PlanView { status, ..p })
                },
            },
    {
        proof {
            use_type_invariant(&*self);
        }
        match self.find(request_id) {
            None => {
                let mut m = concat2("Error: Unknown plan request_id '", request_id);
                push_str(&mut m, "'");
                (m, None)
            },
            Some(i) => {
                let ghost before = plan_views(self.requests@);
                let status = if approve {
                    "approved"
                } else {
                    "rejected"
                };
                let from = owned(self.requests[i].from.as_str());
                let entry = PlanRequest {
                    request_id: owned(self.requests[i].request_id.as_str()),
                    from: owned(from.as_str()),
                    status: owned(status),
                    content: owned(self.requests[i].content.as_str()),
                };
                assert(before[i as int] == self.requests@[i as int]@);
                let ghost ev = entry@;
                let mut v: Vec<PlanRequest> = Vec::new();
                std::mem::swap(&mut v, &mut self.requests);
                v.set(i, entry);
                proof {
                    assert(plan_views(v@) =~= before.update(i as int, ev));
                    let after = plan_views(v@);
                    assert forall|a: int, b: int| 0 <= a < b < after.len() implies after[a].request_id
                        != after[b].request_id by {
                        assert(before[a].request_id != before[b].request_id);
                    }
                }
                self.requests = v;
                let mut m = concat2("Plan ", status);
                push_str(&mut m, " for '");
                push_str(&mut m, from.as_str());
                push_str(&mut m, "'");
                let response = PlanApprovalResponse {
                    to: from,
                    request_id: owned(request_id),
                    approve,
                    feedback: owned(feedback),
                };
                (m, Some(response))
            },
        }
    }
}

// ---------------------------------------------------------------------------
// Memory snapshots kept for the session's prompts
// ---------------------------------------------------------------------------

/// The memory snapshots a session took for its prompts, by user.
#[derive(Debug)]
pub struct SnapshotCache {
    snapshots: Vec<UserMemorySnapshot>,
}

impl View for SnapshotCache {
    type V = Seq<UserMemorySnapshot>;

    closed spec fn view(&self) -> Seq<UserMemorySnapshot> {
        self.snapshots@
    }
}

pub open spec fn snapshot_users(v: Seq<UserMemorySnapshot>) -> Seq<Seq<char>> {
    v.map_values(|s: UserMemorySnapshot| s.user_id@)
}

/// The snapshots after one is kept for its user: it takes the place of the
/// user's earlier snapshot, or comes last.
pub open spec fn snapshots_after_put(v: Seq<UserMemorySnapshot>, s: UserMemorySnapshot) -> Seq<
    UserMemorySnapshot,
> {
    let us = snapshot_users(v);
    if us.contains(s.user_id@) {
        v.update(us.index_of(s.user_id@), s)
    } else {
        v.push(s)
    }
}

/// What the cache gives back for a user is the snapshot last kept for them:
/// once a snapshot is kept, the cache holds it for its user and no other
/// snapshot of that user.
pub proof fn lemma_snapshot_read_after_write(before: Seq<UserMemorySnapshot>, s: UserMemorySnapshot)
    requires
        snapshot_users(before).no_duplicates(),
    ensures
        snapshot_users(snapshots_after_put(before, s)).contains(s.user_id@),
        forall|k: int|
            0 <= k < snapshots_after_put(before, s).len() && (#[trigger] snapshots_after_put(
                before,
                s,
            )[k]).user_id@ == s.user_id@ ==> snapshots_after_put(before, s)[k] == s,
{
    let us = snapshot_users(before);
    let after = snapshots_after_put(before, s);
    let u = s.user_id@;
    if us.contains(u) {
        let i = us.index_of(u);
        assert(us[i] == u);
        assert(snapshot_users(after)[i] == u);
        assert forall|k: int| 0 <= k < after.len() && (#[trigger] after[k]).user_id@ == u implies after[k]
            == s by {
            if k != i {
                assert(us[k] == u);
            }
        }
    } else {
        assert(snapshot_users(after)[before.len() as int] == u);
        assert forall|k: int| 0 <= k < after.len() && (#[trigger] after[k]).user_id@ == u implies after[k]
            == s by {
            if k < before.len() {
                assert(us[k] == u);
            }
        }
    }
}

impl SnapshotCache {
    /// No user has two snapshots.
    #[verifier::type_invariant]
    spec fn users_unique(self) -> bool {
        snapshot_users(self.snapshots@).no_duplicates()
    }

    pub fn new() -> (c: Self)
        ensures
            c@.len() == 0,
    {
        SnapshotCache { snapshots: Vec::new() }
    }

    /// The snapshots kept, one per user.
    pub fn snapshots(&self) -> (r: &Vec<UserMemorySnapshot>)
        ensures
            r@ == self@,
    {
        &self.snapshots
    }

    fn find(&self, user_id: &str) -> (r: Option<usize>)
        ensures
            match r {
                Some(i) => i < self.snapshots@.len() && self.snapshots@[i as int].user_id@
                    == user_id@,
                None => !snapshot_users(self.snapshots@).contains(user_id@),
            },
    {
        let mut i: usize = 0;
        while i < self.snapshots.len()
            invariant
                0 <= i <= self.snapshots.len(),
                forall|k: int| 0 <= k < i ==> self.snapshots@[k].user_id@ != user_id@,
            decreases self.snapshots.len() - i,
        {
            if str_eq(self.snapshots[i].user_id.as_str(), user_id) {
                return Some(i);
            }
            i += 1;
        }
        proof {
            if snapshot_users(self.snapshots@).contains(user_id@) {
                let k = choose|k: int|
                    0 <= k < snapshot_users(self.snapshots@).len() && snapshot_users(
                        self.snapshots@,
                    )[k] == user_id@;
                assert(self.snapshots@[k].user_id@ == user_id@);
            }
        }
        None
    }

    /// The snapshot kept for the user, if any.
    pub fn get_cached_snapshot(&self, user_id: &str) -> (r: Option<UserMemorySnapshot>)
        ensures
            match r {
                Some(s) => s.user_id@ == user_id@ && exists|i: int|
                    0 <= i < self@.len() && self@[i].user_id@ == user_id@
                        && self@[i].user_md@ == s.user_md@
                        && self@[i].memory_md@ == s.memory_md@,
                None => !snapshot_users(self@).contains(user_id@),
            },
    {
        match self.find(user_id) {
            Some(i) => {
                let s = &self.snapshots[i];
                assert(self@[i as int] == *s);
                Some(
                    UserMemorySnapshot {
                        user_id: owned(s.user_id.as_str()),
                        user_md: owned(s.user_md.as_str()),
                        memory_md: owned(s.memory_md.as_str()),
                    },
                )
            },
            None => None,
        }
    }

    /// Keeps a snapshot for its user, replacing the one kept before.
    pub fn put_cached_snapshot(&mut self, snapshot: UserMemorySnapshot)
        ensures
            snapshot_users(final(self)@).no_duplicates(),
            match old(self).find_spec(snapshot.user_id@) {
                Some(i) => final(self)@ == old(self)@.update(i, snapshot),
                None => final(self)@ == old(self)@.push(snapshot),
            },
            final(self)@ == snapshots_after_put(old(self)@, snapshot),
    {
        proof {
            use_type_invariant(&*self);
        }
        let ghost before = self.snapshots@;
        let ghost u = snapshot.user_id@;
        let found = self.find(snapshot.user_id.as_str());
        let mut v: Vec<UserMemorySnapshot> = Vec::new();
        std::mem::swap(&mut v, &mut self.snapshots);
        match found {
            Some(i) => {
                proof {
                    let us = snapshot_users(before);
                    assert(us[i as int] == u);
                    assert forall|k: int| 0 <= k < before.len() && before[k].user_id@ == u implies k
                        == i by {
                        assert(us[k] == us[i as int]);
                    }
                }
                v.set(i, snapshot);
                proof {
                    let us = snapshot_users(before);
                    let after = snapshot_users(v@);
                    assert(after =~= us.update(i as int, u));
                    assert(after.no_duplicates()) by {
                        assert forall|a: int, b: int| 0 <= a < b < after.len() implies after[a]
                            != after[b] by {
                            assert(us[a] != us[b]);
                        }
                    }
                }
            },
            None => {
                v.push(snapshot);
                proof {
                    let us = snapshot_users(before);
                    let after = snapshot_users(v@);
                    assert(after =~= us.push(u));
                    assert(after.no_duplicates()) by {
                        assert forall|a: int, b: int| 0 <= a < b < after.len() implies after[a]
                            != after[b] by {
                            if b == us.len() {
                                assert(us.contains(us[a]));
                            } else {
                                assert(us[a] != us[b]);
                            }
                        }
                    }
                }
            },
        }
        self.snapshots = v;
    }

    /// Where the snapshot of a user is kept, if it is.
    pub open spec fn find_spec(self, user_id: Seq<char>) -> Option<int> {
        if snapshot_users(self@).contains(user_id) {
            Some(snapshot_users(self@).index_of(user_id))
        } else {
            None
        }
    }

    /// Forgets the user's snapshot; says whether one was kept.
    pub fn clear_cached_snapshot(&mut self, user_id: &str) -> (was: bool)
        ensures
            snapshot_users(final(self)@).no_duplicates(),
            was == snapshot_users(old(self)@).contains(user_id@),
            !snapshot_users(final(self)@).contains(user_id@),
            match old(self).find_spec(user_id@) {
                Some(i) => final(self)@ == old(self)@.remove(i),
                None => final(self)@ == old(self)@,
            },
    {
        proof {
            use_type_invariant(&*self);
        }
        let ghost before = self.snapshots@;
        match self.find(user_id) {
            Some(i) => {
                proof {
                    let us = snapshot_users(before);
                    assert(us[i as int] == user_id@);
                    assert forall|k: int| 0 <= k < before.len() && before[k].user_id@ == user_id@ implies k
                        == i by {
                        assert(us[k] == us[i as int]);
                    }
                }
                let mut v: Vec<UserMemorySnapshot> = Vec::new();
                std::mem::swap(&mut v, &mut self.snapshots);
                v.remove(i);
                proof {
                    let us = snapshot_users(before);
                    let after = snapshot_users(v@);
                    assert(after =~= us.remove(i as int));
                    assert(after.no_duplicates()) by {
                        assert forall|a: int, b: int| 0 <= a < b < after.len() implies after[a]
                            != after[b] by {
                            if a < i && b < i {
                                assert(us[a] != us[b]);
                            } else if a < i {
                                assert(us[a] != us[b + 1]);
                            } else {
                                assert(us[a + 1] != us[b + 1]);
                            }
                        }
                    }
                    assert(!after.contains(user_id@)) by {
                        if after.contains(user_id@) {
                            let k = choose|k: int| 0 <= k < after.len() && after[k] == user_id@;
                            if k < i {
                                assert(us[k] == us[i as int]);
                            } else {
                                assert(us[k + 1] == us[i as int]);
                            }
                        }
                    }
                    assert(us.index_of(user_id@) == i) by {
                        assert(us[i as int] == user_id@);
                    }
                }
                self.snapshots = v;
                true
            },
            None => false,
        }
    }
}

// ---------------------------------------------------------------------------
// Confirmation requests waiting for an answer
// ---------------------------------------------------------------------------

/// The confirmation requests of a session that wait for an answer.
#[derive(Debug)]
pub struct HitlRegistry {
    pub pending: Vec<HitlDecisionRequest>,
}

pub open spec fn approval_ids(v: Seq<HitlDecisionRequest>) -> Seq<Seq<char>> {
    v.map_values(|r: HitlDecisionRequest| r.approval_id@)
}

impl HitlRegistry {
    pub fn new() -> (h: Self)
        ensures
            h.pending@.len() == 0,
    {
        HitlRegistry { pending: Vec::new() }
    }

    fn find(&self, approval_id: &str) -> (r: Option<usize>)
        ensures
            match r {
                Some(i) => i < self.pending@.len() && self.pending@[i as int].approval_id@
                    == approval_id@,
                None => !approval_ids(self.pending@).contains(approval_id@),
            },
    {
        let mut i: usize = 0;
        while i < self.pending.len()
            invariant
                0 <= i <= self.pending.len(),
                forall|k: int| 0 <= k < i ==> self.pending@[k].approval_id@ != approval_id@,
            decreases self.pending.len() - i,
        {
            if str_eq(self.pending[i].approval_id.as_str(), approval_id) {
                return Some(i);
            }
            i += 1;
        }
        proof {
            if approval_ids(self.pending@).contains(approval_id@) {
                let k = choose|k: int|
                    0 <= k < approval_ids(self.pending@).len() && approval_ids(self.pending@)[k]
                        == approval_id@;
                assert(self.pending@[k].approval_id@ == approval_id@);
            }
        }
        None
    }

    /// Keeps a request until it is answered, replacing one with the same id.
    pub fn register_hitl_request(&mut self, request: HitlDecisionRequest)
        ensures
            approval_ids(final(self).pending@).contains(request.approval_id@),
            forall|k: int|
                0 <= k < old(self).pending@.len() && old(self).pending@[k].approval_id@
                    != request.approval_id@ ==> final(self).pending@.contains(
                    #[trigger] old(self).pending@[k],
                ),
    {
        let ghost before = self.pending@;
        let ghost q = request;
        match self.find(request.approval_id.as_str()) {
            Some(i) => {
                self.pending.set(i, request);
                proof {
                    assert(approval_ids(self.pending@)[i as int] == q.approval_id@);
                    assert forall|k: int|
                        0 <= k < before.len() && before[k].approval_id@ != q.approval_id@ implies self.pending@.contains(
                        #[trigger] before[k],
                    ) by {
                        assert(k != i);
                        assert(self.pending@[k] == before[k]);
                    }
                }
            },
            None => {
                self.pending.push(request);
                proof {
                    assert(approval_ids(self.pending@)[before.len() as int] == q.approval_id@);
                    assert forall|k: int|
                        0 <= k < before.len() && before[k].approval_id@ != q.approval_id@ implies self.pending@.contains(
                        #[trigger] before[k],
                    ) by {
                        assert(self.pending@[k] == before[k]);
                    }
                }
            },
        }
    }

    /// Takes the answered request out; says whether it was waiting.
    pub fn resolve_hitl(&mut self, approval_id: &str) -> (was: bool)
        ensures
            was == approval_ids(old(self).pending@).contains(approval_id@),
            forall|k: int|
                0 <= k < old(self).pending@.len() && old(self).pending@[k].approval_id@
                    != approval_id@ ==> final(self).pending@.contains(#[trigger] old(self).pending@[k]),
            forall|k: int|
                0 <= k < final(self).pending@.len() ==> old(self).pending@.contains(
                    #[trigger] final(self).pending@[k],
                ),
            final(self).pending@.len() + (if was {
                1int
            } else {
                0
            }) == old(self).pending@.len(),
    {
        let ghost before = self.pending@;
        match self.find(approval_id) {
            Some(i) => {
                self.pending.remove(i);
                proof {
                    assert(self.pending@ =~= before.remove(i as int));
                    assert forall|k: int|
                        0 <= k < before.len() && before[k].approval_id@ != approval_id@ implies self.pending@.contains(
                        #[trigger] before[k],
                    ) by {
                        if k < i {
                            assert(self.pending@[k] == before[k]);
                        } else {
                            assert(k != i);
                            assert(self.pending@[k - 1] == before[k]);
                        }
                    }
                    assert forall|k: int| 0 <= k < self.pending@.len() implies before.contains(
                        #[trigger] self.pending@[k],
                    ) by {
                        if k < i {
                            assert(before[k] == self.pending@[k]);
                        } else {
                            assert(before[k + 1] == self.pending@[k]);
                        }
                    }
                    assert(approval_ids(before)[i as int] == approval_id@);
                }
                true
            },
            None => {
                proof {
                    assert forall|k: int| 0 <= k < self.pending@.len() implies before.contains(
                        #[trigger] self.pending@[k],
                    ) by {
                        assert(before[k] == self.pending@[k]);
                    }
                }
                false
            },
        }
    }

    /// The waiting requests, oldest first (in the order they came among
    /// requests made at the same time).
    pub fn list_pending_hitl(&self) -> (v: Vec<HitlDecisionRequest>)
        ensures
            v@.len() == self.pending@.len(),
            forall|a: int, b: int|
                0 <= a < b < v@.len() ==> (#[trigger] v@[a]).created_at_ms <= (
                #[trigger] v@[b]).created_at_ms,
            forall|k: int| 0 <= k < v@.len() ==> self.pending@.contains(#[trigger] v@[k]),
    {
        let mut v: Vec<HitlDecisionRequest> = Vec::new();
        let mut i: usize = 0;
        while i < self.pending.len()
            invariant
                0 <= i <= self.pending.len(),
                v@.len() == i,
                forall|a: int, b: int|
                    0 <= a < b < v@.len() ==> (#[trigger] v@[a]).created_at_ms <= (
                    #[trigger] v@[b]).created_at_ms,
                forall|k: int| 0 <= k < v@.len() ==> self.pending@.contains(#[trigger] v@[k]),
            decreases self.pending.len() - i,
        {
            let item = self.pending[i].clone();
            let mut pos: usize = v.len();
            while pos > 0 && v[pos - 1].created_at_ms > item.created_at_ms
                invariant
                    0 <= pos <= v@.len(),
                    forall|a: int| pos <= a < v@.len() ==> v@[a].created_at_ms > item.created_at_ms,
                decreases pos,
            {
                pos -= 1;
            }
            let ghost before = v@;
            v.insert(pos, item);
            proof {
                assert(v@ =~= before.insert(pos as int, item));
                assert forall|a: int, b: int| 0 <= a < b < v@.len() implies (#[trigger] v@[a]).created_at_ms
                    <= (#[trigger] v@[b]).created_at_ms by {
                    if b < pos {
                        assert(v@[a] == before[a] && v@[b] == before[b]);
                    } else if b == pos {
                        assert(v@[a] == before[a]);
                        if pos > 0 {
                            assert(before[a].created_at_ms <= before[pos - 1].created_at_ms);
                        }
                    } else if a < pos {
                        assert(v@[a] == before[a] && v@[b] == before[b - 1]);
                    } else if a == pos {
                        assert(v@[b] == before[b - 1]);
                    } else {
                        assert(v@[a] == before[a - 1] && v@[b] == before[b - 1]);
                    }
                }
                assert forall|k: int| 0 <= k < v@.len() implies self.pending@.contains(#[trigger] v@[k]) by {
                    if k < pos {
                        assert(v@[k] == before[k]);
                    } else if k > pos {
                        assert(v@[k] == before[k - 1]);
                    } else {
                        assert(self.pending@[i as int] == item);
                    }
                }
            }
            i += 1;
        }
        v
    }
}

} // verus!

verus! {

/// The name and description of each session tool, in order.
pub open spec fn session_tool_entries() -> Seq<(Seq<char>, Seq<char>)> {
    seq![
        ("TodoWrite"@, "Update the in-session todo checklist. Max 20 items, only one in_progress at a time."@),
        ("background_run"@, "Run a shell command in the background. Returns a task ID immediately."@),
        ("check_background"@, "Check status of a background task, or list all background tasks."@),
        ("spawn_teammate"@, "Spawn an autonomous teammate thread to work on a task."@),
        ("list_teammates"@, "List all teammates and their current status."@),
        ("send_message"@, "Send a message to a teammate or session inbox."@),
        ("read_inbox"@, "Read and clear messages from the lead agent's inbox."@),
        ("broadcast"@, "Broadcast a message to all known inboxes in the current session."@),
        ("claim_task"@, "Claim a pending task from the board for the lead agent."@),
        ("shutdown_request"@, "Request a teammate to shut down gracefully."@),
        ("plan_approval"@, "Approve or reject a plan submitted by a teammate."@),
    ]
}

/// The parameters of the session tools, in order: name, schema text, whether required.
pub open spec fn session_tool_parameters() -> Seq<Seq<(Seq<char>, Seq<char>, bool)>> {
    seq![
        seq![("items"@, r#"{"type":"array","items":{"type":"object","properties":{"content":{"type":"string"},"status":{"type":"string","enum":["pending","in_progress","completed"]},"activeForm":{"type":"string"}},"required":["content","status","activeForm"]}}"#@, true)],
        seq![("command"@, r#"{"type":"string"}"#@, true), ("timeout"@, r#"{"type":"integer","description":"Timeout in seconds (default 120)"}"#@, false)],
        seq![("task_id"@, r#"{"type":"string"}"#@, false)],
        seq![("name"@, r#"{"type":"string"}"#@, true), ("role"@, r#"{"type":"string"}"#@, true), ("prompt"@, r#"{"type":"string"}"#@, true)],
        Seq::empty(),
        seq![("to"@, r#"{"type":"string"}"#@, true), ("content"@, r#"{"type":"string"}"#@, true), ("msg_type"@, r#"{"type":"string","enum":["message","broadcast","shutdown_request"]}"#@, false)],
        Seq::empty(),
        seq![("content"@, r#"{"type":"string"}"#@, true)],
        seq![("task_id"@, r#"{"type":"integer"}"#@, true)],
        seq![("teammate"@, r#"{"type":"string"}"#@, true)],
        seq![("request_id"@, r#"{"type":"string"}"#@, true), ("approve"@, r#"{"type":"boolean"}"#@, true), ("feedback"@, r#"{"type":"string"}"#@, false)],
    ]
}

impl SessionService {
    /// The tools of a session: the todo list, background commands, teammates,
    /// inboxes, the task board and plan approval, in this order.
    pub fn session_tool_schemas() -> (r: Vec<ToolSchema>)
        ensures
            schema_entries_of(r@) == session_tool_entries(),
            schema_parameters(r@) == session_tool_parameters(),
    {
        let mut r: Vec<ToolSchema> = Vec::new();
        r.push(tool_schema(
            "TodoWrite",
            "Update the in-session todo checklist. Max 20 items, only one in_progress at a time.",
            vec![tool_parameter(
                "items",
                r#"{"type":"array","items":{"type":"object","properties":{"content":{"type":"string"},"status":{"type":"string","enum":["pending","in_progress","completed"]},"activeForm":{"type":"string"}},"required":["content","status","activeForm"]}}"#,
                true,
            )],
        ));
        r.push(tool_schema(
            "background_run",
            "Run a shell command in the background. Returns a task ID immediately.",
            vec![
                tool_parameter("command", r#"{"type":"string"}"#, true),
                tool_parameter(
                    "timeout",
                    r#"{"type":"integer","description":"Timeout in seconds (default 120)"}"#,
                    false,
                ),
            ],
        ));
        r.push(tool_schema(
            "check_background",
            "Check status of a background task, or list all background tasks.",
            vec![tool_parameter("task_id", r#"{"type":"string"}"#, false)],
        ));
        r.push(tool_schema(
            "spawn_teammate",
            "Spawn an autonomous teammate thread to work on a task.",
            vec![
                tool_parameter("name", r#"{"type":"string"}"#, true),
                tool_parameter("role", r#"{"type":"string"}"#, true),
                tool_parameter("prompt", r#"{"type":"string"}"#, true),
            ],
        ));
        r.push(tool_schema(
            "list_teammates",
            "List all teammates and their current status.",
            Vec::new(),
        ));
        r.push(tool_schema(
            "send_message",
            "Send a message to a teammate or session inbox.",
            vec![
                tool_parameter("to", r#"{"type":"string"}"#, true),
                tool_parameter("content", r#"{"type":"string"}"#, true),
                tool_parameter(
                    "msg_type",
                    r#"{"type":"string","enum":["message","broadcast","shutdown_request"]}"#,
                    false,
                ),
            ],
        ));
        r.push(tool_schema(
            "read_inbox",
            "Read and clear messages from the lead agent's inbox.",
            Vec::new(),
        ));
        r.push(tool_schema(
            "broadcast",
            "Broadcast a message to all known inboxes in the current session.",
            vec![tool_parameter("content", r#"{"type":"string"}"#, true)],
        ));
        r.push(tool_schema(
            "claim_task",
            "Claim a pending task from the board for the lead agent.",
            vec![tool_parameter("task_id", r#"{"type":"integer"}"#, true)],
        ));
        r.push(tool_schema(
            "shutdown_request",
            "Request a teammate to shut down gracefully.",
            vec![tool_parameter("teammate", r#"{"type":"string"}"#, true)],
        ));
        r.push(tool_schema(
            "plan_approval",
            "Approve or reject a plan submitted by a teammate.",
            vec![
                tool_parameter("request_id", r#"{"type":"string"}"#, true),
                tool_parameter("approve", r#"{"type":"boolean"}"#, true),
                tool_parameter("feedback", r#"{"type":"string"}"#, false),
            ],
        ));
        assert(schema_parameters(r@) =~~= session_tool_parameters());
    assert(schema_entries_of(r@) =~= session_tool_entries());
        r
    }
}

} // verus!

verus! {

// ---------------------------------------------------------------------------
// Reading the arguments of a session tool call
// ---------------------------------------------------------------------------

/// A session tool call with its arguments read; `Reply` holds the answer to a
/// call whose arguments do not do. The todo items of `TodoWrite` are read
/// where the list is kept.
#[derive(Debug, Clone, PartialEq, Eq)]
pub enum SessionToolCall {
    TodoWrite,
    BackgroundRun { command: String, timeout_secs: u64 },
    CheckBackground { task_id: Option<String> },
    SpawnTeammate { name: String, role: String, prompt: String },
    ListTeammates,
    SendMessage { to: String, content: String, msg_type: String },
    ReadInbox,
    Broadcast { content: String },
    ClaimTask { task_id: u64 },
    ShutdownRequest { teammate: String },
    PlanApproval { request_id: String, approve: bool, feedback: String },
    Reply(String),
}

/// The timeout of a background command: the positive `timeout` given, else
/// 120 seconds.
pub open spec fn background_timeout(arguments: Seq<char>) -> u64 {
    match json_u64_field(arguments, "timeout"@) {
        Some(t) => if t > 0 {
            t
        } else {
            120
        },
        None => 120,
    }
}

/// The answer to a call that lacks a non-blank string argument.
pub open spec fn lacks_text(tool: Seq<char>, key: Seq<char>) -> Seq<char> {
    "Error: "@ + tool + " requires a non-empty "@ + key
}

fn lacks(tool: &str, middle: &str, key: &str) -> (r: String)
    ensures
        r@ == "Error: "@ + tool@ + middle@ + key@,
{
    let mut r = owned("Error: ");
    push_str(&mut r, tool);
    push_str(&mut r, middle);
    push_str(&mut r, key);
    r
}

/// Reads a session tool call; `None` for a name that is not a session tool.
pub fn session_tool_call(name: &str, arguments: &str) -> (r: Option<SessionToolCall>)
    ensures
        name@ == "TodoWrite"@ ==> r == Some(SessionToolCall::TodoWrite),
        name@ == "background_run"@ ==> (r matches Some(
            SessionToolCall::BackgroundRun { command, timeout_secs },
        ) && command@ == (match nonblank_argument(arguments@, "command"@) {
            Some(c) => c,
            None => Seq::empty(),
        }) && timeout_secs == background_timeout(arguments@)),
        name@ == "check_background"@ ==> (r matches Some(SessionToolCall::CheckBackground { task_id })
            && opt_view(task_id) == nonblank_argument(arguments@, "task_id"@)),
        name@ == "spawn_teammate"@ ==> match (
            nonblank_argument(arguments@, "name"@),
            nonblank_argument(arguments@, "role"@),
            nonblank_argument(arguments@, "prompt"@),
        ) {
            (Some(n), Some(ro), Some(p)) => (r matches Some(
                SessionToolCall::SpawnTeammate { name, role, prompt },
            ) && name@ == n && role@ == ro && prompt@ == p),
            (None, _, _) => (r matches Some(SessionToolCall::Reply(t)) && t@ == lacks_text(
                "spawn_teammate"@,
                "name"@,
            )),
            (Some(_), None, _) => (r matches Some(SessionToolCall::Reply(t)) && t@ == lacks_text(
                "spawn_teammate"@,
                "role"@,
            )),
            (Some(_), Some(_), None) => (r matches Some(SessionToolCall::Reply(t)) && t@
                == lacks_text("spawn_teammate"@, "prompt"@)),
        },
        name@ == "list_teammates"@ ==> r == Some(SessionToolCall::ListTeammates),
        name@ == "send_message"@ ==> match (
            nonblank_argument(arguments@, "to"@),
            nonblank_argument(arguments@, "content"@),
        ) {
            (Some(t), Some(c)) => (r matches Some(
                SessionToolCall::SendMessage { to, content, msg_type },
            ) && to@ == t && content@ == c && msg_type@ == (match nonblank_argument(
                arguments@,
                "msg_type"@,
            ) {
                Some(m) => m,
                None => "message"@,
            })),
            (None, _) => (r matches Some(SessionToolCall::Reply(t)) && t@ == lacks_text(
                "send_message"@,
                "to"@,
            )),
            (Some(_), None) => (r matches Some(SessionToolCall::Reply(t)) && t@ == lacks_text(
                "send_message"@,
                "content"@,
            )),
        },
        name@ == "read_inbox"@ ==> r == Some(SessionToolCall::ReadInbox),
        name@ == "broadcast"@ ==> match nonblank_argument(arguments@, "content"@) {
            Some(c) => (r matches Some(SessionToolCall::Broadcast { content }) && content@ == c),
            None => (r matches Some(SessionToolCall::Reply(t)) && t@ == lacks_text(
                "broadcast"@,
                "content"@,
            )),
        },
        name@ == "claim_task"@ ==> match json_u64_field(arguments@, "task_id"@) {
            Some(id) => r == Some(SessionToolCall::ClaimTask { task_id: id }),
            None => (r matches Some(SessionToolCall::Reply(t)) && t@
                == "Error: claim_task requires integer task_id"@),
        },
        name@ == "shutdown_request"@ ==> match nonblank_argument(arguments@, "teammate"@) {
            Some(m) => (r matches Some(SessionToolCall::ShutdownRequest { teammate })
                && teammate@ == m),
            None => (r matches Some(SessionToolCall::Reply(t)) && t@ == lacks_text(
                "shutdown_request"@,
                "teammate"@,
            )),
        },
        name@ == "plan_approval"@ ==> match nonblank_argument(arguments@, "request_id"@) {
            Some(id) => match json_bool_field(arguments@, "approve"@) {
                Some(a) => (r matches Some(
                    SessionToolCall::PlanApproval { request_id, approve, feedback },
                ) && request_id@ == id && approve == a && feedback@ == (match nonblank_argument(
                    arguments@,
                    "feedback"@,
                ) {
                    Some(f) => f,
                    None => Seq::empty(),
                })),
                None => (r matches Some(SessionToolCall::Reply(t)) && t@
                    == "Error: plan_approval requires boolean approve"@),
            },
            None => (r matches Some(SessionToolCall::Reply(t)) && t@ == lacks_text(
                "plan_approval"@,
                "request_id"@,
            )),
        },
        !(name@ == "TodoWrite"@ || name@ == "background_run"@ || name@ == "check_background"@
            || name@ == "spawn_teammate"@ || name@ == "list_teammates"@ || name@
            == "send_message"@ || name@ == "read_inbox"@ || name@ == "broadcast"@ || name@
            == "claim_task"@ || name@ == "shutdown_request"@ || name@ == "plan_approval"@)
            ==> r is None,
{
    proof {
        reveal_strlit("TodoWrite");
        reveal_strlit("background_run");
        reveal_strlit("check_background");
        reveal_strlit("spawn_teammate");
        reveal_strlit("list_teammates");
        reveal_strlit("send_message");
        reveal_strlit("read_inbox");
        reveal_strlit("broadcast");
        reveal_strlit("claim_task");
        reveal_strlit("shutdown_request");
        reveal_strlit("plan_approval");
        assert("TodoWrite"@.len() == 9);
        assert("background_run"@.len() == 14);
        assert("check_background"@.len() == 16);
        assert("spawn_teammate"@.len() == 14);
        assert("list_teammates"@.len() == 14);
        assert("send_message"@.len() == 12);
        assert("read_inbox"@.len() == 10);
        assert("broadcast"@.len() == 9);
        assert("claim_task"@.len() == 10);
        assert("shutdown_request"@.len() == 16);
        assert("plan_approval"@.len() == 13);
        assert("TodoWrite"@[0] != "broadcast"@[0]);
        assert("background_run"@[0] != "spawn_teammate"@[0]);
        assert("background_run"@[0] != "list_teammates"@[0]);
        assert("spawn_teammate"@[0] != "list_teammates"@[0]);
        assert("check_background"@[0] != "shutdown_request"@[0]);
        assert("read_inbox"@[0] != "claim_task"@[0]);
    }
    if str_eq(name, "TodoWrite") {
        Some(SessionToolCall::TodoWrite)
    } else if str_eq(name, "background_run") {
        let command = match nonblank_arg(arguments, "command") {
            Some(c) => c,
            None => String::new(),
        };
        let timeout_secs = match json_u64_at(arguments, "timeout") {
            Some(t) => if t > 0 {
                t
            } else {
                120
            },
            None => 120,
        };
        Some(SessionToolCall::BackgroundRun { command, timeout_secs })
    } else if str_eq(name, "check_background") {
        Some(SessionToolCall::CheckBackground { task_id: nonblank_arg(arguments, "task_id") })
    } else if str_eq(name, "spawn_teammate") {
        let teammate = nonblank_arg(arguments, "name");
        let role = nonblank_arg(arguments, "role");
        let prompt = nonblank_arg(arguments, "prompt");
        let call = match (teammate, role, prompt) {
            (Some(name), Some(role), Some(prompt)) => SessionToolCall::SpawnTeammate {
                name,
                role,
                prompt,
            },
            (None, _, _) => SessionToolCall::Reply(
                lacks("spawn_teammate", " requires a non-empty ", "name"),
            ),
            (Some(_), None, _) => SessionToolCall::Reply(
                lacks("spawn_teammate", " requires a non-empty ", "role"),
            ),
            (Some(_), Some(_), None) => SessionToolCall::Reply(
                lacks("spawn_teammate", " requires a non-empty ", "prompt"),
            ),
        };
        Some(call)
    } else if str_eq(name, "list_teammates") {
        Some(SessionToolCall::ListTeammates)
    } else if str_eq(name, "send_message") {
        let to = nonblank_arg(arguments, "to");
        let content = nonblank_arg(arguments, "content");
        let call = match (to, content) {
            (Some(to), Some(content)) => {
                let msg_type = match nonblank_arg(arguments, "msg_type") {
                    Some(m) => m,
                    None => owned("message"),
                };
                SessionToolCall::SendMessage { to, content, msg_type }
            },
            (None, _) => SessionToolCall::Reply(lacks("send_message", " requires a non-empty ", "to")),
            (Some(_), None) => SessionToolCall::Reply(
                lacks("send_message", " requires a non-empty ", "content"),
            ),
        };
        Some(call)
    } else if str_eq(name, "read_inbox") {
        Some(SessionToolCall::ReadInbox)
    } else if str_eq(name, "broadcast") {
        let call = match nonblank_arg(arguments, "content") {
            Some(content) => SessionToolCall::Broadcast { content },
            None => SessionToolCall::Reply(lacks("broadcast", " requires a non-empty ", "content")),
        };
        Some(call)
    } else if str_eq(name, "claim_task") {
        let call = match json_u64_at(arguments, "task_id") {
            Some(task_id) => SessionToolCall::ClaimTask { task_id },
            None => SessionToolCall::Reply(owned("Error: claim_task requires integer task_id")),
        };
        Some(call)
    } else if str_eq(name, "shutdown_request") {
        let call = match nonblank_arg(arguments, "teammate") {
            Some(teammate) => SessionToolCall::ShutdownRequest { teammate },
            None => SessionToolCall::Reply(
                lacks("shutdown_request", " requires a non-empty ", "teammate"),
            ),
        };
        Some(call)
    } else if str_eq(name, "plan_approval") {
        let call = match nonblank_arg(arguments, "request_id") {
            Some(request_id) => match json_bool_at(arguments, "approve") {
                Some(approve) => {
                    let feedback = match nonblank_arg(arguments, "feedback") {
                        Some(f) => f,
                        None => String::new(),
                    };
                    SessionToolCall::PlanApproval { request_id, approve, feedback }
                },
                None => SessionToolCall::Reply(owned("Error: plan_approval requires boolean approve")),
            },
            None => SessionToolCall::Reply(
                lacks("plan_approval", " requires a non-empty ", "request_id"),
            ),
        };
        Some(call)
    } else {
        None
    }
}

} // verus!

verus! {

// ---------------------------------------------------------------------------
// Plan requests in the lead's inbox
// ---------------------------------------------------------------------------

/// The plan request that an inbox message (a JSON object) carries: its
/// `type` is `plan_request` and it has a non-blank `request_id`; the sender
/// and the content default to empty.
pub open spec fn inbox_plan_request(item: Seq<char>) -> Option<(Seq<char>, Seq<char>, Seq<char>)> {
    if json_string_field(item, "type"@) == Some("plan_request"@) {
        match nonblank_argument(item, "request_id"@) {
            Some(id) => Some(
                (
                    id,
                    match json_string_field(item, "from"@) {
                        Some(f) => f,
                        None => Seq::empty(),
                    },
                    match json_string_field(item, "content"@) {
                        Some(c) => c,
                        None => Seq::empty(),
                    },
                ),
            ),
            None => None,
        }
    } else {
        None
    }
}

/// The plans after a pending plan with the id is recorded: it replaces the
/// plan with that id, or comes last.
pub open spec fn registered_plans(
    ps: Seq<PlanView>,
    id: Seq<char>,
    from: Seq<char>,
    content: Seq<char>,
) -> Seq<PlanView> {
    let p = PlanView { request_id: id, from, status: "pending"@, content };
    match plan_index(ps, id) {
        Some(i) => ps.update(i, p),
        None => ps.push(p),
    }
}

/// The plans after the inbox messages are read, in order.
pub open spec fn plans_after_inbox(ps: Seq<PlanView>, items: Seq<Seq<char>>) -> Seq<PlanView>
    decreases items.len(),
{
    if items.len() == 0 {
        ps
    } else {
        let prev = plans_after_inbox(ps, items.drop_last());
        match inbox_plan_request(items.last()) {
            Some((id, from, content)) => registered_plans(prev, id, from, content),
            None => prev,
        }
    }
}

impl PlanRequests {
    /// Records the plan request that an inbox message carries, if any.
    pub fn register_inbox_item(&mut self, item: &str)
        ensures
            match inbox_plan_request(item@) {
                Some((id, from, content)) => final(self)@ == registered_plans(
                    old(self)@,
                    id,
                    from,
                    content,
                ),
                None => final(self)@ == old(self)@,
            },
    {
        proof {
            reveal_strlit("plan_request");
        }
        let kind = json_str_field(item, "type");
        let is_plan = match &kind {
            Some(k) => str_eq(k.as_str(), "plan_request"),
            None => false,
        };
        if !is_plan {
            return;
        }
        let id = match nonblank_arg(item, "request_id") {
            Some(id) => id,
            None => {
                return;
            },
        };
        let from = match json_str_field(item, "from") {
            Some(f) => f,
            None => String::new(),
        };
        let content = match json_str_field(item, "content") {
            Some(c) => c,
            None => String::new(),
        };
        proof {
            let v = json_string_field(item@, "request_id"@)->0;
            lemma_trim_idempotent(v);
            assert(trim_seq(id@) == id@);
        }
        self.register(id.as_str(), from.as_str(), content.as_str());
    }

    /// Records the plan requests of the lead's inbox messages, in order.
    pub fn register_inbox(&mut self, items: &Vec<String>)
        ensures
            final(self)@ == plans_after_inbox(
                old(self)@,
                items@.map_values(|s: String| s@),
            ),
    {
        let ghost start = self@;
        let ghost all = items@.map_values(|s: String| s@);
        let mut i: usize = 0;
        assert(all.take(0) =~= Seq::<Seq<char>>::empty());
        while i < items.len()
            invariant
                0 <= i <= items.len(),
                all == items@.map_values(|s: String| s@),
                self@ == plans_after_inbox(start, all.take(i as int)),
            decreases items.len() - i,
        {
            assert(all.take(i + 1).drop_last() =~= all.take(i as int));
            assert(all.take(i + 1).last() == items@[i as int]@);
            self.register_inbox_item(items[i].as_str());
            i += 1;
        }
        assert(all.take(items.len() as int) =~= all);
    }
}

} // verus!

verus! {

proof fn lemma_registered_unique(ps: Seq<PlanView>, id: Seq<char>, from: Seq<char>, content: Seq<char>)
    requires
        plan_ids_unique(ps),
    ensures
        plan_ids_unique(registered_plans(ps, id, from, content)),
{
    let p = PlanView { request_id: id, from, status: "pending"@, content };
    let after = registered_plans(ps, id, from, content);
    match plan_index(ps, id) {
        Some(i) => {
            assert forall|a: int, b: int| 0 <= a < b < after.len() implies after[a].request_id
                != after[b].request_id by {
                assert(ps[a].request_id != ps[b].request_id);
            }
        },
        None => {
            assert forall|a: int, b: int| 0 <= a < b < after.len() implies after[a].request_id
                != after[b].request_id by {
                if b == ps.len() {
                    assert(ps[a].request_id != id);
                } else {
                    assert(ps[a].request_id != ps[b].request_id);
                }
            }
        },
    }
}

proof fn lemma_plans_after_inbox_unique(ps: Seq<PlanView>, items: Seq<Seq<char>>)
    requires
        plan_ids_unique(ps),
    ensures
        plan_ids_unique(plans_after_inbox(ps, items)),
    decreases items.len(),
{
    if items.len() > 0 {
        lemma_plans_after_inbox_unique(ps, items.drop_last());
        match inbox_plan_request(items.last()) {
            Some((id, from, content)) => {
                lemma_registered_unique(plans_after_inbox(ps, items.drop_last()), id, from, content);
            },
            None => {},
        }
    }
}

/// Reading the lead's inbox makes a plan request answerable: after an inbox
/// whose last message asks for approval of a plan, the plan is known by its
/// id, pending, with its sender, so approving it reaches that sender.
pub proof fn lemma_inbox_plan_ready_for_approval(
    ps: Seq<PlanView>,
    items: Seq<Seq<char>>,
    id: Seq<char>,
    from: Seq<char>,
    content: Seq<char>,
)
    requires
        plan_ids_unique(ps),
        items.len() > 0,
        inbox_plan_request(items.last()) == Some((id, from, content)),
    ensures
        plan_index(plans_after_inbox(ps, items), id) matches Some(i) && plans_after_inbox(
            ps,
            items,
        )[i] == (PlanView { request_id: id, from, status: "pending"@, content }),
{
    let prev = plans_after_inbox(ps, items.drop_last());
    lemma_plans_after_inbox_unique(ps, items.drop_last());
    lemma_plans_after_inbox_unique(ps, items);
    let after = plans_after_inbox(ps, items);
    assert(after == registered_plans(prev, id, from, content));
    let p = PlanView { request_id: id, from, status: "pending"@, content };
    let k: int = match plan_index(prev, id) {
        Some(i) => i,
        None => prev.len() as int,
    };
    assert(0 <= k < after.len() && after[k] == p);
    assert(exists|j: int| 0 <= j < after.len() && after[j].request_id == id);
    let c = choose|j: int| 0 <= j < after.len() && after[j].request_id == id;
    assert(c == k) by {
        if c != k {
            if c < k {
                assert(after[c].request_id != after[k].request_id);
            } else {
                assert(after[k].request_id != after[c].request_id);
            }
        }
    }
}

} // verus!
