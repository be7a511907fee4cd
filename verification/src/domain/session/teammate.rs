use vstd::prelude::*;

use crate::domain::chat::message::{ChatMessage, ChatMessageView, message_views};
use crate::domain::chat::tool_schema::{schema_entries_of, schema_parameters, tool_parameter, tool_schema, ToolSchema};
use crate::domain::session::background::{task_id_for, task_id_text};
use crate::text::{
    chars_of, concat2, decimal, is_empty_text, is_whitespace_char, is_ws, owned, push_char,
    push_str, str_eq, trim, trim_seq, u64_to_decimal,
};

verus! {

/// Turns a teammate works before it goes idle.
pub const TEAMMATE_MAX_TURNS: usize = 50;

/// Characters of a tool's output that a teammate gets back.
pub const TEAMMATE_MAX_OUTPUT_CHARS: usize = 50_000;

/// One member of the team.
#[derive(Debug, Clone)]
pub struct TeammateRecord {
    pub name: String,
    pub role: String,
    pub status: String,
}

pub struct MemberView {
    pub name: Seq<char>,
    pub role: Seq<char>,
    pub status: Seq<char>,
}

impl View for TeammateRecord {
    type V = MemberView;

    open spec fn view(&self) -> MemberView {
        MemberView { name: self.name@, role: self.role@, status: self.status@ }
    }
}

pub open spec fn member_views(v: Seq<TeammateRecord>) -> Seq<MemberView> {
    v.map_values(|m: TeammateRecord| m@)
}

/// The team of a session as it is stored.
#[derive(Debug, Clone)]
pub struct TeamConfig {
    pub team_name: String,
    pub members: Vec<TeammateRecord>,
}

impl Default for TeamConfig {
    fn default() -> (c: Self)
        ensures
            c.team_name@ == "default"@,
            c.members@.len() == 0,
    {
        TeamConfig { team_name: owned("default"), members: Vec::new() }
    }
}

/// A teammate to start: its trimmed name, role and first prompt.
#[derive(Debug)]
pub struct TeammateLaunch {
    pub name: String,
    pub role: String,
    pub prompt: String,
}

/// Where the member with `name` stands, the first one if there are several.
pub open spec fn member_index(ms: Seq<MemberView>, name: Seq<char>) -> Option<int> {
    if exists|i: int| 0 <= i < ms.len() && ms[i].name == name {
        Some(choose|i: int| 0 <= i < ms.len() && ms[i].name == name && forall|k: int| 0 <= k < i ==> ms[k].name != name)
    } else {
        None
    }
}

/// A member that may be started again.
pub open spec fn restartable(status: Seq<char>) -> bool {
    status == "idle"@ || status == "shutdown"@
}

/// Idle and shut-down members may be started again; a member at work may
/// not: whatever the roster, a member that `member_index` finds is
/// restartable exactly when its status is `idle` or `shutdown`.
pub proof fn lemma_restartable_members(ms: Seq<MemberView>, name: Seq<char>)
    ensures
        member_index(ms, name) matches Some(i) ==> (restartable(ms[i].status) <==> (ms[i].status
            == "idle"@ || ms[i].status == "shutdown"@)),
        forall|s: Seq<char>| #[trigger] restartable(s) <==> (s == "idle"@ || s == "shutdown"@),
{
}

/// The roster of a session's team; the running teammates themselves are
/// held by the caller.
pub struct TeammateManager {
    config: TeamConfig,
    request_counter: u64,
}

pub struct TeamView {
    pub team_name: Seq<char>,
    pub members: Seq<MemberView>,
    pub request_counter: u64,
}

impl View for TeammateManager {
    type V = TeamView;

    closed spec fn view(&self) -> TeamView {
        TeamView {
            team_name: self.config.team_name@,
            members: member_views(self.config.members@),
            request_counter: self.request_counter,
        }
    }
}

pub open spec fn member_line(m: MemberView, alive: bool) -> Seq<char> {
    "  "@ + m.name + " ("@ + m.role + "): "@ + m.status + " [thread:"@ + (if alive {
        "alive"@
    } else {
        "dead"@
    }) + "]"@
}

/// The roster lines after the team's name line.
pub open spec fn member_lines(ms: Seq<MemberView>, alive: Seq<Seq<char>>) -> Seq<char>
    decreases ms.len(),
{
    if ms.len() == 0 {
        Seq::empty()
    } else {
        member_lines(ms.drop_last(), alive) + "\n"@ + member_line(
            ms.last(),
            alive.contains(ms.last().name),
        )
    }
}

impl TeammateManager {
    /// The roster of a stored team, or of a new team named `default`.
    pub fn new(config: Option<TeamConfig>) -> (m: Self)
        ensures
            m@.request_counter == 1,
            match config {
                Some(c) => m@.team_name == c.team_name@ && m@.members == member_views(
                    c.members@,
                ),
                None => m@.team_name == "default"@ && m@.members.len() == 0,
            },
    {
        let config = match config {
            Some(c) => c,
            None => TeamConfig::default(),
        };
        let m = TeammateManager { config, request_counter: 1 };
        proof {
            if m.config.members@.len() == 0 {
                assert(member_views(m.config.members@) =~= Seq::<MemberView>::empty());
            }
        }
        m
    }

    /// The team as it is to be stored.
    pub fn config(&self) -> (c: &TeamConfig)
        ensures
            c.team_name@ == self@.team_name,
            member_views(c.members@) == self@.members,
    {
        &self.config
    }

    pub fn team_name(&self) -> (s: String)
        ensures
            s@ == self@.team_name,
    {
        owned(self.config.team_name.as_str())
    }

    fn find(&self, name: &str) -> (r: Option<usize>)
        ensures
            match r {
                Some(i) => member_index(self@.members, name@) == Some(i as int) && i
                    < self@.members.len(),
                None => member_index(self@.members, name@) is None,
            },
    {
        let ghost ms = self@.members;
        let mut i: usize = 0;
        while i < self.config.members.len()
            invariant
                0 <= i <= self.config.members.len(),
                ms == self@.members,
                ms.len() == self.config.members.len(),
                forall|k: int| 0 <= k < i ==> ms[k].name != name@,
            decreases self.config.members.len() - i,
        {
            assert(ms[i as int] == self.config.members@[i as int]@);
            if str_eq(self.config.members[i].name.as_str(), name) {
                let ghost c = choose|k: int|
                    0 <= k < ms.len() && ms[k].name == name@ && forall|j: int|
                        0 <= j < k ==> ms[j].name != name@;
                assert(c == i) by {
                    if c < i {
                    } else if c > i {
                        assert(ms[i as int].name == name@);
                    }
                }
                return Some(i);
            }
            i += 1;
        }
        None
    }

    /// The names of the members, in order.
    pub fn member_names(&self) -> (v: Vec<String>)
        ensures
            v@.map_values(|s: String| s@) == self@.members.map_values(|m: MemberView| m.name),
    {
        let ghost ms = self@.members;
        let mut v: Vec<String> = Vec::new();
        let mut i: usize = 0;
        while i < self.config.members.len()
            invariant
                0 <= i <= self.config.members.len(),
                ms == self@.members,
                ms.len() == self.config.members.len(),
                v@.map_values(|s: String| s@) == ms.map_values(|m: MemberView| m.name).take(
                    i as int,
                ),
            decreases self.config.members.len() - i,
        {
            assert(ms[i as int] == self.config.members@[i as int]@);
            let ghost before = v@.map_values(|s: String| s@);
            v.push(owned(self.config.members[i].name.as_str()));
            assert(v@.map_values(|s: String| s@) =~= ms.map_values(|m: MemberView| m.name).take(
                i + 1,
            )) by {
                assert(v@.map_values(|s: String| s@) =~= before.push(ms[i as int].name));
            }
            i += 1;
        }
        assert(ms.map_values(|m: MemberView| m.name).take(ms.len() as int) =~= ms.map_values(
            |m: MemberView| m.name,
        ));
        v
    }

    /// Starts a teammate, or starts an idle or shut down member again with the
    /// given role. A blank name, role or prompt is refused; a member that is
    /// still working is not started twice.
    pub fn spawn(&mut self, name: &str, role: &str, prompt: &str) -> (r: Result<
        (String, Option<TeammateLaunch>),
        String,
    >)
        ensures
            final(self)@.team_name == old(self)@.team_name,
            final(self)@.request_counter == old(self)@.request_counter,
            trim_seq(name@).len() == 0 ==> (r matches Err(e) && e@
                == "spawn_teammate requires a non-empty name"@ && final(self)@ == old(self)@),
            trim_seq(name@).len() > 0 && trim_seq(role@).len() == 0 ==> (r matches Err(e) && e@
                == "spawn_teammate requires a non-empty role"@ && final(self)@ == old(self)@),
            trim_seq(name@).len() > 0 && trim_seq(role@).len() > 0 && trim_seq(prompt@).len() == 0
                ==> (r matches Err(e) && e@ == "spawn_teammate requires a non-empty prompt"@
                && final(self)@ == old(self)@),
            trim_seq(name@).len() > 0 && trim_seq(role@).len() > 0 && trim_seq(prompt@).len() > 0
                ==> {
                let n = trim_seq(name@);
                let ro = trim_seq(role@);
                let started = MemberView { name: n, role: ro, status: "working"@ };
                match member_index(old(self)@.members, n) {
                    Some(i) => if !restartable(old(self)@.members[i].status) {
                        r matches Ok((reply, None)) && reply@ == "Error: '"@ + n
                            + "' is currently "@ + old(self)@.members[i].status && final(self)@
                            == old(self)@
                    } else {
                        r matches Ok((reply, Some(l))) && reply@ == "Spawned '"@ + n
                            + "' (role: "@ + ro + ")"@ && l.name@ == n && l.role@ == ro
                            && l.prompt@ == trim_seq(prompt@) && final(self)@.members == old(
                            self,
                        )@.members.update(i, started)
                    },
                    None => r matches Ok((reply, Some(l))) && reply@ == "Spawned '"@ + n
                        + "' (role: "@ + ro + ")"@ && l.name@ == n && l.role@ == ro
                        && l.prompt@ == trim_seq(prompt@) && final(self)@.members == old(
                        self,
                    )@.members.push(started),
                }
            },
            trim_seq(name@).len() > 0 && trim_seq(role@).len() > 0 && trim_seq(prompt@).len() > 0
                ==> match member_index(old(self)@.members, trim_seq(name@)) {
                Some(i) => if old(self)@.members[i].status == "idle"@ || old(self)@.members[i].status
                    == "shutdown"@ {
                    &&& r matches Ok((_, Some(l))) && l.name@ == trim_seq(name@)
                    &&& final(self)@.members.len() == old(self)@.members.len()
                    &&& final(self)@.members[i] == (MemberView {
                        name: trim_seq(name@),
                        role: trim_seq(role@),
                        status: "working"@,
                    })
                } else {
                    r matches Ok((_, None)) && final(self)@ == old(self)@
                },
                None => r matches Ok((_, Some(_))),
            },
    {
        proof {
            lemma_restartable_members(old(self)@.members, trim_seq(name@));
        }
        let name = trim(name);
        let role = trim(role);
        let prompt = trim(prompt);
        if is_empty_text(name.as_str()) {
            return Err(owned("spawn_teammate requires a non-empty name"));
        }
        if is_empty_text(role.as_str()) {
            return Err(owned("spawn_teammate requires a non-empty role"));
        }
        if is_empty_text(prompt.as_str()) {
            return Err(owned("spawn_teammate requires a non-empty prompt"));
        }
        let ghost before = self@.members;
        let record = TeammateRecord {
            name: owned(name.as_str()),
            role: owned(role.as_str()),
            status: owned("working"),
        };
        let ghost rv = record@;
        match self.find(name.as_str()) {
            Some(i) => {
                assert(before[i as int] == self.config.members@[i as int]@);
                let status = self.config.members[i].status.as_str();
                if !(str_eq(status, "idle") || str_eq(status, "shutdown")) {
                    let mut reply = concat2("Error: '", name.as_str());
                    push_str(&mut reply, "' is currently ");
                    push_str(&mut reply, status);
                    return Ok((reply, None));
                }
                self.config.members.set(i, record);
                assert(self@.members =~= before.update(i as int, rv));
            },
            None => {
                self.config.members.push(record);
                assert(self@.members =~= before.push(rv));
            },
        }
        let mut reply = concat2("Spawned '", name.as_str());
        push_str(&mut reply, "' (role: ");
        push_str(&mut reply, role.as_str());
        push_str(&mut reply, ")");
        Ok((reply, Some(TeammateLaunch { name, role, prompt })))
    }

    /// The roster as text: the team's name, then each member with its status
    /// and whether its worker (named in `alive`) still runs.
    pub fn list_all(&self, alive: &Vec<String>) -> (s: String)
        ensures
            s@ == if self@.members.len() == 0 {
                "No teammates."@
            } else {
                "Team: "@ + self@.team_name + member_lines(
                    self@.members,
                    alive@.map_values(|a: String| a@),
                )
            },
    {
        if self.config.members.len() == 0 {
            return owned("No teammates.");
        }
        let ghost ms = self@.members;
        let ghost al = alive@.map_values(|a: String| a@);
        let mut s = concat2("Team: ", self.config.team_name.as_str());
        let mut i: usize = 0;
        assert(ms.take(0) =~= Seq::<MemberView>::empty());
        while i < self.config.members.len()
            invariant
                0 <= i <= self.config.members.len(),
                ms == self@.members,
                ms.len() == self.config.members.len(),
                al == alive@.map_values(|a: String| a@),
                s@ == "Team: "@ + self@.team_name + member_lines(ms.take(i as int), al),
            decreases self.config.members.len() - i,
        {
            let m = &self.config.members[i];
            assert(ms[i as int] == m@);
            assert(ms.take(i + 1).drop_last() =~= ms.take(i as int));
            assert(ms.take(i + 1).last() == m@);
            let is_alive = contains_name(alive, m.name.as_str());
            let ghost before = s@;
            push_str(&mut s, "\n");
            push_str(&mut s, "  ");
            push_str(&mut s, m.name.as_str());
            push_str(&mut s, " (");
            push_str(&mut s, m.role.as_str());
            push_str(&mut s, "): ");
            push_str(&mut s, m.status.as_str());
            push_str(&mut s, " [thread:");
            if is_alive {
                push_str(&mut s, "alive");
            } else {
                push_str(&mut s, "dead");
            }
            push_str(&mut s, "]");
            assert(s@ =~= before + "\n"@ + member_line(m@, is_alive));
            i += 1;
        }
        assert(ms.take(self.config.members.len() as int) =~= ms);
        s
    }

    /// Asks a member to shut down: the reply, and the id of the request sent
    /// to it. A blank name is refused; an unknown member gets no request.
    pub fn handle_shutdown_request(&mut self, teammate: &str) -> (r: Result<
        (String, Option<String>),
        String,
    >)
        ensures
            final(self)@.team_name == old(self)@.team_name,
            final(self)@.members == old(self)@.members,
            trim_seq(teammate@).len() == 0 ==> (r matches Err(e) && e@
                == "shutdown_request requires a non-empty teammate"@ && final(self)@ == old(
                self,
            )@),
            trim_seq(teammate@).len() > 0 && member_index(old(self)@.members, trim_seq(teammate@))
                is None ==> (r matches Ok((reply, None)) && reply@ == "Error: Unknown teammate '"@
                + trim_seq(teammate@) + "'"@ && final(self)@ == old(self)@),
            trim_seq(teammate@).len() > 0 && member_index(
                old(self)@.members,
                trim_seq(teammate@),
            ) is Some ==> {
                let id = task_id_text(old(self)@.request_counter);
                &&& r matches Ok((reply, Some(rid))) && rid@ == id && reply@
                    == "Shutdown request "@ + id + " sent to '"@ + trim_seq(teammate@) + "'"@
                &&& final(self)@.request_counter == if old(self)@.request_counter == u64::MAX {
                    0
                } else {
                    (old(self)@.request_counter + 1) as u64
                }
            },
    {
        let teammate = trim(teammate);
        if is_empty_text(teammate.as_str()) {
            return Err(owned("shutdown_request requires a non-empty teammate"));
        }
        if self.find(teammate.as_str()).is_none() {
            let mut reply = concat2("Error: Unknown teammate '", teammate.as_str());
            push_str(&mut reply, "'");
            return Ok((reply, None));
        }
        let id = task_id_for(self.request_counter);
        self.request_counter = if self.request_counter == u64::MAX {
            0
        } else {
            self.request_counter + 1
        };
        let mut reply = concat2("Shutdown request ", id.as_str());
        push_str(&mut reply, " sent to '");
        push_str(&mut reply, teammate.as_str());
        push_str(&mut reply, "'");
        Ok((reply, Some(id)))
    }

    /// Sets the status of the member with that name, if there is one.
    pub fn set_status(&mut self, name: &str, status: &str)
        ensures
            final(self)@.team_name == old(self)@.team_name,
            final(self)@.request_counter == old(self)@.request_counter,
            match member_index(old(self)@.members, name@) {
                Some(i) => final(self)@.members == old(self)@.members.update(
                    i,
                    MemberView { status: status@, ..old(self)@.members[i] },
                ),
                None => final(self)@.members == old(self)@.members,
            },
    {
        let ghost before = self@.members;
        match self.find(name) {
            Some(i) => {
                assert(before[i as int] == self.config.members@[i as int]@);
                let record = TeammateRecord {
                    name: owned(self.config.members[i].name.as_str()),
                    role: owned(self.config.members[i].role.as_str()),
                    status: owned(status),
                };
                let ghost rv = record@;
                self.config.members.set(i, record);
                assert(self@.members =~= before.update(i as int, rv));
            },
            None => {},
        }
    }

    /// Marks every member as shut down.
    pub fn shutdown_all(&mut self)
        ensures
            final(self)@.team_name == old(self)@.team_name,
            final(self)@.request_counter == old(self)@.request_counter,
            final(self)@.members.len() == old(self)@.members.len(),
            forall|i: int|
                0 <= i < old(self)@.members.len() ==> #[trigger] final(self)@.members[i] == (
                MemberView { status: "shutdown"@, ..old(self)@.members[i] }),
    {
        let ghost before = self@.members;
        let mut i: usize = 0;
        while i < self.config.members.len()
            invariant
                0 <= i <= self.config.members.len(),
                self.config.members.len() == before.len(),
                self@.team_name == old(self)@.team_name,
                self@.request_counter == old(self)@.request_counter,
                before == old(self)@.members,
                forall|k: int|
                    0 <= k < before.len() ==> #[trigger] self@.members[k] == if k < i {
                        MemberView { status: "shutdown"@, ..before[k] }
                    } else {
                        before[k]
                    },
            decreases self.config.members.len() - i,
        {
            let ghost cur = self@.members;
            let record = TeammateRecord {
                name: owned(self.config.members[i].name.as_str()),
                role: owned(self.config.members[i].role.as_str()),
                status: owned("shutdown"),
            };
            let ghost rv = record@;
            assert(cur[i as int] == self.config.members@[i as int]@);
            self.config.members.set(i, record);
            assert(self@.members =~= cur.update(i as int, rv));
            i += 1;
        }
    }
}

fn contains_name(names: &Vec<String>, name: &str) -> (b: bool)
    ensures
        b == names@.map_values(|a: String| a@).contains(name@),
{
    let ghost ns = names@.map_values(|a: String| a@);
    let mut i: usize = 0;
    while i < names.len()
        invariant
            0 <= i <= names.len(),
            ns == names@.map_values(|a: String| a@),
            forall|k: int| 0 <= k < i ==> ns[k] != name@,
        decreases names.len() - i,
    {
        if str_eq(names[i].as_str(), name) {
            assert(ns[i as int] == name@);
            return true;
        }
        i += 1;
    }
    false
}

// ---------------------------------------------------------------------------
// A teammate's work loop
// ---------------------------------------------------------------------------

/// The system prompt of a teammate.
pub open spec fn teammate_prompt_text(
    name: Seq<char>,
    role: Seq<char>,
    team: Seq<char>,
    repo_root: Seq<char>,
) -> Seq<char> {
    "You are '"@ + name + "', role: "@ + role + ", team: "@ + team + ", at "@ + repo_root
        + ". Use idle when done with current work. You may auto-claim tasks."@
}

pub fn teammate_system_prompt(name: &str, role: &str, team: &str, repo_root: &str) -> (s: String)
    ensures
        s@ == teammate_prompt_text(name@, role@, team@, repo_root@),
{
    let mut s = concat2("You are '", name);
    push_str(&mut s, "', role: ");
    push_str(&mut s, role);
    push_str(&mut s, ", team: ");
    push_str(&mut s, team);
    push_str(&mut s, ", at ");
    push_str(&mut s, repo_root);
    push_str(&mut s, ". Use idle when done with current work. You may auto-claim tasks.");
    s
}

/// What a tool call of a teammate is.
#[derive(Debug, Clone, Copy, PartialEq, Eq)]
pub enum TeammateTool {
    Idle,
    ClaimTask,
    SendMessage,
    File,
    Unknown,
}

pub open spec fn teammate_tool_of(name: Seq<char>) -> TeammateTool {
    if name == "idle"@ {
        TeammateTool::Idle
    } else if name == "claim_task"@ {
        TeammateTool::ClaimTask
    } else if name == "send_message"@ {
        TeammateTool::SendMessage
    } else if name == "read_file"@ || name == "write_file"@ || name == "edit_file"@ {
        TeammateTool::File
    } else {
        TeammateTool::Unknown
    }
}

pub fn teammate_tool(name: &str) -> (t: TeammateTool)
    ensures
        t == teammate_tool_of(name@),
{
    if str_eq(name, "idle") {
        TeammateTool::Idle
    } else if str_eq(name, "claim_task") {
        TeammateTool::ClaimTask
    } else if str_eq(name, "send_message") {
        TeammateTool::SendMessage
    } else if str_eq(name, "read_file") || str_eq(name, "write_file") || str_eq(name, "edit_file") {
        TeammateTool::File
    } else {
        TeammateTool::Unknown
    }
}

/// How many times an idle teammate looks for work before it shuts down: the
/// idle time over the poll interval, rounded up (at least once; once when
/// there is no idle time).
pub open spec fn poll_count(idle_ms: u128, poll_ms: u128) -> nat {
    if idle_ms == 0 {
        1
    } else {
        let p: int = if poll_ms < 1 {
            1
        } else {
            poll_ms as int
        };
        let n: int = (idle_ms as int + p - 1) / p;
        if n > usize::MAX {
            1
        } else if n < 1 {
            1
        } else {
            n as nat
        }
    }
}

pub fn idle_poll_count(idle_ms: u128, poll_ms: u128) -> (n: usize)
    ensures
        n as nat == poll_count(idle_ms, poll_ms),
{
    if idle_ms == 0 {
        return 1;
    }
    let p: u128 = if poll_ms < 1 {
        1
    } else {
        poll_ms
    };
    let q: u128 = idle_ms / p;
    let n: u128 = if idle_ms % p == 0 {
        q
    } else {
        assert(q < u128::MAX) by (nonlinear_arith)
            requires
                p >= 1,
                q == idle_ms / p,
                idle_ms % p != 0,
        {
            if p == 1 {
                assert(idle_ms % 1 == 0);
            } else {
                assert(q * p <= idle_ms);
                assert(q * 2 <= q * p);
            }
        }
        q + 1
    };
    proof {
        let pn = p as int;
        let inn = idle_ms as int;
        assert((inn + pn - 1) / pn == n as int) by (nonlinear_arith)
            requires
                pn >= 1,
                inn >= 0,
                q as int == inn / pn,
                n as int == if inn % pn == 0 {
                    q as int
                } else {
                    q as int + 1
                },
        {
            assert(inn == pn * (inn / pn) + inn % pn);
            assert(0 <= inn % pn < pn);
            if inn % pn == 0 {
                assert((inn + pn - 1) / pn == inn / pn) by {
                    assert(inn + pn - 1 == pn * (inn / pn) + (pn - 1));
                }
            } else {
                assert((inn + pn - 1) / pn == inn / pn + 1) by {
                    assert(inn + pn - 1 == pn * (inn / pn + 1) + (inn % pn - 1));
                }
            }
        }
    }
    if n > usize::MAX as u128 {
        1
    } else if n < 1 {
        1
    } else {
        n as usize
    }
}

/// What the messages of a teammate's inbox do: a shutdown request ends the
/// teammate; otherwise each message is added to its conversation as a user
/// message. Gives whether to stop.
pub fn absorb_inbox(messages: &mut Vec<ChatMessage>, inbox: &Vec<(bool, String)>) -> (stop: bool)
    ensures
        stop == exists|i: int| 0 <= i < inbox@.len() && inbox@[i].0,
        !stop ==> message_views(final(messages)@) == message_views(old(messages)@) + inbox@.map_values(
            |m: (bool, String)| ChatMessage::user_view(m.1@),
        ),
{
    let ghost start = message_views(messages@);
    let ghost users = inbox@.map_values(|m: (bool, String)| ChatMessage::user_view(m.1@));
    let mut i: usize = 0;
    while i < inbox.len()
        invariant
            0 <= i <= inbox.len(),
            users == inbox@.map_values(|m: (bool, String)| ChatMessage::user_view(m.1@)),
            start == message_views(old(messages)@),
            message_views(messages@) == start + users.take(i as int),
            forall|k: int| 0 <= k < i ==> !inbox@[k].0,
        decreases inbox.len() - i,
    {
        if inbox[i].0 {
            return true;
        }
        let m = ChatMessage::user(inbox[i].1.as_str());
        let ghost before = message_views(messages@);
        messages.push(m);
        assert(message_views(messages@) =~= start + users.take(i + 1)) by {
            assert(message_views(messages@) =~= before.push(m@));
            assert(users.take(i + 1) =~= users.take(i as int).push(users[i as int]));
        }
        i += 1;
    }
    assert(users.take(inbox.len() as int) =~= users);
    false
}

/// The identity messages put before a conversation that is still short.
pub open spec fn identity_views(name: Seq<char>, role: Seq<char>, team: Seq<char>) -> Seq<
    ChatMessageView,
> {
    seq![
        ChatMessage::user_view(
            "<identity>You are '"@ + name + "', role: "@ + role + ", team: "@ + team
                + ".</identity>"@,
        ),
        ChatMessage::assistant_view("I am "@ + name + ". Continuing."@),
    ]
}

/// The messages that tell a teammate it took a task.
pub open spec fn claim_views(task_id: u64, subject: Seq<char>, description: Seq<char>) -> Seq<
    ChatMessageView,
> {
    seq![
        ChatMessage::user_view(
            "<auto-claimed>Task #"@ + decimal(task_id as nat) + ": "@ + subject + "\n"@
                + description + "</auto-claimed>"@,
        ),
        ChatMessage::assistant_view("Claimed task #"@ + decimal(task_id as nat) + ". Working on it."@),
    ]
}

/// Records in an idle teammate's conversation that it took a task from the
/// board; a short conversation (three messages or fewer) first gets the
/// teammate's identity.
pub fn note_auto_claim(
    messages: &mut Vec<ChatMessage>,
    name: &str,
    role: &str,
    team: &str,
    task_id: u64,
    subject: &str,
    description: &str,
)
    ensures
        message_views(final(messages)@) == (if old(messages)@.len() <= 3 {
            identity_views(name@, role@, team@)
        } else {
            Seq::empty()
        }) + message_views(old(messages)@) + claim_views(task_id, subject@, description@),
{
    let ghost start = message_views(messages@);
    if messages.len() <= 3 {
        let mut who = concat2("<identity>You are '", name);
        push_str(&mut who, "', role: ");
        push_str(&mut who, role);
        push_str(&mut who, ", team: ");
        push_str(&mut who, team);
        push_str(&mut who, ".</identity>");
        let mut ack = concat2("I am ", name);
        push_str(&mut ack, ". Continuing.");
        let first = ChatMessage::user(who.as_str());
        let second = ChatMessage::assistant(Some(ack), Vec::new());
        let ghost fv = first@;
        let ghost sv = second@;
        messages.insert(0, first);
        messages.insert(1, second);
        assert(message_views(messages@) =~= seq![fv, sv] + start);
    }
    let ghost mid = message_views(messages@);
    let id = u64_to_decimal(task_id);
    let mut note = concat2("<auto-claimed>Task #", id.as_str());
    push_str(&mut note, ": ");
    push_str(&mut note, subject);
    push_str(&mut note, "\n");
    push_str(&mut note, description);
    push_str(&mut note, "</auto-claimed>");
    let mut done = concat2("Claimed task #", id.as_str());
    push_str(&mut done, ". Working on it.");
    let a = ChatMessage::user(note.as_str());
    let b = ChatMessage::assistant(Some(done), Vec::new());
    let ghost av = a@;
    let ghost bv = b@;
    messages.push(a);
    messages.push(b);
    assert(message_views(messages@) =~= mid + seq![av, bv]);
}

// ---------------------------------------------------------------------------
// Words of a reply
// ---------------------------------------------------------------------------

/// The words of `s` after the partial word `cur` (`str::split_whitespace`).
pub open spec fn words_from(s: Seq<char>, cur: Seq<char>) -> Seq<Seq<char>>
    decreases s.len(),
{
    if s.len() == 0 {
        if cur.len() > 0 {
            seq![cur]
        } else {
            Seq::empty()
        }
    } else if is_ws(s[0]) {
        (if cur.len() > 0 {
            seq![cur]
        } else {
            Seq::empty()
        }) + words_from(s.drop_first(), Seq::empty())
    } else {
        words_from(s.drop_first(), cur.push(s[0]))
    }
}

pub open spec fn words(s: Seq<char>) -> Seq<Seq<char>> {
    words_from(s, Seq::empty())
}

fn split_words(s: &str) -> (out: Vec<String>)
    ensures
        out@.map_values(|w: String| w@) == words(s@),
{
    let v = chars_of(s);
    let mut out: Vec<String> = Vec::new();
    let mut cur = String::new();
    let mut i: usize = 0;
    assert(v@.skip(0) =~= v@);
    while i < v.len()
        invariant
            0 <= i <= v.len(),
            v@ == s@,
            out@.map_values(|w: String| w@) + words_from(v@.skip(i as int), cur@) == words(s@),
        decreases v.len() - i,
    {
        let c = v[i];
        let ghost rest = v@.skip(i as int);
        assert(rest.drop_first() =~= v@.skip(i + 1));
        assert(rest[0] == c);
        if is_whitespace_char(c) {
            let ghost before = out@.map_values(|w: String| w@);
            let ghost cv = cur@;
            if !is_empty_text(cur.as_str()) {
                out.push(cur);
                assert(out@.map_values(|w: String| w@) =~= before.push(cv));
                assert(before + (seq![cv] + words_from(v@.skip(i + 1), Seq::empty())) =~= before.push(
                    cv,
                ) + words_from(v@.skip(i + 1), Seq::empty()));
            } else {
                assert(before + (Seq::<Seq<char>>::empty() + words_from(
                    v@.skip(i + 1),
                    Seq::empty(),
                )) =~= before + words_from(v@.skip(i + 1), Seq::empty()));
            }
            cur = String::new();
        } else {
            push_char(&mut cur, c);
        }
        i += 1;
    }
    let ghost before = out@.map_values(|w: String| w@);
    let ghost cv = cur@;
    if !is_empty_text(cur.as_str()) {
        out.push(cur);
        assert(out@.map_values(|w: String| w@) =~= before.push(cv));
    }
    assert(v@.skip(i as int) =~= Seq::<char>::empty());
    assert(out@.map_values(|w: String| w@) =~= before + words_from(Seq::empty(), cv));
    out
}

/// The id of a shutdown request as the lead records it: the third word of
/// the reply, or `fallback` when the reply has fewer words.
pub fn shutdown_request_id(response: &str, fallback: String) -> (id: String)
    ensures
        id@ == if words(response@).len() > 2 {
            words(response@)[2]
        } else {
            fallback@
        },
{
    let ws = split_words(response);
    if ws.len() > 2 {
        assert(ws@[2]@ == words(response@)[2]);
        owned(ws[2].as_str())
    } else {
        fallback
    }
}

} // verus!

verus! {

/// The parameters of the teammate tools, in order: name, schema text, whether required.
pub open spec fn teammate_tool_parameters() -> Seq<Seq<(Seq<char>, Seq<char>, bool)>> {
    seq![
        seq![("path"@, r#"{"type":"string"}"#@, true)],
        seq![("path"@, r#"{"type":"string"}"#@, true), ("content"@, r#"{"type":"string"}"#@, true)],
        seq![("path"@, r#"{"type":"string"}"#@, true), ("old_text"@, r#"{"type":"string"}"#@, true), ("new_text"@, r#"{"type":"string"}"#@, true)],
        seq![("to"@, r#"{"type":"string"}"#@, true), ("content"@, r#"{"type":"string"}"#@, true)],
        Seq::empty(),
        seq![("task_id"@, r#"{"type":"integer"}"#@, true)],
    ]
}

/// The tools of a teammate: files, messages, going idle and claiming a task.
pub fn teammate_tool_schemas() -> (r: Vec<ToolSchema>)
    ensures
        schema_entries_of(r@) == seq![
            ("read_file"@, "Read file."@),
            ("write_file"@, "Write file."@),
            ("edit_file"@, "Edit file."@),
            ("send_message"@, "Send message."@),
            ("idle"@, "Signal no more work."@),
            ("claim_task"@, "Claim task by ID."@),
        ],
        schema_parameters(r@) == teammate_tool_parameters(),
{
    let mut r: Vec<ToolSchema> = Vec::new();
    r.push(tool_schema("read_file", "Read file.", vec![tool_parameter("path", r#"{"type":"string"}"#, true)]));
    r.push(tool_schema(
        "write_file",
        "Write file.",
        vec![
            tool_parameter("path", r#"{"type":"string"}"#, true),
            tool_parameter("content", r#"{"type":"string"}"#, true),
        ],
    ));
    r.push(tool_schema(
        "edit_file",
        "Edit file.",
        vec![
            tool_parameter("path", r#"{"type":"string"}"#, true),
            tool_parameter("old_text", r#"{"type":"string"}"#, true),
            tool_parameter("new_text", r#"{"type":"string"}"#, true),
        ],
    ));
    r.push(tool_schema(
        "send_message",
        "Send message.",
        vec![
            tool_parameter("to", r#"{"type":"string"}"#, true),
            tool_parameter("content", r#"{"type":"string"}"#, true),
        ],
    ));
    r.push(tool_schema("idle", "Signal no more work.", Vec::new()));
    r.push(tool_schema(
        "claim_task",
        "Claim task by ID.",
        vec![tool_parameter("task_id", r#"{"type":"integer"}"#, true)],
    ));
    assert(schema_parameters(r@) =~~= teammate_tool_parameters());
    assert(schema_entries_of(r@) =~= seq![
        ("read_file"@, "Read file."@),
        ("write_file"@, "Write file."@),
        ("edit_file"@, "Edit file."@),
        ("send_message"@, "Send message."@),
        ("idle"@, "Signal no more work."@),
        ("claim_task"@, "Claim task by ID."@),
    ]);
    r
}

} // verus!

verus! {

// ---------------------------------------------------------------------------
// The teammate's loop, one step at a time
// ---------------------------------------------------------------------------

/// Where a teammate's loop stands: working through up to `max_turns` model
/// turns, or idle, looking for work up to `poll_limit` times.
pub struct TeammateLoopState {
    pub max_turns: usize,
    pub poll_limit: usize,
    pub idle: bool,
    pub turns: usize,
    pub polls: usize,
    pub turn_tools: Vec<String>,
    pub next_tool: usize,
    pub idle_requested: bool,
    pub done: bool,
}

pub struct TeammateLoopView {
    pub max_turns: usize,
    pub poll_limit: usize,
    pub idle: bool,
    pub turns: usize,
    pub polls: usize,
    pub turn_tools: Seq<Seq<char>>,
    pub next_tool: usize,
    pub idle_requested: bool,
    pub done: bool,
}

impl View for TeammateLoopState {
    type V = TeammateLoopView;

    open spec fn view(&self) -> TeammateLoopView {
        TeammateLoopView {
            max_turns: self.max_turns,
            poll_limit: self.poll_limit,
            idle: self.idle,
            turns: self.turns,
            polls: self.polls,
            turn_tools: self.turn_tools@.map_values(|s: String| s@),
            next_tool: self.next_tool,
            idle_requested: self.idle_requested,
            done: self.done,
        }
    }
}

/// What came of the teammate's last action.
pub enum TeammateEvent {
    /// The last action is done; go on.
    Ready,
    /// The inbox was read: whether it held a shutdown request, and how many
    /// messages it held.
    InboxRead { shutdown: bool, count: usize },
    /// The model call failed.
    ModelFailed,
    /// The model answered with no choice.
    NoChoice,
    /// The model answered, asking for these tools in order.
    ModelReplied { tool_calls: Vec<String> },
    /// The current tool ran and its output was added.
    ToolFinished,
    /// The task board was searched for a claimable task; whether one was found.
    ClaimableFound { found: bool },
}

pub enum TeammateEventView {
    Ready,
    InboxRead { shutdown: bool, count: usize },
    ModelFailed,
    NoChoice,
    ModelReplied { tool_calls: Seq<Seq<char>> },
    ToolFinished,
    ClaimableFound { found: bool },
}

pub open spec fn teammate_event_view(e: TeammateEvent) -> TeammateEventView {
    match e {
        TeammateEvent::Ready => TeammateEventView::Ready,
        TeammateEvent::InboxRead { shutdown, count } => TeammateEventView::InboxRead { shutdown, count },
        TeammateEvent::ModelFailed => TeammateEventView::ModelFailed,
        TeammateEvent::NoChoice => TeammateEventView::NoChoice,
        TeammateEvent::ModelReplied { tool_calls } => TeammateEventView::ModelReplied {
            tool_calls: tool_calls@.map_values(|s: String| s@),
        },
        TeammateEvent::ToolFinished => TeammateEventView::ToolFinished,
        TeammateEvent::ClaimableFound { found } => TeammateEventView::ClaimableFound { found },
    }
}

/// What the teammate is to do next.
#[derive(Debug, Clone, PartialEq, Eq)]
pub enum TeammateAction {
    /// Read the inbox and add its messages to the conversation.
    ReadInbox,
    /// Call the model with the teammate's tools.
    CallModel,
    /// Run the tool of the turn at this position.
    RunTool { index: usize, name: String },
    /// Set the status to idle, then wait for work.
    GoIdle,
    /// Wait one poll interval, then read the inbox.
    PollInbox,
    /// Look on the task board for a claimable task.
    LookForTask,
    /// Set the status to working and start over with the messages read.
    Resume,
    /// Claim the task found, note it in the conversation, set the status to
    /// working and start over.
    ClaimAndResume,
    /// Set the status to shutdown; the loop is over.
    Shutdown,
    /// The event does not fit where the loop stands; nothing changes.
    Ignore,
}

pub enum TeammateActionView {
    ReadInbox,
    CallModel,
    RunTool { index: usize, name: Seq<char> },
    GoIdle,
    PollInbox,
    LookForTask,
    Resume,
    ClaimAndResume,
    Shutdown,
    Ignore,
}

pub open spec fn teammate_action_view(a: TeammateAction) -> TeammateActionView {
    match a {
        TeammateAction::ReadInbox => TeammateActionView::ReadInbox,
        TeammateAction::CallModel => TeammateActionView::CallModel,
        TeammateAction::RunTool { index, name } => TeammateActionView::RunTool { index, name: name@ },
        TeammateAction::GoIdle => TeammateActionView::GoIdle,
        TeammateAction::PollInbox => TeammateActionView::PollInbox,
        TeammateAction::LookForTask => TeammateActionView::LookForTask,
        TeammateAction::Resume => TeammateActionView::Resume,
        TeammateAction::ClaimAndResume => TeammateActionView::ClaimAndResume,
        TeammateAction::Shutdown => TeammateActionView::Shutdown,
        TeammateAction::Ignore => TeammateActionView::Ignore,
    }
}

/// The teammate goes idle, with no poll made yet.
pub open spec fn gone_idle(s: TeammateLoopView) -> (TeammateLoopView, TeammateActionView) {
    (
        TeammateLoopView { idle: true, polls: 0, turn_tools: Seq::empty(), next_tool: 0, ..s },
        TeammateActionView::GoIdle,
    )
}

/// The teammate works again from its first turn.
pub open spec fn resumed(s: TeammateLoopView, a: TeammateActionView) -> (TeammateLoopView, TeammateActionView) {
    (TeammateLoopView { idle: false, turns: 0, polls: 0, ..s }, a)
}

/// The next turn while working, or idle when the turns are used up; the next
/// poll while idle, or shutdown when the polls are used up.
pub open spec fn next_turn(s: TeammateLoopView) -> (TeammateLoopView, TeammateActionView) {
    if !s.idle {
        if s.turns >= s.max_turns {
            gone_idle(s)
        } else {
            (
                TeammateLoopView {
                    turns: (s.turns + 1) as usize,
                    turn_tools: Seq::empty(),
                    next_tool: 0,
                    idle_requested: false,
                    ..s
                },
                TeammateActionView::ReadInbox,
            )
        }
    } else if s.polls >= s.poll_limit {
        (TeammateLoopView { done: true, ..s }, TeammateActionView::Shutdown)
    } else {
        (TeammateLoopView { polls: (s.polls + 1) as usize, ..s }, TeammateActionView::PollInbox)
    }
}

/// One step of a teammate's loop.
///
/// - Working: each turn reads the inbox (a shutdown request ends the loop),
///   then calls the model; a failed call ends the loop; no choice or no tool
///   sends the teammate idle; the tools asked for run in order, and once they
///   ran the teammate goes idle when one of them was `idle`, else takes its
///   next turn. After its last turn it goes idle.
/// - Idle: each poll reads the inbox; a shutdown request ends the loop,
///   messages make it work again; else it looks for a claimable task, which
///   it claims and works on. When the polls are used up it shuts down.
pub open spec fn teammate_step_spec(s: TeammateLoopView, e: TeammateEventView) -> (
    TeammateLoopView,
    TeammateActionView,
) {
    if s.done {
        (s, TeammateActionView::Ignore)
    } else {
        match e {
            TeammateEventView::Ready => next_turn(s),
            TeammateEventView::InboxRead { shutdown, count } => if shutdown {
                (TeammateLoopView { done: true, ..s }, TeammateActionView::Shutdown)
            } else if !s.idle {
                (s, TeammateActionView::CallModel)
            } else if count > 0 {
                resumed(s, TeammateActionView::Resume)
            } else {
                (s, TeammateActionView::LookForTask)
            },
            TeammateEventView::ModelFailed => if s.idle {
                (s, TeammateActionView::Ignore)
            } else {
                (TeammateLoopView { done: true, ..s }, TeammateActionView::Shutdown)
            },
            TeammateEventView::NoChoice => if s.idle {
                (s, TeammateActionView::Ignore)
            } else {
                gone_idle(s)
            },
            TeammateEventView::ModelReplied { tool_calls } => if s.idle {
                (s, TeammateActionView::Ignore)
            } else if tool_calls.len() == 0 {
                gone_idle(s)
            } else {
                (
                    TeammateLoopView {
                        turn_tools: tool_calls,
                        next_tool: 0,
                        idle_requested: false,
                        ..s
                    },
                    TeammateActionView::RunTool { index: 0, name: tool_calls[0] },
                )
            },
            TeammateEventView::ToolFinished => if s.idle || s.next_tool >= s.turn_tools.len() {
                (s, TeammateActionView::Ignore)
            } else {
                let t = TeammateLoopView {
                    idle_requested: s.idle_requested || teammate_tool_of(s.turn_tools[s.next_tool as int])
                        == TeammateTool::Idle,
                    next_tool: (s.next_tool + 1) as usize,
                    ..s
                };
                if t.next_tool < t.turn_tools.len() {
                    (t, TeammateActionView::RunTool { index: t.next_tool, name: t.turn_tools[t.next_tool as int] })
                } else if t.idle_requested {
                    gone_idle(t)
                } else {
                    next_turn(t)
                }
            },
            TeammateEventView::ClaimableFound { found } => if !s.idle {
                (s, TeammateActionView::Ignore)
            } else if found {
                resumed(s, TeammateActionView::ClaimAndResume)
            } else {
                next_turn(s)
            },
        }
    }
}

impl TeammateLoopState {
    /// A teammate about to start working: up to `max_turns` turns per spell
    /// of work, and `poll_limit` looks for work when idle.
    pub fn new(max_turns: usize, poll_limit: usize) -> (s: Self)
        ensures
            s@ == (TeammateLoopView {
                max_turns,
                poll_limit,
                idle: false,
                turns: 0,
                polls: 0,
                turn_tools: Seq::empty(),
                next_tool: 0,
                idle_requested: false,
                done: false,
            }),
    {
        let s = TeammateLoopState {
            max_turns,
            poll_limit,
            idle: false,
            turns: 0,
            polls: 0,
            turn_tools: Vec::new(),
            next_tool: 0,
            idle_requested: false,
            done: false,
        };
        assert(s.turn_tools@.map_values(|x: String| x@) =~= Seq::<Seq<char>>::empty());
        s
    }

    fn go_idle(&mut self) -> (a: TeammateAction)
        ensures
            (final(self)@, teammate_action_view(a)) == gone_idle(old(self)@),
    {
        self.idle = true;
        self.polls = 0;
        self.turn_tools = Vec::new();
        self.next_tool = 0;
        assert(self.turn_tools@.map_values(|x: String| x@) =~= Seq::<Seq<char>>::empty());
        TeammateAction::GoIdle
    }

    fn next_turn(&mut self) -> (a: TeammateAction)
        ensures
            (final(self)@, teammate_action_view(a)) == next_turn(old(self)@),
    {
        if !self.idle {
            if self.turns >= self.max_turns {
                self.go_idle()
            } else {
                self.turns = self.turns + 1;
                self.turn_tools = Vec::new();
                self.next_tool = 0;
                self.idle_requested = false;
                assert(self.turn_tools@.map_values(|x: String| x@) =~= Seq::<Seq<char>>::empty());
                TeammateAction::ReadInbox
            }
        } else if self.polls >= self.poll_limit {
            self.done = true;
            TeammateAction::Shutdown
        } else {
            self.polls = self.polls + 1;
            TeammateAction::PollInbox
        }
    }

    /// One step of the loop, as `teammate_step_spec` states.
    pub fn step(&mut self, event: TeammateEvent) -> (a: TeammateAction)
        ensures
            (final(self)@, teammate_action_view(a)) == teammate_step_spec(
                old(self)@,
                teammate_event_view(event),
            ),
    {
        if self.done {
            return TeammateAction::Ignore;
        }
        match event {
            TeammateEvent::Ready => self.next_turn(),
            TeammateEvent::InboxRead { shutdown, count } => {
                if shutdown {
                    self.done = true;
                    TeammateAction::Shutdown
                } else if !self.idle {
                    TeammateAction::CallModel
                } else if count > 0 {
                    self.idle = false;
                    self.turns = 0;
                    self.polls = 0;
                    TeammateAction::Resume
                } else {
                    TeammateAction::LookForTask
                }
            },
            TeammateEvent::ModelFailed => {
                if self.idle {
                    TeammateAction::Ignore
                } else {
                    self.done = true;
                    TeammateAction::Shutdown
                }
            },
            TeammateEvent::NoChoice => {
                if self.idle {
                    TeammateAction::Ignore
                } else {
                    self.go_idle()
                }
            },
            TeammateEvent::ModelReplied { tool_calls } => {
                if self.idle {
                    TeammateAction::Ignore
                } else if tool_calls.len() == 0 {
                    self.go_idle()
                } else {
                    let name = owned(tool_calls[0].as_str());
                    self.turn_tools = tool_calls;
                    self.next_tool = 0;
                    self.idle_requested = false;
                    TeammateAction::RunTool { index: 0, name }
                }
            },
            TeammateEvent::ToolFinished => {
                if self.idle || self.next_tool >= self.turn_tools.len() {
                    TeammateAction::Ignore
                } else {
                    let i = self.next_tool;
                    let kind = teammate_tool(self.turn_tools[i].as_str());
                    let is_idle = match kind {
                        TeammateTool::Idle => true,
                        _ => false,
                    };
                    self.idle_requested = self.idle_requested || is_idle;
                    self.next_tool = i + 1;
                    if self.next_tool < self.turn_tools.len() {
                        let name = owned(self.turn_tools[self.next_tool].as_str());
                        TeammateAction::RunTool { index: self.next_tool, name }
                    } else if self.idle_requested {
                        self.go_idle()
                    } else {
                        self.next_turn()
                    }
                }
            },
            TeammateEvent::ClaimableFound { found } => {
                if !self.idle {
                    TeammateAction::Ignore
                } else if found {
                    self.idle = false;
                    self.turns = 0;
                    self.polls = 0;
                    TeammateAction::ClaimAndResume
                } else {
                    self.next_turn()
                }
            },
        }
    }
}

} // verus!

verus! {

/// A teammate keeps within its turns while working and its polls while idle,
/// and a shut-down teammate does nothing more.
pub proof fn lemma_teammate_budget(s: TeammateLoopView, e: TeammateEventView)
    requires
        s.turns <= s.max_turns,
        s.polls <= s.poll_limit,
    ensures
        teammate_step_spec(s, e).0.turns <= s.max_turns,
        teammate_step_spec(s, e).0.polls <= s.poll_limit,
        s.done ==> teammate_step_spec(s, e).0 == s && teammate_step_spec(s, e).1
            is Ignore,
{
}

} // verus!
