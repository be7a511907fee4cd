use vstd::prelude::*;

use crate::text::{
    chars_of, concat2, decimal, has_prefix, owned, push_char, push_str, string_from_range,
    usize_to_decimal,
};

verus! {

/// Where the recorded runs of a repository are kept.
pub const RUNS_DIR: &'static str = ".omx/runs";

/// What a recorded step of an agent run is.
#[derive(Debug, Clone, Copy, PartialEq, Eq, Structural)]
pub enum AgentRunStepKind {
    InitialState,
    Compaction,
    LlmRequest,
    LlmResponse,
    ToolCall,
    ToolResult,
    Final,
    Error,
}

impl AgentRunStepKind {
    pub open spec fn label(self) -> Seq<char> {
        match self {
            AgentRunStepKind::InitialState => "initial_state"@,
            AgentRunStepKind::Compaction => "compaction"@,
            AgentRunStepKind::LlmRequest => "llm_request"@,
            AgentRunStepKind::LlmResponse => "llm_response"@,
            AgentRunStepKind::ToolCall => "tool_call"@,
            AgentRunStepKind::ToolResult => "tool_result"@,
            AgentRunStepKind::Final => "final"@,
            AgentRunStepKind::Error => "error"@,
        }
    }

    /// The name under which a step of this kind is stored.
    pub fn as_str(&self) -> (s: &'static str)
        ensures
            s@ == self.label(),
    {
        match self {
            AgentRunStepKind::InitialState => "initial_state",
            AgentRunStepKind::Compaction => "compaction",
            AgentRunStepKind::LlmRequest => "llm_request",
            AgentRunStepKind::LlmResponse => "llm_response",
            AgentRunStepKind::ToolCall => "tool_call",
            AgentRunStepKind::ToolResult => "tool_result",
            AgentRunStepKind::Final => "final",
            AgentRunStepKind::Error => "error",
        }
    }
}

/// What is recorded of an agent run as a whole.
#[derive(Debug, Clone)]
pub struct AgentRunManifest {
    pub run_id: String,
    pub trace_id: String,
    pub user_id: String,
    pub session_id: Option<String>,
    pub mode: String,
    pub run_kind: String,
    pub model_id: String,
    pub harness_snapshot_id: String,
    pub started_at_ms: u128,
    pub finished_at_ms: Option<u128>,
    pub status: String,
    pub finish_reason: Option<String>,
    pub error: Option<String>,
    pub step_count: usize,
    pub last_step_index: Option<usize>,
}

/// `s` with every leading repetition of `p` removed (`str::trim_start_matches`).
pub open spec fn strip_leading(s: Seq<char>, p: Seq<char>) -> Seq<char>
    decreases s.len(),
{
    if p.len() > 0 && has_prefix(s, p) {
        strip_leading(s.skip(p.len() as int), p)
    } else {
        s
    }
}

/// The id of the run of a trace: `arun-` and the trace id without its
/// `htrace-` prefixes.
pub open spec fn run_id_of(trace_id: Seq<char>) -> Seq<char> {
    "arun-"@ + strip_leading(trace_id, "htrace-"@)
}

fn strip_trace_prefix(trace_id: &str) -> (r: String)
    ensures
        r@ == strip_leading(trace_id@, "htrace-"@),
{
    let v = chars_of(trace_id);
    let p = chars_of("htrace-");
    proof {
        reveal_strlit("htrace-");
    }
    let mut i: usize = 0;
    assert(v@.skip(0) =~= v@);
    while v.len() >= 7 && i <= v.len() - 7 && prefix_at(&v, &p, i)
        invariant
            0 <= i <= v.len(),
            v@ == trace_id@,
            p@ == "htrace-"@,
            p@.len() == 7,
            strip_leading(v@.skip(i as int), p@) == strip_leading(trace_id@, p@),
        decreases v.len() - i,
    {
        assert(has_prefix(v@.skip(i as int), p@));
        assert(v@.skip(i as int).skip(7) =~= v@.skip(i + 7));
        i += 7;
    }
    proof {
        let rest = v@.skip(i as int);
        if i + 7 <= v.len() {
            assert(!has_prefix(rest, p@));
        } else {
            assert(rest.len() < 7);
        }
    }
    string_from_range(&v, i, v.len())
}

fn prefix_at(v: &Vec<char>, p: &Vec<char>, i: usize) -> (b: bool)
    requires
        i + p.len() <= v.len(),
    ensures
        b == has_prefix(v@.skip(i as int), p@),
{
    let mut k: usize = 0;
    while k < p.len()
        invariant
            0 <= k <= p.len(),
            i + p.len() <= v.len(),
            forall|j: int| 0 <= j < k ==> v@[i + j] == p@[j],
        decreases p.len() - k,
    {
        if v[i + k] != p[k] {
            assert(v@.skip(i as int).subrange(0, p@.len() as int)[k as int] != p@[k as int]);
            return false;
        }
        k += 1;
    }
    assert(v@.skip(i as int).subrange(0, p@.len() as int) =~= p@);
    true
}

/// The file of a recorded step: its index in six digits, zero-padded.
pub open spec fn step_file_name(index: usize) -> Seq<char> {
    let d = decimal(index as nat);
    (if d.len() < 6 {
        Seq::new((6 - d.len()) as nat, |i: int| '0') + d
    } else {
        d
    }) + ".json"@
}

pub fn step_file(index: usize) -> (s: String)
    ensures
        s@ == step_file_name(index),
{
    let d = usize_to_decimal(index);
    let n = chars_of(d.as_str()).len();
    let mut s = String::new();
    if n < 6 {
        let mut i: usize = 0;
        while i < 6 - n
            invariant
                0 <= i <= 6 - n,
                n < 6,
                s@ == Seq::new(i as nat, |k: int| '0'),
            decreases 6 - n - i,
        {
            push_char(&mut s, '0');
            assert(s@ =~= Seq::new((i + 1) as nat, |k: int| '0'));
            i += 1;
        }
    }
    push_str(&mut s, d.as_str());
    push_str(&mut s, ".json");
    s
}

/// Records the steps of one agent run of a user.
#[derive(Debug, Clone)]
pub struct AgentRunRecorder {
    repo_root: String,
    user_id: String,
    run_id: String,
}

impl AgentRunRecorder {
    pub closed spec fn spec_run_id(self) -> Seq<char> {
        self.run_id@
    }

    pub closed spec fn spec_user_id(self) -> Seq<char> {
        self.user_id@
    }

    pub closed spec fn spec_repo_root(self) -> Seq<char> {
        self.repo_root@
    }

    /// Starts recording the run of a trace: the recorder, and the manifest of a
    /// running run with no steps yet.
    pub fn start(
        repo_root: &str,
        user_id: &str,
        trace_id: &str,
        session_id: Option<String>,
        mode: &str,
        run_kind: &str,
        model_id: &str,
        harness_snapshot_id: &str,
        started_at_ms: u128,
    ) -> (r: (Self, AgentRunManifest))
        ensures
            r.0.spec_run_id() == run_id_of(trace_id@),
            r.0.spec_user_id() == user_id@,
            r.0.spec_repo_root() == repo_root@,
            r.1.run_id@ == run_id_of(trace_id@),
            r.1.trace_id@ == trace_id@,
            r.1.user_id@ == user_id@,
            r.1.session_id == session_id,
            r.1.mode@ == mode@,
            r.1.run_kind@ == run_kind@,
            r.1.model_id@ == model_id@,
            r.1.harness_snapshot_id@ == harness_snapshot_id@,
            r.1.started_at_ms == started_at_ms,
            r.1.finished_at_ms is None,
            r.1.status@ == "running"@,
            r.1.finish_reason is None,
            r.1.error is None,
            r.1.step_count == 0,
            r.1.last_step_index is None,
    {
        let stripped = strip_trace_prefix(trace_id);
        let run_id = concat2("arun-", stripped.as_str());
        let recorder = AgentRunRecorder {
            repo_root: owned(repo_root),
            user_id: owned(user_id),
            run_id: owned(run_id.as_str()),
        };
        let manifest = AgentRunManifest {
            run_id,
            trace_id: owned(trace_id),
            user_id: owned(user_id),
            session_id,
            mode: owned(mode),
            run_kind: owned(run_kind),
            model_id: owned(model_id),
            harness_snapshot_id: owned(harness_snapshot_id),
            started_at_ms,
            finished_at_ms: None,
            status: owned("running"),
            finish_reason: None,
            error: None,
            step_count: 0,
            last_step_index: None,
        };
        (recorder, manifest)
    }

    pub fn run_id(&self) -> (s: &str)
        ensures
            s@ == self.spec_run_id(),
    {
        self.run_id.as_str()
    }

    pub fn user_id(&self) -> (s: &str)
        ensures
            s@ == self.spec_user_id(),
    {
        self.user_id.as_str()
    }

    pub fn repo_root(&self) -> (s: &str)
        ensures
            s@ == self.spec_repo_root(),
    {
        self.repo_root.as_str()
    }

    /// The manifest after a step was recorded: one step more (held at the
    /// largest count) and the step's index as the last one.
    pub fn record_step(&self, manifest: &mut AgentRunManifest, step_index: usize)
        ensures
            final(manifest).step_count == if old(manifest).step_count == usize::MAX {
                usize::MAX
            } else {
                (old(manifest).step_count + 1) as usize
            },
            final(manifest).last_step_index == Some(step_index),
            final(manifest).run_id == old(manifest).run_id,
            final(manifest).trace_id == old(manifest).trace_id,
            final(manifest).user_id == old(manifest).user_id,
            final(manifest).session_id == old(manifest).session_id,
            final(manifest).mode == old(manifest).mode,
            final(manifest).run_kind == old(manifest).run_kind,
            final(manifest).model_id == old(manifest).model_id,
            final(manifest).harness_snapshot_id == old(manifest).harness_snapshot_id,
            final(manifest).started_at_ms == old(manifest).started_at_ms,
            final(manifest).finished_at_ms == old(manifest).finished_at_ms,
            final(manifest).status == old(manifest).status,
            final(manifest).finish_reason == old(manifest).finish_reason,
            final(manifest).error == old(manifest).error,
    {
        manifest.step_count = manifest.step_count.saturating_add(1);
        manifest.last_step_index = Some(step_index);
    }

    /// The manifest of a finished run.
    pub fn finish(
        &self,
        manifest: &mut AgentRunManifest,
        status: &str,
        finish_reason: Option<String>,
        error: Option<String>,
        finished_at_ms: u128,
    )
        ensures
            final(manifest).finished_at_ms == Some(finished_at_ms),
            final(manifest).status@ == status@,
            final(manifest).finish_reason == finish_reason,
            final(manifest).error == error,
            final(manifest).run_id == old(manifest).run_id,
            final(manifest).trace_id == old(manifest).trace_id,
            final(manifest).user_id == old(manifest).user_id,
            final(manifest).session_id == old(manifest).session_id,
            final(manifest).mode == old(manifest).mode,
            final(manifest).run_kind == old(manifest).run_kind,
            final(manifest).model_id == old(manifest).model_id,
            final(manifest).harness_snapshot_id == old(manifest).harness_snapshot_id,
            final(manifest).started_at_ms == old(manifest).started_at_ms,
            final(manifest).step_count == old(manifest).step_count,
            final(manifest).last_step_index == old(manifest).last_step_index,
    {
        manifest.finished_at_ms = Some(finished_at_ms);
        manifest.status = owned(status);
        manifest.finish_reason = finish_reason;
        manifest.error = error;
    }
}

// ---------------------------------------------------------------------------
// Listing runs
// ---------------------------------------------------------------------------

/// How many runs a listing shows at most.
pub const MAX_LISTED_RUNS: usize = 500;

/// `a` is listed before `b`: it started later, or at the same time and was
/// found earlier.
pub open spec fn listed_before(a: (usize, u128), b: (usize, u128)) -> bool {
    a.1 > b.1 || (a.1 == b.1 && a.0 < b.0)
}

pub open spec fn listing_limit(limit: usize) -> usize {
    if limit < 1 {
        1
    } else if limit > MAX_LISTED_RUNS {
        MAX_LISTED_RUNS
    } else {
        limit
    }
}

/// The runs a listing shows, by their positions among the `started` times:
/// the latest started first (the one found first among equal times), at most
/// `n` of them, and no run left out that would come before one shown.
pub open spec fn is_top_listing(r: Seq<(usize, u128)>, started: Seq<u128>, n: nat) -> bool {
    &&& r.len() == if started.len() < n {
        started.len()
    } else {
        n
    }
    &&& forall|i: int, j: int| 0 <= i < j < r.len() ==> listed_before(#[trigger] r[i], #[trigger] r[j])
    &&& forall|i: int| 0 <= i < r.len() ==> (#[trigger] r[i]).0 < started.len() && r[i].1 == started[r[i].0 as int]
    &&& forall|k: int, i: int|
        #![trigger r[i], started[k]]
        0 <= k < started.len() && !shown(r, k) && 0 <= i < r.len() ==> listed_before(
            r[i],
            (k as usize, started[k]),
        )
}

/// Whether the run found at position `k` is among those listed.
pub open spec fn shown(r: Seq<(usize, u128)>, k: int) -> bool {
    exists|a: int| 0 <= a < r.len() && (#[trigger] r[a]).0 == k
}

proof fn lemma_listed_order(a: (usize, u128), b: (usize, u128), c: (usize, u128))
    ensures
        !listed_before(a, a),
        a.0 != b.0 ==> listed_before(a, b) || listed_before(b, a),
        listed_before(a, b) && listed_before(b, c) ==> listed_before(a, c),
{
}

/// Which runs a listing shows, latest first, given when each started (in the
/// order they were found); `limit` is kept within 1 to 500.
pub fn recent_runs(started: &Vec<u128>, limit: usize) -> (r: Vec<(usize, u128)>)
    ensures
        is_top_listing(r@, started@, listing_limit(limit) as nat),
{
    let mut all: Vec<(usize, u128)> = Vec::new();
    let mut i: usize = 0;
    while i < started.len()
        invariant
            0 <= i <= started.len(),
            all@.len() == i,
            forall|a: int, b: int| 0 <= a < b < all@.len() ==> listed_before(#[trigger] all@[a], #[trigger] all@[b]),
            forall|a: int| 0 <= a < all@.len() ==> (#[trigger] all@[a]).0 < i && all@[a].1 == started@[all@[a].0 as int],
            forall|k: int| 0 <= k < i ==> #[trigger] shown(all@, k),
        decreases started.len() - i,
    {
        let x = (i, started[i]);
        let ghost before = all@;
        let mut pos: usize = 0;
        while pos < all.len() && !(x.1 > all[pos].1)
            invariant
                0 <= pos <= all.len(),
                all@ == before,
                forall|a: int| 0 <= a < before.len() ==> (#[trigger] before[a]).0 < x.0,
                forall|a: int| 0 <= a < pos ==> listed_before(#[trigger] before[a], x),
            decreases all.len() - pos,
        {
            assert(before[pos as int].0 < x.0);
            pos += 1;
        }
        proof {
            assert forall|a: int| pos <= a < before.len() implies listed_before(x, #[trigger] before[a]) by {
                assert(x.1 > before[pos as int].1);
                if a > pos {
                    assert(listed_before(before[pos as int], before[a]));
                }
            }
        }
        all.insert(pos, x);
        proof {
            assert(all@ =~= before.insert(pos as int, x));
            assert forall|a: int, b: int| 0 <= a < b < all@.len() implies listed_before(
                #[trigger] all@[a],
                #[trigger] all@[b],
            ) by {
                if b < pos {
                    assert(all@[a] == before[a] && all@[b] == before[b]);
                } else if b == pos {
                    assert(all@[a] == before[a]);
                } else if a < pos {
                    assert(all@[a] == before[a] && all@[b] == before[b - 1]);
                    lemma_listed_order(before[a], x, before[b - 1]);
                } else if a == pos {
                    assert(all@[b] == before[b - 1]);
                } else {
                    assert(all@[a] == before[a - 1] && all@[b] == before[b - 1]);
                }
            }
            assert forall|a: int| 0 <= a < all@.len() implies (#[trigger] all@[a]).0 < i + 1
                && all@[a].1 == started@[all@[a].0 as int] by {
                if a < pos {
                    assert(all@[a] == before[a]);
                } else if a > pos {
                    assert(all@[a] == before[a - 1]);
                }
            }
            assert forall|k: int| 0 <= k < i + 1 implies #[trigger] shown(all@, k) by {
                if k < i {
                    assert(shown(before, k));
                    let a = choose|a: int| 0 <= a < before.len() && (#[trigger] before[a]).0 == k;
                    if a < pos {
                        assert(all@[a] == before[a]);
                    } else {
                        assert(all@[a + 1] == before[a]);
                    }
                } else {
                    assert(all@[pos as int] == x);
                }
            }
        }
        i += 1;
    }
    let n: usize = if limit < 1 {
        1
    } else if limit > MAX_LISTED_RUNS {
        MAX_LISTED_RUNS
    } else {
        limit
    };
    let ghost full = all@;
    all.truncate(n);
    proof {
        assert(all@ =~= if full.len() <= n { full } else { full.take(n as int) });
        assert forall|k: int, i: int|
            #![trigger all@[i], started@[k]]
            0 <= k < started@.len() && !shown(all@, k) && 0 <= i < all@.len() implies listed_before(
            all@[i],
            (k as usize, started@[k]),
        ) by {
            assert(shown(full, k));
            let a = choose|a: int| 0 <= a < full.len() && (#[trigger] full[a]).0 == k;
            if a < all@.len() {
                assert(all@[a].0 == k);
            }
            assert(all@[i] == full[i]);
            assert(full[a] == (k as usize, started@[k]));
        }
    }
    all
}

} // verus!
