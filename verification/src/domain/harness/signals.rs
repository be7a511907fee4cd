use vstd::prelude::*;

use crate::domain::harness::trace::HarnessTraceOutcome;
use crate::lists::texts;
use crate::order::{lemma_text_lt_irreflexive, lemma_text_lt_total, lemma_text_lt_transitive, text_less, text_lt};
use crate::text::{concat2, decimal, owned, str_eq, usize_to_decimal};

verus! {

/// How often a tool was called across the inspected runs.
#[derive(Debug, Clone, PartialEq, Eq)]
pub struct HarnessToolSignal {
    pub name: String,
    pub count: usize,
}

/// A pattern in recent runs that may call for a harness change.
#[derive(Debug, Clone, PartialEq, Eq)]
pub struct HarnessCandidateSignal {
    pub key: String,
    pub severity: String,
    pub summary: String,
    pub trace_ids: Vec<String>,
}

/// What the signal analysis reads of a run trace: its id, its mode and how it
/// ended.
#[derive(Debug, Clone)]
pub struct TraceFacts {
    pub trace_id: String,
    pub mode: String,
    pub outcome: HarnessTraceOutcome,
}

/// `high` from the high threshold on, `medium` from the medium one, else `low`.
pub open spec fn severity_label(count: usize, medium_threshold: usize, high_threshold: usize) -> Seq<
    char,
> {
    if count >= high_threshold {
        "high"@
    } else if count >= medium_threshold {
        "medium"@
    } else {
        "low"@
    }
}

pub fn severity_for_count(count: usize, medium_threshold: usize, high_threshold: usize) -> (s:
    String)
    ensures
        s@ == severity_label(count, medium_threshold, high_threshold),
{
    if count >= high_threshold {
        owned("high")
    } else if count >= medium_threshold {
        owned("medium")
    } else {
        owned("low")
    }
}

/// A property of a run that the analysis counts or selects by.
#[derive(Debug, Clone, Copy, PartialEq, Eq, Structural)]
pub enum TraceCriterion {
    /// The run was in memory mode.
    Memory,
    /// The run succeeded.
    Success,
    /// The run ended in error.
    Errored,
    /// The final answer needed the recovery prompt.
    FinalReplyRecovered,
    /// The run used up its iterations.
    MaxIterations,
    /// The run changed memory or skills.
    SelfEvolutionExecuted,
    /// The run called tools four times or more.
    ToolChurn,
    /// A stateless run that changed memory or skills.
    StatelessSelfEvolution,
}

pub open spec fn holds(c: TraceCriterion, t: TraceFacts) -> bool {
    match c {
        TraceCriterion::Memory => t.mode@ == "memory"@,
        TraceCriterion::Success => t.outcome.status@ == "success"@,
        TraceCriterion::Errored => t.outcome.status@ == "error"@,
        TraceCriterion::FinalReplyRecovered => t.outcome.final_reply_recovered,
        TraceCriterion::MaxIterations => t.outcome.finish_reason@ == "max_iterations"@,
        TraceCriterion::SelfEvolutionExecuted => t.outcome.self_evolution_executed,
        TraceCriterion::ToolChurn => t.outcome.tool_calls >= 4,
        TraceCriterion::StatelessSelfEvolution => t.mode@ == "stateless"@
            && t.outcome.self_evolution_executed,
    }
}

fn holds_exec(c: TraceCriterion, t: &TraceFacts) -> (b: bool)
    ensures
        b == holds(c, *t),
{
    match c {
        TraceCriterion::Memory => str_eq(t.mode.as_str(), "memory"),
        TraceCriterion::Success => str_eq(t.outcome.status.as_str(), "success"),
        TraceCriterion::Errored => str_eq(t.outcome.status.as_str(), "error"),
        TraceCriterion::FinalReplyRecovered => t.outcome.final_reply_recovered,
        TraceCriterion::MaxIterations => str_eq(t.outcome.finish_reason.as_str(), "max_iterations"),
        TraceCriterion::SelfEvolutionExecuted => t.outcome.self_evolution_executed,
        TraceCriterion::ToolChurn => t.outcome.tool_calls >= 4,
        TraceCriterion::StatelessSelfEvolution => str_eq(t.mode.as_str(), "stateless")
            && t.outcome.self_evolution_executed,
    }
}

/// How many runs have the property.
pub open spec fn count_where(ts: Seq<TraceFacts>, c: TraceCriterion) -> nat
    decreases ts.len(),
{
    if ts.len() == 0 {
        0
    } else {
        count_where(ts.drop_last(), c) + if holds(c, ts.last()) {
            1nat
        } else {
            0nat
        }
    }
}

/// The ids of the runs that have the property, in order.
pub open spec fn ids_where(ts: Seq<TraceFacts>, c: TraceCriterion) -> Seq<Seq<char>>
    decreases ts.len(),
{
    if ts.len() == 0 {
        Seq::empty()
    } else if holds(c, ts.last()) {
        ids_where(ts.drop_last(), c).push(ts.last().trace_id@)
    } else {
        ids_where(ts.drop_last(), c)
    }
}

proof fn lemma_count_bound(ts: Seq<TraceFacts>, c: TraceCriterion)
    ensures
        count_where(ts, c) <= ts.len(),
        ids_where(ts, c).len() == count_where(ts, c),
    decreases ts.len(),
{
    if ts.len() > 0 {
        lemma_count_bound(ts.drop_last(), c);
    }
}

/// How many runs have the property.
pub fn count_matching(traces: &Vec<TraceFacts>, c: TraceCriterion) -> (n: usize)
    ensures
        n == count_where(traces@, c),
{
    let mut n: usize = 0;
    let mut i: usize = 0;
    while i < traces.len()
        invariant
            0 <= i <= traces.len(),
            n == count_where(traces@.take(i as int), c),
        decreases traces.len() - i,
    {
        assert(traces@.take(i + 1).drop_last() =~= traces@.take(i as int));
        proof {
            lemma_count_bound(traces@.take(i as int), c);
        }
        if holds_exec(c, &traces[i]) {
            n = n + 1;
        }
        i += 1;
    }
    assert(traces@.take(traces.len() as int) =~= traces@);
    n
}

/// The ids of the runs that have the property, in order.
pub fn matching_trace_ids(traces: &Vec<TraceFacts>, c: TraceCriterion) -> (r: Vec<String>)
    ensures
        texts(r@) == ids_where(traces@, c),
{
    let mut r: Vec<String> = Vec::new();
    let mut i: usize = 0;
    while i < traces.len()
        invariant
            0 <= i <= traces.len(),
            texts(r@) == ids_where(traces@.take(i as int), c),
        decreases traces.len() - i,
    {
        assert(traces@.take(i + 1).drop_last() =~= traces@.take(i as int));
        if holds_exec(c, &traces[i]) {
            let ghost before = r@;
            r.push(owned(traces[i].trace_id.as_str()));
            assert(texts(r@) =~= texts(before).push(traces@[i as int].trace_id@));
        }
        i += 1;
    }
    assert(traces@.take(traces.len() as int) =~= traces@);
    r
}

/// The ids of all runs, in order.
pub open spec fn trace_ids(ts: Seq<TraceFacts>) -> Seq<Seq<char>> {
    ts.map_values(|t: TraceFacts| t.trace_id@)
}

pub fn all_trace_ids(traces: &Vec<TraceFacts>) -> (r: Vec<String>)
    ensures
        texts(r@) == trace_ids(traces@),
{
    let mut r: Vec<String> = Vec::new();
    let mut i: usize = 0;
    while i < traces.len()
        invariant
            0 <= i <= traces.len(),
            r@.len() == i,
            texts(r@) == trace_ids(traces@.take(i as int)),
        decreases traces.len() - i,
    {
        let ghost before = r@;
        r.push(owned(traces[i].trace_id.as_str()));
        assert(texts(r@) =~= texts(before).push(traces@[i as int].trace_id@));
        assert(trace_ids(traces@.take(i + 1)) =~= trace_ids(traces@.take(i as int)).push(
            traces@[i as int].trace_id@,
        ));
        i += 1;
    }
    assert(traces@.take(traces.len() as int) =~= traces@);
    r
}

/// The sum of the tool calls of the runs.
pub open spec fn total_tool_calls(ts: Seq<TraceFacts>) -> nat
    decreases ts.len(),
{
    if ts.len() == 0 {
        0
    } else {
        total_tool_calls(ts.drop_last()) + (ts.last().outcome.tool_calls as nat)
    }
}

/// The sum of the iterations of the runs.
pub open spec fn total_iterations(ts: Seq<TraceFacts>) -> nat
    decreases ts.len(),
{
    if ts.len() == 0 {
        0
    } else {
        total_iterations(ts.drop_last()) + (ts.last().outcome.iterations as nat)
    }
}

proof fn lemma_totals_bound(ts: Seq<TraceFacts>)
    ensures
        total_tool_calls(ts) <= ts.len() * (usize::MAX as nat),
        total_iterations(ts) <= ts.len() * (usize::MAX as nat),
    decreases ts.len(),
{
    if ts.len() > 0 {
        lemma_totals_bound(ts.drop_last());
        assert((ts.len() - 1) * (usize::MAX as nat) + usize::MAX as nat == ts.len() * (
        usize::MAX as nat)) by (nonlinear_arith);
    }
}

/// The sums of the iterations and of the tool calls of the runs.
pub fn trace_totals(traces: &Vec<TraceFacts>) -> (r: (u128, u128))
    ensures
        r.0 as nat == total_iterations(traces@),
        r.1 as nat == total_tool_calls(traces@),
{
    let mut iterations: u128 = 0;
    let mut tool_calls: u128 = 0;
    let mut i: usize = 0;
    while i < traces.len()
        invariant
            0 <= i <= traces.len(),
            iterations as nat == total_iterations(traces@.take(i as int)),
            tool_calls as nat == total_tool_calls(traces@.take(i as int)),
        decreases traces.len() - i,
    {
        assert(traces@.take(i + 1).drop_last() =~= traces@.take(i as int));
        proof {
            lemma_totals_bound(traces@.take(i + 1));
            assert((i + 1) * (usize::MAX as nat) <= (usize::MAX as nat) * (usize::MAX as nat))
                by (nonlinear_arith)
                requires
                    i + 1 <= usize::MAX,
            ;
            assert((usize::MAX as nat) * (usize::MAX as nat) <= u128::MAX) by (nonlinear_arith)
                requires
                    usize::MAX <= u64::MAX,
            ;
        }
        iterations = iterations + traces[i].outcome.iterations as u128;
        tool_calls = tool_calls + traces[i].outcome.tool_calls as u128;
        i += 1;
    }
    assert(traces@.take(traces.len() as int) =~= traces@);
    (iterations, tool_calls)
}

/// A candidate signal as plain text: key, severity, summary and trace ids.
pub open spec fn signal_view(s: HarnessCandidateSignal) -> (
    Seq<char>,
    Seq<char>,
    Seq<char>,
    Seq<Seq<char>>,
) {
    (s.key@, s.severity@, s.summary@, texts(s.trace_ids@))
}

pub open spec fn signal_views(v: Seq<HarnessCandidateSignal>) -> Seq<
    (Seq<char>, Seq<char>, Seq<char>, Seq<Seq<char>>),
> {
    v.map_values(|s: HarnessCandidateSignal| signal_view(s))
}

/// The average tool calls per run is at least `k`, computed exactly; no runs
/// average zero.
pub open spec fn average_at_least(ts: Seq<TraceFacts>, k: nat) -> bool {
    ts.len() > 0 && total_tool_calls(ts) >= k * ts.len()
}

pub open spec fn one_if(
    b: bool,
    s: (Seq<char>, Seq<char>, Seq<char>, Seq<Seq<char>>),
) -> Seq<(Seq<char>, Seq<char>, Seq<char>, Seq<Seq<char>>)> {
    if b {
        seq![s]
    } else {
        Seq::empty()
    }
}

/// The candidate signals of a set of runs, in this order: runs that used up
/// their iterations, runs whose answer needed recovery, runs that ended in
/// error, an average of four tool calls or more per run (high from seven),
/// and stateless runs that changed memory or skills. `avg_text` is the
/// average as the summary shows it.
pub open spec fn candidate_signals(ts: Seq<TraceFacts>, avg_text: Seq<char>) -> Seq<
    (Seq<char>, Seq<char>, Seq<char>, Seq<Seq<char>>),
> {
    let max_ids = ids_where(ts, TraceCriterion::MaxIterations);
    let rec_ids = ids_where(ts, TraceCriterion::FinalReplyRecovered);
    let err_ids = ids_where(ts, TraceCriterion::Errored);
    let churn_ids = ids_where(ts, TraceCriterion::ToolChurn);
    let pol_ids = ids_where(ts, TraceCriterion::StatelessSelfEvolution);
    one_if(
        max_ids.len() > 0,
        (
            "max_iterations"@,
            severity_label(max_ids.len() as usize, 1, 3),
            decimal(max_ids.len())
                + " recent runs exhausted max_iterations; review top-level/system and tool guidance for dead loops."@,
            max_ids,
        ),
    ) + one_if(
        rec_ids.len() > 0,
        (
            "final_reply_recovery"@,
            severity_label(rec_ids.len() as usize, 1, 3),
            decimal(rec_ids.len())
                + " recent runs needed final-answer recovery; inspect recovery prompt and tool-description clarity."@,
            rec_ids,
        ),
    ) + one_if(
        err_ids.len() > 0,
        (
            "run_errors"@,
            severity_label(err_ids.len() as usize, 1, 2),
            decimal(err_ids.len())
                + " recent runs ended in error; inspect failing tools or brittle instructions before changing prompts."@,
            err_ids,
        ),
    ) + one_if(
        average_at_least(ts, 4),
        (
            "tool_churn"@,
            if average_at_least(ts, 7) {
                "high"@
            } else {
                "medium"@
            },
            "Average tool calls per run is "@ + avg_text
                + "; consider tightening tool descriptions or subagent guidance to reduce churn."@,
            churn_ids,
        ),
    ) + one_if(
        pol_ids.len() > 0,
        (
            "stateless_policy_violation"@,
            "high"@,
            "Stateless traces show self-evolution execution; this violates the hard memory-only policy."@,
            pol_ids,
        ),
    )
}

fn push_signal(
    out: &mut Vec<HarnessCandidateSignal>,
    key: &str,
    severity: String,
    summary: String,
    ids: Vec<String>,
)
    ensures
        signal_views(final(out)@) == signal_views(old(out)@).push(
            (key@, severity@, summary@, texts(ids@)),
        ),
{
    let ghost before = out@;
    out.push(HarnessCandidateSignal { key: owned(key), severity, summary, trace_ids: ids });
    assert(signal_views(out@) =~= signal_views(before).push((key@, severity@, summary@, texts(ids@))));
}

/// The candidate signals of a set of runs, as `candidate_signals` states.
pub fn build_candidate_signals(traces: &Vec<TraceFacts>, avg_text: &str) -> (r: Vec<
    HarnessCandidateSignal,
>)
    ensures
        signal_views(r@) == candidate_signals(traces@, avg_text@),
{
    let ghost ts = traces@;
    let mut out: Vec<HarnessCandidateSignal> = Vec::new();
    let ghost mut acc: Seq<(Seq<char>, Seq<char>, Seq<char>, Seq<Seq<char>>)> = Seq::empty();
    assert(signal_views(out@) =~= acc);

    let max_ids = matching_trace_ids(traces, TraceCriterion::MaxIterations);
    proof {
        lemma_count_bound(ts, TraceCriterion::MaxIterations);
    }
    let n = max_ids.len();
    assert(n == ids_where(ts, TraceCriterion::MaxIterations).len());
    if n > 0 {
        let summary = concat2(
            usize_to_decimal(n).as_str(),
            " recent runs exhausted max_iterations; review top-level/system and tool guidance for dead loops.",
        );
        push_signal(&mut out, "max_iterations", severity_for_count(n, 1, 3), summary, max_ids);
    }
    proof {
        acc = one_if(
            n > 0,
            (
                "max_iterations"@,
                severity_label(n, 1, 3),
                decimal(n as nat)
                    + " recent runs exhausted max_iterations; review top-level/system and tool guidance for dead loops."@,
                ids_where(ts, TraceCriterion::MaxIterations),
            ),
        );
        assert(signal_views(out@) =~= acc);
    }

    let rec_ids = matching_trace_ids(traces, TraceCriterion::FinalReplyRecovered);
    let n = rec_ids.len();
    let ghost acc1 = acc;
    if n > 0 {
        let summary = concat2(
            usize_to_decimal(n).as_str(),
            " recent runs needed final-answer recovery; inspect recovery prompt and tool-description clarity.",
        );
        push_signal(&mut out, "final_reply_recovery", severity_for_count(n, 1, 3), summary, rec_ids);
    }
    proof {
        acc = acc1 + one_if(
            n > 0,
            (
                "final_reply_recovery"@,
                severity_label(n, 1, 3),
                decimal(n as nat)
                    + " recent runs needed final-answer recovery; inspect recovery prompt and tool-description clarity."@,
                ids_where(ts, TraceCriterion::FinalReplyRecovered),
            ),
        );
        assert(signal_views(out@) =~= acc);
    }

    let err_ids = matching_trace_ids(traces, TraceCriterion::Errored);
    let n = err_ids.len();
    let ghost acc2 = acc;
    if n > 0 {
        let summary = concat2(
            usize_to_decimal(n).as_str(),
            " recent runs ended in error; inspect failing tools or brittle instructions before changing prompts.",
        );
        push_signal(&mut out, "run_errors", severity_for_count(n, 1, 2), summary, err_ids);
    }
    proof {
        acc = acc2 + one_if(
            n > 0,
            (
                "run_errors"@,
                severity_label(n, 1, 2),
                decimal(n as nat)
                    + " recent runs ended in error; inspect failing tools or brittle instructions before changing prompts."@,
                ids_where(ts, TraceCriterion::Errored),
            ),
        );
        assert(signal_views(out@) =~= acc);
    }

    let (_iterations, tool_calls) = trace_totals(traces);
    let runs = traces.len() as u128;
    let churn = runs > 0 && tool_calls >= 4 * runs;
    let ghost acc3 = acc;
    if churn {
        let churn_ids = matching_trace_ids(traces, TraceCriterion::ToolChurn);
        let severity = if tool_calls >= 7 * runs {
            owned("high")
        } else {
            owned("medium")
        };
        let head = concat2("Average tool calls per run is ", avg_text);
        let summary = concat2(
            head.as_str(),
            "; consider tightening tool descriptions or subagent guidance to reduce churn.",
        );
        push_signal(&mut out, "tool_churn", severity, summary, churn_ids);
    }
    proof {
        acc = acc3 + one_if(
            average_at_least(ts, 4),
            (
                "tool_churn"@,
                if average_at_least(ts, 7) {
                    "high"@
                } else {
                    "medium"@
                },
                "Average tool calls per run is "@ + avg_text@
                    + "; consider tightening tool descriptions or subagent guidance to reduce churn."@,
                ids_where(ts, TraceCriterion::ToolChurn),
            ),
        );
        assert(signal_views(out@) =~= acc);
    }

    let pol_ids = matching_trace_ids(traces, TraceCriterion::StatelessSelfEvolution);
    let ghost acc4 = acc;
    if pol_ids.len() > 0 {
        push_signal(
            &mut out,
            "stateless_policy_violation",
            owned("high"),
            owned(
                "Stateless traces show self-evolution execution; this violates the hard memory-only policy.",
            ),
            pol_ids,
        );
    }
    proof {
        acc = acc4 + one_if(
            ids_where(ts, TraceCriterion::StatelessSelfEvolution).len() > 0,
            (
                "stateless_policy_violation"@,
                "high"@,
                "Stateless traces show self-evolution execution; this violates the hard memory-only policy."@,
                ids_where(ts, TraceCriterion::StatelessSelfEvolution),
            ),
        );
        assert(signal_views(out@) =~= acc);
        assert(acc =~= candidate_signals(ts, avg_text@));
    }
    out
}

/// Every tool call of the runs, by tool name, run after run.
pub open spec fn all_tool_names(ts: Seq<TraceFacts>) -> Seq<Seq<char>>
    decreases ts.len(),
{
    if ts.len() == 0 {
        Seq::empty()
    } else {
        all_tool_names(ts.drop_last()) + texts(ts.last().outcome.tool_names@)
    }
}

/// How many times `n` occurs in `names`.
pub open spec fn occurrences(names: Seq<Seq<char>>, n: Seq<char>) -> nat
    decreases names.len(),
{
    if names.len() == 0 {
        0
    } else {
        occurrences(names.drop_last(), n) + if names.last() == n {
            1nat
        } else {
            0nat
        }
    }
}

proof fn lemma_occurrences_bound(names: Seq<Seq<char>>, n: Seq<char>)
    ensures
        occurrences(names, n) <= names.len(),
    decreases names.len(),
{
    if names.len() > 0 {
        lemma_occurrences_bound(names.drop_last(), n);
    }
}

/// A tool tally entry as plain values.
pub open spec fn tool_view(t: HarnessToolSignal) -> (Seq<char>, nat) {
    (t.name@, t.count as nat)
}

/// `a` ranks before `b`: more calls, or as many and a name that sorts first.
pub open spec fn ranks_before(a: (Seq<char>, nat), b: (Seq<char>, nat)) -> bool {
    a.1 > b.1 || (a.1 == b.1 && text_lt(a.0, b.0))
}

proof fn lemma_ranks_order(a: (Seq<char>, nat), b: (Seq<char>, nat), c: (Seq<char>, nat))
    ensures
        !ranks_before(a, a),
        !(ranks_before(a, b) && ranks_before(b, a)),
        a.0 != b.0 ==> ranks_before(a, b) || ranks_before(b, a),
        ranks_before(a, b) && ranks_before(b, c) ==> ranks_before(a, c),
{
    lemma_text_lt_irreflexive(a.0);
    lemma_text_lt_total(a.0, b.0);
    if ranks_before(a, b) && ranks_before(b, c) && a.1 == b.1 && b.1 == c.1 {
        lemma_text_lt_transitive(a.0, b.0, c.0);
    }
}

/// The entries are ranked, each strictly before the next.
pub open spec fn ranked(r: Seq<HarnessToolSignal>) -> bool {
    forall|i: int, j: int|
        0 <= i < j < r.len() ==> ranks_before(tool_view(#[trigger] r[i]), tool_view(#[trigger] r[j]))
}

/// `r` is the ranking of the tools called in `names`, cut at `limit`: ranked,
/// each with its number of calls, and every called tool either in it or, when
/// it is full, ranked after all of it.
pub open spec fn is_top_tools(r: Seq<HarnessToolSignal>, names: Seq<Seq<char>>, limit: nat) -> bool {
    &&& r.len() <= limit
    &&& ranked(r)
    &&& forall|i: int|
        0 <= i < r.len() ==> (#[trigger] r[i]).count == occurrences(names, r[i].name@)
            && r[i].count > 0
    &&& forall|n: Seq<char>|
        #![trigger occurrences(names, n)]
        occurrences(names, n) > 0 ==> (exists|i: int| 0 <= i < r.len() && (#[trigger] r[i]).name@ == n)
            || (r.len() == limit && forall|i: int|
            0 <= i < r.len() ==> ranks_before(
                tool_view(#[trigger] r[i]),
                (n, occurrences(names, n)),
            ))
}

fn push_all(out: &mut Vec<String>, items: &Vec<String>)
    ensures
        texts(final(out)@) == texts(old(out)@) + texts(items@),
{
    let ghost start = texts(out@);
    let mut i: usize = 0;
    while i < items.len()
        invariant
            0 <= i <= items.len(),
            texts(out@) == start + texts(items@).take(i as int),
        decreases items.len() - i,
    {
        let ghost before = out@;
        out.push(owned(items[i].as_str()));
        assert(texts(out@) =~= texts(before).push(items@[i as int]@));
        assert(texts(items@).take(i + 1) =~= texts(items@).take(i as int).push(items@[i as int]@));
        i += 1;
    }
    assert(texts(items@).take(items.len() as int) =~= texts(items@));
}

/// Every tool call of the runs, by tool name, run after run.
pub fn collect_tool_names(traces: &Vec<TraceFacts>) -> (r: Vec<String>)
    ensures
        texts(r@) == all_tool_names(traces@),
{
    let mut r: Vec<String> = Vec::new();
    let mut i: usize = 0;
    while i < traces.len()
        invariant
            0 <= i <= traces.len(),
            texts(r@) == all_tool_names(traces@.take(i as int)),
        decreases traces.len() - i,
    {
        assert(traces@.take(i + 1).drop_last() =~= traces@.take(i as int));
        push_all(&mut r, &traces[i].outcome.tool_names);
        i += 1;
    }
    assert(traces@.take(traces.len() as int) =~= traces@);
    r
}

/// A tally of `names`: distinct names, each with its number of occurrences,
/// every occurring name present.
pub open spec fn is_tally(acc: Seq<HarnessToolSignal>, names: Seq<Seq<char>>) -> bool {
    &&& forall|k: int|
        0 <= k < acc.len() ==> (#[trigger] acc[k]).count == occurrences(names, acc[k].name@)
            && acc[k].count > 0
    &&& forall|k: int, l: int| 0 <= k < l < acc.len() ==> (#[trigger] acc[k]).name@ != (#[trigger] acc[l]).name@
    &&& forall|n: Seq<char>|
        #![trigger occurrences(names, n)]
        occurrences(names, n) > 0 ==> exists|k: int| 0 <= k < acc.len() && (#[trigger] acc[k]).name@ == n
}

fn find_tool(acc: &Vec<HarnessToolSignal>, name: &str) -> (r: Option<usize>)
    ensures
        match r {
            Some(k) => k < acc@.len() && acc@[k as int].name@ == name@,
            None => forall|k: int| 0 <= k < acc@.len() ==> (#[trigger] acc@[k]).name@ != name@,
        },
{
    let mut i: usize = 0;
    while i < acc.len()
        invariant
            0 <= i <= acc.len(),
            forall|k: int| 0 <= k < i ==> (#[trigger] acc@[k]).name@ != name@,
        decreases acc.len() - i,
    {
        if str_eq(acc[i].name.as_str(), name) {
            return Some(i);
        }
        i += 1;
    }
    None
}

/// How often each tool name occurs, names in order of first occurrence.
pub fn tally_tools(names: &Vec<String>) -> (acc: Vec<HarnessToolSignal>)
    ensures
        is_tally(acc@, texts(names@)),
{
    let ghost all = texts(names@);
    let mut acc: Vec<HarnessToolSignal> = Vec::new();
    let mut i: usize = 0;
    assert(all.take(0) =~= Seq::<Seq<char>>::empty());
    while i < names.len()
        invariant
            0 <= i <= names.len(),
            all == texts(names@),
            is_tally(acc@, all.take(i as int)),
        decreases names.len() - i,
    {
        let ghost seen = all.take(i as int);
        let ghost next = all.take(i + 1);
        assert(next.drop_last() =~= seen);
        assert(next.last() == names@[i as int]@);
        proof {
            lemma_occurrences_bound(seen, names@[i as int]@);
        }
        let name = names[i].as_str();
        match find_tool(&acc, name) {
            Some(k) => {
                let ghost before = acc@;
                let c = acc[k].count;
                acc.set(k, HarnessToolSignal { name: owned(name), count: c + 1 });
                assert forall|j: int| 0 <= j < acc@.len() implies (#[trigger] acc@[j]).count
                    == occurrences(next, acc@[j].name@) && acc@[j].count > 0 by {
                    if j != k {
                        assert(acc@[j] == before[j]);
                    }
                }
                assert forall|n: Seq<char>| #[trigger]
                    occurrences(next, n) > 0 implies exists|j: int|
                        0 <= j < acc@.len() && (#[trigger] acc@[j]).name@ == n by {
                    if occurrences(seen, n) > 0 {
                        let j = choose|j: int| 0 <= j < before.len() && (#[trigger] before[j]).name@ == n;
                        assert(acc@[j].name@ == n);
                    } else {
                        assert(acc@[k as int].name@ == n);
                    }
                }
                assert forall|a: int, b: int| 0 <= a < b < acc@.len() implies (#[trigger] acc@[a]).name@
                    != (#[trigger] acc@[b]).name@ by {
                    assert(acc@[a].name@ == before[a].name@);
                    assert(acc@[b].name@ == before[b].name@);
                }
            },
            None => {
                let ghost before = acc@;
                acc.push(HarnessToolSignal { name: owned(name), count: 1 });
                assert(occurrences(seen, name@) == 0) by {
                    if occurrences(seen, name@) > 0 {
                        let j = choose|j: int| 0 <= j < before.len() && (#[trigger] before[j]).name@ == name@;
                    }
                }
                assert forall|j: int| 0 <= j < acc@.len() implies (#[trigger] acc@[j]).count
                    == occurrences(next, acc@[j].name@) && acc@[j].count > 0 by {
                    if j < before.len() {
                        assert(acc@[j] == before[j]);
                    }
                }
                assert forall|n: Seq<char>| #[trigger]
                    occurrences(next, n) > 0 implies exists|j: int|
                        0 <= j < acc@.len() && (#[trigger] acc@[j]).name@ == n by {
                    if occurrences(seen, n) > 0 {
                        let j = choose|j: int| 0 <= j < before.len() && (#[trigger] before[j]).name@ == n;
                        assert(acc@[j].name@ == n);
                    } else {
                        assert(acc@[before.len() as int].name@ == n);
                    }
                }
                assert forall|a: int, b: int| 0 <= a < b < acc@.len() implies (#[trigger] acc@[a]).name@
                    != (#[trigger] acc@[b]).name@ by {
                    if b == before.len() {
                        assert(acc@[a] == before[a]);
                    } else {
                        assert(acc@[a] == before[a] && acc@[b] == before[b]);
                    }
                }
            },
        }
        i += 1;
    }
    assert(all.take(names.len() as int) =~= all);
    acc
}

/// Some entry of `b` has the plain values `v`.
pub open spec fn has_entry(b: Seq<HarnessToolSignal>, v: (Seq<char>, nat)) -> bool {
    exists|j: int| 0 <= j < b.len() && tool_view(#[trigger] b[j]) == v
}

/// The same entries, as sets of plain values.
pub open spec fn same_entries(a: Seq<HarnessToolSignal>, b: Seq<HarnessToolSignal>) -> bool {
    &&& forall|i: int| 0 <= i < a.len() ==> has_entry(b, tool_view(#[trigger] a[i]))
    &&& forall|j: int| 0 <= j < b.len() ==> has_entry(a, tool_view(#[trigger] b[j]))
}

proof fn lemma_rank_insert(before: Seq<HarnessToolSignal>, x: HarnessToolSignal, pos: int)
    requires
        ranked(before),
        0 <= pos <= before.len(),
        forall|m: int| 0 <= m < pos ==> ranks_before(tool_view(#[trigger] before[m]), tool_view(x)),
        forall|m: int| pos <= m < before.len() ==> ranks_before(tool_view(x), tool_view(#[trigger] before[m])),
    ensures
        ranked(before.insert(pos, x)),
{
    let r = before.insert(pos, x);
    assert forall|a: int, b: int| 0 <= a < b < r.len() implies ranks_before(
        tool_view(#[trigger] r[a]),
        tool_view(#[trigger] r[b]),
    ) by {
        if b < pos {
            assert(r[a] == before[a] && r[b] == before[b]);
        } else if b == pos {
            assert(r[a] == before[a]);
        } else if a < pos {
            assert(r[a] == before[a] && r[b] == before[b - 1]);
            lemma_ranks_order(tool_view(before[a]), tool_view(x), tool_view(before[b - 1]));
        } else if a == pos {
            assert(r[b] == before[b - 1]);
        } else {
            assert(r[a] == before[a - 1] && r[b] == before[b - 1]);
        }
    }
}

proof fn lemma_same_entries_insert(
    tp: Seq<HarnessToolSignal>,
    before: Seq<HarnessToolSignal>,
    y: HarnessToolSignal,
    x: HarnessToolSignal,
    pos: int,
)
    requires
        same_entries(tp, before),
        tool_view(x) == tool_view(y),
        0 <= pos <= before.len(),
    ensures
        same_entries(tp.push(y), before.insert(pos, x)),
{
    let ta = tp.push(y);
    let r = before.insert(pos, x);
    assert forall|k: int| 0 <= k < ta.len() implies has_entry(r, tool_view(#[trigger] ta[k])) by {
        if k < tp.len() {
            assert(ta[k] == tp[k]);
            assert(has_entry(before, tool_view(tp[k])));
            let j = choose|j: int| 0 <= j < before.len() && tool_view(#[trigger] before[j]) == tool_view(tp[k]);
            if j < pos {
                assert(r[j] == before[j]);
            } else {
                assert(r[j + 1] == before[j]);
            }
        } else {
            assert(r[pos] == x);
        }
    }
    assert forall|j: int| 0 <= j < r.len() implies has_entry(ta, tool_view(#[trigger] r[j])) by {
        if j < pos {
            assert(r[j] == before[j]);
            assert(has_entry(tp, tool_view(before[j])));
            let k = choose|k: int| 0 <= k < tp.len() && tool_view(#[trigger] tp[k]) == tool_view(before[j]);
            assert(ta[k] == tp[k]);
        } else if j > pos {
            assert(r[j] == before[j - 1]);
            assert(has_entry(tp, tool_view(before[j - 1])));
            let k = choose|k: int| 0 <= k < tp.len() && tool_view(#[trigger] tp[k]) == tool_view(before[j - 1]);
            assert(ta[k] == tp[k]);
        } else {
            assert(ta[tp.len() as int] == y);
        }
    }
}

/// The entries ranked: most calls first, ties by name.
pub fn rank_tools(acc: &Vec<HarnessToolSignal>) -> (r: Vec<HarnessToolSignal>)
    requires
        forall|k: int, l: int|
            0 <= k < l < acc@.len() ==> (#[trigger] acc@[k]).name@ != (#[trigger] acc@[l]).name@,
    ensures
        ranked(r@),
        same_entries(acc@, r@),
{
    let mut r: Vec<HarnessToolSignal> = Vec::new();
    let mut i: usize = 0;
    assert(same_entries(acc@.take(0), r@));
    while i < acc.len()
        invariant
            0 <= i <= acc.len(),
            forall|k: int, l: int|
                0 <= k < l < acc@.len() ==> (#[trigger] acc@[k]).name@ != (#[trigger] acc@[l]).name@,
            ranked(r@),
            same_entries(acc@.take(i as int), r@),
        decreases acc.len() - i,
    {
        let x = HarnessToolSignal { name: owned(acc[i].name.as_str()), count: acc[i].count };
        let ghost xv = tool_view(x);
        let ghost before = r@;
        let ghost tp = acc@.take(i as int);
        assert forall|m: int| 0 <= m < before.len() implies (#[trigger] before[m]).name@ != xv.0 by {
            assert(has_entry(tp, tool_view(before[m])));
            let k = choose|k: int| 0 <= k < tp.len() && tool_view(#[trigger] tp[k]) == tool_view(before[m]);
            assert(tp[k] == acc@[k]);
        }
        let mut pos: usize = 0;
        while pos < r.len() && !rank_first(&x, &r[pos])
            invariant
                0 <= pos <= r.len(),
                r@ == before,
                xv == tool_view(x),
                forall|m: int| 0 <= m < pos ==> ranks_before(tool_view(#[trigger] before[m]), xv),
                forall|m: int| 0 <= m < before.len() ==> (#[trigger] before[m]).name@ != xv.0,
            decreases r.len() - pos,
        {
            proof {
                assert(before[pos as int].name@ != xv.0);
                assert(!ranks_before(xv, tool_view(before[pos as int])));
                lemma_ranks_order(tool_view(before[pos as int]), xv, xv);
            }
            pos += 1;
        }
        proof {
            assert forall|m: int| pos <= m < before.len() implies ranks_before(
                xv,
                tool_view(#[trigger] before[m]),
            ) by {
                assert(ranks_before(xv, tool_view(before[pos as int])));
                if m > pos {
                    assert(ranks_before(tool_view(before[pos as int]), tool_view(before[m])));
                    lemma_ranks_order(xv, tool_view(before[pos as int]), tool_view(before[m]));
                }
            }
            lemma_rank_insert(before, x, pos as int);
            assert(acc@.take(i + 1) =~= tp.push(acc@[i as int]));
            lemma_same_entries_insert(tp, before, acc@[i as int], x, pos as int);
        }
        r.insert(pos, x);
        i += 1;
    }
    assert(acc@.take(acc.len() as int) =~= acc@);
    r
}

fn rank_first(a: &HarnessToolSignal, b: &HarnessToolSignal) -> (r: bool)
    ensures
        r == ranks_before(tool_view(*a), tool_view(*b)),
{
    a.count > b.count || (a.count == b.count && text_less(a.name.as_str(), b.name.as_str()))
}

/// The ten most called tools of the runs, ranked: most calls first, ties by
/// name.
pub fn top_tools(traces: &Vec<TraceFacts>) -> (r: Vec<HarnessToolSignal>)
    requires
        all_tool_names(traces@).len() <= usize::MAX,
    ensures
        is_top_tools(r@, all_tool_names(traces@), 10),
{
    let names = collect_tool_names(traces);
    let acc = tally_tools(&names);
    let mut r = rank_tools(&acc);
    let ghost full = r@;
    let ghost all = texts(names@);
    r.truncate(10);
    proof {
        assert(r@ =~= if full.len() > 10 { full.take(10) } else { full });
        assert forall|i: int| 0 <= i < r@.len() implies (#[trigger] r@[i]).count == occurrences(all, r@[i].name@)
            && r@[i].count > 0 by {
            assert(r@[i] == full[i]);
            assert(has_entry(acc@, tool_view(full[i])));
            let k = choose|k: int| 0 <= k < acc@.len() && tool_view(#[trigger] acc@[k]) == tool_view(full[i]);
        }
        assert forall|n: Seq<char>| #![trigger occurrences(all, n)]
            occurrences(all, n) > 0 implies (exists|i: int| 0 <= i < r@.len() && (#[trigger] r@[i]).name@ == n)
            || (r@.len() == 10 && forall|i: int| 0 <= i < r@.len() ==> ranks_before(
                tool_view(#[trigger] r@[i]),
                (n, occurrences(all, n)),
            )) by {
            let k = choose|k: int| 0 <= k < acc@.len() && (#[trigger] acc@[k]).name@ == n;
            assert(has_entry(full, tool_view(acc@[k])));
            let m = choose|m: int| 0 <= m < full.len() && tool_view(#[trigger] full[m]) == tool_view(acc@[k]);
            if m < r@.len() {
                assert(r@[m] == full[m]);
            } else {
                assert forall|i: int| 0 <= i < r@.len() implies ranks_before(
                    tool_view(#[trigger] r@[i]),
                    (n, occurrences(all, n)),
                ) by {
                    assert(r@[i] == full[i]);
                }
            }
        }
        assert forall|a: int, b: int| 0 <= a < b < r@.len() implies ranks_before(
            tool_view(#[trigger] r@[a]),
            tool_view(#[trigger] r@[b]),
        ) by {
            assert(r@[a] == full[a] && r@[b] == full[b]);
        }
    }
    r
}

/// What the analysis of a set of runs finds, in whole numbers: the counts by
/// mode and outcome, the total iterations and tool calls (from which the
/// averages come), the most called tools, the candidate signals and the ids
/// of the runs inspected.
#[derive(Debug, Clone)]
pub struct HarnessSignalCounts {
    pub inspected_traces: usize,
    pub memory_traces: usize,
    pub stateless_traces: usize,
    pub success_traces: usize,
    pub error_traces: usize,
    pub final_reply_recovered_traces: usize,
    pub max_iterations_traces: usize,
    pub self_evolution_executed_traces: usize,
    pub total_iterations: u128,
    pub total_tool_calls: u128,
    pub top_tools: Vec<HarnessToolSignal>,
    pub candidate_signals: Vec<HarnessCandidateSignal>,
    pub recent_trace_ids: Vec<String>,
    pub memory_only_self_evolution: bool,
}

/// Analyses a set of runs, newest first as they are listed. Runs that are
/// not in memory mode count as stateless and runs that did not succeed as
/// errors; `avg_tool_calls_text` is the average number of tool calls as the
/// tool churn signal shows it.
pub fn summarize_harness_traces(traces: &Vec<TraceFacts>, avg_tool_calls_text: &str) -> (r:
    HarnessSignalCounts)
    requires
        all_tool_names(traces@).len() <= usize::MAX,
    ensures
        r.inspected_traces == traces@.len(),
        r.memory_traces == count_where(traces@, TraceCriterion::Memory),
        r.stateless_traces == traces@.len() - count_where(traces@, TraceCriterion::Memory),
        r.success_traces == count_where(traces@, TraceCriterion::Success),
        r.error_traces == traces@.len() - count_where(traces@, TraceCriterion::Success),
        r.final_reply_recovered_traces == count_where(traces@, TraceCriterion::FinalReplyRecovered),
        r.max_iterations_traces == count_where(traces@, TraceCriterion::MaxIterations),
        r.self_evolution_executed_traces == count_where(
            traces@,
            TraceCriterion::SelfEvolutionExecuted,
        ),
        r.total_iterations as nat == total_iterations(traces@),
        r.total_tool_calls as nat == total_tool_calls(traces@),
        is_top_tools(r.top_tools@, all_tool_names(traces@), 10),
        signal_views(r.candidate_signals@) == candidate_signals(traces@, avg_tool_calls_text@),
        texts(r.recent_trace_ids@) == trace_ids(traces@),
        r.memory_only_self_evolution,
{
    let inspected = traces.len();
    let memory = count_matching(traces, TraceCriterion::Memory);
    let success = count_matching(traces, TraceCriterion::Success);
    proof {
        lemma_count_bound(traces@, TraceCriterion::Memory);
        lemma_count_bound(traces@, TraceCriterion::Success);
    }
    let (total_iterations, total_tool_calls) = trace_totals(traces);
    HarnessSignalCounts {
        inspected_traces: inspected,
        memory_traces: memory,
        stateless_traces: inspected - memory,
        success_traces: success,
        error_traces: inspected - success,
        final_reply_recovered_traces: count_matching(traces, TraceCriterion::FinalReplyRecovered),
        max_iterations_traces: count_matching(traces, TraceCriterion::MaxIterations),
        self_evolution_executed_traces: count_matching(
            traces,
            TraceCriterion::SelfEvolutionExecuted,
        ),
        total_iterations,
        total_tool_calls,
        top_tools: top_tools(traces),
        candidate_signals: build_candidate_signals(traces, avg_tool_calls_text),
        recent_trace_ids: all_trace_ids(traces),
        memory_only_self_evolution: true,
    }
}

} // verus!
