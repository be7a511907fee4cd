use vstd::prelude::*;

use crate::digest::{sha1_hex, sha1_hex_of};
use crate::domain::harness::decision::HarnessDecisionStatus;
use crate::domain::harness::signals::HarnessCandidateSignal;
use crate::json::{json_quoted, json_string_array, push_json_string, push_json_string_array};
use crate::lists::texts;
use crate::text::{concat2, owned, push_str, str_eq};

verus! {

/// A proposed harness decision drawn up from one candidate signal.
#[derive(Debug, Clone)]
pub struct HarnessDecisionDraft {
    pub draft_id: String,
    pub signal_key: String,
    pub severity: String,
    pub title: String,
    pub summary: String,
    pub rationale: String,
    pub expected_impact: Vec<String>,
    pub changed_surfaces: Vec<String>,
    pub validation_plan: Vec<String>,
    pub mode_scope: String,
    pub recommended_status: HarnessDecisionStatus,
    pub related_trace_ids: Vec<String>,
    pub snapshot_before_id: Option<String>,
}

/// The texts of a draft for a signal.
pub struct DraftTexts {
    pub title: Seq<char>,
    pub rationale: Seq<char>,
    pub expected_impact: Seq<Seq<char>>,
    pub changed_surfaces: Seq<Seq<char>>,
    pub validation_plan: Seq<Seq<char>>,
}

/// What a draft proposes for a signal key: a fixed plan for each known
/// signal, and for any other key an investigation built on its summary.
pub open spec fn draft_texts(key: Seq<char>, summary: Seq<char>) -> DraftTexts {
    if key == "max_iterations"@ {
        DraftTexts {
            title: "Reduce repeated max-iteration stalls"@,
            rationale: "Recent traces repeatedly exhausted the iteration budget, which suggests the current top-level guidance or tool descriptions allow loops without converging on a user-visible answer."@,
            expected_impact: seq!["Lower the number of runs that terminate at max_iterations"@, "Reduce unproductive tool loops before the final answer"@],
            changed_surfaces: seq!["system.base"@, "subagents.shared"@, "subagents.general_purpose"@, "tools.descriptions"@],
            validation_plan: seq!["Review the related traces for repeated tool-call patterns"@, "Apply a minimal prompt/tool-description change in memory mode only"@, "Compare the next 5-10 traces for max_iterations frequency and tool-call count"@],
        }
    } else if key == "final_reply_recovery"@ {
        DraftTexts {
            title: "Reduce final-answer recovery dependence"@,
            rationale: "Several recent runs only produced a user-visible answer after the recovery middleware intervened, which suggests the harness is not reliably guiding the model to close the loop on its own."@,
            expected_impact: seq!["Increase first-pass completion rate without recovery"@, "Make tool-use completion criteria clearer to the model"@],
            changed_surfaces: seq!["middleware.final_answer_recovery"@, "subagents.general_purpose"@, "tools.descriptions"@],
            validation_plan: seq!["Inspect recovered traces for missing final-answer patterns"@, "Adjust completion guidance conservatively"@, "Verify that subsequent runs end with direct final answers more often"@],
        }
    } else if key == "run_errors"@ {
        DraftTexts {
            title: "Reduce harness-driven run errors"@,
            rationale: "Recent runs failed before completing, so the next improvement should prioritize clearer tool expectations and safer orchestration before any aggressive self-evolution work."@,
            expected_impact: seq!["Lower error-rate in recent harness traces"@, "Reduce brittle or ambiguous tool invocation patterns"@],
            changed_surfaces: seq!["tools.descriptions"@, "subagents.shared"@],
            validation_plan: seq!["Classify the related errors by tool and failure mode"@, "Only change harness guidance if the error is plausibly prompt-induced"@, "Re-check the next traces for error-rate changes"@],
        }
    } else if key == "tool_churn"@ {
        DraftTexts {
            title: "Reduce unnecessary tool churn"@,
            rationale: "The average tool-call count is elevated, which usually means the model lacks crisp guidance about when to stop searching, when to summarize, or which tool is most appropriate."@,
            expected_impact: seq!["Reduce average tool calls per run"@, "Shorten time-to-answer for repetitive workflows"@],
            changed_surfaces: seq!["tools.descriptions"@, "subagents.shared"@, "subagents.explore"@, "subagents.general_purpose"@],
            validation_plan: seq!["Inspect top tools in recent traces to find avoidable repeats"@, "Tighten only the highest-churn guidance first"@, "Verify average tool calls and completion rate on the next batch of traces"@],
        }
    } else if key == "stateless_policy_violation"@ {
        DraftTexts {
            title: "Reinforce stateless no-evolution guardrails"@,
            rationale: "A stateless trace appears to have executed self-evolution behavior, which violates the hard policy that only memory mode may evolve."@,
            expected_impact: seq!["Restore strict stateless no-evolution behavior"@, "Prevent future prompt/runtime drift from bypassing the policy"@],
            changed_surfaces: seq!["runtime.policy.self_evolution"@],
            validation_plan: seq!["Audit the related traces and execution path immediately"@, "Verify that stateless traces always report self_evolution_executed=false"@, "Keep any mitigation active before resuming prompt experiments"@],
        }
    } else {
        DraftTexts {
            title: "Investigate harness signal: "@ + key,
            rationale: summary,
            expected_impact: seq!["Capture a narrower, evidence-backed improvement target"@],
            changed_surfaces: Seq::empty(),
            validation_plan: seq!["Review the related traces"@, "Draft the smallest safe harness change"@, "Validate the next traces before broadening scope"@],
        }
    }
}

fn draft_texts_exec(key: &str, summary: &str) -> (r: (String, String, Vec<String>, Vec<String>, Vec<String>))
    ensures
        ({
            let t = draft_texts(key@, summary@);
            &&& r.0@ == t.title
            &&& r.1@ == t.rationale
            &&& texts(r.2@) == t.expected_impact
            &&& texts(r.3@) == t.changed_surfaces
            &&& texts(r.4@) == t.validation_plan
        }),
{
    if str_eq(key, "max_iterations") {
        let r = (
            owned("Reduce repeated max-iteration stalls"),
            owned("Recent traces repeatedly exhausted the iteration budget, which suggests the current top-level guidance or tool descriptions allow loops without converging on a user-visible answer."),
            vec![owned("Lower the number of runs that terminate at max_iterations"), owned("Reduce unproductive tool loops before the final answer")],
            vec![owned("system.base"), owned("subagents.shared"), owned("subagents.general_purpose"), owned("tools.descriptions")],
            vec![owned("Review the related traces for repeated tool-call patterns"), owned("Apply a minimal prompt/tool-description change in memory mode only"), owned("Compare the next 5-10 traces for max_iterations frequency and tool-call count")],
        );
        assert(texts(r.2@) =~= seq!["Lower the number of runs that terminate at max_iterations"@, "Reduce unproductive tool loops before the final answer"@]);
        assert(texts(r.3@) =~= seq!["system.base"@, "subagents.shared"@, "subagents.general_purpose"@, "tools.descriptions"@]);
        assert(texts(r.4@) =~= seq!["Review the related traces for repeated tool-call patterns"@, "Apply a minimal prompt/tool-description change in memory mode only"@, "Compare the next 5-10 traces for max_iterations frequency and tool-call count"@]);
        r
    } else if str_eq(key, "final_reply_recovery") {
        let r = (
            owned("Reduce final-answer recovery dependence"),
            owned("Several recent runs only produced a user-visible answer after the recovery middleware intervened, which suggests the harness is not reliably guiding the model to close the loop on its own."),
            vec![owned("Increase first-pass completion rate without recovery"), owned("Make tool-use completion criteria clearer to the model")],
            vec![owned("middleware.final_answer_recovery"), owned("subagents.general_purpose"), owned("tools.descriptions")],
            vec![owned("Inspect recovered traces for missing final-answer patterns"), owned("Adjust completion guidance conservatively"), owned("Verify that subsequent runs end with direct final answers more often")],
        );
        assert(texts(r.2@) =~= seq!["Increase first-pass completion rate without recovery"@, "Make tool-use completion criteria clearer to the model"@]);
        assert(texts(r.3@) =~= seq!["middleware.final_answer_recovery"@, "subagents.general_purpose"@, "tools.descriptions"@]);
        assert(texts(r.4@) =~= seq!["Inspect recovered traces for missing final-answer patterns"@, "Adjust completion guidance conservatively"@, "Verify that subsequent runs end with direct final answers more often"@]);
        r
    } else if str_eq(key, "run_errors") {
        let r = (
            owned("Reduce harness-driven run errors"),
            owned("Recent runs failed before completing, so the next improvement should prioritize clearer tool expectations and safer orchestration before any aggressive self-evolution work."),
            vec![owned("Lower error-rate in recent harness traces"), owned("Reduce brittle or ambiguous tool invocation patterns")],
            vec![owned("tools.descriptions"), owned("subagents.shared")],
            vec![owned("Classify the related errors by tool and failure mode"), owned("Only change harness guidance if the error is plausibly prompt-induced"), owned("Re-check the next traces for error-rate changes")],
        );
        assert(texts(r.2@) =~= seq!["Lower error-rate in recent harness traces"@, "Reduce brittle or ambiguous tool invocation patterns"@]);
        assert(texts(r.3@) =~= seq!["tools.descriptions"@, "subagents.shared"@]);
        assert(texts(r.4@) =~= seq!["Classify the related errors by tool and failure mode"@, "Only change harness guidance if the error is plausibly prompt-induced"@, "Re-check the next traces for error-rate changes"@]);
        r
    } else if str_eq(key, "tool_churn") {
        let r = (
            owned("Reduce unnecessary tool churn"),
            owned("The average tool-call count is elevated, which usually means the model lacks crisp guidance about when to stop searching, when to summarize, or which tool is most appropriate."),
            vec![owned("Reduce average tool calls per run"), owned("Shorten time-to-answer for repetitive workflows")],
            vec![owned("tools.descriptions"), owned("subagents.shared"), owned("subagents.explore"), owned("subagents.general_purpose")],
            vec![owned("Inspect top tools in recent traces to find avoidable repeats"), owned("Tighten only the highest-churn guidance first"), owned("Verify average tool calls and completion rate on the next batch of traces")],
        );
        assert(texts(r.2@) =~= seq!["Reduce average tool calls per run"@, "Shorten time-to-answer for repetitive workflows"@]);
        assert(texts(r.3@) =~= seq!["tools.descriptions"@, "subagents.shared"@, "subagents.explore"@, "subagents.general_purpose"@]);
        assert(texts(r.4@) =~= seq!["Inspect top tools in recent traces to find avoidable repeats"@, "Tighten only the highest-churn guidance first"@, "Verify average tool calls and completion rate on the next batch of traces"@]);
        r
    } else if str_eq(key, "stateless_policy_violation") {
        let r = (
            owned("Reinforce stateless no-evolution guardrails"),
            owned("A stateless trace appears to have executed self-evolution behavior, which violates the hard policy that only memory mode may evolve."),
            vec![owned("Restore strict stateless no-evolution behavior"), owned("Prevent future prompt/runtime drift from bypassing the policy")],
            vec![owned("runtime.policy.self_evolution")],
            vec![owned("Audit the related traces and execution path immediately"), owned("Verify that stateless traces always report self_evolution_executed=false"), owned("Keep any mitigation active before resuming prompt experiments")],
        );
        assert(texts(r.2@) =~= seq!["Restore strict stateless no-evolution behavior"@, "Prevent future prompt/runtime drift from bypassing the policy"@]);
        assert(texts(r.3@) =~= seq!["runtime.policy.self_evolution"@]);
        assert(texts(r.4@) =~= seq!["Audit the related traces and execution path immediately"@, "Verify that stateless traces always report self_evolution_executed=false"@, "Keep any mitigation active before resuming prompt experiments"@]);
        r
    } else {
        let r = (
            concat2("Investigate harness signal: ", key),
            owned(summary),
            vec![owned("Capture a narrower, evidence-backed improvement target")],
            Vec::new(),
            vec![owned("Review the related traces"), owned("Draft the smallest safe harness change"), owned("Validate the next traces before broadening scope")],
        );
        assert(texts(r.2@) =~= seq!["Capture a narrower, evidence-backed improvement target"@]);
        assert(texts(r.3@) =~= Seq::<Seq<char>>::empty());
        assert(texts(r.4@) =~= seq!["Review the related traces"@, "Draft the smallest safe harness change"@, "Validate the next traces before broadening scope"@]);
        r
    }
}

/// The compact JSON manifest that identifies a draft: the signal's severity,
/// key and traces and the snapshot it was drawn against, keys in order.
pub open spec fn draft_manifest(
    signal_key: Seq<char>,
    severity: Seq<char>,
    trace_ids: Seq<Seq<char>>,
    snapshot_id: Seq<char>,
) -> Seq<char> {
    "{\"severity\":"@ + json_quoted(severity) + ",\"signal_key\":"@ + json_quoted(signal_key)
        + ",\"snapshot_before_id\":"@ + json_quoted(snapshot_id) + ",\"trace_ids\":"@
        + json_string_array(trace_ids) + "}"@
}

/// A draft's id: `hdraft-` and the SHA-1 of its manifest.
pub open spec fn draft_id_of(
    signal_key: Seq<char>,
    severity: Seq<char>,
    trace_ids: Seq<Seq<char>>,
    snapshot_id: Seq<char>,
) -> Seq<char> {
    "hdraft-"@ + sha1_hex_of(draft_manifest(signal_key, severity, trace_ids, snapshot_id))
}

fn build_draft_manifest(signal: &HarnessCandidateSignal, snapshot_id: &str) -> (m: String)
    ensures
        m@ == draft_manifest(signal.key@, signal.severity@, texts(signal.trace_ids@), snapshot_id@),
{
    let mut out = owned("{\"severity\":");
    push_json_string(&mut out, signal.severity.as_str());
    push_str(&mut out, ",\"signal_key\":");
    push_json_string(&mut out, signal.key.as_str());
    push_str(&mut out, ",\"snapshot_before_id\":");
    push_json_string(&mut out, snapshot_id);
    push_str(&mut out, ",\"trace_ids\":");
    push_json_string_array(&mut out, &signal.trace_ids);
    push_str(&mut out, "}");
    assert(out@ =~= draft_manifest(signal.key@, signal.severity@, texts(signal.trace_ids@), snapshot_id@));
    out
}

fn copy_texts(v: &Vec<String>) -> (r: Vec<String>)
    ensures
        texts(r@) == texts(v@),
{
    let mut r: Vec<String> = Vec::new();
    let mut i: usize = 0;
    while i < v.len()
        invariant
            0 <= i <= v.len(),
            r@.len() == i,
            texts(r@) == texts(v@).take(i as int),
        decreases v.len() - i,
    {
        let ghost before = r@;
        r.push(owned(v[i].as_str()));
        assert(r@ == before.push(r@[i as int]));
        assert(texts(r@) =~= texts(before).push(v@[i as int]@));
        assert(texts(v@).take(i + 1) =~= texts(v@).take(i as int).push(v@[i as int]@));
        i += 1;
    }
    assert(texts(v@).take(v.len() as int) =~= texts(v@));
    r
}

/// The draft is the one drawn from `signal` against the snapshot `snapshot_id`.
pub open spec fn is_draft_for(
    d: HarnessDecisionDraft,
    signal: HarnessCandidateSignal,
    snapshot_id: Seq<char>,
    memory_only_self_evolution: bool,
) -> bool {
    let t = draft_texts(signal.key@, signal.summary@);
    &&& d.draft_id@ == draft_id_of(signal.key@, signal.severity@, texts(signal.trace_ids@), snapshot_id)
    &&& d.signal_key@ == signal.key@
    &&& d.severity@ == signal.severity@
    &&& d.title@ == t.title
    &&& d.summary@ == signal.summary@
    &&& d.rationale@ == t.rationale
    &&& texts(d.expected_impact@) == t.expected_impact
    &&& texts(d.changed_surfaces@) == t.changed_surfaces
    &&& texts(d.validation_plan@) == t.validation_plan
    &&& d.mode_scope@ == (if memory_only_self_evolution { "memory_only"@ } else { "all_modes"@ })
    &&& d.recommended_status == HarnessDecisionStatus::Proposed
    &&& texts(d.related_trace_ids@) == texts(signal.trace_ids@)
    &&& d.snapshot_before_id matches Some(s) && s@ == snapshot_id
}

/// The draft for one signal against the snapshot `snapshot_id`.
pub fn generate_draft(
    signal: &HarnessCandidateSignal,
    snapshot_id: &str,
    memory_only_self_evolution: bool,
) -> (d: HarnessDecisionDraft)
    ensures
        is_draft_for(d, *signal, snapshot_id@, memory_only_self_evolution),
{
    let (title, rationale, expected_impact, changed_surfaces, validation_plan) = draft_texts_exec(
        signal.key.as_str(),
        signal.summary.as_str(),
    );
    let manifest = build_draft_manifest(signal, snapshot_id);
    let digest = sha1_hex(manifest.as_str());
    HarnessDecisionDraft {
        draft_id: concat2("hdraft-", digest.as_str()),
        signal_key: owned(signal.key.as_str()),
        severity: owned(signal.severity.as_str()),
        title,
        summary: owned(signal.summary.as_str()),
        rationale,
        expected_impact,
        changed_surfaces,
        validation_plan,
        mode_scope: if memory_only_self_evolution {
            owned("memory_only")
        } else {
            owned("all_modes")
        },
        recommended_status: HarnessDecisionStatus::Proposed,
        related_trace_ids: copy_texts(&signal.trace_ids),
        snapshot_before_id: Some(owned(snapshot_id)),
    }
}

/// One draft per candidate signal, in order, against the snapshot
/// `snapshot_id`.
pub fn generate_harness_decision_drafts(
    candidate_signals: &Vec<HarnessCandidateSignal>,
    memory_only_self_evolution: bool,
    snapshot_id: &str,
) -> (r: Vec<HarnessDecisionDraft>)
    ensures
        r@.len() == candidate_signals@.len(),
        forall|i: int|
            0 <= i < r@.len() ==> is_draft_for(
                #[trigger] r@[i],
                candidate_signals@[i],
                snapshot_id@,
                memory_only_self_evolution,
            ),
{
    let mut r: Vec<HarnessDecisionDraft> = Vec::new();
    let mut i: usize = 0;
    while i < candidate_signals.len()
        invariant
            0 <= i <= candidate_signals.len(),
            r@.len() == i,
            forall|k: int|
                0 <= k < i ==> is_draft_for(
                    #[trigger] r@[k],
                    candidate_signals@[k],
                    snapshot_id@,
                    memory_only_self_evolution,
                ),
        decreases candidate_signals.len() - i,
    {
        let d = generate_draft(&candidate_signals[i], snapshot_id, memory_only_self_evolution);
        r.push(d);
        i += 1;
    }
    r
}

} // verus!
