//! One planning attempt, with a stricter phase cap and protected settlement.
use crate::adapter::{ModelOutput, ModelOutputModel};
use crate::contracts::configuration::{Config, ConfigModel, Model};
use crate::contracts::planning::{
    PlannerProposal, PlannerProposalModel, SubmissionSpec, SubmissionSpecModel,
};
use crate::contracts::task::{AcceptanceModel, ConstraintsModel, TaskSpec, TaskSpecModel, ToolSpec};
use crate::engine::invocation::{conversation_json, conversation_size};
use crate::engine::planning::stage_end;
use crate::engine::{cutoff_ms, viewed};
use crate::fault::{answers, failure, EngineError, EngineErrorModel};
use crate::json::{
    count_model, count_value, empty_object, json_text, text_value, Json, JsonModel, ObjectBuilder,
};
use crate::model::Duplicate;
use crate::planning::{messages, planner_messages};
use crate::store::Ledger;
use crate::text::{byte_count, byte_len, same_text, TextSet};
use vstd::prelude::*;

verus! {

/// The task as the planner is routed and called for: it ends with the stage, calls no tools and
/// costs no more than planning may. What execution has to be capable of does not describe the
/// planner; the restrictions on where data may go stay.
pub open spec fn phase_of(
    task: TaskSpecModel,
    submission: SubmissionSpecModel,
    stage_deadline: u64,
) -> TaskSpecModel {
    TaskSpecModel {
        tools: Seq::empty(),
        constraints: ConstraintsModel {
            required_capabilities: set!["text"@, "json"@],
            preferred_capabilities: Set::empty(),
            ..task.constraints
        },
        acceptance: AcceptanceModel { json_object: true, ..task.acceptance },
        max_call_cost: if task.max_call_cost <= submission.planning.max_cost {
            task.max_call_cost
        } else {
            submission.planning.max_cost
        },
        deadline_ms: stage_deadline,
        finalization_ms: 0,
        ..task
    }
}

/// The task as the planner is routed and called for.
pub fn planning_phase(task: &TaskSpec, submission: &SubmissionSpec, stage_deadline: u64) -> (r:
    TaskSpec)
    ensures
        r.deep_view() == phase_of(task.deep_view(), submission.deep_view(), stage_deadline),
{
    let mut phase: TaskSpec = task.duplicate();
    phase.tools = Vec::new();
    let mut required: TextSet = TextSet::new();
    let ghost none = required;
    let _text: bool = required.insert("text".to_owned());
    let ghost one = required;
    let _json: bool = required.insert("json".to_owned());
    proof {
        assert forall|t: Seq<char>| #[trigger]
            required.deep_view().contains(t) == set!["text"@, "json"@].contains(t) by {
            assert(one.has(t) <==> none.has(t) || t == "text"@);
            assert(required.has(t) <==> one.has(t) || t == "json"@);
        }
        assert(required.deep_view() =~= set!["text"@, "json"@]);
    }
    phase.constraints.required_capabilities = required;
    phase.constraints.preferred_capabilities = TextSet::new();
    phase.acceptance.json_object = true;
    if phase.max_call_cost > submission.planning.max_cost {
        phase.max_call_cost = submission.planning.max_cost;
    }
    phase.deadline_ms = stage_deadline;
    phase.finalization_ms = 0;
    assert(phase.deep_view() =~= phase_of(
        task.deep_view(),
        submission.deep_view(),
        stage_deadline,
    ));
    phase
}

/// The planner works within the task: no later, at no greater cost of a call, without tools, and
/// with the same restrictions on where data may go.
pub proof fn lemma_planning_within_task(
    task: TaskSpecModel,
    submission: SubmissionSpecModel,
    now: u64,
)
    ensures
        ({
            let phase = phase_of(task, submission, stage_end(task, submission, now) as u64);
            &&& phase.cutoff() <= task.cutoff()
            &&& phase.cutoff() <= now + submission.planning.timeout_ms
            &&& phase.max_call_cost <= task.max_call_cost
            &&& phase.max_call_cost <= submission.planning.max_cost
            &&& phase.tools.len() == 0
            &&& phase.constraints.allowed_models == task.constraints.allowed_models
            &&& phase.constraints.allowed_providers == task.constraints.allowed_providers
            &&& phase.constraints.allowed_regions == task.constraints.allowed_regions
            &&& phase.constraints.local_only == task.constraints.local_only
        }),
{
}

/// How many bytes the planner's conversation takes.
pub open spec fn planning_size(submission: SubmissionSpecModel) -> nat {
    byte_len(json_text(conversation_json(planner_messages(submission), Seq::empty())))
}

/// The input tokens to route the planner for, where its conversation is not too long.
pub fn planning_input(submission: &SubmissionSpec, limit: usize) -> (r: Result<u64, EngineError>)
    requires
        limit <= u64::MAX - 256,
    ensures
        answers(
            r,
            if planning_size(submission.deep_view()) > limit {
                Some(failure("planning"@, "planning context exceeds byte limit"@))
            } else {
                None
            },
        ),
        r matches Ok(tokens) ==> tokens == planning_size(submission.deep_view()) + 256,
{
    let no_tools: Vec<ToolSpec> = Vec::new();
    assert(no_tools.deep_view() =~= Seq::empty());
    let bytes: usize = conversation_size(&messages(submission), &no_tools);
    if bytes > limit {
        return Err(EngineError::new("planning", "planning context exceeds byte limit"));
    }
    Ok(bytes as u64 + 256)
}

/// The models that may not plan: all that are no planning candidates.
pub open spec fn barred_planners(config: ConfigModel) -> Set<Seq<char>> {
    Set::new(
        |id: Seq<char>|
            !config.planner_models.contains(id) && exists|i: int|
                0 <= i < config.models.len() && (#[trigger] config.models[i]).id == id,
    )
}

/// The models that may not plan.
pub fn planning_excluded(config: &Config) -> (r: TextSet)
    ensures
        r.deep_view() == barred_planners(config.deep_view()),
{
    let ghost all = config.deep_view().models;
    let ghost planners = config.deep_view().planner_models;
    let mut out: TextSet = TextSet::new();
    let mut i: usize = 0;
    while i < config.models.len()
        invariant
            i <= config.models@.len(),
            all == config.deep_view().models,
            planners == config.deep_view().planner_models,
            forall|t: Seq<char>| #[trigger]
                out.has(t) <==> !planners.contains(t) && exists|j: int|
                    0 <= j < i && (#[trigger] all[j]).id == t,
        decreases config.models@.len() - i,
    {
        let model: &Model = &config.models[i];
        assert(all[i as int] == model.deep_view());
        let ghost before = out;
        if !config.planner_models.contains(model.id.as_str()) {
            let _added: bool = out.insert(model.id.clone());
        }
        proof {
            assert forall|t: Seq<char>| #[trigger]
                out.has(t) <==> !planners.contains(t) && exists|j: int|
                    0 <= j < i + 1 && (#[trigger] all[j]).id == t by {
                assert(out.has(t) <==> before.has(t) || (t == all[i as int].id
                    && !planners.contains(t)));
            }
        }
        i += 1;
    }
    assert(out.deep_view() =~= barred_planners(config.deep_view()));
    out
}

/// What the planner may cost at most.
pub fn planning_available(ledger: &Ledger, submission: &SubmissionSpec) -> (r: u64)
    ensures
        r == (if ledger.deep_view().free() <= submission.planning.max_cost {
            ledger.deep_view().free()
        } else {
            submission.planning.max_cost as int
        }),
{
    let available: u64 = ledger.available();
    if available <= submission.planning.max_cost {
        available
    } else {
        submission.planning.max_cost
    }
}

/// The error where no planner can be had, with the reasons of the route.
pub fn unroutable(error: EngineError) -> (r: EngineError)
    ensures
        r.deep_view() == (EngineErrorModel {
            details: error.details@,
            ..failure("planning"@, "no permitted planning candidate"@)
        }),
{
    EngineError::new("planning", "no permitted planning candidate").details(error.details)
}

/// What is saved with the reservation of a planning call; the route comes in its JSON form.
pub fn planning_metadata(route: Json) -> (r: Json)
    ensures
        r@ == empty_object().with("role"@, JsonModel::Text("planner"@)).with("route"@, route@).with(
            "proposal_version"@,
            count_model(1),
        ),
{
    ObjectBuilder::new().with("role", text_value("planner")).with("route", route).with(
        "proposal_version",
        count_value(1),
    ).build()
}

/// An output can hold a proposal.
pub open spec fn usable(output: ModelOutputModel, limit: usize) -> bool {
    output.complete && output.tool_calls.len() == 0 && byte_len(output.text) <= limit
}

/// What comes of a planning call. Only the stage's own timeout counts as a failure of planning;
/// the deadline of the task stays what it is.
pub open spec fn proposal_result(
    output: Result<ModelOutputModel, EngineErrorModel>,
    parsed: Option<PlannerProposalModel>,
    limit: usize,
    task: TaskSpecModel,
    now: u64,
) -> Result<PlannerProposalModel, EngineErrorModel> {
    match output {
        Ok(o) => if !usable(o, limit) {
            Err(
                failure(
                    "plan_validation"@,
                    "planner output incomplete, oversized or requests tools"@,
                ),
            )
        } else {
            match parsed {
                Some(p) => Ok(p),
                None => Err(
                    failure("plan_validation"@, "planner returned invalid proposal JSON"@),
                ),
            }
        },
        Err(e) => if e.kind == "deadline"@ && now < task.cutoff() {
            Err(failure("planning"@, "planning stage timed out"@))
        } else {
            Err(e)
        },
    }
}

/// The proposal of a planning call. `parsed` is what its text reads as.
pub fn proposal_of(
    output: Result<ModelOutput, EngineError>,
    parsed: Option<PlannerProposal>,
    limit: usize,
    task: &TaskSpec,
    now: u64,
) -> (r: Result<PlannerProposal, EngineError>)
    ensures
        viewed(r) == proposal_result(
            viewed(output),
            parsed.deep_view(),
            limit,
            task.deep_view(),
            now,
        ),
{
    match output {
        Ok(o) => {
            if !o.complete || o.tool_calls.len() > 0 || byte_count(o.text.as_str()) > limit {
                return Err(
                    EngineError::new(
                        "plan_validation",
                        "planner output incomplete, oversized or requests tools",
                    ),
                );
            }
            match parsed {
                Some(p) => Ok(p),
                None => Err(
                    EngineError::new("plan_validation", "planner returned invalid proposal JSON"),
                ),
            }
        },
        Err(e) => {
            if same_text(e.kind.as_str(), "deadline") && now < cutoff_ms(task) {
                return Err(EngineError::new("planning", "planning stage timed out"));
            }
            Err(e)
        },
    }
}

/// Which models may not plan: those that are configured and not among the planners.
pub proof fn lemma_who_may_plan(config: ConfigModel, i: int)
    requires
        0 <= i < config.models.len(),
    ensures
        barred_planners(config).contains(config.models[i].id) <==> !config.planner_models.contains(
            config.models[i].id,
        ),
{
    assert(config.models[i].id == config.models[i].id);
}

/// The task that a planner is called for keeps what the task is, but for what planning narrows.
pub proof fn lemma_planning_task(
    task: TaskSpecModel,
    submission: SubmissionSpecModel,
    stage_deadline: u64,
)
    ensures
        ({
            let phase = phase_of(task, submission, stage_deadline);
            &&& phase.task_id == task.task_id && phase.goal == task.goal
            &&& phase.evidence == task.evidence && phase.output_tokens == task.output_tokens
            &&& phase.budget == task.budget && phase.max_calls == task.max_calls
            &&& phase.max_rounds == task.max_rounds && phase.max_attempts == task.max_attempts
            &&& phase.strategy == task.strategy && phase.selection == task.selection
            &&& phase.deadline_ms == stage_deadline && phase.finalization_ms == 0
            &&& phase.acceptance.json_object && phase.tools.len() == 0
            &&& phase.max_call_cost == task.max_call_cost || phase.max_call_cost
                == submission.planning.max_cost
            &&& forall|c: Seq<char>|
                phase.constraints.required_capabilities.contains(c) <==> c == "text"@ || c
                    == "json"@
        }),
{
}

/// A planner's answer is a proposal exactly where it came in full, calls no tool, is not too long
/// and reads as one.
pub proof fn lemma_what_is_a_proposal(
    output: Result<ModelOutputModel, EngineErrorModel>,
    parsed: Option<PlannerProposalModel>,
    limit: usize,
    task: TaskSpecModel,
    now: u64,
)
    ensures
        ({
            let r = proposal_result(output, parsed, limit, task, now);
            &&& r is Ok <==> output is Ok && output->Ok_0.complete && output->Ok_0.tool_calls.len()
                == 0 && byte_len(output->Ok_0.text) <= limit && parsed is Some
            &&& r is Ok ==> parsed == Some(r->Ok_0)
            &&& output is Ok && r is Err ==> r->Err_0.kind == "plan_validation"@
        }),
{
}

} // verus!
