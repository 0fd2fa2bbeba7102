//! What each step of a preparation does with what happened.
use super::{FindingsModel, PreparationActionModel, PreparationEventModel, PreparationModel};
use crate::adapter::ModelOutputModel;
use crate::contracts::encoding::Encode;
use crate::contracts::planning::{
    EffectivePlanModel, PlanChoice, PlannerProposalModel, SubmissionSpecModel, TaskType,
};
use crate::contracts::task::{Strategy, TaskSpecModel};
use crate::decision::DecisionAssessmentModel;
use crate::engine::node::steps::{conversation_bytes, in_time};
use crate::engine::node::ModelCallModel;
use crate::engine::planning::assessment_of;
use crate::engine::ReplyModel;
use crate::fault::{EngineError, EngineErrorModel};
use crate::json::{JsonModel, NumberModel};
use crate::planning::planner_messages;
use crate::planning::validation::PlanInputs;
use crate::store::LedgerModel;
use vstd::prelude::*;

verus! {

/// Whether a further call can be paid for: calls are left, and a limited budget is not used up.
pub open spec fn can_be_paid(task: TaskSpecModel, ledger: LedgerModel) -> bool {
    &&& ledger.calls < task.max_calls
    &&& ledger.total == 0 || ledger.settled + ledger.reserved < ledger.total
}

/// A step looks at the ledger, unless somebody cancelled or no time is left.
pub open spec fn looks_at_the_ledger(
    task: TaskSpecModel,
    cancelled: bool,
    now: u64,
    action: PreparationActionModel,
) -> bool {
    &&& cancelled ==> action is Fail && action->Fail_error.kind == "cancelled"@
    &&& !cancelled && !in_time(task, now) ==> action is Fail && action->Fail_error.kind
        == "deadline"@
    &&& !cancelled && in_time(task, now) ==> action is ReadLedger
}

/// A preparation begins with the ledger. A submission that needs a plan is then planned, for no
/// longer than planning may take and the task has; any other is taken as it is.
pub proof fn lemma_preparation_opens(
    p: PreparationModel,
    cancelled: bool,
    now: u64,
    ledger: LedgerModel,
    fresh: Seq<char>,
)
    requires
        p.task.finalization_ms <= p.task.deadline_ms,
    ensures
        p.phase is Ready ==> looks_at_the_ledger(
            p.task,
            cancelled,
            now,
            p.after(PreparationEventModel::Done { cancelled, now }).1,
        ),
        p.phase is Opening ==> {
            let (next, action) = p.after(PreparationEventModel::Read { ledger, now, fresh });
            let own = now + p.submission.planning.timeout_ms;
            let cutoff = p.task.deadline_ms - p.task.finalization_ms;
            let inputs = PlanInputs {
                submission: p.submission,
                proposal: None,
                fallback: None,
                submission_hash: crate::identity::hex(crate::identity::sha256(p.encoded)),
            };
            &&& !can_be_paid(p.task, ledger) ==> action is Fail && action->Fail_error.kind
                == "budget"@
            &&& can_be_paid(p.task, ledger) && p.submission.planned() ==> {
                &&& action is Checkpoint && action->Checkpoint_value.at("phase"@)
                    == JsonModel::Text("planning"@)
                &&& next.phase is Marking
                &&& own <= u64::MAX ==> next.phase->Marking_stage == (if cutoff <= own {
                    cutoff
                } else {
                    own
                })
            }
            &&& can_be_paid(p.task, ledger) && !p.submission.planned() && inputs.fault() is Some
                ==> action is Fail && action->Fail_error == inputs.fault()->0
            &&& can_be_paid(p.task, ledger) && !p.submission.planned() && inputs.fault() is None ==> {
                &&& action is Measure && action->Measure_task == inputs.plan().task_of(p.submission)
                &&& next.phase is Checking && next.phase->Checking_plan == inputs.plan()
                &&& next.phase->Checking_planning.at("skipped"@) == JsonModel::Bool(true)
            }
        },
{
    lemma_step_names();
    reveal(PreparationModel::after_done);
    reveal(PreparationModel::after_read);
    reveal(PreparationModel::opens);
    reveal(PreparationModel::checks);
}

/// The task that a planner is called for: it ends with its stage, calls no tool, has to answer with
/// a JSON object, and costs no more than a call of the task and planning may.
pub open spec fn is_planning_task(
    phase: TaskSpecModel,
    task: TaskSpecModel,
    submission: SubmissionSpecModel,
    stage: u64,
) -> bool {
    &&& phase.tools.len() == 0
    &&& phase.acceptance.json_object
    &&& forall|c: Seq<char>|
        phase.constraints.required_capabilities.contains(c) <==> c == "text"@ || c == "json"@
    &&& forall|c: Seq<char>| !phase.constraints.preferred_capabilities.contains(c)
    &&& phase.max_call_cost <= task.max_call_cost
    &&& phase.max_call_cost <= submission.planning.max_cost
    &&& phase.max_call_cost == task.max_call_cost || phase.max_call_cost
        == submission.planning.max_cost
    &&& phase.deadline_ms == stage && phase.finalization_ms == 0
    &&& phase.task_id == task.task_id && phase.goal == task.goal
    &&& phase.evidence == task.evidence && phase.output_tokens == task.output_tokens
    &&& phase.constraints.allowed_models == task.constraints.allowed_models
    &&& phase.constraints.allowed_providers == task.constraints.allowed_providers
    &&& phase.constraints.allowed_regions == task.constraints.allowed_regions
    &&& phase.constraints.local_only == task.constraints.local_only
}

/// A planner is selected for the bytes of its conversation and a little more, and for what is free
/// of the budget and of the cost of planning.
pub proof fn lemma_planner_is_selected(
    p: PreparationModel,
    cancelled: bool,
    now: u64,
    ledger: LedgerModel,
    fresh: Seq<char>,
)
    requires
        p.config.context_max_bytes <= u64::MAX - 256,
    ensures
        p.phase is Marking ==> {
            let (next, action) = p.after(PreparationEventModel::Done { cancelled, now });
            &&& action is Emit && action->Emit_node == Some("planner"@)
            &&& action->Emit_kind == "planning_started"@
            &&& next.phase is Announcing && next.phase->Announcing_stage == p.phase->Marking_stage
        },
        p.phase is Announcing ==> {
            let (next, action) = p.after(PreparationEventModel::Done { cancelled, now });
            let bytes = conversation_bytes(planner_messages(p.submission), Seq::empty());
            &&& bytes <= p.config.context_max_bytes ==> {
                &&& action is ReadLedger
                &&& next.phase is Asking && next.phase->Asking_input_tokens == bytes + 256
                &&& next.phase->Asking_stage == p.phase->Announcing_stage
            }
            &&& bytes > p.config.context_max_bytes ==> next.phase is Failing
                && next.phase->Failing_error.kind == "planning"@
        },
        p.phase is Asking ==> {
            let (next, action) = p.after(PreparationEventModel::Read { ledger, now, fresh });
            &&& action is Route && is_planning_task(
                action->Route_task,
                p.task,
                p.submission,
                p.phase->Asking_stage,
            )
            &&& action->Route_input_tokens == p.phase->Asking_input_tokens
            &&& action->Route_available <= p.submission.planning.max_cost
            &&& action->Route_available <= ledger.free()
            &&& action->Route_available == ledger.free() || action->Route_available
                == p.submission.planning.max_cost
            &&& next.phase is Selecting && next.phase->Selecting_stage == p.phase->Asking_stage
        },
{
    reveal(PreparationModel::after_done);
    reveal(PreparationModel::after_read);
    reveal(PreparationModel::announces);
    reveal(PreparationModel::asks);
    reveal(PreparationModel::stumbles);
}

/// The selected planner is announced, its estimated cost is set aside, and it is called with the
/// planner's messages, without tools, for the time that its stage has. Where no time is left, or
/// somebody cancelled, the call is settled at no cost. Where no planner can be had, planning
/// failed.
pub proof fn lemma_planner_is_called(
    p: PreparationModel,
    call: ModelCallModel,
    route: JsonModel,
    error: EngineErrorModel,
    cancelled: bool,
    now: u64,
)
    ensures
        p.phase is Selecting ==> {
            let (next, action) = p.after(PreparationEventModel::Routed { call, route });
            let other = p.after(PreparationEventModel::Unrouted { error }).0;
            &&& action is Emit && action->Emit_node == Some("planner"@)
            &&& action->Emit_about == Some(call.attempt)
            &&& action->Emit_kind == "model_started"@
            &&& action->Emit_data.at("model_id"@) == JsonModel::Text(call.model.id)
            &&& action->Emit_data.at("estimated_cost"@) == JsonModel::Number(
                NumberModel::PosInt(call.amount),
            )
            &&& next.phase is Starting && next.phase->Starting_call == call
            &&& next.phase->Starting_route == route
            &&& next.phase->Starting_stage == p.phase->Selecting_stage
            &&& other.phase is Failing && other.phase->Failing_error.kind == "planning"@
            &&& other.phase->Failing_error.details == error.details
        },
        p.phase is Starting ==> {
            let (next, action) = p.after(PreparationEventModel::Done { cancelled, now });
            &&& action is Reserve && action->Reserve_attempt == p.phase->Starting_call.attempt
            &&& action->Reserve_amount == p.phase->Starting_call.amount
            &&& action->Reserve_metadata.at("role"@) == JsonModel::Text("planner"@)
            &&& action->Reserve_metadata.at("route"@) == p.phase->Starting_route
            &&& next.phase is Reserving && next.phase->Reserving_call == p.phase->Starting_call
            &&& next.phase->Reserving_stage == p.phase->Starting_stage
        },
        p.phase is Reserving ==> {
            let (next, action) = p.after(PreparationEventModel::Done { cancelled, now });
            let stage = p.phase->Reserving_stage;
            let made = p.phase->Reserving_call;
            &&& !cancelled && now < stage ==> {
                &&& action is CallModel && action->CallModel_timeout_ms == stage - now
                &&& action->CallModel_request.model == made.model
                &&& action->CallModel_request.attempt_id == made.attempt
                &&& action->CallModel_request.messages == planner_messages(p.submission)
                &&& action->CallModel_request.tools.len() == 0
                &&& action->CallModel_request.json_object
                &&& action->CallModel_request.node == "planner"@
                &&& action->CallModel_request.task_id == p.task.task_id
                &&& action->CallModel_request.output_tokens == p.task.output_tokens
                &&& next.phase is Waiting && next.phase->Waiting_call == made
            }
            &&& cancelled || now >= stage ==> {
                &&& action is Settle && action->Settle_attempt == made.attempt
                &&& action->Settle_cost == Some(0u64)
                &&& action->Settle_outcome.at("not_dispatched"@) == JsonModel::Bool(true)
                &&& next.phase is Refusing && next.phase->Refusing_call == made
            }
        },
{
    lemma_event_names();
    lemma_saved_names();
    lemma_outcome_names();
    reveal(PreparationModel::after_done);
    reveal(PreparationModel::after_routed);
    reveal(PreparationModel::after_unrouted);
    reveal(PreparationModel::stumbles);
    reveal(PreparationModel::reserves);
    reveal(PreparationModel::dispatches);
}

/// What was found of planning that failed is saved, with the error.
pub open spec fn failure_is_saved(
    findings: FindingsModel,
    next: PreparationModel,
    action: PreparationActionModel,
) -> bool {
    &&& findings.error == Some(next.phase->Failing_error)
    &&& findings.fallback is None
    &&& action is SavePlan && action->SavePlan_saved.at("planning"@) == findings.json()
    &&& action->SavePlan_checkpoint.at("phase"@) == JsonModel::Text("planning_failed"@)
}

/// A planner's answer is settled for its call. It is a proposal where it came in full, calls no
/// tool, fits into the context and reads as one. Otherwise planning failed; so it did where the
/// stage's own time ran out, and any other error stays what it is.
pub proof fn lemma_planners_answer(
    p: PreparationModel,
    reply: ReplyModel<ModelOutputModel>,
    parsed: Option<PlannerProposalModel>,
    encoded: JsonModel,
    latency_ms: u64,
    cancelled: bool,
    now: u64,
)
    ensures
        p.phase is Waiting ==> {
            let (next, action) = p.after(
                PreparationEventModel::Replied { reply, parsed, encoded, latency_ms },
            );
            &&& action is Settle && action->Settle_attempt == p.phase->Waiting_call.attempt
            &&& next.phase is Settling && next.phase->Settling_call == p.phase->Waiting_call
            &&& next.phase->Settling_parsed == parsed && next.phase->Settling_encoded == encoded
            &&& match reply {
                ReplyModel::Answered(result) => next.phase->Settling_result == result,
                ReplyModel::Cancelled => next.phase->Settling_result is Err
                    && next.phase->Settling_result->Err_0.kind == "cancelled"@,
                ReplyModel::TimedOut => next.phase->Settling_result is Err
                    && next.phase->Settling_result->Err_0.kind == "deadline"@,
            }
        },
        p.phase is Settling ==> {
            let (next, action) = p.after(PreparationEventModel::Done { cancelled, now });
            let attempt = p.phase->Settling_call.attempt;
            match p.phase->Settling_result {
                Ok(output) => {
                    let usable = output.complete && output.tool_calls.len() == 0
                        && crate::text::byte_len(output.text) <= p.config.context_max_bytes;
                    &&& usable && p.phase->Settling_parsed is Some ==> {
                        &&& next.phase is Completing && next.phase->Completing_attempt == attempt
                        &&& next.phase->Completing_proposal == p.phase->Settling_parsed->0
                        &&& next.phase->Completing_encoded == p.phase->Settling_encoded
                        &&& action is Emit && action->Emit_about == Some(attempt)
                        &&& action->Emit_kind == "planning_completed"@
                    }
                    &&& !(usable && p.phase->Settling_parsed is Some) ==> next.phase is Failing
                        && next.phase->Failing_error.kind == "plan_validation"@
                        && next.phase->Failing_findings.attempt == Some(attempt)
                        && failure_is_saved(next.phase->Failing_findings, next, action)
                },
                Err(e) => {
                    &&& next.phase is Failing
                    &&& next.phase->Failing_findings.attempt == Some(attempt)
                    &&& failure_is_saved(next.phase->Failing_findings, next, action)
                    &&& e.kind == "deadline"@ && in_time(p.task, now)
                        ==> next.phase->Failing_error.kind == "planning"@
                    &&& !(e.kind == "deadline"@ && in_time(p.task, now))
                        ==> next.phase->Failing_error == e
                },
            }
        },
        p.phase is Refusing ==> {
            let (next, action) = p.after(PreparationEventModel::Done { cancelled, now });
            &&& next.phase is Failing
            &&& cancelled ==> next.phase->Failing_error.kind == "cancelled"@
            &&& !cancelled && in_time(p.task, now) ==> next.phase->Failing_error.kind
                == "planning"@
            &&& !cancelled && !in_time(p.task, now) ==> next.phase->Failing_error.kind
                == "deadline"@
        },
{
    reveal(PreparationModel::after_done);
    reveal(PreparationModel::after_replied);
    reveal(PreparationModel::proposes);
    reveal(PreparationModel::stumbles);
    lemma_error_kinds();
    lemma_step_names();
}

/// A proposal becomes the plan that it makes of the submission, where it makes one; the task of
/// that plan is measured and checked before it is taken.
pub proof fn lemma_proposal_becomes_the_plan(
    p: PreparationModel,
    bytes: usize,
    cancelled: bool,
    now: u64,
)
    ensures
        p.phase is Completing ==> {
            let (next, action) = p.after(PreparationEventModel::Done { cancelled, now });
            let inputs = PlanInputs {
                submission: p.submission,
                proposal: Some((p.phase->Completing_attempt, p.phase->Completing_proposal)),
                fallback: None,
                submission_hash: crate::identity::hex(crate::identity::sha256(p.encoded)),
            };
            &&& inputs.fault() is None ==> {
                &&& action is Measure && action->Measure_task == inputs.plan().task_of(p.submission)
                &&& next.phase is Measuring && next.phase->Measuring_plan == inputs.plan()
                &&& next.phase->Measuring_findings.attempt == Some(p.phase->Completing_attempt)
                &&& next.phase->Measuring_findings.proposal == Some(p.phase->Completing_encoded)
                &&& next.phase->Measuring_findings.error is None
                &&& next.phase->Measuring_findings.fallback is None
            }
            &&& inputs.fault() is Some ==> next.phase is Failing && next.phase->Failing_error
                == inputs.fault()->0 && next.phase->Failing_findings.proposal == Some(
                p.phase->Completing_encoded,
            ) && failure_is_saved(next.phase->Failing_findings, next, action)
        },
        p.phase is Measuring ==> {
            let (next, action) = p.after(
                PreparationEventModel::Measured { bytes, cancelled, now },
            );
            let plan = p.phase->Measuring_plan;
            let fault = plan.task_of(p.submission).fault(p.config.context_max_bytes, bytes, now);
            &&& fault is None ==> next.phase is Checking && next.phase->Checking_plan == plan
                && next.phase->Checking_planning == p.phase->Measuring_findings.json() && action
                is Measure && action->Measure_task == plan.task_of(p.submission)
            &&& fault is Some ==> next.phase is Failing && next.phase->Failing_error.kind
                == "plan_validation"@ && next.phase->Failing_error.message == fault->0.message
        },
        p.phase is Checking ==> {
            let (next, action) = p.after(
                PreparationEventModel::Measured { bytes, cancelled, now },
            );
            let plan = p.phase->Checking_plan;
            let fault = plan.task_of(p.submission).fault(p.config.context_max_bytes, bytes, now);
            &&& fault is Some ==> action is Fail && action->Fail_error.kind == "plan_validation"@
            &&& fault is None && p.config.decision is Some ==> looks_at_the_ledger(
                p.task,
                cancelled,
                now,
                action,
            )
            &&& fault is None && p.config.decision is Some && action is ReadLedger ==> next.phase
                is Deciding && next.phase->Deciding_plan == plan && next.phase->Deciding_planning
                == p.phase->Checking_planning
            &&& fault is None && p.config.decision is None && p.submission.facts().fault() is None
                && p.config.rules().fault() is None ==> {
                &&& action is Capture
                &&& action->Capture_plan == (EffectivePlanModel {
                    assessment: Some(assessment_of(p.submission, p.config, None)),
                    ..plan
                })
                &&& next.phase is Capturing && next.phase->Capturing_planning
                    == p.phase->Checking_planning
            }
        },
{
    lemma_step_names();
    reveal(PreparationModel::assesses);
    reveal(PreparationModel::after_done);
    reveal(PreparationModel::after_measured);
    reveal(PreparationModel::plans);
    reveal(PreparationModel::checks);
    reveal(PreparationModel::stumbles);
}

/// The failure of planning is saved. One that nothing can follow ends the preparation; after any
/// other the host's fallback is taken, where there is one and the task can go on, and otherwise the
/// failure stands.
pub proof fn lemma_failed_planning_falls_back(
    p: PreparationModel,
    ledger: LedgerModel,
    fresh: Seq<char>,
    cancelled: bool,
    now: u64,
)
    ensures
        p.phase is Failing ==> {
            let (next, action) = p.after(PreparationEventModel::Done { cancelled, now });
            let error = p.phase->Failing_error;
            let lost = error.kind == "cancelled"@ || error.kind == "deadline"@ || error.kind
                == "budget"@ || error.kind == "storage"@;
            &&& lost ==> action is Fail && action->Fail_error == error
            &&& !lost ==> looks_at_the_ledger(p.task, cancelled, now, action)
            &&& !lost && action is ReadLedger ==> next.phase is Recounting
                && next.phase->Recounting_error == error && next.phase->Recounting_findings
                == p.phase->Failing_findings
        },
        p.phase is Recounting ==> {
            let (next, action) = p.after(PreparationEventModel::Read { ledger, now, fresh });
            let error = p.phase->Recounting_error;
            &&& !can_be_paid(p.task, ledger) ==> action is Fail && action->Fail_error.kind
                == "budget"@
            &&& can_be_paid(p.task, ledger) ==> {
                &&& action is Emit && action->Emit_kind == "planning_failed"@
                &&& action->Emit_data.at("kind"@) == JsonModel::Text(error.kind)
                &&& action->Emit_data.at("reason"@) == JsonModel::Text(error.message)
                &&& next.phase is Telling && next.phase->Telling_error == error
                &&& next.phase->Telling_findings == p.phase->Recounting_findings
            }
        },
        p.phase is Telling ==> {
            let (next, action) = p.after(PreparationEventModel::Done { cancelled, now });
            match p.submission.planning.fallback {
                None => action is Fail && action->Fail_error == p.phase->Telling_error,
                Some(choice) => {
                    let inputs = PlanInputs {
                        submission: p.submission,
                        proposal: None,
                        fallback: Some(choice),
                        submission_hash: crate::identity::hex(crate::identity::sha256(p.encoded)),
                    };
                    &&& inputs.fault() is Some ==> action is Fail && action->Fail_error
                        == inputs.fault()->0
                    &&& inputs.fault() is None ==> {
                        &&& next.phase is Falling && next.phase->Falling_plan == inputs.plan()
                        &&& next.phase->Falling_findings == (FindingsModel {
                            fallback: Some(choice),
                            ..p.phase->Telling_findings
                        })
                        &&& action is Emit && action->Emit_kind == "planning_fallback"@
                        &&& action->Emit_data.at("reason"@) == JsonModel::Text(
                            p.phase->Telling_error.kind,
                        )
                    }
                },
            }
        },
        p.phase is Falling ==> {
            let (next, action) = p.after(PreparationEventModel::Done { cancelled, now });
            &&& action is Measure && action->Measure_task == p.phase->Falling_plan.task_of(
                p.submission,
            )
            &&& next.phase is Checking && next.phase->Checking_plan == p.phase->Falling_plan
            &&& next.phase->Checking_planning == p.phase->Falling_findings.json()
        },
{
    lemma_step_names();
    reveal(PreparationModel::after_done);
    reveal(PreparationModel::after_read);
    reveal(PreparationModel::falls_back);
    reveal(PreparationModel::checks);
}

/// A decision is asked for with the configured questions and the submission's facts, for the time
/// that the task has. Its greatest cost is set aside before; it is settled at the cost that a valid
/// assessment tells, and at none that is known where it failed. A decision that failed ends the
/// preparation.
pub proof fn lemma_decision_is_paid_for(
    p: PreparationModel,
    ledger: LedgerModel,
    fresh: Seq<char>,
    cancelled: bool,
    now: u64,
    answer: ReplyModel<DecisionAssessmentModel>,
    encoded: JsonModel,
)
    requires
        p.config.decision is Some,
    ensures
        p.phase is Deciding ==> {
            let (next, action) = p.after(PreparationEventModel::Read { ledger, now, fresh });
            &&& !can_be_paid(p.task, ledger) ==> action is Fail && action->Fail_error.kind
                == "budget"@
            &&& action is Reserve || action is Fail
            &&& action is Reserve ==> {
                &&& action->Reserve_attempt == fresh
                &&& action->Reserve_amount == p.config.decision->0.max_cost
                &&& action->Reserve_metadata.at("kind"@) == JsonModel::Text("decision"@)
                &&& action->Reserve_metadata.at("question_set_version"@) == JsonModel::Text(
                    p.config.decision->0.question_set_version,
                )
                &&& next.phase is Holding && next.phase->Holding_attempt == fresh
                &&& next.phase->Holding_planning == p.phase->Deciding_planning
                &&& next.phase->Holding_plan == p.phase->Deciding_plan
                &&& next.phase->Holding_request.questions == p.config.decision->0.questions
                &&& next.phase->Holding_request.question_set_version
                    == p.config.decision->0.question_set_version
                &&& p.submission.task_facts is Some ==> next.phase->Holding_request.state.values
                    == p.submission.task_facts->0.values
                    && next.phase->Holding_request.state.version
                    == p.submission.task_facts->0.version
                &&& p.submission.task_facts is None ==> forall|k: Seq<char>|
                    !next.phase->Holding_request.state.values.dom().contains(k)
            }
        },
        p.phase is Holding ==> {
            let (next, action) = p.after(PreparationEventModel::Done { cancelled, now });
            &&& action is Decide && action->Decide_asked == p.phase->Holding_request
            &&& in_time(p.task, now) ==> action->Decide_timeout_ms == p.task.deadline_ms
                - p.task.finalization_ms - now
            &&& !in_time(p.task, now) ==> action->Decide_timeout_ms == 0
            &&& next.phase is Assessing && next.phase->Assessing_attempt
                == p.phase->Holding_attempt && next.phase->Assessing_request
                == p.phase->Holding_request && next.phase->Assessing_plan == p.phase->Holding_plan
                && next.phase->Assessing_planning == p.phase->Holding_planning
        },
        p.phase is Assessing ==> {
            let (next, action) = p.after(PreparationEventModel::Assessed { answer, encoded });
            let request = p.phase->Assessing_request;
            &&& action is Settle && action->Settle_attempt == p.phase->Assessing_attempt
            &&& next.phase is Concluding && next.phase->Concluding_plan == p.phase->Assessing_plan
            &&& next.phase->Concluding_planning == p.phase->Assessing_planning
            &&& action->Settle_outcome.at("kind"@) == JsonModel::Text("decision"@)
            &&& next.phase->Concluding_decided is Ok <==> {
                &&& answer is Answered && answer->Answered_0 is Ok
                &&& answer->Answered_0->Ok_0.fault_for(request) is None
                &&& p.config.decision->0.policy.fault_for(request) is None
            }
            &&& next.phase->Concluding_decided is Ok ==> {
                &&& next.phase->Concluding_decided->Ok_0.assessment == answer->Answered_0->Ok_0
                &&& action->Settle_cost == answer->Answered_0->Ok_0.actual_cost
                &&& action->Settle_outcome.at("assessment"@) == encoded
            }
            &&& next.phase->Concluding_decided is Err ==> action->Settle_cost is None
        },
        p.phase is Concluding && p.phase->Concluding_decided is Err ==> {
            let (next, action) = p.after(PreparationEventModel::Done { cancelled, now });
            action is Fail && action->Fail_error == p.phase->Concluding_decided->Err_0
        },
{
    lemma_decision_names();
    reveal(PreparationModel::after_done);
    reveal(PreparationModel::after_read);
    reveal(PreparationModel::after_assessed);
    reveal(PreparationModel::holds);
    reveal(PreparationModel::decides);
    reveal(PreparationModel::settles_decision);
}

/// A plan is captured with the assessment of its submission and is otherwise as it was planned.
/// What is captured is saved with its snapshot and told to the host; the task of that plan is
/// handed out last, where it can still be paid for and has time left.
pub proof fn lemma_plan_is_saved_and_handed_out(
    p: PreparationModel,
    plan: EffectivePlanModel,
    encoded: JsonModel,
    routing: JsonModel,
    ledger: LedgerModel,
    fresh: Seq<char>,
    cancelled: bool,
    now: u64,
)
    ensures
        p.phase is Concluding && p.phase->Concluding_decided is Ok ==> {
            let (next, action) = p.after(PreparationEventModel::Done { cancelled, now });
            let valid = p.submission.facts().fault() is None && p.config.rules().fault() is None;
            &&& !valid ==> action is Fail
            &&& valid ==> {
                &&& action is Capture
                &&& action->Capture_plan == (EffectivePlanModel {
                    assessment: Some(
                        assessment_of(
                            p.submission,
                            p.config,
                            Some(p.phase->Concluding_decided->Ok_0),
                        ),
                    ),
                    ..p.phase->Concluding_plan
                })
                &&& next.phase is Capturing && next.phase->Capturing_planning
                    == p.phase->Concluding_planning
            }
        },
        p.phase is Capturing ==> {
            let (next, action) = p.after(
                PreparationEventModel::Captured { plan, encoded, routing },
            );
            &&& action is SavePlan
            &&& action->SavePlan_saved.at("effective_plan"@) == encoded
            &&& action->SavePlan_saved.at("planning"@) == p.phase->Capturing_planning
            &&& action->SavePlan_saved.at("routing_snapshot"@) == routing
            &&& action->SavePlan_checkpoint.at("phase"@) == JsonModel::Text("planned"@)
            &&& next.phase is Saving && next.phase->Saving_plan == plan
        },
        p.phase is Saving ==> {
            let (next, action) = p.after(PreparationEventModel::Done { cancelled, now });
            let saved = p.phase->Saving_plan;
            &&& action is Emit && action->Emit_kind == "plan_validated"@
            &&& action->Emit_about == saved.proposal_id
            &&& action->Emit_data.at("task_type"@) == TaskType::json_of(saved.task_type)
            &&& action->Emit_data.at("strategy"@) == Strategy::json_of(saved.strategy)
            &&& next.phase is Reporting && next.phase->Reporting_plan == saved
        },
        p.phase is Reporting ==> {
            let (next, action) = p.after(PreparationEventModel::Done { cancelled, now });
            &&& looks_at_the_ledger(p.task, cancelled, now, action)
            &&& action is ReadLedger ==> next.phase is Closing && next.phase->Closing_plan
                == p.phase->Reporting_plan
        },
        p.phase is Closing ==> {
            let (next, action) = p.after(PreparationEventModel::Read { ledger, now, fresh });
            &&& !can_be_paid(p.task, ledger) ==> action is Fail && action->Fail_error.kind
                == "budget"@
            &&& can_be_paid(p.task, ledger) ==> {
                &&& action is Checkpoint && action->Checkpoint_value.at("phase"@)
                    == JsonModel::Text("executing"@)
                &&& next.phase is Ending && next.phase->Ending_plan == p.phase->Closing_plan
            }
        },
        p.phase is Ending ==> {
            let (next, action) = p.after(PreparationEventModel::Done { cancelled, now });
            &&& action is Finish && action->Finish_task == p.phase->Ending_plan.task_of(
                p.submission,
            )
            &&& next.phase is Over
        },
{
    lemma_plan_names();
    lemma_step_names();
    reveal(PreparationModel::after_done);
    reveal(PreparationModel::after_read);
    reveal(PreparationModel::after_captured);
    reveal(PreparationModel::assesses);
    reveal(PreparationModel::reports);
    reveal(PreparationModel::ends);
}

/// What could not be done ends the preparation with that error, and one that ended does nothing
/// more.
pub proof fn lemma_broken_preparation_ends(
    p: PreparationModel,
    error: EngineErrorModel,
    event: PreparationEventModel,
)
    ensures
        !(p.phase is Over) ==> {
            let (next, action) = p.after(PreparationEventModel::Broken { error });
            action is Fail && action->Fail_error == error && next.phase is Over
        },
        p.phase is Over ==> p.after(event).0 == p && p.after(event).1 is Wait,
{
}

proof fn lemma_step_names()
    ensures
        "phase"@ != "version"@,
        "phase"@ != "kind"@,
        "phase"@ != "reason"@,
        "phase"@ != "task_type"@,
        "phase"@ != "strategy"@,
        "version"@ != "kind"@,
        "version"@ != "reason"@,
        "version"@ != "task_type"@,
        "version"@ != "strategy"@,
        "kind"@ != "reason"@,
        "kind"@ != "task_type"@,
        "kind"@ != "strategy"@,
        "reason"@ != "task_type"@,
        "reason"@ != "strategy"@,
        "task_type"@ != "strategy"@,
{
    reveal_strlit("phase");
    reveal_strlit("version");
    reveal_strlit("kind");
    reveal_strlit("reason");
    reveal_strlit("task_type");
    reveal_strlit("strategy");
    assert("phase"@.len() == 5);
    assert("version"@.len() == 7);
    assert("kind"@.len() == 4);
    assert("reason"@.len() == 6);
    assert("task_type"@.len() == 9);
    assert("strategy"@.len() == 8);
}

proof fn lemma_event_names()
    ensures
        "model_id"@ != "estimated_cost"@,
{
    reveal_strlit("model_id");
    reveal_strlit("estimated_cost");
    assert("model_id"@.len() == 8);
    assert("estimated_cost"@.len() == 14);
}

proof fn lemma_saved_names()
    ensures
        "role"@ != "route"@,
        "role"@ != "proposal_version"@,
        "route"@ != "proposal_version"@,
{
    reveal_strlit("role");
    reveal_strlit("route");
    reveal_strlit("proposal_version");
    assert("role"@.len() == 4);
    assert("route"@.len() == 5);
    assert("proposal_version"@.len() == 16);
}

proof fn lemma_outcome_names()
    ensures
        "not_dispatched"@ != "call_metrics"@,
{
    reveal_strlit("not_dispatched");
    reveal_strlit("call_metrics");
    assert("not_dispatched"@.len() == 14);
    assert("call_metrics"@.len() == 12);
}

proof fn lemma_error_kinds()
    ensures
        "cancelled"@ != "deadline"@,
        "cancelled"@ != "planning"@,
        "cancelled"@ != "plan_validation"@,
        "deadline"@ != "planning"@,
        "deadline"@ != "plan_validation"@,
        "planning"@ != "plan_validation"@,
{
    reveal_strlit("cancelled");
    reveal_strlit("deadline");
    reveal_strlit("planning");
    reveal_strlit("plan_validation");
    assert("cancelled"@.len() == 9);
    assert("deadline"@.len() == 8);
    assert("planning"@.len() == 8);
    assert("plan_validation"@.len() == 15);
    assert("deadline"@[0] != "planning"@[0]);
}

proof fn lemma_decision_names()
    ensures
        "kind"@ != "question_set_version"@,
        "kind"@ != "assessment"@,
        "kind"@ != "error"@,
        "question_set_version"@ != "assessment"@,
        "question_set_version"@ != "error"@,
        "assessment"@ != "error"@,
{
    reveal_strlit("kind");
    reveal_strlit("question_set_version");
    reveal_strlit("assessment");
    reveal_strlit("error");
    assert("kind"@.len() == 4);
    assert("question_set_version"@.len() == 20);
    assert("assessment"@.len() == 10);
    assert("error"@.len() == 5);
}

proof fn lemma_plan_names()
    ensures
        "effective_plan"@ != "planning"@,
        "effective_plan"@ != "routing_snapshot"@,
        "effective_plan"@ != "plan_version"@,
        "effective_plan"@ != "task_type"@,
        "effective_plan"@ != "strategy"@,
        "planning"@ != "routing_snapshot"@,
        "planning"@ != "plan_version"@,
        "planning"@ != "task_type"@,
        "planning"@ != "strategy"@,
        "routing_snapshot"@ != "plan_version"@,
        "routing_snapshot"@ != "task_type"@,
        "routing_snapshot"@ != "strategy"@,
        "plan_version"@ != "task_type"@,
        "plan_version"@ != "strategy"@,
        "task_type"@ != "strategy"@,
{
    reveal_strlit("effective_plan");
    reveal_strlit("planning");
    reveal_strlit("routing_snapshot");
    reveal_strlit("plan_version");
    reveal_strlit("task_type");
    reveal_strlit("strategy");
    assert("effective_plan"@.len() == 14);
    assert("planning"@.len() == 8);
    assert("routing_snapshot"@.len() == 16);
    assert("plan_version"@.len() == 12);
    assert("task_type"@.len() == 9);
    assert("strategy"@.len() == 8);
    assert("planning"@[0] != "strategy"@[0]);
}

/// What is saved of planning: the call, if one was made, and the proposal, the error and the
/// fallback, each exactly where there is one.
pub proof fn lemma_what_is_told_of_planning(findings: FindingsModel)
    ensures
        ({
            let v = findings.json();
            &&& findings.attempt is Some ==> v.at("attempt_id"@) == JsonModel::Text(
                findings.attempt->0,
            )
            &&& findings.attempt is None ==> v.at("attempt_id"@) is Null
            &&& v.has("proposal"@) <==> findings.proposal is Some
            &&& findings.proposal is Some ==> v.at("proposal"@) == findings.proposal->0
            &&& v.has("error"@) <==> findings.error is Some
            &&& findings.error is Some ==> v.at("error"@) == EngineError::json_of(
                findings.error->0,
            )
            &&& v.has("fallback"@) <==> findings.fallback is Some
            &&& findings.fallback is Some ==> v.at("fallback"@) == PlanChoice::json_of(
                findings.fallback->0,
            )
        }),
{
    lemma_found_names();
}

proof fn lemma_found_names()
    ensures
        "attempt_id"@ != "proposal"@,
        "attempt_id"@ != "error"@,
        "attempt_id"@ != "fallback"@,
        "proposal"@ != "error"@,
        "proposal"@ != "fallback"@,
        "error"@ != "fallback"@,
{
    reveal_strlit("attempt_id");
    reveal_strlit("proposal");
    reveal_strlit("error");
    reveal_strlit("fallback");
    assert("attempt_id"@.len() == 10);
    assert("proposal"@.len() == 8);
    assert("error"@.len() == 5);
    assert("fallback"@.len() == 8);
    assert("proposal"@[0] != "fallback"@[0]);
}

} // verus!
