//! The preparation of a submission as a machine: planning, decision, assessment and the snapshot
//! that routing uses. Planning shares the task's ledger and cancellation.
pub mod discipline;
pub mod steps;

use super::invocation::dispatch::{
    dispatch_refusal, dispatch_time, invoke_request, made_model_call, model_cost, model_outcome,
    model_request, model_result, refusal_of, MadeModelCall,
};
use super::node::{model_started, started, ModelCall, ModelCallModel};
use super::planning::attempt::{
    phase_of, planning_available, planning_input, planning_metadata, planning_phase, planning_size,
    proposal_of, proposal_result, unroutable,
};
use super::planning::{
    as_plan_fault, asked_decision, assessed, assessment_of, budget_fault, build_assessment, check_budget,
    check_plan, check_time, concluded, decision_metadata, decision_outcome, decision_request,
    fall_back, fallback_inputs, made_decision, may_fall_back, plan_of_proposal,
    plan_validated_event, plan_without_proposal, planning_failed_event, planning_fallback_event,
    proposal_event, proposed_inputs, recoverable, saved_plan, skipped_planning, stage_deadline,
    stage_end, time_fault, with_given, DecisionEvaluation, DecisionEvaluationModel, MadeDecision,
};
use super::{remaining_ms, undispatched, undispatched_outcome, viewed, Reply, ReplyModel};
use crate::adapter::{InvokeRequest, InvokeRequestModel, ModelOutput, ModelOutputModel};
use crate::contracts::configuration::{Config, ConfigModel};
use crate::contracts::encoding::Encode;
use crate::contracts::planning::{
    EffectivePlan, EffectivePlanModel, PlanChoice, PlanChoiceModel, PlannerProposal,
    PlannerProposalModel, SubmissionSpec, SubmissionSpecModel, TaskType,
};
use crate::contracts::task::{Strategy, TaskSpec, TaskSpecModel, ToolSpec};
use crate::decision::{
    DecisionAssessment, DecisionAssessmentModel, DecisionRequest, DecisionRequestModel,
};
use crate::fault::{failure, or_fault, EngineError, EngineErrorModel};
use crate::identity::{hex, sha256};
use crate::json::{
    count_model, empty_object, text_or_null, text_or_null_value, Json, JsonModel, ObjectBuilder,
};
use crate::model::Duplicate;
use crate::planning::validation::PlanInputs;
use crate::planning::{messages, planner_messages};
use crate::store::planning::{phase_checkpoint, phase_model};
use crate::store::{Ledger, LedgerModel};
use vstd::prelude::*;

verus! {

/// What is known of planning: the attempt, and what came of it.
#[derive(Debug)]
pub struct Findings {
    pub attempt: Option<String>,
    /// The proposal in its JSON form.
    pub proposal: Option<Json>,
    pub error: Option<EngineError>,
    pub fallback: Option<PlanChoice>,
}

/// What a `Findings` holds.
#[verifier::ext_equal]
pub ghost struct FindingsModel {
    pub attempt: Option<Seq<char>>,
    pub proposal: Option<JsonModel>,
    pub error: Option<EngineErrorModel>,
    pub fallback: Option<PlanChoiceModel>,
}

impl DeepView for Findings {
    type V = FindingsModel;

    open spec fn deep_view(&self) -> FindingsModel {
        FindingsModel {
            attempt: self.attempt.deep_view(),
            proposal: self.proposal.deep_view(),
            error: self.error.deep_view(),
            fallback: self.fallback.deep_view(),
        }
    }
}

impl Duplicate for Findings {
    fn duplicate(&self) -> (r: Self) {
        Findings {
            attempt: self.attempt.duplicate(),
            proposal: self.proposal.duplicate(),
            error: self.error.duplicate(),
            fallback: self.fallback.duplicate(),
        }
    }
}

impl Clone for Findings {
    fn clone(&self) -> (r: Self)
        ensures
            r.deep_view() == self.deep_view(),
    {
        self.duplicate()
    }
}

/// What a preparation waits for.
pub enum PreparationPhase {
    Ready,
    Opening,
    Marking { stage: u64 },
    Announcing { stage: u64 },
    Asking { stage: u64, input_tokens: u64 },
    Selecting { stage: u64 },
    Starting { stage: u64, call: ModelCall, route: Json },
    Reserving { stage: u64, call: ModelCall },
    Waiting { stage: u64, call: ModelCall },
    Refusing { call: ModelCall },
    Settling {
        call: ModelCall,
        result: Result<ModelOutput, EngineError>,
        parsed: Option<PlannerProposal>,
        encoded: Json,
    },
    Completing { attempt: String, proposal: PlannerProposal, encoded: Json },
    Measuring { findings: Findings, plan: EffectivePlan },
    Failing { findings: Findings, error: EngineError },
    Recounting { findings: Findings, error: EngineError },
    Telling { findings: Findings, error: EngineError },
    Falling { findings: Findings, plan: EffectivePlan },
    Checking { planning: Json, plan: EffectivePlan },
    Deciding { planning: Json, plan: EffectivePlan },
    Holding { planning: Json, plan: EffectivePlan, request: DecisionRequest, attempt: String },
    Assessing { planning: Json, plan: EffectivePlan, request: DecisionRequest, attempt: String },
    Concluding { planning: Json, plan: EffectivePlan, decided: Result<DecisionEvaluation, EngineError> },
    Capturing { planning: Json },
    Saving { plan: EffectivePlan },
    Reporting { plan: EffectivePlan },
    Closing { plan: EffectivePlan },
    Ending { plan: EffectivePlan },
    Over,
}

/// What a `PreparationPhase` holds.
#[verifier::ext_equal]
pub ghost enum PreparationPhaseModel {
    Ready,
    Opening,
    Marking { stage: u64 },
    Announcing { stage: u64 },
    Asking { stage: u64, input_tokens: u64 },
    Selecting { stage: u64 },
    Starting { stage: u64, call: ModelCallModel, route: JsonModel },
    Reserving { stage: u64, call: ModelCallModel },
    Waiting { stage: u64, call: ModelCallModel },
    Refusing { call: ModelCallModel },
    Settling {
        call: ModelCallModel,
        result: Result<ModelOutputModel, EngineErrorModel>,
        parsed: Option<PlannerProposalModel>,
        encoded: JsonModel,
    },
    Completing { attempt: Seq<char>, proposal: PlannerProposalModel, encoded: JsonModel },
    Measuring { findings: FindingsModel, plan: EffectivePlanModel },
    Failing { findings: FindingsModel, error: EngineErrorModel },
    Recounting { findings: FindingsModel, error: EngineErrorModel },
    Telling { findings: FindingsModel, error: EngineErrorModel },
    Falling { findings: FindingsModel, plan: EffectivePlanModel },
    Checking { planning: JsonModel, plan: EffectivePlanModel },
    Deciding { planning: JsonModel, plan: EffectivePlanModel },
    Holding {
        planning: JsonModel,
        plan: EffectivePlanModel,
        request: DecisionRequestModel,
        attempt: Seq<char>,
    },
    Assessing {
        planning: JsonModel,
        plan: EffectivePlanModel,
        request: DecisionRequestModel,
        attempt: Seq<char>,
    },
    Concluding {
        planning: JsonModel,
        plan: EffectivePlanModel,
        decided: Result<DecisionEvaluationModel, EngineErrorModel>,
    },
    Capturing { planning: JsonModel },
    Saving { plan: EffectivePlanModel },
    Reporting { plan: EffectivePlanModel },
    Closing { plan: EffectivePlanModel },
    Ending { plan: EffectivePlanModel },
    Over,
}

impl DeepView for PreparationPhase {
    type V = PreparationPhaseModel;

    open spec fn deep_view(&self) -> PreparationPhaseModel {
        match self {
            PreparationPhase::Ready => PreparationPhaseModel::Ready,
            PreparationPhase::Opening => PreparationPhaseModel::Opening,
            PreparationPhase::Marking { stage } => PreparationPhaseModel::Marking {
                stage: stage.deep_view(),
            },
            PreparationPhase::Announcing { stage } => PreparationPhaseModel::Announcing {
                stage: stage.deep_view(),
            },
            PreparationPhase::Asking { stage, input_tokens } => PreparationPhaseModel::Asking {
                stage: stage.deep_view(),
                input_tokens: input_tokens.deep_view(),
            },
            PreparationPhase::Selecting { stage } => PreparationPhaseModel::Selecting {
                stage: stage.deep_view(),
            },
            PreparationPhase::Starting { stage, call, route } => PreparationPhaseModel::Starting {
                stage: stage.deep_view(),
                call: call.deep_view(),
                route: route.deep_view(),
            },
            PreparationPhase::Reserving { stage, call } => PreparationPhaseModel::Reserving {
                stage: stage.deep_view(),
                call: call.deep_view(),
            },
            PreparationPhase::Waiting { stage, call } => PreparationPhaseModel::Waiting {
                stage: stage.deep_view(),
                call: call.deep_view(),
            },
            PreparationPhase::Refusing { call } => PreparationPhaseModel::Refusing {
                call: call.deep_view(),
            },
            PreparationPhase::Settling { call, result, parsed, encoded } => PreparationPhaseModel::Settling {
                call: call.deep_view(),
                result: viewed(*result),
                parsed: parsed.deep_view(),
                encoded: encoded.deep_view(),
            },
            PreparationPhase::Completing { attempt, proposal, encoded } => PreparationPhaseModel::Completing {
                attempt: attempt.deep_view(),
                proposal: proposal.deep_view(),
                encoded: encoded.deep_view(),
            },
            PreparationPhase::Measuring { findings, plan } => PreparationPhaseModel::Measuring {
                findings: findings.deep_view(),
                plan: plan.deep_view(),
            },
            PreparationPhase::Failing { findings, error } => PreparationPhaseModel::Failing {
                findings: findings.deep_view(),
                error: error.deep_view(),
            },
            PreparationPhase::Recounting { findings, error } => PreparationPhaseModel::Recounting {
                findings: findings.deep_view(),
                error: error.deep_view(),
            },
            PreparationPhase::Telling { findings, error } => PreparationPhaseModel::Telling {
                findings: findings.deep_view(),
                error: error.deep_view(),
            },
            PreparationPhase::Falling { findings, plan } => PreparationPhaseModel::Falling {
                findings: findings.deep_view(),
                plan: plan.deep_view(),
            },
            PreparationPhase::Checking { planning, plan } => PreparationPhaseModel::Checking {
                planning: planning.deep_view(),
                plan: plan.deep_view(),
            },
            PreparationPhase::Deciding { planning, plan } => PreparationPhaseModel::Deciding {
                planning: planning.deep_view(),
                plan: plan.deep_view(),
            },
            PreparationPhase::Holding { planning, plan, request, attempt } => PreparationPhaseModel::Holding {
                planning: planning.deep_view(),
                plan: plan.deep_view(),
                request: request.deep_view(),
                attempt: attempt.deep_view(),
            },
            PreparationPhase::Assessing { planning, plan, request, attempt } => PreparationPhaseModel::Assessing {
                planning: planning.deep_view(),
                plan: plan.deep_view(),
                request: request.deep_view(),
                attempt: attempt.deep_view(),
            },
            PreparationPhase::Concluding { planning, plan, decided } => PreparationPhaseModel::Concluding {
                planning: planning.deep_view(),
                plan: plan.deep_view(),
                decided: viewed(*decided),
            },
            PreparationPhase::Capturing { planning } => PreparationPhaseModel::Capturing {
                planning: planning.deep_view(),
            },
            PreparationPhase::Saving { plan } => PreparationPhaseModel::Saving {
                plan: plan.deep_view(),
            },
            PreparationPhase::Reporting { plan } => PreparationPhaseModel::Reporting {
                plan: plan.deep_view(),
            },
            PreparationPhase::Closing { plan } => PreparationPhaseModel::Closing {
                plan: plan.deep_view(),
            },
            PreparationPhase::Ending { plan } => PreparationPhaseModel::Ending {
                plan: plan.deep_view(),
            },
            PreparationPhase::Over => PreparationPhaseModel::Over,
        }
    }
}

/// What happened. What was done comes with the state of cancellation and the clock after it.
pub enum PreparationEvent {
    /// The preparation begins, or what was asked for is done.
    Done { cancelled: bool, now: u64 },
    /// The ledger was read; the identity is new.
    Read { ledger: Ledger, now: u64, fresh: String },
    /// A planner was selected, with the route in its JSON form.
    Routed { call: ModelCall, route: Json },
    /// No planner can be had.
    Unrouted { error: EngineError },
    /// What came of the planner's call, and what its text reads as, also in its JSON form.
    Replied { reply: Reply<ModelOutput>, parsed: Option<PlannerProposal>, encoded: Json, latency_ms: u64 },
    /// How many bytes a task takes.
    Measured { bytes: usize, cancelled: bool, now: u64 },
    /// What came of a decision, with the assessment in its JSON form.
    Assessed { answer: Reply<DecisionAssessment>, encoded: Json },
    /// The snapshot for routing was captured: the plan as it was captured, and both in JSON form.
    Captured { plan: EffectivePlan, encoded: Json, routing: Json },
    /// What was asked for could not be done.
    Broken { error: EngineError },
}

/// What a `PreparationEvent` holds.
#[verifier::ext_equal]
pub ghost enum PreparationEventModel {
    Done { cancelled: bool, now: u64 },
    Read { ledger: LedgerModel, now: u64, fresh: Seq<char> },
    Routed { call: ModelCallModel, route: JsonModel },
    Unrouted { error: EngineErrorModel },
    Replied {
        reply: ReplyModel<ModelOutputModel>,
        parsed: Option<PlannerProposalModel>,
        encoded: JsonModel,
        latency_ms: u64,
    },
    Measured { bytes: usize, cancelled: bool, now: u64 },
    Assessed { answer: ReplyModel<DecisionAssessmentModel>, encoded: JsonModel },
    Captured { plan: EffectivePlanModel, encoded: JsonModel, routing: JsonModel },
    Broken { error: EngineErrorModel },
}

impl DeepView for PreparationEvent {
    type V = PreparationEventModel;

    open spec fn deep_view(&self) -> PreparationEventModel {
        match self {
            PreparationEvent::Done { cancelled, now } => PreparationEventModel::Done {
                cancelled: cancelled.deep_view(),
                now: now.deep_view(),
            },
            PreparationEvent::Read { ledger, now, fresh } => PreparationEventModel::Read {
                ledger: ledger.deep_view(),
                now: now.deep_view(),
                fresh: fresh.deep_view(),
            },
            PreparationEvent::Routed { call, route } => PreparationEventModel::Routed {
                call: call.deep_view(),
                route: route.deep_view(),
            },
            PreparationEvent::Unrouted { error } => PreparationEventModel::Unrouted {
                error: error.deep_view(),
            },
            PreparationEvent::Replied { reply, parsed, encoded, latency_ms } => PreparationEventModel::Replied {
                reply: reply.deep_view(),
                parsed: parsed.deep_view(),
                encoded: encoded.deep_view(),
                latency_ms: latency_ms.deep_view(),
            },
            PreparationEvent::Measured { bytes, cancelled, now } => PreparationEventModel::Measured {
                bytes: bytes.deep_view(),
                cancelled: cancelled.deep_view(),
                now: now.deep_view(),
            },
            PreparationEvent::Assessed { answer, encoded } => PreparationEventModel::Assessed {
                answer: answer.deep_view(),
                encoded: encoded.deep_view(),
            },
            PreparationEvent::Captured { plan, encoded, routing } => PreparationEventModel::Captured {
                plan: plan.deep_view(),
                encoded: encoded.deep_view(),
                routing: routing.deep_view(),
            },
            PreparationEvent::Broken { error } => PreparationEventModel::Broken {
                error: error.deep_view(),
            },
        }
    }
}

/// What to do next.
pub enum PreparationAction {
    ReadLedger,
    Checkpoint { value: Json },
    Emit { node: Option<String>, about: Option<String>, kind: String, data: Json },
    /// Select a planner for a task among the planning candidates.
    Route { task: TaskSpec, input_tokens: u64, available: u64 },
    Reserve { attempt: String, amount: u64, metadata: Json },
    CallModel { request: InvokeRequest, timeout_ms: u64 },
    Decide { asked: DecisionRequest, timeout_ms: u64 },
    Settle { attempt: String, cost: Option<u64>, outcome: Json },
    /// Tell how many bytes a task takes.
    Measure { task: TaskSpec },
    /// Read the metrics and capture the snapshot that the plan is routed by.
    Capture { plan: EffectivePlan },
    SavePlan { saved: Json, checkpoint: Json },
    Finish { task: TaskSpec },
    Fail { error: EngineError },
    /// Nothing: what happened is not what the preparation waits for.
    Wait,
}

/// What a `PreparationAction` holds.
#[verifier::ext_equal]
pub ghost enum PreparationActionModel {
    ReadLedger,
    Checkpoint { value: JsonModel },
    Emit { node: Option<Seq<char>>, about: Option<Seq<char>>, kind: Seq<char>, data: JsonModel },
    Route { task: TaskSpecModel, input_tokens: u64, available: u64 },
    Reserve { attempt: Seq<char>, amount: u64, metadata: JsonModel },
    CallModel { request: InvokeRequestModel, timeout_ms: u64 },
    Decide { asked: DecisionRequestModel, timeout_ms: u64 },
    Settle { attempt: Seq<char>, cost: Option<u64>, outcome: JsonModel },
    Measure { task: TaskSpecModel },
    Capture { plan: EffectivePlanModel },
    SavePlan { saved: JsonModel, checkpoint: JsonModel },
    Finish { task: TaskSpecModel },
    Fail { error: EngineErrorModel },
    Wait,
}

impl DeepView for PreparationAction {
    type V = PreparationActionModel;

    open spec fn deep_view(&self) -> PreparationActionModel {
        match self {
            PreparationAction::ReadLedger => PreparationActionModel::ReadLedger,
            PreparationAction::Checkpoint { value } => PreparationActionModel::Checkpoint {
                value: value.deep_view(),
            },
            PreparationAction::Emit { node, about, kind, data } => PreparationActionModel::Emit {
                node: node.deep_view(),
                about: about.deep_view(),
                kind: kind.deep_view(),
                data: data.deep_view(),
            },
            PreparationAction::Route { task, input_tokens, available } => PreparationActionModel::Route {
                task: task.deep_view(),
                input_tokens: input_tokens.deep_view(),
                available: available.deep_view(),
            },
            PreparationAction::Reserve { attempt, amount, metadata } => PreparationActionModel::Reserve {
                attempt: attempt.deep_view(),
                amount: amount.deep_view(),
                metadata: metadata.deep_view(),
            },
            PreparationAction::CallModel { request, timeout_ms } => PreparationActionModel::CallModel {
                request: request.deep_view(),
                timeout_ms: timeout_ms.deep_view(),
            },
            PreparationAction::Decide { asked, timeout_ms } => PreparationActionModel::Decide {
                asked: asked.deep_view(),
                timeout_ms: timeout_ms.deep_view(),
            },
            PreparationAction::Settle { attempt, cost, outcome } => PreparationActionModel::Settle {
                attempt: attempt.deep_view(),
                cost: cost.deep_view(),
                outcome: outcome.deep_view(),
            },
            PreparationAction::Measure { task } => PreparationActionModel::Measure {
                task: task.deep_view(),
            },
            PreparationAction::Capture { plan } => PreparationActionModel::Capture {
                plan: plan.deep_view(),
            },
            PreparationAction::SavePlan { saved, checkpoint } => PreparationActionModel::SavePlan {
                saved: saved.deep_view(),
                checkpoint: checkpoint.deep_view(),
            },
            PreparationAction::Finish { task } => PreparationActionModel::Finish {
                task: task.deep_view(),
            },
            PreparationAction::Fail { error } => PreparationActionModel::Fail {
                error: error.deep_view(),
            },
            PreparationAction::Wait => PreparationActionModel::Wait,
        }
    }
}

impl FindingsModel {
    /// The JSON form of the findings.
    pub open spec fn json(self) -> JsonModel {
        let base = empty_object().with("attempt_id"@, text_or_null(self.attempt));
        let proposed = with_given(base, "proposal"@, self.proposal);
        let failed = with_given(
            proposed,
            "error"@,
            match self.error {
                Some(e) => Some(EngineError::json_of(e)),
                None => None,
            },
        );
        with_given(
            failed,
            "fallback"@,
            match self.fallback {
                Some(f) => Some(PlanChoice::json_of(f)),
                None => None,
            },
        )
    }
}

impl Findings {
    /// The findings as JSON.
    pub fn to_json(&self) -> (r: Json)
        ensures
            r@ == self.deep_view().json(),
    {
        let mut out: ObjectBuilder = ObjectBuilder::new().with(
            "attempt_id",
            text_or_null_value(&self.attempt),
        );
        if let Some(p) = &self.proposal {
            out = out.with("proposal", p.duplicate());
        }
        if let Some(e) = &self.error {
            out = out.with("error", e.to_json());
        }
        if let Some(f) = &self.fallback {
            out = out.with("fallback", f.to_json());
        }
        out.build()
    }
}

/// The preparation of a submission.
pub struct Preparation {
    submission: SubmissionSpec,
    task: TaskSpec,
    config: Config,
    encoded: Vec<u8>,
    phase: PreparationPhase,
}

/// The state of a preparation. The task is the one of the submission before it is planned.
#[verifier::ext_equal]
pub ghost struct PreparationModel {
    pub submission: SubmissionSpecModel,
    pub task: TaskSpecModel,
    pub config: ConfigModel,
    /// The serialized submission.
    pub encoded: Seq<u8>,
    pub phase: PreparationPhaseModel,
}

impl DeepView for Preparation {
    type V = PreparationModel;

    closed spec fn deep_view(&self) -> PreparationModel {
        PreparationModel {
            submission: self.submission.deep_view(),
            task: self.task.deep_view(),
            config: self.config.deep_view(),
            encoded: self.encoded@,
            phase: self.phase.deep_view(),
        }
    }
}

/// The event of a planner's step.
pub open spec fn planner_event(
    attempt: Option<Seq<char>>,
    kind: Seq<char>,
    data: JsonModel,
) -> PreparationActionModel {
    PreparationActionModel::Emit { node: Some("planner"@), about: attempt, kind, data }
}

/// The events at the start and the end of a planning call.
pub open spec fn proposal_told() -> JsonModel {
    empty_object().with("proposal_version"@, count_model(1))
}

impl PreparationModel {
    pub open spec fn to(self, phase: PreparationPhaseModel, action: PreparationActionModel) -> (
        PreparationModel,
        PreparationActionModel,
    ) {
        (PreparationModel { phase, ..self }, action)
    }

    /// The end of the preparation with an error.
    pub open spec fn fails(self, error: EngineErrorModel) -> (
        PreparationModel,
        PreparationActionModel,
    ) {
        self.to(PreparationPhaseModel::Over, PreparationActionModel::Fail { error })
    }

    /// A step that reads the ledger, unless the run was cancelled or its time is up.
    pub open spec fn counts(
        self,
        phase: PreparationPhaseModel,
        cancelled: bool,
        now: u64,
    ) -> (PreparationModel, PreparationActionModel) {
        match time_fault(self.task, cancelled, now) {
            Some(e) => self.fails(e),
            None => self.to(phase, PreparationActionModel::ReadLedger),
        }
    }

    /// The failure of planning is saved before anything follows from it.
    #[verifier::opaque]
    pub open spec fn stumbles(self, findings: FindingsModel, error: EngineErrorModel) -> (
        PreparationModel,
        PreparationActionModel,
    ) {
        let found = FindingsModel { error: Some(error), ..findings };
        self.to(
            PreparationPhaseModel::Failing { findings: found, error },
            PreparationActionModel::SavePlan {
                saved: empty_object().with("planning"@, found.json()),
                checkpoint: phase_model("planning_failed"@),
            },
        )
    }

    /// A plan is checked as the task that it makes.
    #[verifier::opaque]
    pub open spec fn checks(self, planning: JsonModel, plan: EffectivePlanModel) -> (
        PreparationModel,
        PreparationActionModel,
    ) {
        self.to(
            PreparationPhaseModel::Checking { planning, plan },
            PreparationActionModel::Measure { task: plan.task_of(self.submission) },
        )
    }

    /// What follows the first look at the ledger: planning, or the plan that needs none.
    #[verifier::opaque]
    pub open spec fn opens(self, ledger: LedgerModel, now: u64) -> (
        PreparationModel,
        PreparationActionModel,
    ) {
        match budget_fault(self.task, ledger) {
            Some(e) => self.fails(e),
            None => if self.submission.planned() {
                self.to(
                    PreparationPhaseModel::Marking {
                        stage: stage_end(self.task, self.submission, now) as u64,
                    },
                    PreparationActionModel::Checkpoint { value: phase_model("planning"@) },
                )
            } else {
                let inputs = PlanInputs {
                    submission: self.submission,
                    proposal: None,
                    fallback: None,
                    submission_hash: hex(sha256(self.encoded)),
                };
                match inputs.fault() {
                    Some(e) => self.fails(e),
                    None => self.checks(
                        empty_object().with("skipped"@, JsonModel::Bool(true)),
                        inputs.plan(),
                    ),
                }
            },
        }
    }

    /// Nothing is found yet.
    pub open spec fn unplanned(attempt: Option<Seq<char>>) -> FindingsModel {
        FindingsModel { attempt, proposal: None, error: None, fallback: None }
    }

    /// What follows the start of planning: a planner is selected, unless its conversation is
    /// too long.
    #[verifier::opaque]
    pub open spec fn asks(self, stage: u64) -> (PreparationModel, PreparationActionModel) {
        if planning_size(self.submission) > self.config.context_max_bytes {
            self.stumbles(
                Self::unplanned(None),
                failure("planning"@, "planning context exceeds byte limit"@),
            )
        } else {
            self.to(
                PreparationPhaseModel::Asking {
                    stage,
                    input_tokens: (planning_size(self.submission) + 256) as u64,
                },
                PreparationActionModel::ReadLedger,
            )
        }
    }

    /// A reserved planning call is dispatched, or settled at no cost where its time is up.
    #[verifier::opaque]
    pub open spec fn dispatches(
        self,
        stage: u64,
        call: ModelCallModel,
        cancelled: bool,
        now: u64,
    ) -> (PreparationModel, PreparationActionModel) {
        let phase = phase_of(self.task, self.submission, stage);
        if phase.time_left(now) == 0 || cancelled {
            self.to(
                PreparationPhaseModel::Refusing { call },
                PreparationActionModel::Settle {
                    attempt: call.attempt,
                    cost: Some(0),
                    outcome: undispatched(),
                },
            )
        } else {
            self.to(
                PreparationPhaseModel::Waiting { stage, call },
                PreparationActionModel::CallModel {
                    request: model_request(
                        phase,
                        "planner"@,
                        call.model,
                        call.attempt,
                        planner_messages(self.submission),
                        Seq::empty(),
                    ),
                    timeout_ms: phase.time_left(now) as u64,
                },
            )
        }
    }

    /// What follows a settled planning call.
    #[verifier::opaque]
    pub open spec fn proposes(
        self,
        attempt: Seq<char>,
        result: Result<ModelOutputModel, EngineErrorModel>,
        parsed: Option<PlannerProposalModel>,
        encoded: JsonModel,
        now: u64,
    ) -> (PreparationModel, PreparationActionModel) {
        match proposal_result(result, parsed, self.config.context_max_bytes, self.task, now) {
            Err(e) => self.stumbles(Self::unplanned(Some(attempt)), e),
            Ok(proposal) => self.to(
                PreparationPhaseModel::Completing { attempt, proposal, encoded },
                planner_event(Some(attempt), "planning_completed"@, proposal_told()),
            ),
        }
    }

    /// What follows a proposal: its plan is checked, or planning failed.
    #[verifier::opaque]
    pub open spec fn plans(
        self,
        attempt: Seq<char>,
        proposal: PlannerProposalModel,
        encoded: JsonModel,
    ) -> (PreparationModel, PreparationActionModel) {
        let inputs = proposed_inputs(self.submission, attempt, proposal, self.encoded);
        let findings = FindingsModel {
            proposal: Some(encoded),
            ..Self::unplanned(Some(attempt))
        };
        match inputs.fault() {
            Some(e) => self.stumbles(findings, e),
            None => self.to(
                PreparationPhaseModel::Measuring { findings, plan: inputs.plan() },
                PreparationActionModel::Measure { task: inputs.plan().task_of(self.submission) },
            ),
        }
    }

    /// The fault of the task that a plan makes.
    pub open spec fn plan_fault(self, plan: EffectivePlanModel, bytes: usize, now: u64) -> Option<
        EngineErrorModel,
    > {
        as_plan_fault(
            plan.task_of(self.submission).fault(self.config.context_max_bytes, bytes, now),
        )
    }

    /// What follows failed planning: the host's fallback, where there is one.
    #[verifier::opaque]
    pub open spec fn falls_back(self, findings: FindingsModel, error: EngineErrorModel) -> (
        PreparationModel,
        PreparationActionModel,
    ) {
        match self.submission.planning.fallback {
            None => self.fails(error),
            Some(choice) => {
                let inputs = fallback_inputs(self.submission, choice, self.encoded);
                match inputs.fault() {
                    Some(e) => self.fails(e),
                    None => self.to(
                        PreparationPhaseModel::Falling {
                            findings: FindingsModel { fallback: Some(choice), ..findings },
                            plan: inputs.plan(),
                        },
                        planner_event(
                            findings.attempt,
                            "planning_fallback"@,
                            empty_object().with(
                                "task_type"@,
                                TaskType::json_of(inputs.plan().task_type),
                            ).with("strategy"@, Strategy::json_of(inputs.plan().strategy)).with(
                                "reason"@,
                                JsonModel::Text(error.kind),
                            ),
                        ),
                    ),
                }
            },
        }
    }

    /// An amount is set aside for the decision.
    #[verifier::opaque]
    pub open spec fn holds(
        self,
        planning: JsonModel,
        plan: EffectivePlanModel,
        ledger: LedgerModel,
        fresh: Seq<char>,
    ) -> (PreparationModel, PreparationActionModel) {
        let config = self.config.decision->0;
        let request = asked_decision(config, self.submission);
        match or_fault(budget_fault(self.task, ledger), request.fault()) {
            Some(e) => self.fails(e),
            None => self.to(
                PreparationPhaseModel::Holding { planning, plan, request, attempt: fresh },
                PreparationActionModel::Reserve {
                    attempt: fresh,
                    amount: config.max_cost,
                    metadata: empty_object().with("kind"@, JsonModel::Text("decision"@)).with(
                        "question_set_version"@,
                        JsonModel::Text(request.question_set_version),
                    ),
                },
            ),
        }
    }

    /// A decision that was made is settled.
    #[verifier::opaque]
    pub open spec fn settles_decision(
        self,
        planning: JsonModel,
        plan: EffectivePlanModel,
        request: DecisionRequestModel,
        attempt: Seq<char>,
        answer: ReplyModel<DecisionAssessmentModel>,
        encoded: JsonModel,
    ) -> (PreparationModel, PreparationActionModel) {
        let decided = concluded(self.config.decision->0, request, assessed(answer));
        self.to(
            PreparationPhaseModel::Concluding { planning, plan, decided },
            PreparationActionModel::Settle {
                attempt,
                cost: match decided {
                    Ok(d) => d.assessment.actual_cost,
                    Err(_) => None,
                },
                outcome: decision_outcome(decided, encoded),
            },
        )
    }

    /// What follows the decision: the submission is assessed, and the snapshot is captured.
    #[verifier::opaque]
    pub open spec fn assesses(
        self,
        planning: JsonModel,
        plan: EffectivePlanModel,
        decided: Option<DecisionEvaluationModel>,
    ) -> (PreparationModel, PreparationActionModel) {
        match or_fault(self.submission.facts().fault(), self.config.rules().fault()) {
            Some(e) => self.fails(e),
            None => self.to(
                PreparationPhaseModel::Capturing { planning },
                PreparationActionModel::Capture {
                    plan: EffectivePlanModel {
                        assessment: Some(assessment_of(self.submission, self.config, decided)),
                        ..plan
                    },
                },
            ),
        }
    }

    /// What follows the mark of a planning attempt: the host is told.
    #[verifier::opaque]
    pub open spec fn announces(self, stage: u64) -> (PreparationModel, PreparationActionModel) {
        self.to(
            PreparationPhaseModel::Announcing { stage },
            planner_event(None, "planning_started"@, proposal_told()),
        )
    }

    /// What follows the announcement of a planner: the price is reserved.
    #[verifier::opaque]
    pub open spec fn reserves(self, stage: u64, call: ModelCallModel, route: JsonModel) -> (
        PreparationModel,
        PreparationActionModel,
    ) {
        self.to(
            PreparationPhaseModel::Reserving { stage, call },
            PreparationActionModel::Reserve {
                attempt: call.attempt,
                amount: call.amount,
                metadata: empty_object().with("role"@, JsonModel::Text("planner"@)).with(
                    "route"@,
                    route,
                ).with("proposal_version"@, count_model(1)),
            },
        )
    }

    /// What follows the hold on a decision: the model is asked, for as long as the task has.
    #[verifier::opaque]
    pub open spec fn decides(
        self,
        planning: JsonModel,
        plan: EffectivePlanModel,
        request: DecisionRequestModel,
        attempt: Seq<char>,
        now: u64,
    ) -> (PreparationModel, PreparationActionModel) {
        self.to(
            PreparationPhaseModel::Assessing { planning, plan, request, attempt },
            PreparationActionModel::Decide {
                asked: request,
                timeout_ms: self.task.time_left(now) as u64,
            },
        )
    }

    /// What follows a saved plan: the host is told.
    #[verifier::opaque]
    pub open spec fn reports(self, plan: EffectivePlanModel) -> (
        PreparationModel,
        PreparationActionModel,
    ) {
        self.to(
            PreparationPhaseModel::Reporting { plan },
            PreparationActionModel::Emit {
                node: None,
                about: plan.proposal_id,
                kind: "plan_validated"@,
                data: empty_object().with(
                    "plan_version"@,
                    count_model(plan.plan_version as u64),
                ).with("task_type"@, TaskType::json_of(plan.task_type)).with(
                    "strategy"@,
                    Strategy::json_of(plan.strategy),
                ),
            },
        )
    }

    /// What follows the last checkpoint: the task is handed out.
    #[verifier::opaque]
    pub open spec fn ends(self, plan: EffectivePlanModel) -> (
        PreparationModel,
        PreparationActionModel,
    ) {
        self.to(
            PreparationPhaseModel::Over,
            PreparationActionModel::Finish { task: plan.task_of(self.submission) },
        )
    }

    /// The preparation between two phases.
    pub open spec fn idle(self) -> PreparationModel {
        PreparationModel { phase: PreparationPhaseModel::Over, ..self }
    }

    /// What follows when what was asked for is done.
    #[verifier::opaque]
    pub open spec fn after_done(
        self,
        cancelled: bool,
        now: u64,
    ) -> (PreparationModel, PreparationActionModel) {
        let base = self.idle();
        match self.phase {
            PreparationPhaseModel::Ready => base.counts(PreparationPhaseModel::Opening, cancelled, now),
            PreparationPhaseModel::Marking { stage } => base.announces(stage),
            PreparationPhaseModel::Announcing { stage } => base.asks(stage),
            PreparationPhaseModel::Starting { stage, call, route } => base.reserves(stage, call, route),
            PreparationPhaseModel::Reserving { stage, call } => base.dispatches(stage, call, cancelled, now),
            PreparationPhaseModel::Refusing { call } => base.proposes(
                call.attempt,
                Err(refusal_of(cancelled)),
                None,
                JsonModel::Null,
                now,
            ),
            PreparationPhaseModel::Settling { call, result, parsed, encoded } => base.proposes(
                call.attempt,
                result,
                parsed,
                encoded,
                now,
            ),
            PreparationPhaseModel::Completing { attempt, proposal, encoded } => base.plans(
                attempt,
                proposal,
                encoded,
            ),
            PreparationPhaseModel::Failing { findings, error } => if !recoverable(error.kind) {
                base.fails(error)
            } else {
                base.counts(
                    PreparationPhaseModel::Recounting { findings, error },
                    cancelled,
                    now,
                )
            },
            PreparationPhaseModel::Telling { findings, error } => base.falls_back(findings, error),
            PreparationPhaseModel::Falling { findings, plan } => base.checks(findings.json(), plan),
            PreparationPhaseModel::Holding { planning, plan, request, attempt } => base.decides(
                planning,
                plan,
                request,
                attempt,
                now,
            ),
            PreparationPhaseModel::Concluding { planning, plan, decided } => match decided {
                Err(e) => base.fails(e),
                Ok(d) => base.assesses(planning, plan, Some(d)),
            },
            PreparationPhaseModel::Saving { plan } => base.reports(plan),
            PreparationPhaseModel::Reporting { plan } => base.counts(
                PreparationPhaseModel::Closing { plan },
                cancelled,
                now,
            ),
            PreparationPhaseModel::Ending { plan } => base.ends(plan),
            _ => (self, PreparationActionModel::Wait),
        }
    }

    /// What follows when the ledger was read.
    #[verifier::opaque]
    pub open spec fn after_read(
        self,
        ledger: LedgerModel,
        now: u64,
        fresh: Seq<char>,
    ) -> (PreparationModel, PreparationActionModel) {
        let base = self.idle();
        match self.phase {
            PreparationPhaseModel::Opening => base.opens(ledger, now),
            PreparationPhaseModel::Asking { stage, input_tokens } => base.to(
                PreparationPhaseModel::Selecting { stage },
                PreparationActionModel::Route {
                    task: phase_of(self.task, self.submission, stage),
                    input_tokens,
                    available: if ledger.free() <= self.submission.planning.max_cost {
                        ledger.free() as u64
                    } else {
                        self.submission.planning.max_cost
                    },
                },
            ),
            PreparationPhaseModel::Recounting { findings, error } => match budget_fault(self.task, ledger) {
                Some(e) => base.fails(e),
                None => base.to(
                    PreparationPhaseModel::Telling { findings, error },
                    planner_event(
                        findings.attempt,
                        "planning_failed"@,
                        empty_object().with("kind"@, JsonModel::Text(error.kind)).with(
                            "reason"@,
                            JsonModel::Text(error.message),
                        ),
                    ),
                ),
            },
            PreparationPhaseModel::Deciding { planning, plan } => base.holds(planning, plan, ledger, fresh),
            PreparationPhaseModel::Closing { plan } => match budget_fault(self.task, ledger) {
                Some(e) => base.fails(e),
                None => base.to(
                    PreparationPhaseModel::Ending { plan },
                    PreparationActionModel::Checkpoint { value: phase_model("executing"@) },
                ),
            },
            _ => (self, PreparationActionModel::Wait),
        }
    }

    /// What follows when a task was measured.
    #[verifier::opaque]
    pub open spec fn after_measured(
        self,
        bytes: usize,
        cancelled: bool,
        now: u64,
    ) -> (PreparationModel, PreparationActionModel) {
        let base = self.idle();
        match self.phase {
            PreparationPhaseModel::Measuring { findings, plan } => match self.plan_fault(plan, bytes, now) {
                Some(e) => base.stumbles(findings, e),
                None => base.checks(findings.json(), plan),
            },
            PreparationPhaseModel::Checking { planning, plan } => match self.plan_fault(plan, bytes, now) {
                Some(e) => base.fails(e),
                None => if self.config.decision is Some {
                    base.counts(
                        PreparationPhaseModel::Deciding { planning, plan },
                        cancelled,
                        now,
                    )
                } else {
                    base.assesses(planning, plan, None)
                },
            },
            _ => (self, PreparationActionModel::Wait),
        }
    }

    /// What follows when a planner was selected.
    #[verifier::opaque]
    pub open spec fn after_routed(
        self,
        call: ModelCallModel,
        route: JsonModel,
    ) -> (PreparationModel, PreparationActionModel) {
        let base = self.idle();
        match self.phase {
            PreparationPhaseModel::Selecting { stage } => base.to(
                PreparationPhaseModel::Starting { stage, call, route },
                planner_event(Some(call.attempt), "model_started"@, started(call)),
            ),
            _ => (self, PreparationActionModel::Wait),
        }
    }

    /// What follows when no planner can be had.
    #[verifier::opaque]
    pub open spec fn after_unrouted(
        self,
        error: EngineErrorModel,
    ) -> (PreparationModel, PreparationActionModel) {
        let base = self.idle();
        match self.phase {
            PreparationPhaseModel::Selecting { .. } => base.stumbles(
                Self::unplanned(None),
                EngineErrorModel {
                    details: error.details,
                    ..failure("planning"@, "no permitted planning candidate"@)
                },
            ),
            _ => (self, PreparationActionModel::Wait),
        }
    }

    /// What follows when the planner replied.
    #[verifier::opaque]
    pub open spec fn after_replied(
        self,
        reply: ReplyModel<ModelOutputModel>,
        parsed: Option<PlannerProposalModel>,
        encoded: JsonModel,
        latency_ms: u64,
    ) -> (PreparationModel, PreparationActionModel) {
        let base = self.idle();
        match self.phase {
            PreparationPhaseModel::Waiting { call, .. } => base.to(
                PreparationPhaseModel::Settling {
                    call,
                    result: model_result(reply),
                    parsed,
                    encoded,
                },
                PreparationActionModel::Settle {
                    attempt: call.attempt,
                    cost: model_cost(model_result(reply), call.model),
                    outcome: model_outcome(
                        model_result(reply),
                        "planner"@,
                        self.config.context_max_bytes,
                        latency_ms,
                    ),
                },
            ),
            _ => (self, PreparationActionModel::Wait),
        }
    }

    /// What follows when a decision was made.
    #[verifier::opaque]
    pub open spec fn after_assessed(
        self,
        answer: ReplyModel<DecisionAssessmentModel>,
        encoded: JsonModel,
    ) -> (PreparationModel, PreparationActionModel) {
        let base = self.idle();
        match self.phase {
            PreparationPhaseModel::Assessing {
                planning,
                plan,
                request,
                attempt,
            } => base.settles_decision(planning, plan, request, attempt, answer, encoded),
            _ => (self, PreparationActionModel::Wait),
        }
    }

    /// What follows when the snapshot was captured.
    #[verifier::opaque]
    pub open spec fn after_captured(
        self,
        plan: EffectivePlanModel,
        encoded: JsonModel,
        routing: JsonModel,
    ) -> (PreparationModel, PreparationActionModel) {
        let base = self.idle();
        match self.phase {
            PreparationPhaseModel::Capturing { planning } => base.to(
                PreparationPhaseModel::Saving { plan },
                PreparationActionModel::SavePlan {
                    saved: empty_object().with("effective_plan"@, encoded).with(
                        "planning"@,
                        planning,
                    ).with("routing_snapshot"@, routing),
                    checkpoint: phase_model("planned"@),
                },
            ),
            _ => (self, PreparationActionModel::Wait),
        }
    }

    /// The state after an event, and what to do.
    pub open spec fn after(self, event: PreparationEventModel) -> (
        PreparationModel,
        PreparationActionModel,
    ) {
        if self.phase is Over {
            (self, PreparationActionModel::Wait)
        } else {
            match event {
                PreparationEventModel::Broken { error } => self.idle().fails(error),
                PreparationEventModel::Done { cancelled, now } => self.after_done(cancelled, now),
                PreparationEventModel::Read { ledger, now, fresh } => self.after_read(
                    ledger,
                    now,
                    fresh,
                ),
                PreparationEventModel::Measured { bytes, cancelled, now } => self.after_measured(
                    bytes,
                    cancelled,
                    now,
                ),
                PreparationEventModel::Routed { call, route } => self.after_routed(call, route),
                PreparationEventModel::Unrouted { error } => self.after_unrouted(error),
                PreparationEventModel::Replied {
                    reply,
                    parsed,
                    encoded,
                    latency_ms,
                } => self.after_replied(reply, parsed, encoded, latency_ms),
                PreparationEventModel::Assessed { answer, encoded } => self.after_assessed(
                    answer,
                    encoded,
                ),
                PreparationEventModel::Captured { plan, encoded, routing } => self.after_captured(
                    plan,
                    encoded,
                    routing,
                ),
            }
        }
    }
}

/// A preparation without its phase.
struct Parts {
    submission: SubmissionSpec,
    task: TaskSpec,
    config: Config,
    encoded: Vec<u8>,
}

impl Parts {
    #[verifier::opaque]
    spec fn model(self) -> PreparationModel {
        PreparationModel {
            submission: self.submission.deep_view(),
            task: self.task.deep_view(),
            config: self.config.deep_view(),
            encoded: self.encoded@,
            phase: PreparationPhaseModel::Over,
        }
    }

    #[verifier::opaque]
    spec fn gives(self, r: (Preparation, PreparationAction), expected: (
        PreparationModel,
        PreparationActionModel,
    )) -> bool {
        (r.0.deep_view(), r.1.deep_view()) == expected
    }

    spec fn counted(self) -> bool {
        self.model().config.context_max_bytes <= u64::MAX - 256
    }

    proof fn lemma_submission(self)
        ensures
            self.model().submission == self.submission.deep_view(),
    {
        reveal(Parts::model);
    }

    proof fn lemma_task(self)
        ensures
            self.model().task == self.task.deep_view(),
    {
        reveal(Parts::model);
    }

    proof fn lemma_config(self)
        ensures
            self.model().config == self.config.deep_view(),
    {
        reveal(Parts::model);
    }

    proof fn lemma_encoded(self)
        ensures
            self.model().encoded == self.encoded@,
    {
        reveal(Parts::model);
    }

    proof fn lemma_idle(self)
        ensures
            self.model().phase == PreparationPhaseModel::Over,
    {
        reveal(Parts::model);
    }

    fn go(self, phase: PreparationPhase, action: PreparationAction) -> (r: (
        Preparation,
        PreparationAction,
    ))
        requires
            self.model().to(phase.deep_view(), action.deep_view()).0.valid(),
        ensures
            self.gives(r, self.model().to(phase.deep_view(), action.deep_view())),
    {
        proof {
            reveal(Parts::model);
            reveal(Parts::gives);
        }
        (
            Preparation {
                submission: self.submission,
                task: self.task,
                config: self.config,
                encoded: self.encoded,
                phase,
            },
            action,
        )
    }

    fn fail(self, error: EngineError) -> (r: (Preparation, PreparationAction))
        requires
            self.counted(),
        ensures
            self.gives(r, self.model().fails(error.deep_view())),
    {
        self.go(PreparationPhase::Over, PreparationAction::Fail { error })
    }

    fn count(self, phase: PreparationPhase, cancelled: bool, now: u64) -> (r: (
        Preparation,
        PreparationAction,
    ))
        requires
            self.counted(),
            (PreparationModel { phase: phase.deep_view(), ..self.model() }).valid(),
        ensures
            self.gives(r, self.model().counts(phase.deep_view(), cancelled, now)),
    {
        proof {
            self.lemma_task();
        }
        match check_time(&self.task, cancelled, now) {
            Err(e) => self.fail(e),
            Ok(_) => self.go(phase, PreparationAction::ReadLedger),
        }
    }

    fn stumble(self, findings: Findings, error: EngineError) -> (r: (
        Preparation,
        PreparationAction,
    ))
        requires
            self.counted(),
        ensures
            self.gives(r, self.model().stumbles(findings.deep_view(), error.deep_view())),
    {
        proof {
            reveal(PreparationModel::stumbles);
        }
        let found = Findings {
            attempt: findings.attempt,
            proposal: findings.proposal,
            error: Some(error.duplicate()),
            fallback: findings.fallback,
        };
        let saved: Json = ObjectBuilder::new().with("planning", found.to_json()).build();
        self.go(
            PreparationPhase::Failing { findings: found, error },
            PreparationAction::SavePlan {
                saved,
                checkpoint: phase_checkpoint("planning_failed"),
            },
        )
    }

    fn check(self, planning: Json, plan: EffectivePlan) -> (r: (Preparation, PreparationAction))
        requires
            self.counted(),
        ensures
            self.gives(r, self.model().checks(planning@, plan.deep_view())),
    {
        proof {
            self.lemma_submission();
            reveal(PreparationModel::checks);
        }
        let task: TaskSpec = plan.task(&self.submission);
        self.go(
            PreparationPhase::Checking { planning, plan },
            PreparationAction::Measure { task },
        )
    }

    fn open(self, ledger: &Ledger, now: u64) -> (r: (Preparation, PreparationAction))
        requires
            self.counted(),
        ensures
            self.gives(r, self.model().opens(ledger.deep_view(), now)),
    {
        proof {
            self.lemma_submission();
            self.lemma_task();
            self.lemma_encoded();
            reveal(PreparationModel::opens);
        }
        if let Err(e) = check_budget(&self.task, ledger) {
            return self.fail(e);
        }
        if self.submission.needs_planning() {
            let stage: u64 = stage_deadline(&self.task, &self.submission, now);
            return self.go(
                PreparationPhase::Marking { stage },
                PreparationAction::Checkpoint { value: phase_checkpoint("planning") },
            );
        }
        match plan_without_proposal(&self.submission, self.encoded.as_slice()) {
            Err(e) => self.fail(e),
            Ok(plan) => self.check(skipped_planning(), plan),
        }
    }

    fn ask(self, stage: u64) -> (r: (Preparation, PreparationAction))
        requires
            self.counted(),
        ensures
            self.gives(r, self.model().asks(stage)),
    {
        proof {
            self.lemma_submission();
            self.lemma_config();
            reveal(PreparationModel::asks);
        }
        match planning_input(&self.submission, self.config.context_max_bytes) {
            Err(e) => self.stumble(nothing_found(None), e),
            Ok(input_tokens) => self.go(
                PreparationPhase::Asking { stage, input_tokens },
                PreparationAction::ReadLedger,
            ),
        }
    }

    fn dispatch(self, stage: u64, call: ModelCall, cancelled: bool, now: u64) -> (r: (
        Preparation,
        PreparationAction,
    ))
        requires
            self.counted(),
        ensures
            self.gives(r, self.model().dispatches(stage, call.deep_view(), cancelled, now)),
    {
        proof {
            self.lemma_submission();
            self.lemma_task();
            reveal(PreparationModel::dispatches);
        }
        let phase: TaskSpec = planning_phase(&self.task, &self.submission, stage);
        match dispatch_time(&phase, cancelled, now) {
            None => {
                let attempt: String = call.attempt.clone();
                self.go(
                    PreparationPhase::Refusing { call },
                    PreparationAction::Settle {
                        attempt,
                        cost: Some(0),
                        outcome: undispatched_outcome(),
                    },
                )
            },
            Some(timeout_ms) => {
                let no_tools: Vec<ToolSpec> = Vec::new();
                assert(no_tools.deep_view() =~= Seq::empty());
                let request: InvokeRequest = invoke_request(
                    &phase,
                    "planner",
                    &call.model,
                    call.attempt.as_str(),
                    &messages(&self.submission),
                    &no_tools,
                );
                self.go(
                    PreparationPhase::Waiting { stage, call },
                    PreparationAction::CallModel { request, timeout_ms },
                )
            },
        }
    }

    fn propose(
        self,
        attempt: String,
        result: Result<ModelOutput, EngineError>,
        parsed: Option<PlannerProposal>,
        encoded: Json,
        now: u64,
    ) -> (r: (Preparation, PreparationAction))
        requires
            self.counted(),
        ensures
            self.gives(
                r,
                self.model().proposes(
                    attempt@,
                    viewed(result),
                    parsed.deep_view(),
                    encoded@,
                    now,
                ),
            ),
    {
        proof {
            self.lemma_task();
            self.lemma_config();
            reveal(PreparationModel::proposes);
        }
        match proposal_of(result, parsed, self.config.context_max_bytes, &self.task, now) {
            Err(e) => self.stumble(nothing_found(Some(attempt)), e),
            Ok(proposal) => {
                let told: Option<String> = Some(attempt.clone());
                self.go(
                    PreparationPhase::Completing { attempt, proposal, encoded },
                    tell(told, "planning_completed", proposal_event()),
                )
            },
        }
    }

    fn plan(self, attempt: String, proposal: PlannerProposal, encoded: Json) -> (r: (
        Preparation,
        PreparationAction,
    ))
        requires
            self.counted(),
        ensures
            self.gives(r, self.model().plans(attempt@, proposal.deep_view(), encoded@)),
    {
        proof {
            self.lemma_submission();
            self.lemma_encoded();
            reveal(PreparationModel::plans);
        }
        let planned: Result<EffectivePlan, EngineError> = plan_of_proposal(
            &self.submission,
            attempt.as_str(),
            &proposal,
            self.encoded.as_slice(),
        );
        let findings = Findings {
            attempt: Some(attempt),
            proposal: Some(encoded),
            error: None,
            fallback: None,
        };
        match planned {
            Err(e) => self.stumble(findings, e),
            Ok(plan) => {
                let task: TaskSpec = plan.task(&self.submission);
                self.go(
                    PreparationPhase::Measuring { findings, plan },
                    PreparationAction::Measure { task },
                )
            },
        }
    }

    fn fall(self, findings: Findings, error: EngineError) -> (r: (Preparation, PreparationAction))
        requires
            self.counted(),
        ensures
            self.gives(r, self.model().falls_back(findings.deep_view(), error.deep_view())),
    {
        proof {
            self.lemma_submission();
            self.lemma_encoded();
            reveal(PreparationModel::falls_back);
        }
        let choice: Option<PlanChoice> = self.submission.planning.fallback.duplicate();
        let reason: EngineError = error.duplicate();
        match fall_back(&self.submission, error, self.encoded.as_slice()) {
            Err(e) => self.fail(e),
            Ok(plan) => {
                let data: Json = planning_fallback_event(&plan, &reason);
                let told: Option<String> = findings.attempt.duplicate();
                let found = Findings {
                    attempt: findings.attempt,
                    proposal: findings.proposal,
                    error: findings.error,
                    fallback: choice,
                };
                self.go(
                    PreparationPhase::Falling { findings: found, plan },
                    tell(told, "planning_fallback", data),
                )
            },
        }
    }

    fn hold(self, planning: Json, plan: EffectivePlan, ledger: &Ledger, fresh: String) -> (r: (
        Preparation,
        PreparationAction,
    ))
        requires
            self.counted(),
            self.model().config.decision is Some,
        ensures
            self.gives(
                r,
                self.model().holds(planning@, plan.deep_view(), ledger.deep_view(), fresh@),
            ),
    {
        proof {
            self.lemma_submission();
            self.lemma_task();
            self.lemma_config();
            reveal(PreparationModel::holds);
        }
        if let Err(e) = check_budget(&self.task, ledger) {
            return self.fail(e);
        }
        let (made, amount): (Result<DecisionRequest, EngineError>, u64) =
            match &self.config.decision {
            Some(config) => (decision_request(config, &self.submission), config.max_cost),
            None => (Err(EngineError::new("decision", "")), 0),
        };
        match made {
            Err(e) => self.fail(e),
            Ok(request) => {
                let metadata: Json = decision_metadata(&request);
                let attempt: String = fresh.clone();
                self.go(
                    PreparationPhase::Holding { planning, plan, request, attempt: fresh },
                    PreparationAction::Reserve { attempt, amount, metadata },
                )
            },
        }
    }

    fn settle_decision(
        self,
        planning: Json,
        plan: EffectivePlan,
        request: DecisionRequest,
        attempt: String,
        answer: Reply<DecisionAssessment>,
        encoded: Json,
    ) -> (r: (Preparation, PreparationAction))
        requires
            self.counted(),
            self.model().config.decision is Some,
        ensures
            self.gives(
                r,
                self.model().settles_decision(
                    planning@,
                    plan.deep_view(),
                    request.deep_view(),
                    attempt@,
                    answer.deep_view(),
                    encoded@,
                ),
            ),
    {
        proof {
            self.lemma_config();
            reveal(PreparationModel::settles_decision);
        }
        match &self.config.decision {
            None => self.fail(EngineError::new("decision", "")),
            Some(config) => {
                let made: MadeDecision = made_decision(config, &request, answer, encoded);
                self.go(
                    PreparationPhase::Concluding { planning, plan, decided: made.result },
                    PreparationAction::Settle { attempt, cost: made.cost, outcome: made.outcome },
                )
            },
        }
    }

    fn assess(self, planning: Json, plan: EffectivePlan, decided: Option<DecisionEvaluation>)
        -> (r: (Preparation, PreparationAction))
        requires
            self.counted(),
        ensures
            self.gives(
                r,
                self.model().assesses(planning@, plan.deep_view(), decided.deep_view()),
            ),
    {
        proof {
            self.lemma_submission();
            self.lemma_config();
            reveal(PreparationModel::assesses);
        }
        match build_assessment(&self.submission, &self.config, decided.as_ref()) {
            Err(e) => self.fail(e),
            Ok(assessment) => {
                let mut plan: EffectivePlan = plan;
                plan.assessment = Some(assessment);
                self.go(
                    PreparationPhase::Capturing { planning },
                    PreparationAction::Capture { plan },
                )
            },
        }
    }
}

fn nothing_found(attempt: Option<String>) -> (r: Findings)
    ensures
        r.deep_view() == PreparationModel::unplanned(attempt.deep_view()),
{
    Findings { attempt, proposal: None, error: None, fallback: None }
}

fn tell(attempt: Option<String>, kind: &str, data: Json) -> (r: PreparationAction)
    ensures
        r.deep_view() == planner_event(attempt.deep_view(), kind@, data@),
{
    PreparationAction::Emit {
        node: Some("planner".to_owned()),
        about: attempt,
        kind: kind.to_owned(),
        data,
    }
}

impl PreparationModel {
    /// The planner's conversation cannot be counted past the machine's range, and a decision is
    /// asked for only where one is configured.
    pub open spec fn valid(self) -> bool {
        &&& self.config.context_max_bytes <= u64::MAX - 256
        &&& match self.phase {
            PreparationPhaseModel::Deciding { .. } => self.config.decision is Some,
            PreparationPhaseModel::Holding { .. } => self.config.decision is Some,
            PreparationPhaseModel::Assessing { .. } => self.config.decision is Some,
            _ => true,
        }
    }
}

impl Preparation {
    #[verifier::type_invariant]
    spec fn kept(self) -> bool {
        self.deep_view().valid()
    }

    /// The preparation of a submission that has not begun. `encoded` is the serialized
    /// submission.
    pub fn new(submission: SubmissionSpec, task: TaskSpec, config: Config, encoded: Vec<u8>) -> (r:
        Self)
        requires
            config.context_max_bytes <= u64::MAX - 256,
        ensures
            r.deep_view() == (PreparationModel {
                submission: submission.deep_view(),
                task: task.deep_view(),
                config: config.deep_view(),
                encoded: encoded@,
                phase: PreparationPhaseModel::Ready,
            }),
    {
        Preparation { submission, task, config, encoded, phase: PreparationPhase::Ready }
    }

    /// Takes what happened, and tells what to do next.
    pub fn step(self, event: PreparationEvent) -> (r: (Preparation, PreparationAction))
        ensures
            (r.0.deep_view(), r.1.deep_view()) == self.deep_view().after(event.deep_view()),
            self.deep_view().valid(),
            r.0.deep_view().valid(),
    {
        proof {
            use_type_invariant(&self);
            reveal(Parts::model);
            reveal(Parts::gives);
        }
        let parts = Parts {
            submission: self.submission,
            task: self.task,
            config: self.config,
            encoded: self.encoded,
        };
        let r: (Preparation, PreparationAction) = match (self.phase, event) {
            (PreparationPhase::Over, _) => parts.go(PreparationPhase::Over, PreparationAction::Wait),
            (phase, PreparationEvent::Done { cancelled, now }) => parts.done(phase, cancelled, now),
            (phase, PreparationEvent::Read { ledger, now, fresh }) => parts.read(
                phase,
                ledger,
                now,
                fresh,
            ),
            (phase, PreparationEvent::Measured { bytes, cancelled, now }) => parts.measured(
                phase,
                bytes,
                cancelled,
                now,
            ),
            (phase, PreparationEvent::Routed { call, route }) => parts.routed(phase, call, route),
            (phase, PreparationEvent::Unrouted { error }) => parts.unrouted(phase, error),
            (
                phase,
                PreparationEvent::Replied { reply, parsed, encoded, latency_ms },
            ) => parts.replied(phase, reply, parsed, encoded, latency_ms),
            (phase, PreparationEvent::Assessed { answer, encoded }) => parts.decided(
                phase,
                answer,
                encoded,
            ),
            (phase, PreparationEvent::Captured { plan, encoded, routing }) => parts.captured(
                phase,
                plan,
                encoded,
                routing,
            ),
            (_, PreparationEvent::Broken { error }) => parts.fail(error),
        };
        proof {
            use_type_invariant(&r.0);
        }
        r
    }
}

impl Parts {
    fn announce(self, stage: u64) -> (r: (Preparation, PreparationAction))
        requires
            self.counted(),
        ensures
            self.gives(r, self.model().announces(stage)),
    {
        proof {
            reveal(PreparationModel::announces);
        }
        self.go(
            PreparationPhase::Announcing { stage },
            tell(None, "planning_started", proposal_event()),
        )
    }

    fn reserve(self, stage: u64, call: ModelCall, route: Json) -> (r: (
        Preparation,
        PreparationAction,
    ))
        requires
            self.counted(),
        ensures
            self.gives(r, self.model().reserves(stage, call.deep_view(), route@)),
    {
        proof {
            reveal(PreparationModel::reserves);
        }
        let attempt: String = call.attempt.clone();
        let amount: u64 = call.amount;
        self.go(
            PreparationPhase::Reserving { stage, call },
            PreparationAction::Reserve { attempt, amount, metadata: planning_metadata(route) },
        )
    }

    fn decide(
        self,
        planning: Json,
        plan: EffectivePlan,
        request: DecisionRequest,
        attempt: String,
        now: u64,
    ) -> (r: (Preparation, PreparationAction))
        requires
            self.counted(),
            self.model().config.decision is Some,
        ensures
            self.gives(
                r,
                self.model().decides(
                    planning@,
                    plan.deep_view(),
                    request.deep_view(),
                    attempt@,
                    now,
                ),
            ),
    {
        proof {
            self.lemma_task();
            reveal(PreparationModel::decides);
        }
        let timeout_ms: u64 = remaining_ms(&self.task, now);
        let asked: DecisionRequest = request.duplicate();
        self.go(
            PreparationPhase::Assessing { planning, plan, request, attempt },
            PreparationAction::Decide { asked, timeout_ms },
        )
    }

    fn report(self, plan: EffectivePlan) -> (r: (Preparation, PreparationAction))
        requires
            self.counted(),
        ensures
            self.gives(r, self.model().reports(plan.deep_view())),
    {
        proof {
            reveal(PreparationModel::reports);
        }
        let data: Json = plan_validated_event(&plan);
        let about: Option<String> = plan.proposal_id.duplicate();
        self.go(
            PreparationPhase::Reporting { plan },
            PreparationAction::Emit { node: None, about, kind: "plan_validated".to_owned(), data },
        )
    }

    fn end(self, plan: EffectivePlan) -> (r: (Preparation, PreparationAction))
        requires
            self.counted(),
        ensures
            self.gives(r, self.model().ends(plan.deep_view())),
    {
        proof {
            self.lemma_submission();
            reveal(PreparationModel::ends);
        }
        let task: TaskSpec = plan.task(&self.submission);
        self.go(PreparationPhase::Over, PreparationAction::Finish { task })
    }

    /// Goes on after what was asked for is done.
    fn done(self, phase: PreparationPhase, cancelled: bool, now: u64) -> (r: (
        Preparation,
        PreparationAction,
    ))
        requires
            (PreparationModel { phase: phase.deep_view(), ..self.model() }).valid(),
        ensures
            self.gives(
                r,
                (PreparationModel { phase: phase.deep_view(), ..self.model() }).after_done(
                    cancelled,
                    now,
                ),
            ),
    {
        proof {
            self.lemma_idle();
            reveal(PreparationModel::after_done);
        }
        match phase {
            PreparationPhase::Ready => self.count(PreparationPhase::Opening, cancelled, now),
            PreparationPhase::Marking { stage } => self.announce(stage),
            PreparationPhase::Announcing { stage } => self.ask(stage),
            PreparationPhase::Starting { stage, call, route } => self.reserve(stage, call, route),
            PreparationPhase::Reserving { stage, call } => self.dispatch(
                stage,
                call,
                cancelled,
                now,
            ),
            PreparationPhase::Refusing { call } => self.propose(
                call.attempt,
                Err(dispatch_refusal(cancelled)),
                None,
                Json::Null,
                now,
            ),
            PreparationPhase::Settling { call, result, parsed, encoded } => self.propose(
                call.attempt,
                result,
                parsed,
                encoded,
                now,
            ),
            PreparationPhase::Completing { attempt, proposal, encoded } => self.plan(
                attempt,
                proposal,
                encoded,
            ),
            PreparationPhase::Failing { findings, error } => {
                if !may_fall_back(&error) {
                    self.fail(error)
                } else {
                    self.count(PreparationPhase::Recounting { findings, error }, cancelled, now)
                }
            },
            PreparationPhase::Telling { findings, error } => self.fall(findings, error),
            PreparationPhase::Falling { findings, plan } => {
                let planning: Json = findings.to_json();
                self.check(planning, plan)
            },
            PreparationPhase::Holding { planning, plan, request, attempt } => self.decide(
                planning,
                plan,
                request,
                attempt,
                now,
            ),
            PreparationPhase::Concluding { planning, plan, decided } => match decided {
                Err(e) => self.fail(e),
                Ok(d) => self.assess(planning, plan, Some(d)),
            },
            PreparationPhase::Saving { plan } => self.report(plan),
            PreparationPhase::Reporting { plan } => self.count(
                PreparationPhase::Closing { plan },
                cancelled,
                now,
            ),
            PreparationPhase::Ending { plan } => self.end(plan),
            phase => self.go(phase, PreparationAction::Wait),
        }
    }

    /// Goes on after the ledger was read.
    fn read(self, phase: PreparationPhase, ledger: Ledger, now: u64, fresh: String) -> (r: (
        Preparation,
        PreparationAction,
    ))
        requires
            (PreparationModel { phase: phase.deep_view(), ..self.model() }).valid(),
        ensures
            self.gives(
                r,
                (PreparationModel { phase: phase.deep_view(), ..self.model() }).after_read(
                    ledger.deep_view(),
                    now,
                    fresh@,
                ),
            ),
    {
        proof {
            self.lemma_submission();
            self.lemma_task();
            self.lemma_idle();
            reveal(PreparationModel::after_read);
        }
        match phase {
            PreparationPhase::Opening => self.open(&ledger, now),
            PreparationPhase::Asking { stage, input_tokens } => {
                let task: TaskSpec = planning_phase(&self.task, &self.submission, stage);
                let available: u64 = planning_available(&ledger, &self.submission);
                self.go(
                    PreparationPhase::Selecting { stage },
                    PreparationAction::Route { task, input_tokens, available },
                )
            },
            PreparationPhase::Recounting { findings, error } => match check_budget(
                &self.task,
                &ledger,
            ) {
                Err(e) => self.fail(e),
                Ok(_) => {
                    let data: Json = planning_failed_event(&error);
                    let about: Option<String> = findings.attempt.duplicate();
                    self.go(
                        PreparationPhase::Telling { findings, error },
                        tell(about, "planning_failed", data),
                    )
                },
            },
            PreparationPhase::Deciding { planning, plan } => self.hold(
                planning,
                plan,
                &ledger,
                fresh,
            ),
            PreparationPhase::Closing { plan } => match check_budget(&self.task, &ledger) {
                Err(e) => self.fail(e),
                Ok(_) => self.go(
                    PreparationPhase::Ending { plan },
                    PreparationAction::Checkpoint { value: phase_checkpoint("executing") },
                ),
            },
            phase => self.go(phase, PreparationAction::Wait),
        }
    }

    /// Goes on after a task was measured.
    fn measured(self, phase: PreparationPhase, bytes: usize, cancelled: bool, now: u64) -> (r: (
        Preparation,
        PreparationAction,
    ))
        requires
            (PreparationModel { phase: phase.deep_view(), ..self.model() }).valid(),
        ensures
            self.gives(
                r,
                (PreparationModel { phase: phase.deep_view(), ..self.model() }).after_measured(
                    bytes,
                    cancelled,
                    now,
                ),
            ),
    {
        proof {
            self.lemma_submission();
            self.lemma_config();
            self.lemma_idle();
            reveal(PreparationModel::after_measured);
        }
        match phase {
            PreparationPhase::Measuring { findings, plan } => match check_plan(
                &plan,
                &self.submission,
                &self.config,
                bytes,
                now,
            ) {
                Err(e) => self.stumble(findings, e),
                Ok(_) => {
                    let planning: Json = findings.to_json();
                    self.check(planning, plan)
                },
            },
            PreparationPhase::Checking { planning, plan } => match check_plan(
                &plan,
                &self.submission,
                &self.config,
                bytes,
                now,
            ) {
                Err(e) => self.fail(e),
                Ok(_) => {
                    if self.config.decision.is_some() {
                        self.count(PreparationPhase::Deciding { planning, plan }, cancelled, now)
                    } else {
                        self.assess(planning, plan, None)
                    }
                },
            },
            phase => self.go(phase, PreparationAction::Wait),
        }
    }

    /// Goes on after no planner can be had.
    fn unrouted(self, phase: PreparationPhase, error: EngineError) -> (r: (Preparation, PreparationAction))
        requires
            (PreparationModel { phase: phase.deep_view(), ..self.model() }).valid(),
        ensures
            self.gives(
                r,
                (PreparationModel { phase: phase.deep_view(), ..self.model() }).after_unrouted(
                    error.deep_view(),
                ),
            ),
    {
        proof {
            self.lemma_idle();
            reveal(PreparationModel::after_unrouted);
        }
        match phase {
            PreparationPhase::Selecting { .. } => self.stumble(
                nothing_found(None),
                unroutable(error),
            ),
            phase => self.go(phase, PreparationAction::Wait),
        }
    }

    /// Goes on after a planner was selected.
    fn routed(
        self,
        phase: PreparationPhase,
        call: ModelCall,
        route: Json,
    ) -> (r: (Preparation, PreparationAction))
        requires
            (PreparationModel { phase: phase.deep_view(), ..self.model() }).valid(),
        ensures
            self.gives(
                r,
                (PreparationModel { phase: phase.deep_view(), ..self.model() }).after_routed(
                    call.deep_view(),
                    route@,
                ),
            ),
    {
        proof {
            self.lemma_idle();
            reveal(PreparationModel::after_routed);
        }
        match phase {
            PreparationPhase::Selecting { stage } => {
                let data: Json = model_started(&call);
                let about: Option<String> = Some(call.attempt.clone());
                self.go(
                    PreparationPhase::Starting { stage, call, route },
                    tell(about, "model_started", data),
                )
            },
            phase => self.go(phase, PreparationAction::Wait),
        }
    }

    /// Goes on after the planner replied.
    fn replied(
        self,
        phase: PreparationPhase,
        reply: Reply<ModelOutput>,
        parsed: Option<PlannerProposal>,
        encoded: Json,
        latency_ms: u64,
    ) -> (r: (Preparation, PreparationAction))
        requires
            (PreparationModel { phase: phase.deep_view(), ..self.model() }).valid(),
        ensures
            self.gives(
                r,
                (PreparationModel { phase: phase.deep_view(), ..self.model() }).after_replied(
                    reply.deep_view(),
                    parsed.deep_view(),
                    encoded@,
                    latency_ms,
                ),
            ),
    {
        proof {
            self.lemma_config();
            self.lemma_idle();
            reveal(PreparationModel::after_replied);
        }
        match phase {
            PreparationPhase::Waiting { call, .. } => {
                let made: MadeModelCall = made_model_call(
                    reply,
                    &call.model,
                    "planner",
                    self.config.context_max_bytes,
                    latency_ms,
                );
                let attempt: String = call.attempt.clone();
                self.go(
                    PreparationPhase::Settling { call, result: made.result, parsed, encoded },
                    PreparationAction::Settle { attempt, cost: made.cost, outcome: made.outcome },
                )
            },
            phase => self.go(phase, PreparationAction::Wait),
        }
    }

    /// Goes on after a decision was made.
    fn decided(
        self,
        phase: PreparationPhase,
        answer: Reply<DecisionAssessment>,
        encoded: Json,
    ) -> (r: (Preparation, PreparationAction))
        requires
            (PreparationModel { phase: phase.deep_view(), ..self.model() }).valid(),
        ensures
            self.gives(
                r,
                (PreparationModel { phase: phase.deep_view(), ..self.model() }).after_assessed(
                    answer.deep_view(),
                    encoded@,
                ),
            ),
    {
        proof {
            self.lemma_idle();
            reveal(PreparationModel::after_assessed);
        }
        match phase {
            PreparationPhase::Assessing { planning, plan, request, attempt } => {
                self.settle_decision(planning, plan, request, attempt, answer, encoded)
            },
            phase => self.go(phase, PreparationAction::Wait),
        }
    }

    /// Goes on after the snapshot was captured.
    fn captured(
        self,
        phase: PreparationPhase,
        plan: EffectivePlan,
        encoded: Json,
        routing: Json,
    ) -> (r: (Preparation, PreparationAction))
        requires
            (PreparationModel { phase: phase.deep_view(), ..self.model() }).valid(),
        ensures
            self.gives(
                r,
                (PreparationModel { phase: phase.deep_view(), ..self.model() }).after_captured(
                    plan.deep_view(),
                    encoded@,
                    routing@,
                ),
            ),
    {
        proof {
            self.lemma_idle();
            reveal(PreparationModel::after_captured);
        }
        match phase {
            PreparationPhase::Capturing { planning } => {
                let saved: Json = saved_plan(encoded, planning, routing);
                self.go(
                    PreparationPhase::Saving { plan },
                    PreparationAction::SavePlan {
                        saved,
                        checkpoint: phase_checkpoint("planned"),
                    },
                )
            },
            phase => self.go(phase, PreparationAction::Wait),
        }
    }
}

} // verus!
