//! Planning runs inside the same admitted task, ledger and cancellation boundary.
pub mod attempt;

use super::{cutoff_ms, into_result, result_of, viewed, Reply, ReplyModel};
use crate::assessment::{
    evaluate_rules, lemma_merged, merge_assessment_with_evidence, merged, rules_outcome,
    RuleAssessment, RuleSet, RuleSetModel, TaskAssessment, TaskAssessmentModel, TaskFacts,
    TaskFactsModel,
};
use crate::contracts::configuration::{Config, ConfigModel};
use crate::contracts::encoding::Encode;
use crate::contracts::planning::{
    EffectivePlan, PlanChoiceModel, PlannerProposal, PlannerProposalModel, SubmissionSpec,
    SubmissionSpecModel, TaskType,
};
use crate::contracts::task::{plus_capped, Strategy, TaskSpec, TaskSpecModel};
use crate::decision::{
    recommendation_of, DecisionAssessment, DecisionAssessmentModel, DecisionConfig,
    DecisionConfigModel, DecisionRecommendation, DecisionRecommendationModel, DecisionRequest,
    DecisionRequestModel, DecisionState, DecisionStateModel,
};
use crate::fault::{answers, failure, or_fault, EngineError, EngineErrorModel};
use crate::identity::{hex, sha256};
use crate::json::{
    count_model, count_value, empty_object, text_value, Json, JsonModel, ObjectBuilder,
};
use crate::model::Duplicate;
use crate::planning::validation::{validate_plan, PlanInputs};
use crate::store::{Ledger, LedgerModel};
use crate::text::{same_text, TextMap};
use vstd::prelude::*;

verus! {

/// Why a stage may not begin: the run was cancelled, or its time is up.
pub open spec fn time_fault(task: TaskSpecModel, cancelled: bool, now: u64) -> Option<
    EngineErrorModel,
> {
    if cancelled {
        Some(failure("cancelled"@, "task cancelled"@))
    } else if now >= task.cutoff() {
        Some(failure("deadline"@, "task execution deadline reached"@))
    } else {
        None
    }
}

/// Checks that a stage may begin.
pub fn check_time(task: &TaskSpec, cancelled: bool, now: u64) -> (r: Result<(), EngineError>)
    ensures
        answers(r, time_fault(task.deep_view(), cancelled, now)),
{
    if cancelled {
        return Err(EngineError::new("cancelled", "task cancelled"));
    }
    if now >= cutoff_ms(task) {
        return Err(EngineError::new("deadline", "task execution deadline reached"));
    }
    Ok(())
}

/// Why no further call can be paid for. A task without a budget is bounded by its calls alone.
pub open spec fn budget_fault(task: TaskSpecModel, ledger: LedgerModel) -> Option<
    EngineErrorModel,
> {
    if ledger.calls >= task.max_calls || (ledger.total > 0 && ledger.free() == 0) {
        Some(failure("budget"@, "no execution resources remain"@))
    } else {
        None
    }
}

/// Checks that a further call can be paid for.
pub fn check_budget(task: &TaskSpec, ledger: &Ledger) -> (r: Result<(), EngineError>)
    ensures
        answers(r, budget_fault(task.deep_view(), ledger.deep_view())),
{
    if ledger.calls >= task.max_calls || (ledger.total > 0 && ledger.available() == 0) {
        return Err(EngineError::new("budget", "no execution resources remain"));
    }
    Ok(())
}

/// When the planning stage ends: at its own timeout, and not after execution does.
pub open spec fn stage_end(
    task: TaskSpecModel,
    submission: SubmissionSpecModel,
    now: u64,
) -> int {
    let own = plus_capped(now as int, submission.planning.timeout_ms as int);
    if task.cutoff() <= own {
        task.cutoff()
    } else {
        own
    }
}

/// When the planning stage ends.
pub fn stage_deadline(task: &TaskSpec, submission: &SubmissionSpec, now: u64) -> (r: u64)
    ensures
        r == stage_end(task.deep_view(), submission.deep_view(), now),
{
    let own: u64 = now.saturating_add(submission.planning.timeout_ms);
    let end: u64 = cutoff_ms(task);
    if end <= own {
        end
    } else {
        own
    }
}

/// A fault as one of the plan.
pub open spec fn as_plan_fault(fault: Option<EngineErrorModel>) -> Option<EngineErrorModel> {
    match fault {
        Some(e) => Some(failure("plan_validation"@, e.message)),
        None => None,
    }
}

/// Checks the task that a plan makes of its submission. `encoded` is the length of that task.
pub fn check_plan(
    plan: &EffectivePlan,
    submission: &SubmissionSpec,
    config: &Config,
    encoded: usize,
    now: u64,
) -> (r: Result<(), EngineError>)
    ensures
        answers(
            r,
            as_plan_fault(
                plan.deep_view().task_of(submission.deep_view()).fault(
                    config.context_max_bytes,
                    encoded,
                    now,
                ),
            ),
        ),
{
    match plan.task(submission).validate(config, encoded, now) {
        Ok(_) => Ok(()),
        Err(e) => Err(EngineError::new("plan_validation", e.message.as_str())),
    }
}

/// The inputs of a plan of a proposal.
pub open spec fn proposed_inputs(
    submission: SubmissionSpecModel,
    attempt: Seq<char>,
    proposal: PlannerProposalModel,
    encoded: Seq<u8>,
) -> PlanInputs {
    PlanInputs {
        submission,
        proposal: Some((attempt, proposal)),
        fallback: None,
        submission_hash: hex(sha256(encoded)),
    }
}

/// The plan of a proposal. `encoded` is the serialized submission.
pub fn plan_of_proposal(
    submission: &SubmissionSpec,
    attempt: &str,
    proposal: &PlannerProposal,
    encoded: &[u8],
) -> (r: Result<EffectivePlan, EngineError>)
    ensures
        ({
            let inputs = proposed_inputs(
                submission.deep_view(),
                attempt@,
                proposal.deep_view(),
                encoded@,
            );
            &&& answers(r, inputs.fault())
            &&& r is Ok ==> r->Ok_0.deep_view() == inputs.plan()
        }),
{
    validate_plan(submission, Some((attempt, proposal)), None, encoded)
}

/// The plan of a submission that needs no planning.
pub fn plan_without_proposal(submission: &SubmissionSpec, encoded: &[u8]) -> (r: Result<
    EffectivePlan,
    EngineError,
>)
    ensures
        ({
            let inputs = PlanInputs {
                submission: submission.deep_view(),
                proposal: None,
                fallback: None,
                submission_hash: hex(sha256(encoded@)),
            };
            &&& answers(r, inputs.fault())
            &&& r is Ok ==> r->Ok_0.deep_view() == inputs.plan()
        }),
{
    validate_plan(submission, None, None, encoded)
}

/// No fallback follows cancellation, the overall deadline, exhausted resources or a failure of
/// the store.
pub open spec fn recoverable(kind: Seq<char>) -> bool {
    kind != "cancelled"@ && kind != "deadline"@ && kind != "budget"@ && kind != "storage"@
}

/// Whether a fallback may follow an error of planning.
pub fn may_fall_back(error: &EngineError) -> (r: bool)
    ensures
        r == recoverable(error.kind@),
{
    let kind: &str = error.kind.as_str();
    !(same_text(kind, "cancelled") || same_text(kind, "deadline") || same_text(kind, "budget")
        || same_text(kind, "storage"))
}

/// The inputs of a plan of the host's fallback.
pub open spec fn fallback_inputs(
    submission: SubmissionSpecModel,
    fallback: PlanChoiceModel,
    encoded: Seq<u8>,
) -> PlanInputs {
    PlanInputs {
        submission,
        proposal: None,
        fallback: Some(fallback),
        submission_hash: hex(sha256(encoded)),
    }
}

/// The plan after planning failed: that of the host's fallback, else the error stands.
pub fn fall_back(submission: &SubmissionSpec, error: EngineError, encoded: &[u8]) -> (r: Result<
    EffectivePlan,
    EngineError,
>)
    ensures
        match submission.deep_view().planning.fallback {
            None => r == Err::<EffectivePlan, EngineError>(error),
            Some(choice) => {
                let inputs = fallback_inputs(submission.deep_view(), choice, encoded@);
                &&& answers(r, inputs.fault())
                &&& r is Ok ==> r->Ok_0.deep_view() == inputs.plan()
            },
        },
{
    match &submission.planning.fallback {
        None => Err(error),
        Some(choice) => validate_plan(submission, None, Some(choice), encoded),
    }
}

/// An object with a member where it is given.
pub open spec fn with_given(object: JsonModel, key: Seq<char>, value: Option<JsonModel>) -> JsonModel {
    match value {
        Some(v) => object.with(key, v),
        None => object,
    }
}

/// The evidence of a submission that needs no planning.
pub fn skipped_planning() -> (r: Json)
    ensures
        r@ == empty_object().with("skipped"@, JsonModel::Bool(true)),
{
    ObjectBuilder::new().with("skipped", Json::Bool(true)).build()
}

/// What is saved of a plan; its parts come in their JSON form.
pub fn saved_plan(plan: Json, planning: Json, routing: Json) -> (r: Json)
    ensures
        r@ == empty_object().with("effective_plan"@, plan@).with("planning"@, planning@).with(
            "routing_snapshot"@,
            routing@,
        ),
{
    ObjectBuilder::new().with("effective_plan", plan).with("planning", planning).with(
        "routing_snapshot",
        routing,
    ).build()
}

/// What the events at the start and the end of a planning call tell.
pub fn proposal_event() -> (r: Json)
    ensures
        r@ == empty_object().with("proposal_version"@, count_model(1)),
{
    ObjectBuilder::new().with("proposal_version", count_value(1)).build()
}

/// What the event of failed planning tells.
pub fn planning_failed_event(error: &EngineError) -> (r: Json)
    ensures
        r@ == empty_object().with("kind"@, JsonModel::Text(error.kind@)).with(
            "reason"@,
            JsonModel::Text(error.message@),
        ),
{
    ObjectBuilder::new().with("kind", text_value(error.kind.as_str())).with(
        "reason",
        text_value(error.message.as_str()),
    ).build()
}

/// What the event of a fallback tells.
pub fn planning_fallback_event(plan: &EffectivePlan, error: &EngineError) -> (r: Json)
    ensures
        r@ == empty_object().with("task_type"@, TaskType::json_of(plan.task_type)).with(
            "strategy"@,
            Strategy::json_of(plan.strategy),
        ).with("reason"@, JsonModel::Text(error.kind@)),
{
    ObjectBuilder::new().with("task_type", plan.task_type.to_json()).with(
        "strategy",
        plan.strategy.to_json(),
    ).with("reason", text_value(error.kind.as_str())).build()
}

/// What the event of a validated plan tells.
pub fn plan_validated_event(plan: &EffectivePlan) -> (r: Json)
    ensures
        r@ == empty_object().with("plan_version"@, count_model(plan.plan_version as u64)).with(
            "task_type"@,
            TaskType::json_of(plan.task_type),
        ).with("strategy"@, Strategy::json_of(plan.strategy)),
{
    ObjectBuilder::new().with("plan_version", count_value(plan.plan_version as u64)).with(
        "task_type",
        plan.task_type.to_json(),
    ).with("strategy", plan.strategy.to_json()).build()
}

/// A decision that was made: what a model assessed, and what the policy makes of it.
#[derive(Debug)]
pub struct DecisionEvaluation {
    pub assessment: DecisionAssessment,
    pub recommendation: DecisionRecommendation,
}

/// What a `DecisionEvaluation` holds.
#[verifier::ext_equal]
pub ghost struct DecisionEvaluationModel {
    pub assessment: DecisionAssessmentModel,
    pub recommendation: DecisionRecommendationModel,
}

impl DeepView for DecisionEvaluation {
    type V = DecisionEvaluationModel;

    open spec fn deep_view(&self) -> DecisionEvaluationModel {
        DecisionEvaluationModel {
            assessment: self.assessment.deep_view(),
            recommendation: self.recommendation.deep_view(),
        }
    }
}

impl Duplicate for DecisionEvaluation {
    fn duplicate(&self) -> (r: Self) {
        DecisionEvaluation {
            assessment: self.assessment.duplicate(),
            recommendation: self.recommendation.duplicate(),
        }
    }
}

impl Clone for DecisionEvaluation {
    fn clone(&self) -> (r: Self)
        ensures
            r.deep_view() == self.deep_view(),
    {
        self.duplicate()
    }
}

impl SubmissionSpecModel {
    /// The facts that the host gives; none where it gives none.
    pub open spec fn facts(self) -> TaskFactsModel {
        match self.task_facts {
            Some(facts) => facts,
            None => TaskFactsModel { version: "host-facts-absent-v1"@, values: Map::empty() },
        }
    }
}

/// The facts of a submission.
pub fn facts_of(submission: &SubmissionSpec) -> (r: TaskFacts)
    ensures
        r.deep_view() == submission.deep_view().facts(),
{
    match &submission.task_facts {
        Some(facts) => facts.duplicate(),
        None => {
            let r = TaskFacts { version: "host-facts-absent-v1".to_owned(), values: TextMap::new() };
            assert(r.deep_view().values =~= Map::empty());
            r
        },
    }
}

/// The decision that a submission asks for: the configured questions about the host's facts.
pub open spec fn asked_decision(
    config: DecisionConfigModel,
    submission: SubmissionSpecModel,
) -> DecisionRequestModel {
    DecisionRequestModel {
        question_set_version: config.question_set_version,
        state: DecisionStateModel {
            version: submission.facts().version,
            values: submission.facts().values,
        },
        questions: config.questions,
    }
}

/// The decision that a submission asks for, where it is a valid one.
pub fn decision_request(config: &DecisionConfig, submission: &SubmissionSpec) -> (r: Result<
    DecisionRequest,
    EngineError,
>)
    ensures
        answers(r, asked_decision(config.deep_view(), submission.deep_view()).fault()),
        r matches Ok(request) ==> request.deep_view() == asked_decision(
            config.deep_view(),
            submission.deep_view(),
        ),
{
    let facts: TaskFacts = facts_of(submission);
    let request = DecisionRequest {
        question_set_version: config.question_set_version.clone(),
        state: DecisionState { version: facts.version, values: facts.values },
        questions: config.questions.duplicate(),
    };
    match request.validate() {
        Ok(_) => Ok(request),
        Err(e) => Err(e),
    }
}

/// What is saved with the reservation of a decision.
pub fn decision_metadata(request: &DecisionRequest) -> (r: Json)
    ensures
        r@ == empty_object().with("kind"@, JsonModel::Text("decision"@)).with(
            "question_set_version"@,
            JsonModel::Text(request.question_set_version@),
        ),
{
    ObjectBuilder::new().with("kind", text_value("decision")).with(
        "question_set_version",
        text_value(request.question_set_version.as_str()),
    ).build()
}

/// The assessment that a decision call gave.
pub open spec fn assessed(reply: ReplyModel<DecisionAssessmentModel>) -> Result<
    DecisionAssessmentModel,
    EngineErrorModel,
> {
    result_of(reply, "decision assessment cancelled"@, "decision assessment timed out"@)
}

/// What comes of an assessment under the configured policy.
pub open spec fn concluded(
    config: DecisionConfigModel,
    request: DecisionRequestModel,
    given: Result<DecisionAssessmentModel, EngineErrorModel>,
) -> Result<DecisionEvaluationModel, EngineErrorModel> {
    match given {
        Err(e) => Err(e),
        Ok(assessment) => match or_fault(
            assessment.fault_for(request),
            config.policy.fault_for(request),
        ) {
            Some(e) => Err(e),
            None => Ok(
                DecisionEvaluationModel {
                    assessment,
                    recommendation: recommendation_of(
                        config.policy.version,
                        config.policy.triggered(assessment, config.policy.rules.len()),
                    ),
                },
            ),
        },
    }
}

/// The outcome that a decision is settled with; `encoded` is the assessment in its JSON form.
pub open spec fn decision_outcome(
    result: Result<DecisionEvaluationModel, EngineErrorModel>,
    encoded: JsonModel,
) -> JsonModel {
    let decision = empty_object().with("kind"@, JsonModel::Text("decision"@));
    match result {
        Ok(_) => decision.with("assessment"@, encoded),
        Err(e) => decision.with("error"@, EngineError::json_of(e)),
    }
}

/// A decision call that was made: what to settle it with, and its result.
pub struct MadeDecision {
    pub cost: Option<u64>,
    pub outcome: Json,
    pub result: Result<DecisionEvaluation, EngineError>,
}

/// What came of a decision call; `encoded` is the assessment in its JSON form. The cost of a
/// failed one is unknown.
pub fn made_decision(
    config: &DecisionConfig,
    request: &DecisionRequest,
    reply: Reply<DecisionAssessment>,
    encoded: Json,
) -> (r: MadeDecision)
    ensures
        viewed(r.result) == concluded(config.deep_view(), request.deep_view(), assessed(reply.deep_view())),
        r.cost == (match viewed(r.result) {
            Ok(d) => d.assessment.actual_cost,
            Err(_) => None,
        }),
        r.outcome@ == decision_outcome(viewed(r.result), encoded@),
{
    let given: Result<DecisionAssessment, EngineError> = into_result(
        reply,
        "decision assessment cancelled",
        "decision assessment timed out",
    );
    let decision: ObjectBuilder = ObjectBuilder::new().with("kind", text_value("decision"));
    let error: EngineError = match given {
        Err(e) => e,
        Ok(assessment) => match config.policy.apply(request, &assessment) {
            Err(e) => e,
            Ok(recommendation) => {
                return MadeDecision {
                    cost: assessment.actual_cost,
                    outcome: decision.with("assessment", encoded).build(),
                    result: Ok(DecisionEvaluation { assessment, recommendation }),
                };
            },
        },
    };
    MadeDecision {
        cost: None,
        outcome: decision.with("error", error.to_json()).build(),
        result: Err(error),
    }
}

impl ConfigModel {
    /// The configured rules; none where none are configured.
    pub open spec fn rules(self) -> RuleSetModel {
        match self.assessment_rules {
            Some(rules) => rules,
            None => RuleSetModel { version: "empty-v1"@, rules: Seq::empty() },
        }
    }
}

/// The assessment of a submission: what the host, the rules and a decision ask for.
pub open spec fn assessment_of(
    submission: SubmissionSpecModel,
    config: ConfigModel,
    decision: Option<DecisionEvaluationModel>,
) -> TaskAssessmentModel {
    merged(
        submission.minimum_execution_class,
        rules_outcome(submission.facts(), config.rules()),
        None,
        match decision {
            Some(d) => Some(d.recommendation),
            None => None,
        },
        match decision {
            Some(d) => Some(d.assessment),
            None => None,
        },
    )
}

/// The assessment of a submission.
pub fn build_assessment(
    submission: &SubmissionSpec,
    config: &Config,
    decision: Option<&DecisionEvaluation>,
) -> (r: Result<TaskAssessment, EngineError>)
    ensures
        ({
            let facts = submission.deep_view().facts();
            let rules = config.deep_view().rules();
            &&& answers(r, or_fault(facts.fault(), rules.fault()))
            &&& r matches Ok(assessment) ==> assessment.deep_view() == assessment_of(
                submission.deep_view(),
                config.deep_view(),
                decision.deep_view(),
            )
        }),
{
    let facts: TaskFacts = facts_of(submission);
    let rules: RuleSet = match &config.assessment_rules {
        Some(rules) => rules.duplicate(),
        None => {
            let r = RuleSet { version: "empty-v1".to_owned(), rules: Vec::new() };
            assert(r.deep_view().rules =~= Seq::empty());
            r
        },
    };
    let outcome: RuleAssessment = match evaluate_rules(&facts, &rules) {
        Ok(outcome) => outcome,
        Err(e) => {
            return Err(e);
        },
    };
    let (recommendation, evidence) = match decision {
        Some(d) => (Some(&d.recommendation), Some(&d.assessment)),
        None => (None, None),
    };
    let r: TaskAssessment = merge_assessment_with_evidence(
        submission.minimum_execution_class,
        &outcome,
        None,
        recommendation,
        evidence,
    );
    proof {
        lemma_merged(
            r.deep_view(),
            submission.minimum_execution_class,
            outcome.deep_view(),
            None,
            recommendation.deep_view(),
            evidence.deep_view(),
        );
    }
    Ok(r)
}

/// A stage begins exactly where nobody cancelled and the task has time left to execute.
pub proof fn lemma_stage_begins_in_time(task: TaskSpecModel, cancelled: bool, now: u64)
    requires
        task.finalization_ms <= task.deadline_ms,
    ensures
        ({
            let fault = time_fault(task, cancelled, now);
            &&& fault is None <==> !cancelled && now + task.finalization_ms < task.deadline_ms
            &&& cancelled ==> fault->0.kind == "cancelled"@
            &&& !cancelled && fault is Some ==> fault->0.kind == "deadline"@
        }),
{
}

/// A further call can be paid for exactly where calls are left and a budget, if there is one, is
/// not used up.
pub proof fn lemma_what_can_be_paid(task: TaskSpecModel, ledger: LedgerModel)
    ensures
        budget_fault(task, ledger) is None <==> ledger.calls < task.max_calls && (ledger.total == 0
            || ledger.settled + ledger.reserved < ledger.total),
        budget_fault(task, ledger) is Some ==> budget_fault(task, ledger)->0.kind == "budget"@,
{
}

/// A fallback may follow any failure of planning but a cancellation, the end of time, an exhausted
/// budget and a failure of the store.
pub proof fn lemma_what_can_be_recovered(kind: Seq<char>)
    ensures
        recoverable(kind) <==> kind != "cancelled"@ && kind != "deadline"@ && kind != "budget"@
            && kind != "storage"@,
        !recoverable("cancelled"@) && !recoverable("deadline"@),
        !recoverable("budget"@) && !recoverable("storage"@),
{
}

/// The assessment of a submission is never below what its host asks for, below a rule that its
/// facts match, or below the recommendation of a decision, and it keeps the decision's evidence.
/// Without facts or rules nothing is observed.
pub proof fn lemma_assessment_of_a_submission(
    submission: SubmissionSpecModel,
    config: ConfigModel,
    decision: Option<DecisionEvaluationModel>,
    i: int,
)
    ensures
        ({
            let out = assessment_of(submission, config, decision);
            let facts = submission.facts();
            let rules = config.rules();
            &&& submission.minimum_execution_class.level() <= out.execution_class.level()
            &&& decision is Some ==> decision->0.recommendation.execution_class.level()
                <= out.execution_class.level() && out.decision == Some(decision->0.assessment)
                && out.needs_clarification == decision->0.recommendation.needs_clarification
            &&& decision is None ==> out.decision is None && !out.needs_clarification
            &&& 0 <= i < rules.rules.len() && facts.values.dom().contains(rules.rules[i].fact)
                && crate::assessment::meets(
                facts.values[rules.rules[i].fact],
                rules.rules[i].op,
                rules.rules[i].value,
            ) ==> rules.rules[i].minimum_execution_class.level() <= out.execution_class.level()
            &&& submission.task_facts is Some ==> facts == submission.task_facts->0
            &&& submission.task_facts is None ==> forall|k: Seq<char>|
                !facts.values.dom().contains(k)
            &&& config.assessment_rules is Some ==> rules == config.assessment_rules->0
            &&& config.assessment_rules is None ==> rules.rules.len() == 0
            &&& out.facts_version == facts.version && out.rule_set_version == rules.version
        }),
{
    let results = rules_outcome(submission.facts(), config.rules()).results;
    let given = match decision {
        Some(d) => Some(d.recommendation),
        None => None,
    };
    crate::assessment::lemma_merge_never_lowers(
        submission.minimum_execution_class,
        results,
        None,
        given,
    );
    if 0 <= i < config.rules().rules.len() {
        assert(results[i].minimum_execution_class
            == config.rules().rules[i].minimum_execution_class);
    }
}

/// A decision is concluded exactly where a valid assessment of its questions came and the policy
/// fits them; what came in its place is the error.
pub proof fn lemma_decision_is_concluded(
    config: DecisionConfigModel,
    request: DecisionRequestModel,
    reply: ReplyModel<DecisionAssessmentModel>,
)
    ensures
        ({
            let r = concluded(config, request, assessed(reply));
            let answered = reply is Answered && reply->Answered_0 is Ok;
            let given = reply->Answered_0->Ok_0;
            &&& r is Ok <==> answered && given.fault_for(request) is None
                && config.policy.fault_for(request) is None
            &&& r is Ok ==> r->Ok_0.assessment == given
            &&& r is Ok ==> r->Ok_0.recommendation == recommendation_of(
                config.policy.version,
                config.policy.triggered(given, config.policy.rules.len()),
            )
            &&& reply is Cancelled ==> r is Err && r->Err_0.kind == "cancelled"@
            &&& reply is TimedOut ==> r is Err && r->Err_0.kind == "deadline"@
            &&& reply is Answered && reply->Answered_0 is Err ==> r is Err && r->Err_0
                == reply->Answered_0->Err_0
        }),
{
}

/// A decision asks the configured questions of the submission's facts.
pub proof fn lemma_what_a_decision_asks(
    config: DecisionConfigModel,
    submission: SubmissionSpecModel,
)
    ensures
        asked_decision(config, submission).questions == config.questions,
        asked_decision(config, submission).question_set_version == config.question_set_version,
        asked_decision(config, submission).state.values == submission.facts().values,
        asked_decision(config, submission).state.version == submission.facts().version,
{
}

/// What a decision is settled with: that it was one, and the assessment or the error.
pub proof fn lemma_outcome_of_a_decision(
    result: Result<DecisionEvaluationModel, EngineErrorModel>,
    encoded: JsonModel,
)
    ensures
        ({
            let v = decision_outcome(result, encoded);
            &&& v.at("kind"@) == JsonModel::Text("decision"@)
            &&& result is Ok ==> v.at("assessment"@) == encoded && !v.has("error"@)
            &&& result is Err ==> v.at("error"@) == EngineError::json_of(result->Err_0) && !v.has(
                "assessment"@,
            )
        }),
{
    lemma_outcome_names();
}

proof fn lemma_outcome_names()
    ensures
        "kind"@ != "assessment"@,
        "kind"@ != "error"@,
        "assessment"@ != "error"@,
{
    reveal_strlit("kind");
    reveal_strlit("assessment");
    reveal_strlit("error");
    assert("kind"@.len() == 4);
    assert("assessment"@.len() == 10);
    assert("error"@.len() == 5);
}

} // verus!
