//! Versioned submission contracts.
use super::configuration::{all_known, all_known_capabilities, Config};
use super::selection::{SelectionPolicy, SelectionPolicyModel};
use super::task::{
    Acceptance, AcceptanceModel, Constraints, ConstraintsModel, Evidence, EvidenceModel, Strategy,
    TaskSpec, TaskSpecModel, ToolSpec, ToolSpecModel,
};
use crate::assessment::{
    ExecutionClass, TaskAssessment, TaskAssessmentModel, TaskFacts, TaskFactsModel,
};
use crate::binary64::{number, Binary64, ONE, ZERO};
use crate::fault::{answers, failure, EngineError, EngineErrorModel};
use crate::model::Duplicate;
use crate::text::{TextMap, TextSet};
use vstd::prelude::*;

verus! {

/// What a task is about.
#[derive(Clone, Copy, Debug, PartialEq, Eq, Structural)]
pub enum TaskType {
    General,
    CodeGeneration,
    CodeReview,
    InformationExtraction,
    Reasoning,
    Writing,
    ToolExecution,
}

impl DeepView for TaskType {
    type V = TaskType;

    open spec fn deep_view(&self) -> TaskType {
        *self
    }
}

impl Duplicate for TaskType {
    fn duplicate(&self) -> (r: Self) {
        *self
    }
}

/// Whether a model plans a submission: never, where something is left open, or always.
#[derive(Clone, Copy, Debug, PartialEq, Eq, Structural)]
pub enum PlanningMode {
    Disabled,
    Auto,
    Required,
}

impl DeepView for PlanningMode {
    type V = PlanningMode;

    open spec fn deep_view(&self) -> PlanningMode {
        *self
    }
}

impl Duplicate for PlanningMode {
    fn duplicate(&self) -> (r: Self) {
        *self
    }
}

/// What models in a role are measured by.
#[derive(Debug)]
pub struct RoleProfile {
    pub task_type: TaskType,
    pub role: String,
}

/// What a `RoleProfile` holds.
#[verifier::ext_equal]
pub ghost struct RoleProfileModel {
    pub task_type: TaskType,
    pub role: Seq<char>,
}

impl DeepView for RoleProfile {
    type V = RoleProfileModel;

    open spec fn deep_view(&self) -> RoleProfileModel {
        RoleProfileModel {
            task_type: self.task_type.deep_view(),
            role: self.role.deep_view(),
        }
    }
}

impl Duplicate for RoleProfile {
    fn duplicate(&self) -> (r: Self) {
        RoleProfile {
            task_type: self.task_type.duplicate(),
            role: self.role.duplicate(),
        }
    }
}

impl Clone for RoleProfile {
    fn clone(&self) -> (r: Self)
        ensures
            r.deep_view() == self.deep_view(),
    {
        self.duplicate()
    }
}

/// A task type with a strategy.
#[derive(Debug)]
pub struct PlanChoice {
    pub task_type: TaskType,
    pub strategy: Strategy,
}

/// What a `PlanChoice` holds.
#[verifier::ext_equal]
pub ghost struct PlanChoiceModel {
    pub task_type: TaskType,
    pub strategy: Strategy,
}

impl DeepView for PlanChoice {
    type V = PlanChoiceModel;

    open spec fn deep_view(&self) -> PlanChoiceModel {
        PlanChoiceModel {
            task_type: self.task_type.deep_view(),
            strategy: self.strategy.deep_view(),
        }
    }
}

impl Duplicate for PlanChoice {
    fn duplicate(&self) -> (r: Self) {
        PlanChoice {
            task_type: self.task_type.duplicate(),
            strategy: self.strategy.duplicate(),
        }
    }
}

impl Clone for PlanChoice {
    fn clone(&self) -> (r: Self)
        ensures
            r.deep_view() == self.deep_view(),
    {
        self.duplicate()
    }
}

/// How a submission is planned. Exactly one planning call is allowed.
#[derive(Debug)]
pub struct PlanningConfig {
    pub mode: PlanningMode,
    pub fallback: Option<PlanChoice>,
    pub max_calls: u32,
    pub max_cost: u64,
    pub timeout_ms: u64,
}

/// What a `PlanningConfig` holds.
#[verifier::ext_equal]
pub ghost struct PlanningConfigModel {
    pub mode: PlanningMode,
    pub fallback: Option<PlanChoiceModel>,
    pub max_calls: u32,
    pub max_cost: u64,
    pub timeout_ms: u64,
}

impl DeepView for PlanningConfig {
    type V = PlanningConfigModel;

    open spec fn deep_view(&self) -> PlanningConfigModel {
        PlanningConfigModel {
            mode: self.mode.deep_view(),
            fallback: self.fallback.deep_view(),
            max_calls: self.max_calls.deep_view(),
            max_cost: self.max_cost.deep_view(),
            timeout_ms: self.timeout_ms.deep_view(),
        }
    }
}

impl Duplicate for PlanningConfig {
    fn duplicate(&self) -> (r: Self) {
        PlanningConfig {
            mode: self.mode.duplicate(),
            fallback: self.fallback.duplicate(),
            max_calls: self.max_calls.duplicate(),
            max_cost: self.max_cost.duplicate(),
            timeout_ms: self.timeout_ms.duplicate(),
        }
    }
}

impl Clone for PlanningConfig {
    fn clone(&self) -> (r: Self)
        ensures
            r.deep_view() == self.deep_view(),
    {
        self.duplicate()
    }
}

/// A goal with limits, and optionally with its type and strategy. Version three carries task
/// facts and a minimum execution class.
#[derive(Debug)]
pub struct SubmissionSpec {
    pub schema_version: u32,
    pub task_id: String,
    pub goal: String,
    pub evidence: Vec<Evidence>,
    pub task_type: Option<TaskType>,
    pub strategy: Option<Strategy>,
    pub acceptance: Acceptance,
    /// Saved submissions of earlier versions lack it.
    pub selection: Option<SelectionPolicy>,
    pub constraints: Constraints,
    pub budget: u64,
    pub deadline_ms: u64,
    pub output_tokens: u64,
    pub max_calls: u32,
    pub max_rounds: u32,
    pub max_attempts: u32,
    pub max_call_cost: u64,
    pub finalization_ms: u64,
    pub tools: Vec<ToolSpec>,
    pub planning: PlanningConfig,
    pub task_facts: Option<TaskFacts>,
    pub minimum_execution_class: ExecutionClass,
}

/// What a `SubmissionSpec` holds.
#[verifier::ext_equal]
pub ghost struct SubmissionSpecModel {
    pub schema_version: u32,
    pub task_id: Seq<char>,
    pub goal: Seq<char>,
    pub evidence: Seq<EvidenceModel>,
    pub task_type: Option<TaskType>,
    pub strategy: Option<Strategy>,
    pub acceptance: AcceptanceModel,
    pub selection: Option<SelectionPolicyModel>,
    pub constraints: ConstraintsModel,
    pub budget: u64,
    pub deadline_ms: u64,
    pub output_tokens: u64,
    pub max_calls: u32,
    pub max_rounds: u32,
    pub max_attempts: u32,
    pub max_call_cost: u64,
    pub finalization_ms: u64,
    pub tools: Seq<ToolSpecModel>,
    pub planning: PlanningConfigModel,
    pub task_facts: Option<TaskFactsModel>,
    pub minimum_execution_class: ExecutionClass,
}

impl DeepView for SubmissionSpec {
    type V = SubmissionSpecModel;

    open spec fn deep_view(&self) -> SubmissionSpecModel {
        SubmissionSpecModel {
            schema_version: self.schema_version.deep_view(),
            task_id: self.task_id.deep_view(),
            goal: self.goal.deep_view(),
            evidence: self.evidence.deep_view(),
            task_type: self.task_type.deep_view(),
            strategy: self.strategy.deep_view(),
            acceptance: self.acceptance.deep_view(),
            selection: self.selection.deep_view(),
            constraints: self.constraints.deep_view(),
            budget: self.budget.deep_view(),
            deadline_ms: self.deadline_ms.deep_view(),
            output_tokens: self.output_tokens.deep_view(),
            max_calls: self.max_calls.deep_view(),
            max_rounds: self.max_rounds.deep_view(),
            max_attempts: self.max_attempts.deep_view(),
            max_call_cost: self.max_call_cost.deep_view(),
            finalization_ms: self.finalization_ms.deep_view(),
            tools: self.tools.deep_view(),
            planning: self.planning.deep_view(),
            task_facts: self.task_facts.deep_view(),
            minimum_execution_class: self.minimum_execution_class.deep_view(),
        }
    }
}

impl Duplicate for SubmissionSpec {
    fn duplicate(&self) -> (r: Self) {
        SubmissionSpec {
            schema_version: self.schema_version.duplicate(),
            task_id: self.task_id.duplicate(),
            goal: self.goal.duplicate(),
            evidence: self.evidence.duplicate(),
            task_type: self.task_type.duplicate(),
            strategy: self.strategy.duplicate(),
            acceptance: self.acceptance.duplicate(),
            selection: self.selection.duplicate(),
            constraints: self.constraints.duplicate(),
            budget: self.budget.duplicate(),
            deadline_ms: self.deadline_ms.duplicate(),
            output_tokens: self.output_tokens.duplicate(),
            max_calls: self.max_calls.duplicate(),
            max_rounds: self.max_rounds.duplicate(),
            max_attempts: self.max_attempts.duplicate(),
            max_call_cost: self.max_call_cost.duplicate(),
            finalization_ms: self.finalization_ms.duplicate(),
            tools: self.tools.duplicate(),
            planning: self.planning.duplicate(),
            task_facts: self.task_facts.duplicate(),
            minimum_execution_class: self.minimum_execution_class.duplicate(),
        }
    }
}

impl Clone for SubmissionSpec {
    fn clone(&self) -> (r: Self)
        ensures
            r.deep_view() == self.deep_view(),
    {
        self.duplicate()
    }
}

/// What a planning model proposes.
#[derive(Debug)]
pub struct PlannerProposal {
    pub proposal_version: u32,
    pub task_type: TaskType,
    pub classification_confidence: Binary64,
    pub strategy: Strategy,
    pub required_capabilities: TextSet,
    pub suggested_acceptance: Acceptance,
    pub reason: String,
}

/// What a `PlannerProposal` holds.
#[verifier::ext_equal]
pub ghost struct PlannerProposalModel {
    pub proposal_version: u32,
    pub task_type: TaskType,
    pub classification_confidence: Binary64,
    pub strategy: Strategy,
    pub required_capabilities: Set<Seq<char>>,
    pub suggested_acceptance: AcceptanceModel,
    pub reason: Seq<char>,
}

impl DeepView for PlannerProposal {
    type V = PlannerProposalModel;

    open spec fn deep_view(&self) -> PlannerProposalModel {
        PlannerProposalModel {
            proposal_version: self.proposal_version.deep_view(),
            task_type: self.task_type.deep_view(),
            classification_confidence: self.classification_confidence.deep_view(),
            strategy: self.strategy.deep_view(),
            required_capabilities: self.required_capabilities.deep_view(),
            suggested_acceptance: self.suggested_acceptance.deep_view(),
            reason: self.reason.deep_view(),
        }
    }
}

impl Duplicate for PlannerProposal {
    fn duplicate(&self) -> (r: Self) {
        PlannerProposal {
            proposal_version: self.proposal_version.duplicate(),
            task_type: self.task_type.duplicate(),
            classification_confidence: self.classification_confidence.duplicate(),
            strategy: self.strategy.duplicate(),
            required_capabilities: self.required_capabilities.duplicate(),
            suggested_acceptance: self.suggested_acceptance.duplicate(),
            reason: self.reason.duplicate(),
        }
    }
}

impl Clone for PlannerProposal {
    fn clone(&self) -> (r: Self)
        ensures
            r.deep_view() == self.deep_view(),
    {
        self.duplicate()
    }
}

/// The plan that a submission is executed by.
#[derive(Debug)]
pub struct EffectivePlan {
    pub plan_version: u32,
    pub task_type: TaskType,
    pub strategy: Strategy,
    pub role_profiles: TextMap<RoleProfile>,
    pub constraints: Constraints,
    pub acceptance: Acceptance,
    pub selection: Option<SelectionPolicy>,
    pub submission_hash: String,
    pub proposal_id: Option<String>,
    pub validator_version: String,
    pub routing_profile_version: String,
    pub assessment: Option<TaskAssessment>,
}

/// What a `EffectivePlan` holds.
#[verifier::ext_equal]
pub ghost struct EffectivePlanModel {
    pub plan_version: u32,
    pub task_type: TaskType,
    pub strategy: Strategy,
    pub role_profiles: Map<Seq<char>, RoleProfileModel>,
    pub constraints: ConstraintsModel,
    pub acceptance: AcceptanceModel,
    pub selection: Option<SelectionPolicyModel>,
    pub submission_hash: Seq<char>,
    pub proposal_id: Option<Seq<char>>,
    pub validator_version: Seq<char>,
    pub routing_profile_version: Seq<char>,
    pub assessment: Option<TaskAssessmentModel>,
}

impl DeepView for EffectivePlan {
    type V = EffectivePlanModel;

    open spec fn deep_view(&self) -> EffectivePlanModel {
        EffectivePlanModel {
            plan_version: self.plan_version.deep_view(),
            task_type: self.task_type.deep_view(),
            strategy: self.strategy.deep_view(),
            role_profiles: self.role_profiles.deep_view(),
            constraints: self.constraints.deep_view(),
            acceptance: self.acceptance.deep_view(),
            selection: self.selection.deep_view(),
            submission_hash: self.submission_hash.deep_view(),
            proposal_id: self.proposal_id.deep_view(),
            validator_version: self.validator_version.deep_view(),
            routing_profile_version: self.routing_profile_version.deep_view(),
            assessment: self.assessment.deep_view(),
        }
    }
}

impl Duplicate for EffectivePlan {
    fn duplicate(&self) -> (r: Self) {
        EffectivePlan {
            plan_version: self.plan_version.duplicate(),
            task_type: self.task_type.duplicate(),
            strategy: self.strategy.duplicate(),
            role_profiles: self.role_profiles.duplicate(),
            constraints: self.constraints.duplicate(),
            acceptance: self.acceptance.duplicate(),
            selection: self.selection.duplicate(),
            submission_hash: self.submission_hash.duplicate(),
            proposal_id: self.proposal_id.duplicate(),
            validator_version: self.validator_version.duplicate(),
            routing_profile_version: self.routing_profile_version.duplicate(),
            assessment: self.assessment.duplicate(),
        }
    }
}

impl Clone for EffectivePlan {
    fn clone(&self) -> (r: Self)
        ensures
            r.deep_view() == self.deep_view(),
    {
        self.duplicate()
    }
}

/// The policy shown for saved submissions that lack one. It admits every quality.
pub open spec fn legacy_selection() -> SelectionPolicyModel {
    SelectionPolicyModel {
        version: "legacy-recovery-evidence-only-v1"@,
        min_quality: number(ZERO),
        target_quality: number(ONE),
        above_target_factor: number(ONE),
        cost_reference: 1,
        latency_reference_ms: 1,
        min_upgrade_gain: number(ONE),
    }
}

fn legacy_selection_policy() -> (r: SelectionPolicy)
    ensures
        r.deep_view() == legacy_selection(),
{
    SelectionPolicy {
        version: "legacy-recovery-evidence-only-v1".to_owned(),
        min_quality: number(ZERO),
        target_quality: number(ONE),
        above_target_factor: number(ONE),
        cost_reference: 1,
        latency_reference_ms: 1,
        min_upgrade_gain: number(ONE),
    }
}

impl SubmissionSpecModel {
    /// The task of a submission under a strategy.
    pub open spec fn task_of(self, strategy: Strategy) -> TaskSpecModel {
        TaskSpecModel {
            task_id: self.task_id,
            goal: self.goal,
            evidence: self.evidence,
            strategy,
            acceptance: self.acceptance,
            selection: match self.selection {
                Some(s) => s,
                None => legacy_selection(),
            },
            constraints: self.constraints,
            budget: self.budget,
            deadline_ms: self.deadline_ms,
            output_tokens: self.output_tokens,
            max_calls: self.max_calls,
            max_rounds: self.max_rounds,
            max_attempts: self.max_attempts,
            max_call_cost: self.max_call_cost,
            finalization_ms: self.finalization_ms,
            tools: self.tools,
        }
    }

    /// The strategy to check a submission by before it is planned.
    pub open spec fn provisional_strategy(self) -> Strategy {
        match self.strategy {
            Some(s) => s,
            None => Strategy::Single,
        }
    }

    /// Version, planning bounds and strategy are in order.
    pub open spec fn admissible(self) -> bool {
        let p = self.planning;
        &&& self.schema_version == 2 || self.schema_version == 3
        &&& self.selection is Some
        &&& self.schema_version == 2 ==> self.task_facts is None && self.minimum_execution_class
            == ExecutionClass::Simple
        &&& p.max_calls == 1
        &&& p.max_cost <= i64::MAX
        &&& 1 <= p.timeout_ms <= 86_400_000
        &&& p.mode == PlanningMode::Disabled ==> self.strategy is Some
    }

    /// The fault of a submission that takes `encoded` bytes, and as a task `task_encoded`.
    pub open spec fn fault(
        self,
        context_max_bytes: usize,
        encoded: usize,
        task_encoded: usize,
        now: u64,
    ) -> Option<EngineErrorModel> {
        if !self.admissible() {
            Some(
                failure(
                    "configuration"@,
                    "invalid submission version, planning bounds or disabled strategy"@,
                ),
            )
        } else if encoded > context_max_bytes {
            Some(failure("configuration"@, "submission exceeds context byte limit"@))
        } else if !(all_known(self.constraints.required_capabilities) && all_known(
            self.constraints.preferred_capabilities,
        )) {
            Some(failure("configuration"@, "unsupported submission capability"@))
        } else {
            self.task_of(self.provisional_strategy()).fault(context_max_bytes, task_encoded, now)
        }
    }

    /// A model is asked for a plan.
    pub open spec fn planned(self) -> bool {
        match self.planning.mode {
            PlanningMode::Disabled => false,
            PlanningMode::Auto => self.strategy is None || self.task_type is None,
            PlanningMode::Required => true,
        }
    }
}

impl SubmissionSpec {
    /// Validate before admission. The serialized submission takes `encoded` bytes, the
    /// provisional task `task_encoded`.
    pub fn validate(&self, config: &Config, encoded: usize, task_encoded: usize, now: u64) -> (r:
        Result<(), EngineError>)
        ensures
            answers(
                r,
                self.deep_view().fault(config.context_max_bytes, encoded, task_encoded, now),
            ),
    {
        let versioned: bool = self.schema_version == 3 || (self.schema_version == 2
            && self.task_facts.is_none() && self.minimum_execution_class
            == ExecutionClass::Simple);
        if !versioned || self.selection.is_none() || self.planning.max_calls != 1
            || self.planning.max_cost > 0x7fff_ffff_ffff_ffff || self.planning.timeout_ms == 0
            || self.planning.timeout_ms > 86_400_000 || (self.planning.mode
            == PlanningMode::Disabled && self.strategy.is_none()) {
            return Err(
                EngineError::new(
                    "configuration",
                    "invalid submission version, planning bounds or disabled strategy",
                ),
            );
        }
        if encoded > config.context_max_bytes {
            return Err(EngineError::new("configuration", "submission exceeds context byte limit"));
        }
        if !all_known_capabilities(&self.constraints.required_capabilities)
            || !all_known_capabilities(&self.constraints.preferred_capabilities) {
            return Err(EngineError::new("configuration", "unsupported submission capability"));
        }
        self.provisional_task().validate(config, task_encoded, now)
    }

    /// The task to check a submission by before it is planned.
    pub fn provisional_task(&self) -> (r: TaskSpec)
        ensures
            r.deep_view() == self.deep_view().task_of(self.deep_view().provisional_strategy()),
    {
        self.task(
            match self.strategy {
                Some(s) => s,
                None => Strategy::Single,
            },
        )
    }

    /// Whether a model is asked for a plan.
    pub fn needs_planning(&self) -> (r: bool)
        ensures
            r == self.deep_view().planned(),
    {
        match self.planning.mode {
            PlanningMode::Disabled => false,
            PlanningMode::Auto => self.strategy.is_none() || self.task_type.is_none(),
            PlanningMode::Required => true,
        }
    }

    /// The task of the submission under a strategy.
    pub fn task(&self, strategy: Strategy) -> (r: TaskSpec)
        ensures
            r.deep_view() == self.deep_view().task_of(strategy),
    {
        TaskSpec {
            task_id: self.task_id.clone(),
            goal: self.goal.clone(),
            evidence: self.evidence.duplicate(),
            strategy,
            acceptance: self.acceptance.duplicate(),
            selection: match &self.selection {
                Some(s) => s.duplicate(),
                None => legacy_selection_policy(),
            },
            constraints: self.constraints.duplicate(),
            budget: self.budget,
            deadline_ms: self.deadline_ms,
            output_tokens: self.output_tokens,
            max_calls: self.max_calls,
            max_rounds: self.max_rounds,
            max_attempts: self.max_attempts,
            max_call_cost: self.max_call_cost,
            finalization_ms: self.finalization_ms,
            tools: self.tools.duplicate(),
        }
    }

    /// The submission of a task whose strategy is fixed: it is not planned.
    pub fn from_task(task: TaskSpec) -> (r: SubmissionSpec)
        ensures
            r.deep_view() == submission_of(task.deep_view()),
    {
        SubmissionSpec {
            schema_version: 2,
            task_id: task.task_id,
            goal: task.goal,
            evidence: task.evidence,
            task_type: None,
            strategy: Some(task.strategy),
            acceptance: task.acceptance,
            selection: Some(task.selection),
            constraints: task.constraints,
            budget: task.budget,
            deadline_ms: task.deadline_ms,
            output_tokens: task.output_tokens,
            max_calls: task.max_calls,
            max_rounds: task.max_rounds,
            max_attempts: task.max_attempts,
            max_call_cost: task.max_call_cost,
            finalization_ms: task.finalization_ms,
            tools: task.tools,
            planning: PlanningConfig {
                mode: PlanningMode::Disabled,
                fallback: None,
                max_calls: 1,
                max_cost: 0,
                timeout_ms: 1,
            },
            task_facts: None,
            minimum_execution_class: ExecutionClass::Simple,
        }
    }
}

/// The submission of a task whose strategy is fixed.
pub open spec fn submission_of(task: TaskSpecModel) -> SubmissionSpecModel {
    SubmissionSpecModel {
        schema_version: 2,
        task_id: task.task_id,
        goal: task.goal,
        evidence: task.evidence,
        task_type: None,
        strategy: Some(task.strategy),
        acceptance: task.acceptance,
        selection: Some(task.selection),
        constraints: task.constraints,
        budget: task.budget,
        deadline_ms: task.deadline_ms,
        output_tokens: task.output_tokens,
        max_calls: task.max_calls,
        max_rounds: task.max_rounds,
        max_attempts: task.max_attempts,
        max_call_cost: task.max_call_cost,
        finalization_ms: task.finalization_ms,
        tools: task.tools,
        planning: PlanningConfigModel {
            mode: PlanningMode::Disabled,
            fallback: None,
            max_calls: 1,
            max_cost: 0,
            timeout_ms: 1,
        },
        task_facts: None,
        minimum_execution_class: ExecutionClass::Simple,
    }
}

/// A task comes back from its submission unchanged, and no model is asked for a plan.
pub proof fn lemma_task_survives_submission(task: TaskSpecModel)
    ensures
        submission_of(task).admissible(),
        !submission_of(task).planned(),
        submission_of(task).task_of(task.strategy) == task,
        submission_of(task).provisional_strategy() == task.strategy,
{
}

impl EffectivePlanModel {
    /// The task that the plan makes of its submission.
    pub open spec fn task_of(self, submission: SubmissionSpecModel) -> TaskSpecModel {
        TaskSpecModel {
            constraints: self.constraints,
            acceptance: self.acceptance,
            ..submission.task_of(self.strategy)
        }
    }
}

impl EffectivePlan {
    /// The task that the plan makes of its submission.
    pub fn task(&self, submission: &SubmissionSpec) -> (r: TaskSpec)
        ensures
            r.deep_view() == self.deep_view().task_of(submission.deep_view()),
    {
        let mut task: TaskSpec = submission.task(self.strategy);
        task.constraints = self.constraints.duplicate();
        task.acceptance = self.acceptance.duplicate();
        task
    }
}

/// A plan gives the task its strategy, acceptance and constraints, and leaves everything else as
/// the submission has it.
pub proof fn lemma_planned_task(plan: EffectivePlanModel, submission: SubmissionSpecModel)
    ensures
        ({
            let task = plan.task_of(submission);
            &&& task.strategy == plan.strategy
            &&& task.acceptance == plan.acceptance
            &&& task.constraints == plan.constraints
            &&& task.task_id == submission.task_id && task.goal == submission.goal
            &&& task.evidence == submission.evidence && task.tools == submission.tools
            &&& submission.selection is Some ==> task.selection == submission.selection->0
            &&& task.budget == submission.budget && task.max_call_cost
                == submission.max_call_cost
            &&& task.deadline_ms == submission.deadline_ms && task.finalization_ms
                == submission.finalization_ms
            &&& task.output_tokens == submission.output_tokens
            &&& task.max_calls == submission.max_calls && task.max_rounds
                == submission.max_rounds && task.max_attempts == submission.max_attempts
        }),
{
}

/// A model is asked for a plan where the host requires one, or leaves the choice and names no
/// strategy or no type; never where planning is disabled.
pub proof fn lemma_when_planned(submission: SubmissionSpecModel)
    ensures
        submission.planned() <==> match submission.planning.mode {
            PlanningMode::Required => true,
            PlanningMode::Auto => submission.strategy is None || submission.task_type is None,
            PlanningMode::Disabled => false,
        },
{
}

/// A submission is accepted exactly where it is of a version that is read, names its preferences,
/// plans once within bounds, names a strategy where planning is disabled, fits into the context,
/// asks for no capability but text, tools and JSON, and makes a valid task.
pub proof fn lemma_valid_submission(
    submission: SubmissionSpecModel,
    context_max_bytes: usize,
    encoded: usize,
    task_encoded: usize,
    now: u64,
)
    ensures
        submission.fault(context_max_bytes, encoded, task_encoded, now) is None <==> {
            let strategy = match submission.strategy {
                Some(s) => s,
                None => Strategy::Single,
            };
            &&& submission.schema_version == 3 || submission.schema_version == 2
                && submission.task_facts is None && submission.minimum_execution_class
                == ExecutionClass::Simple
            &&& submission.selection is Some
            &&& submission.planning.max_calls == 1
            &&& submission.planning.max_cost <= 9_223_372_036_854_775_807
            &&& 1 <= submission.planning.timeout_ms <= 86_400_000
            &&& submission.planning.mode == PlanningMode::Disabled ==> submission.strategy is Some
            &&& encoded <= context_max_bytes
            &&& forall|c: Seq<char>| #[trigger]
                submission.constraints.required_capabilities.contains(c) ==> c == "text"@ || c
                    == "tools"@ || c == "json"@
            &&& forall|c: Seq<char>| #[trigger]
                submission.constraints.preferred_capabilities.contains(c) ==> c == "text"@ || c
                    == "tools"@ || c == "json"@
            &&& submission.task_of(strategy).fault(context_max_bytes, task_encoded, now) is None
        },
{
}

/// A submission without preferences has the widest: any quality will do, and none is aimed above.
pub proof fn lemma_widest_preferences(submission: SubmissionSpecModel, strategy: Strategy)
    requires
        submission.selection is None,
    ensures
        ({
            let s = submission.task_of(strategy).selection;
            &&& s.min_quality == number(0)
            &&& s.target_quality == number(0x3ff0_0000_0000_0000)
            &&& s.above_target_factor == number(0x3ff0_0000_0000_0000)
            &&& s.min_upgrade_gain == number(0x3ff0_0000_0000_0000)
            &&& s.cost_reference == 1 && s.latency_reference_ms == 1
        }),
{
}

} // verus!
