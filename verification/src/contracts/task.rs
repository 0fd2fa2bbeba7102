//! Tasks, their results, and what is handed to and from models and tools.
use super::configuration::Config;
use super::selection::{SelectionPolicy, SelectionPolicyModel};
use crate::fault::{
    answers, failure, first_fault, lemma_first_fault, lemma_first_fault_at,
    lemma_first_fault_is_one, or_fault, EngineError, EngineErrorModel,
};
use crate::identity::{digest, hex, id, identity_shape, sha256};
use crate::json::{is_object, Json, JsonModel};
use crate::model::{Comparable, Duplicate};
use crate::text::{blank, is_blank, TextSet};
use vstd::prelude::*;

verus! {

/// The interface of a provider.
#[derive(Clone, Copy, Debug, PartialEq, Eq, Structural)]
pub enum Endpoint {
    ChatCompletions,
    Responses,
}

impl DeepView for Endpoint {
    type V = Endpoint;

    open spec fn deep_view(&self) -> Endpoint {
        *self
    }
}

impl Duplicate for Endpoint {
    fn duplicate(&self) -> (r: Self) {
        *self
    }
}

/// How a task is worked on.
#[derive(Clone, Copy, Debug, PartialEq, Eq, Structural)]
pub enum Strategy {
    Single,
    Cascade,
    GeneratorCritic,
}

impl DeepView for Strategy {
    type V = Strategy;

    open spec fn deep_view(&self) -> Strategy {
        *self
    }
}

impl Duplicate for Strategy {
    fn duplicate(&self) -> (r: Self) {
        *self
    }
}

/// Restrictions on the models that may work on a task. An empty set of allowed names allows all.
#[derive(Debug)]
pub struct Constraints {
    pub allowed_models: TextSet,
    pub allowed_providers: TextSet,
    pub allowed_regions: TextSet,
    pub local_only: bool,
    pub required_capabilities: TextSet,
    pub preferred_capabilities: TextSet,
    pub different_critic: bool,
}

/// What a `Constraints` holds.
#[verifier::ext_equal]
pub ghost struct ConstraintsModel {
    pub allowed_models: Set<Seq<char>>,
    pub allowed_providers: Set<Seq<char>>,
    pub allowed_regions: Set<Seq<char>>,
    pub local_only: bool,
    pub required_capabilities: Set<Seq<char>>,
    pub preferred_capabilities: Set<Seq<char>>,
    pub different_critic: bool,
}

impl DeepView for Constraints {
    type V = ConstraintsModel;

    open spec fn deep_view(&self) -> ConstraintsModel {
        ConstraintsModel {
            allowed_models: self.allowed_models.deep_view(),
            allowed_providers: self.allowed_providers.deep_view(),
            allowed_regions: self.allowed_regions.deep_view(),
            local_only: self.local_only.deep_view(),
            required_capabilities: self.required_capabilities.deep_view(),
            preferred_capabilities: self.preferred_capabilities.deep_view(),
            different_critic: self.different_critic.deep_view(),
        }
    }
}

impl Duplicate for Constraints {
    fn duplicate(&self) -> (r: Self) {
        Constraints {
            allowed_models: self.allowed_models.duplicate(),
            allowed_providers: self.allowed_providers.duplicate(),
            allowed_regions: self.allowed_regions.duplicate(),
            local_only: self.local_only.duplicate(),
            required_capabilities: self.required_capabilities.duplicate(),
            preferred_capabilities: self.preferred_capabilities.duplicate(),
            different_critic: self.different_critic.duplicate(),
        }
    }
}

impl Clone for Constraints {
    fn clone(&self) -> (r: Self)
        ensures
            r.deep_view() == self.deep_view(),
    {
        self.duplicate()
    }
}

/// The deterministic checks that an artifact must pass.
#[derive(Debug)]
pub struct Acceptance {
    pub version: String,
    pub nonempty: bool,
    pub required_substrings: Vec<String>,
    pub json_object: bool,
}

/// What a `Acceptance` holds.
#[verifier::ext_equal]
pub ghost struct AcceptanceModel {
    pub version: Seq<char>,
    pub nonempty: bool,
    pub required_substrings: Seq<Seq<char>>,
    pub json_object: bool,
}

impl DeepView for Acceptance {
    type V = AcceptanceModel;

    open spec fn deep_view(&self) -> AcceptanceModel {
        AcceptanceModel {
            version: self.version.deep_view(),
            nonempty: self.nonempty.deep_view(),
            required_substrings: self.required_substrings.deep_view(),
            json_object: self.json_object.deep_view(),
        }
    }
}

impl Duplicate for Acceptance {
    fn duplicate(&self) -> (r: Self) {
        Acceptance {
            version: self.version.duplicate(),
            nonempty: self.nonempty.duplicate(),
            required_substrings: self.required_substrings.duplicate(),
            json_object: self.json_object.duplicate(),
        }
    }
}

impl Clone for Acceptance {
    fn clone(&self) -> (r: Self)
        ensures
            r.deep_view() == self.deep_view(),
    {
        self.duplicate()
    }
}

/// A tool that the host offers.
#[derive(Debug)]
pub struct ToolSpec {
    pub name: String,
    pub description: String,
    pub parameters: Json,
    pub max_cost: u64,
}

/// What a `ToolSpec` holds.
#[verifier::ext_equal]
pub ghost struct ToolSpecModel {
    pub name: Seq<char>,
    pub description: Seq<char>,
    pub parameters: JsonModel,
    pub max_cost: u64,
}

impl DeepView for ToolSpec {
    type V = ToolSpecModel;

    open spec fn deep_view(&self) -> ToolSpecModel {
        ToolSpecModel {
            name: self.name.deep_view(),
            description: self.description.deep_view(),
            parameters: self.parameters.deep_view(),
            max_cost: self.max_cost.deep_view(),
        }
    }
}

impl Duplicate for ToolSpec {
    fn duplicate(&self) -> (r: Self) {
        ToolSpec {
            name: self.name.duplicate(),
            description: self.description.duplicate(),
            parameters: self.parameters.duplicate(),
            max_cost: self.max_cost.duplicate(),
        }
    }
}

impl Clone for ToolSpec {
    fn clone(&self) -> (r: Self)
        ensures
            r.deep_view() == self.deep_view(),
    {
        self.duplicate()
    }
}

/// Material for a task.
#[derive(Debug)]
pub struct Evidence {
    pub source: String,
    pub text: String,
    pub trusted: bool,
}

/// What a `Evidence` holds.
#[verifier::ext_equal]
pub ghost struct EvidenceModel {
    pub source: Seq<char>,
    pub text: Seq<char>,
    pub trusted: bool,
}

impl DeepView for Evidence {
    type V = EvidenceModel;

    open spec fn deep_view(&self) -> EvidenceModel {
        EvidenceModel {
            source: self.source.deep_view(),
            text: self.text.deep_view(),
            trusted: self.trusted.deep_view(),
        }
    }
}

impl Duplicate for Evidence {
    fn duplicate(&self) -> (r: Self) {
        Evidence {
            source: self.source.duplicate(),
            text: self.text.duplicate(),
            trusted: self.trusted.duplicate(),
        }
    }
}

impl Clone for Evidence {
    fn clone(&self) -> (r: Self)
        ensures
            r.deep_view() == self.deep_view(),
    {
        self.duplicate()
    }
}

/// A task with its limits. Costs are integer microcredits.
#[derive(Debug)]
pub struct TaskSpec {
    pub task_id: String,
    pub goal: String,
    pub evidence: Vec<Evidence>,
    pub strategy: Strategy,
    pub acceptance: Acceptance,
    pub selection: SelectionPolicy,
    pub constraints: Constraints,
    pub budget: u64,
    pub deadline_ms: u64,
    pub output_tokens: u64,
    pub max_calls: u32,
    pub max_rounds: u32,
    pub max_attempts: u32,
    pub max_call_cost: u64,
    pub finalization_ms: u64,
    pub tools: Vec<ToolSpec>,
}

/// What a `TaskSpec` holds.
#[verifier::ext_equal]
pub ghost struct TaskSpecModel {
    pub task_id: Seq<char>,
    pub goal: Seq<char>,
    pub evidence: Seq<EvidenceModel>,
    pub strategy: Strategy,
    pub acceptance: AcceptanceModel,
    pub selection: SelectionPolicyModel,
    pub constraints: ConstraintsModel,
    pub budget: u64,
    pub deadline_ms: u64,
    pub output_tokens: u64,
    pub max_calls: u32,
    pub max_rounds: u32,
    pub max_attempts: u32,
    pub max_call_cost: u64,
    pub finalization_ms: u64,
    pub tools: Seq<ToolSpecModel>,
}

impl DeepView for TaskSpec {
    type V = TaskSpecModel;

    open spec fn deep_view(&self) -> TaskSpecModel {
        TaskSpecModel {
            task_id: self.task_id.deep_view(),
            goal: self.goal.deep_view(),
            evidence: self.evidence.deep_view(),
            strategy: self.strategy.deep_view(),
            acceptance: self.acceptance.deep_view(),
            selection: self.selection.deep_view(),
            constraints: self.constraints.deep_view(),
            budget: self.budget.deep_view(),
            deadline_ms: self.deadline_ms.deep_view(),
            output_tokens: self.output_tokens.deep_view(),
            max_calls: self.max_calls.deep_view(),
            max_rounds: self.max_rounds.deep_view(),
            max_attempts: self.max_attempts.deep_view(),
            max_call_cost: self.max_call_cost.deep_view(),
            finalization_ms: self.finalization_ms.deep_view(),
            tools: self.tools.deep_view(),
        }
    }
}

impl Duplicate for TaskSpec {
    fn duplicate(&self) -> (r: Self) {
        TaskSpec {
            task_id: self.task_id.duplicate(),
            goal: self.goal.duplicate(),
            evidence: self.evidence.duplicate(),
            strategy: self.strategy.duplicate(),
            acceptance: self.acceptance.duplicate(),
            selection: self.selection.duplicate(),
            constraints: self.constraints.duplicate(),
            budget: self.budget.duplicate(),
            deadline_ms: self.deadline_ms.duplicate(),
            output_tokens: self.output_tokens.duplicate(),
            max_calls: self.max_calls.duplicate(),
            max_rounds: self.max_rounds.duplicate(),
            max_attempts: self.max_attempts.duplicate(),
            max_call_cost: self.max_call_cost.duplicate(),
            finalization_ms: self.finalization_ms.duplicate(),
            tools: self.tools.duplicate(),
        }
    }
}

impl Clone for TaskSpec {
    fn clone(&self) -> (r: Self)
        ensures
            r.deep_view() == self.deep_view(),
    {
        self.duplicate()
    }
}

/// What a model is shown.
#[derive(Debug)]
pub struct Snapshot {
    pub id: String,
    pub version: u32,
    pub goal: String,
    pub acceptance: Acceptance,
    pub evidence: Vec<Evidence>,
    pub role: String,
    pub prior_artifact: Option<String>,
    pub feedback: Vec<String>,
    pub checksum: String,
}

/// What a `Snapshot` holds.
#[verifier::ext_equal]
pub ghost struct SnapshotModel {
    pub id: Seq<char>,
    pub version: u32,
    pub goal: Seq<char>,
    pub acceptance: AcceptanceModel,
    pub evidence: Seq<EvidenceModel>,
    pub role: Seq<char>,
    pub prior_artifact: Option<Seq<char>>,
    pub feedback: Seq<Seq<char>>,
    pub checksum: Seq<char>,
}

impl DeepView for Snapshot {
    type V = SnapshotModel;

    open spec fn deep_view(&self) -> SnapshotModel {
        SnapshotModel {
            id: self.id.deep_view(),
            version: self.version.deep_view(),
            goal: self.goal.deep_view(),
            acceptance: self.acceptance.deep_view(),
            evidence: self.evidence.deep_view(),
            role: self.role.deep_view(),
            prior_artifact: self.prior_artifact.deep_view(),
            feedback: self.feedback.deep_view(),
            checksum: self.checksum.deep_view(),
        }
    }
}

impl Duplicate for Snapshot {
    fn duplicate(&self) -> (r: Self) {
        Snapshot {
            id: self.id.duplicate(),
            version: self.version.duplicate(),
            goal: self.goal.duplicate(),
            acceptance: self.acceptance.duplicate(),
            evidence: self.evidence.duplicate(),
            role: self.role.duplicate(),
            prior_artifact: self.prior_artifact.duplicate(),
            feedback: self.feedback.duplicate(),
            checksum: self.checksum.duplicate(),
        }
    }
}

impl Clone for Snapshot {
    fn clone(&self) -> (r: Self)
        ensures
            r.deep_view() == self.deep_view(),
    {
        self.duplicate()
    }
}

/// A candidate text.
#[derive(Debug)]
pub struct Artifact {
    pub artifact_id: String,
    pub version: u32,
    pub attempt_id: String,
    pub text: String,
    pub checksum: String,
}

/// What a `Artifact` holds.
#[verifier::ext_equal]
pub ghost struct ArtifactModel {
    pub artifact_id: Seq<char>,
    pub version: u32,
    pub attempt_id: Seq<char>,
    pub text: Seq<char>,
    pub checksum: Seq<char>,
}

impl DeepView for Artifact {
    type V = ArtifactModel;

    open spec fn deep_view(&self) -> ArtifactModel {
        ArtifactModel {
            artifact_id: self.artifact_id.deep_view(),
            version: self.version.deep_view(),
            attempt_id: self.attempt_id.deep_view(),
            text: self.text.deep_view(),
            checksum: self.checksum.deep_view(),
        }
    }
}

impl Duplicate for Artifact {
    fn duplicate(&self) -> (r: Self) {
        Artifact {
            artifact_id: self.artifact_id.duplicate(),
            version: self.version.duplicate(),
            attempt_id: self.attempt_id.duplicate(),
            text: self.text.duplicate(),
            checksum: self.checksum.duplicate(),
        }
    }
}

impl Clone for Artifact {
    fn clone(&self) -> (r: Self)
        ensures
            r.deep_view() == self.deep_view(),
    {
        self.duplicate()
    }
}

#[derive(Clone, Copy, Debug, PartialEq, Eq, Structural)]
pub enum EvaluationStatus {
    Pass,
    Revise,
    MissingEvidence,
    Unacceptable,
    HumanRequired,
}

impl DeepView for EvaluationStatus {
    type V = EvaluationStatus;

    open spec fn deep_view(&self) -> EvaluationStatus {
        *self
    }
}

impl Duplicate for EvaluationStatus {
    fn duplicate(&self) -> (r: Self) {
        *self
    }
}

/// A verdict on an artifact.
#[derive(Debug)]
pub struct Evaluation {
    pub status: EvaluationStatus,
    pub checks: Vec<String>,
    pub evidence: Vec<String>,
    pub defects: Vec<String>,
    pub action: String,
}

/// What a `Evaluation` holds.
#[verifier::ext_equal]
pub ghost struct EvaluationModel {
    pub status: EvaluationStatus,
    pub checks: Seq<Seq<char>>,
    pub evidence: Seq<Seq<char>>,
    pub defects: Seq<Seq<char>>,
    pub action: Seq<char>,
}

impl DeepView for Evaluation {
    type V = EvaluationModel;

    open spec fn deep_view(&self) -> EvaluationModel {
        EvaluationModel {
            status: self.status.deep_view(),
            checks: self.checks.deep_view(),
            evidence: self.evidence.deep_view(),
            defects: self.defects.deep_view(),
            action: self.action.deep_view(),
        }
    }
}

impl Duplicate for Evaluation {
    fn duplicate(&self) -> (r: Self) {
        Evaluation {
            status: self.status.duplicate(),
            checks: self.checks.duplicate(),
            evidence: self.evidence.duplicate(),
            defects: self.defects.duplicate(),
            action: self.action.duplicate(),
        }
    }
}

impl Clone for Evaluation {
    fn clone(&self) -> (r: Self)
        ensures
            r.deep_view() == self.deep_view(),
    {
        self.duplicate()
    }
}

/// How a task ended.
#[derive(Debug)]
pub struct TaskResult {
    pub task_id: String,
    pub status: String,
    pub artifact: Artifact,
    pub settled_cost: u64,
    pub reserved_cost: u64,
}

/// What a `TaskResult` holds.
#[verifier::ext_equal]
pub ghost struct TaskResultModel {
    pub task_id: Seq<char>,
    pub status: Seq<char>,
    pub artifact: ArtifactModel,
    pub settled_cost: u64,
    pub reserved_cost: u64,
}

impl DeepView for TaskResult {
    type V = TaskResultModel;

    open spec fn deep_view(&self) -> TaskResultModel {
        TaskResultModel {
            task_id: self.task_id.deep_view(),
            status: self.status.deep_view(),
            artifact: self.artifact.deep_view(),
            settled_cost: self.settled_cost.deep_view(),
            reserved_cost: self.reserved_cost.deep_view(),
        }
    }
}

impl Duplicate for TaskResult {
    fn duplicate(&self) -> (r: Self) {
        TaskResult {
            task_id: self.task_id.duplicate(),
            status: self.status.duplicate(),
            artifact: self.artifact.duplicate(),
            settled_cost: self.settled_cost.duplicate(),
            reserved_cost: self.reserved_cost.duplicate(),
        }
    }
}

impl Clone for TaskResult {
    fn clone(&self) -> (r: Self)
        ensures
            r.deep_view() == self.deep_view(),
    {
        self.duplicate()
    }
}

/// A tool call that a model asks for.
#[derive(Debug)]
pub struct ToolCall {
    pub id: String,
    pub name: String,
    pub arguments: Json,
}

/// What a `ToolCall` holds.
#[verifier::ext_equal]
pub ghost struct ToolCallModel {
    pub id: Seq<char>,
    pub name: Seq<char>,
    pub arguments: JsonModel,
}

impl DeepView for ToolCall {
    type V = ToolCallModel;

    open spec fn deep_view(&self) -> ToolCallModel {
        ToolCallModel {
            id: self.id.deep_view(),
            name: self.name.deep_view(),
            arguments: self.arguments.deep_view(),
        }
    }
}

impl Duplicate for ToolCall {
    fn duplicate(&self) -> (r: Self) {
        ToolCall {
            id: self.id.duplicate(),
            name: self.name.duplicate(),
            arguments: self.arguments.duplicate(),
        }
    }
}

impl Clone for ToolCall {
    fn clone(&self) -> (r: Self)
        ensures
            r.deep_view() == self.deep_view(),
    {
        self.duplicate()
    }
}

/// What a tool gave back.
#[derive(Debug)]
pub struct ToolResult {
    pub output: String,
    pub actual_cost: Option<u64>,
}

/// What a `ToolResult` holds.
#[verifier::ext_equal]
pub ghost struct ToolResultModel {
    pub output: Seq<char>,
    pub actual_cost: Option<u64>,
}

impl DeepView for ToolResult {
    type V = ToolResultModel;

    open spec fn deep_view(&self) -> ToolResultModel {
        ToolResultModel {
            output: self.output.deep_view(),
            actual_cost: self.actual_cost.deep_view(),
        }
    }
}

impl Duplicate for ToolResult {
    fn duplicate(&self) -> (r: Self) {
        ToolResult {
            output: self.output.duplicate(),
            actual_cost: self.actual_cost.duplicate(),
        }
    }
}

impl Clone for ToolResult {
    fn clone(&self) -> (r: Self)
        ensures
            r.deep_view() == self.deep_view(),
    {
        self.duplicate()
    }
}

/// The tokens that a provider reports.
#[derive(Debug)]
pub struct Usage {
    pub input_tokens: u64,
    pub output_tokens: u64,
}

/// What a `Usage` holds.
#[verifier::ext_equal]
pub ghost struct UsageModel {
    pub input_tokens: u64,
    pub output_tokens: u64,
}

impl DeepView for Usage {
    type V = UsageModel;

    open spec fn deep_view(&self) -> UsageModel {
        UsageModel {
            input_tokens: self.input_tokens.deep_view(),
            output_tokens: self.output_tokens.deep_view(),
        }
    }
}

impl Duplicate for Usage {
    fn duplicate(&self) -> (r: Self) {
        Usage {
            input_tokens: self.input_tokens.duplicate(),
            output_tokens: self.output_tokens.duplicate(),
        }
    }
}

impl Clone for Usage {
    fn clone(&self) -> (r: Self)
        ensures
            r.deep_view() == self.deep_view(),
    {
        self.duplicate()
    }
}

/// `a + b`, at most the greatest `u64`.
pub open spec fn plus_capped(a: int, b: int) -> int {
    if a + b > u64::MAX {
        u64::MAX as int
    } else {
        a + b
    }
}

/// `a - b`, at least zero.
pub open spec fn minus_floored(a: int, b: int) -> int {
    if a < b {
        0
    } else {
        a - b
    }
}

impl TaskSpecModel {
    /// Identifiers, resource bounds and deadline are in order at the time `now`.
    pub open spec fn bounded(self, now: u64) -> bool {
        &&& self.task_id.len() > 0
        &&& !blank(self.goal)
        &&& self.acceptance.version.len() > 0
        &&& self.budget <= i64::MAX
        &&& self.max_call_cost <= i64::MAX
        &&& 1 <= self.max_calls <= 1000
        &&& 1 <= self.max_rounds <= 100
        &&& 1 <= self.max_attempts <= 100
        &&& 1 <= self.output_tokens <= 1_000_000
        &&& self.deadline_ms > plus_capped(now as int, self.finalization_ms as int)
    }

    /// A tool has a name of its own, takes an object, and costs no more than a call may.
    pub open spec fn tool_valid(self, i: int) -> bool {
        let tool = self.tools[i];
        &&& tool.name.len() > 0
        &&& forall|j: int| 0 <= j < i ==> (#[trigger] self.tools[j]).name != tool.name
        &&& tool.parameters is Object
        &&& tool.max_cost <= self.max_call_cost
    }

    pub open spec fn tool_faults(self) -> spec_fn(int) -> Option<EngineErrorModel> {
        |i: int|
            if self.tool_valid(i) {
                None
            } else {
                Some(failure("configuration"@, "invalid tool declaration"@))
            }
    }

    /// The fault of a task that takes `encoded` bytes, at the time `now`.
    pub open spec fn fault(
        self,
        context_max_bytes: usize,
        encoded: usize,
        now: u64,
    ) -> Option<EngineErrorModel> {
        or_fault(
            self.selection.fault(),
            if !self.bounded(now) {
                Some(
                    failure(
                        "configuration"@,
                        "invalid task identifiers, resource bounds or deadline"@,
                    ),
                )
            } else if encoded > context_max_bytes {
                Some(failure("configuration"@, "task exceeds context byte limit"@))
            } else {
                first_fault(self.tool_faults(), self.tools.len())
            },
        )
    }
}

impl TaskSpec {
    /// Checks a task whose serialized form takes `encoded` bytes, at the time `now`.
    pub fn validate(&self, config: &Config, encoded: usize, now: u64) -> (r: Result<
        (),
        EngineError,
    >)
        ensures
            answers(r, self.deep_view().fault(config.context_max_bytes, encoded, now)),
    {
        if let Err(e) = self.selection.validate() {
            return Err(e);
        }
        if self.task_id.as_str().is_empty() || is_blank(self.goal.as_str())
            || self.acceptance.version.as_str().is_empty() || self.budget > 0x7fff_ffff_ffff_ffff
            || self.max_call_cost > 0x7fff_ffff_ffff_ffff || self.max_calls == 0 || self.max_calls
            > 1000 || self.max_rounds == 0 || self.max_rounds > 100 || self.max_attempts == 0
            || self.max_attempts > 100 || self.output_tokens == 0 || self.output_tokens > 1_000_000
            || self.deadline_ms <= now.saturating_add(self.finalization_ms) {
            return Err(
                EngineError::new(
                    "configuration",
                    "invalid task identifiers, resource bounds or deadline",
                ),
            );
        }
        if encoded > config.context_max_bytes {
            return Err(EngineError::new("configuration", "task exceeds context byte limit"));
        }
        self.validate_tools()
    }

    fn validate_tools(&self) -> (r: Result<(), EngineError>)
        ensures
            answers(r, first_fault(self.deep_view().tool_faults(), self.tools@.len())),
    {
        let ghost task = self.deep_view();
        let ghost faults = task.tool_faults();
        let mut names: TextSet = TextSet::new();
        let mut i: usize = 0;
        while i < self.tools.len()
            invariant
                i <= self.tools@.len(),
                task == self.deep_view(),
                faults == task.tool_faults(),
                first_fault(faults, i as nat) is None,
                forall|t: Seq<char>|
                    names.has(t) <==> exists|j: int|
                        0 <= j < i && (#[trigger] task.tools[j]).name == t,
            decreases self.tools@.len() - i,
        {
            let tool: &ToolSpec = &self.tools[i];
            assert(task.tools[i as int] == tool.deep_view());
            let ghost known = names;
            let fresh: bool = names.insert(tool.name.clone());
            assert(fresh == forall|j: int|
                0 <= j < i ==> (#[trigger] task.tools[j]).name != tool.name@);
            if tool.name.as_str().is_empty() || !fresh || !is_object(Some(&tool.parameters))
                || tool.max_cost > self.max_call_cost {
                proof {
                    assert(!task.tool_valid(i as int));
                    lemma_first_fault(faults, i as nat, self.tools@.len());
                }
                return Err(EngineError::new("configuration", "invalid tool declaration"));
            }
            assert(faults(i as int) is None);
            assert forall|t: Seq<char>|
                names.has(t) <==> exists|j: int|
                    0 <= j < i + 1 && (#[trigger] task.tools[j]).name == t by {
                if names.has(t) && !known.has(t) {
                    assert(task.tools[i as int].name == t);
                }
            }
            i += 1;
        }
        Ok(())
    }
}

impl Snapshot {
    /// What a model in a role is shown; the checksum is still empty.
    pub fn new(
        task: &TaskSpec,
        role: &str,
        prior_artifact: Option<String>,
        feedback: Vec<String>,
        version: u32,
    ) -> (r: Self)
        ensures
            identity_shape(r.id@),
            r.deep_view() == (SnapshotModel {
                id: r.id@,
                version,
                goal: task.goal@,
                acceptance: task.acceptance.deep_view(),
                evidence: task.evidence.deep_view(),
                role: role@,
                prior_artifact: prior_artifact.deep_view(),
                feedback: feedback.deep_view(),
                checksum: Seq::empty(),
            }),
    {
        Snapshot {
            id: id(),
            version,
            goal: task.goal.clone(),
            acceptance: task.acceptance.duplicate(),
            evidence: task.evidence.duplicate(),
            role: role.to_owned(),
            prior_artifact,
            feedback,
            checksum: String::new(),
        }
    }

    /// The snapshot with the checksum of its serialized form.
    pub fn sealed(self, encoded: &[u8]) -> (r: Self)
        ensures
            r.deep_view() == (SnapshotModel {
                checksum: hex(sha256(encoded@)),
                ..self.deep_view()
            }),
    {
        Snapshot {
            id: self.id,
            version: self.version,
            goal: self.goal,
            acceptance: self.acceptance,
            evidence: self.evidence,
            role: self.role,
            prior_artifact: self.prior_artifact,
            feedback: self.feedback,
            checksum: digest(encoded),
        }
    }
}

impl Comparable for Artifact {
    fn same(&self, other: &Self) -> (r: bool) {
        self.artifact_id.same(&other.artifact_id) && self.version == other.version
            && self.attempt_id.same(&other.attempt_id) && self.text.same(&other.text)
            && self.checksum.same(&other.checksum)
    }
}

impl Comparable for Evaluation {
    fn same(&self, other: &Self) -> (r: bool) {
        self.status == other.status && self.checks.same(&other.checks) && self.evidence.same(
            &other.evidence,
        ) && self.defects.same(&other.defects) && self.action.same(&other.action)
    }
}

/// Whether a tool can be declared at a place: it has a name that no earlier tool has, parameters
/// that are an object, and a price within what a call may cost.
pub open spec fn is_tool_of(task: TaskSpecModel, i: int) -> bool {
    &&& task.tools[i].name.len() > 0
    &&& forall|j: int| 0 <= j < i ==> (#[trigger] task.tools[j]).name != task.tools[i].name
    &&& task.tools[i].parameters is Object
    &&& task.tools[i].max_cost <= task.max_call_cost
}

/// A task is accepted exactly where its preferences are, it has a name, a goal and a version of
/// what is accepted, its resources are within their bounds, it fits into the context, it leaves
/// time to execute before what is kept for the end, and each of its tools can be declared.
pub proof fn lemma_valid_task(
    task: TaskSpecModel,
    context_max_bytes: usize,
    encoded: usize,
    now: u64,
)
    ensures
        task.fault(context_max_bytes, encoded, now) is None <==> {
            &&& task.selection.fault() is None
            &&& task.task_id.len() > 0 && !blank(task.goal) && task.acceptance.version.len() > 0
            &&& task.budget <= 9_223_372_036_854_775_807
            &&& task.max_call_cost <= 9_223_372_036_854_775_807
            &&& 1 <= task.max_calls <= 1000
            &&& 1 <= task.max_rounds <= 100
            &&& 1 <= task.max_attempts <= 100
            &&& 1 <= task.output_tokens <= 1_000_000
            &&& now + task.finalization_ms < task.deadline_ms
            &&& encoded <= context_max_bytes
            &&& forall|i: int| 0 <= i < task.tools.len() ==> #[trigger] is_tool_of(task, i)
        },
        task.fault(context_max_bytes, encoded, now) is Some && task.selection.fault() is None
            ==> task.fault(context_max_bytes, encoded, now)->0.kind == "configuration"@,
{
    let faults = task.tool_faults();
    let n = task.tools.len();
    if first_fault(faults, n) is Some {
        let i = lemma_first_fault_is_one(faults, n);
        assert(!is_tool_of(task, i));
    } else {
        assert forall|i: int| 0 <= i < n implies #[trigger] is_tool_of(task, i) by {
            lemma_first_fault_at(faults, n, i);
        }
    }
}

/// Sums stop at the greatest number and differences at zero; otherwise they are exact.
pub proof fn lemma_saturation(a: u64, b: u64)
    ensures
        a + b <= u64::MAX ==> plus_capped(a as int, b as int) == a + b,
        a + b > u64::MAX ==> plus_capped(a as int, b as int) == u64::MAX,
        a >= b ==> minus_floored(a as int, b as int) == a - b,
        a < b ==> minus_floored(a as int, b as int) == 0,
{
}

} // verus!
