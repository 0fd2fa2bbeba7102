//! The JSON form of contract types.
use crate::adapter::{Message, MessageModel, ModelOutput, ModelOutputModel};
use crate::contracts::feedback::{
    CriticVerdict, CriticVerdictModel, EvaluationRecord, EvaluationRecordModel,
};
use crate::contracts::planning::{PlanChoice, PlanChoiceModel, TaskType};
use crate::contracts::task::{
    Acceptance, AcceptanceModel, Artifact, ArtifactModel, Constraints, ConstraintsModel, Evaluation,
    EvaluationModel, EvaluationStatus, Evidence, EvidenceModel, Strategy, TaskResult,
    TaskResultModel, ToolCall, ToolCallModel, ToolSpec, ToolSpecModel, Usage, UsageModel,
};
use crate::fault::{EngineError, EngineErrorModel};
use crate::json::{
    array_value, count_model, count_value, empty_object, models, text_array, text_array_value,
    text_or_null, text_or_null_value, text_value, Json, JsonModel, ObjectBuilder,
};
use crate::model::Duplicate;
use crate::text::{lemma_list_unique, list_of, lists, TextSet};
use vstd::prelude::*;

verus! {

/// Types with a JSON form.
pub trait Encode: DeepView {
    /// The JSON form of what a value holds.
    spec fn json_of(m: Self::V) -> JsonModel;

    /// The value as JSON.
    fn to_json(&self) -> (r: Json)
        ensures
            r@ == Self::json_of(self.deep_view()),
    ;
}

/// The JSON form of items.
pub open spec fn array_of<T: Encode>(items: Seq<T::V>) -> JsonModel {
    JsonModel::Array(Seq::new(items.len(), |i: int| T::json_of(items[i])))
}

/// Items as JSON.
pub fn array_json<T: Encode>(items: &Vec<T>) -> (r: Json)
    ensures
        r@ == array_of::<T>(items.deep_view()),
{
    let mut out: Vec<Json> = Vec::new();
    let mut i: usize = 0;
    while i < items.len()
        invariant
            i <= items@.len(),
            out@.len() == i,
            forall|j: int|
                0 <= j < i ==> (#[trigger] out@[j])@ == T::json_of(items@[j].deep_view()),
        decreases items@.len() - i,
    {
        out.push(items[i].to_json());
        i += 1;
    }
    assert(models(out@) =~= array_of::<T>(items.deep_view())->Array_0);
    array_value(out)
}

/// The JSON form of what may be absent.
pub open spec fn option_of<T: Encode>(item: Option<T::V>) -> JsonModel {
    match item {
        Some(m) => T::json_of(m),
        None => JsonModel::Null,
    }
}

/// What may be absent, as JSON.
pub fn option_json<T: Encode>(item: &Option<T>) -> (r: Json)
    ensures
        r@ == option_of::<T>(item.deep_view()),
{
    match item {
        Some(x) => x.to_json(),
        None => Json::Null,
    }
}

/// The members of a set as JSON: an ascending array.
pub fn set_json(set: &TextSet) -> (r: Json)
    ensures
        r@ == text_array(list_of(set.deep_view())),
{
    let _n: usize = set.len();
    let list: Vec<String> = set.to_list();
    proof {
        assert(lists(set.deep_view(), set.listed()));
        lemma_list_unique(set.deep_view(), set.listed());
    }
    text_array_value(&list)
}

/// The name of a strategy.
pub open spec fn strategy_name(strategy: Strategy) -> Seq<char> {
    match strategy {
        Strategy::Single => "single"@,
        Strategy::Cascade => "cascade"@,
        Strategy::GeneratorCritic => "generator_critic"@,
    }
}

impl Encode for Strategy {
    open spec fn json_of(m: Strategy) -> JsonModel {
        JsonModel::Text(strategy_name(m))
    }

    fn to_json(&self) -> (r: Json) {
        text_value(
            match self {
                Strategy::Single => "single",
                Strategy::Cascade => "cascade",
                Strategy::GeneratorCritic => "generator_critic",
            },
        )
    }
}

/// The name of a type of task.
pub open spec fn task_type_name(task_type: TaskType) -> Seq<char> {
    match task_type {
        TaskType::General => "general"@,
        TaskType::CodeGeneration => "code_generation"@,
        TaskType::CodeReview => "code_review"@,
        TaskType::InformationExtraction => "information_extraction"@,
        TaskType::Reasoning => "reasoning"@,
        TaskType::Writing => "writing"@,
        TaskType::ToolExecution => "tool_execution"@,
    }
}

impl Encode for TaskType {
    open spec fn json_of(m: TaskType) -> JsonModel {
        JsonModel::Text(task_type_name(m))
    }

    fn to_json(&self) -> (r: Json) {
        text_value(
            match self {
                TaskType::General => "general",
                TaskType::CodeGeneration => "code_generation",
                TaskType::CodeReview => "code_review",
                TaskType::InformationExtraction => "information_extraction",
                TaskType::Reasoning => "reasoning",
                TaskType::Writing => "writing",
                TaskType::ToolExecution => "tool_execution",
            },
        )
    }
}

/// The name of a status.
pub open spec fn evaluation_status_name(status: EvaluationStatus) -> Seq<char> {
    match status {
        EvaluationStatus::Pass => "pass"@,
        EvaluationStatus::Revise => "revise"@,
        EvaluationStatus::MissingEvidence => "missing_evidence"@,
        EvaluationStatus::Unacceptable => "unacceptable"@,
        EvaluationStatus::HumanRequired => "human_required"@,
    }
}

impl Encode for EvaluationStatus {
    open spec fn json_of(m: EvaluationStatus) -> JsonModel {
        JsonModel::Text(evaluation_status_name(m))
    }

    fn to_json(&self) -> (r: Json) {
        text_value(
            match self {
                EvaluationStatus::Pass => "pass",
                EvaluationStatus::Revise => "revise",
                EvaluationStatus::MissingEvidence => "missing_evidence",
                EvaluationStatus::Unacceptable => "unacceptable",
                EvaluationStatus::HumanRequired => "human_required",
            },
        )
    }
}

impl Encode for Evidence {
    open spec fn json_of(m: EvidenceModel) -> JsonModel {
        empty_object()
            .with("source"@, JsonModel::Text(m.source))
            .with("text"@, JsonModel::Text(m.text))
            .with("trusted"@, JsonModel::Bool(m.trusted))
    }

    fn to_json(&self) -> (r: Json) {
        ObjectBuilder::new()
            .with("source", text_value(self.source.as_str()))
            .with("text", text_value(self.text.as_str()))
            .with("trusted", Json::Bool(self.trusted))
            .build()
    }
}

impl Encode for Acceptance {
    open spec fn json_of(m: AcceptanceModel) -> JsonModel {
        empty_object()
            .with("version"@, JsonModel::Text(m.version))
            .with("nonempty"@, JsonModel::Bool(m.nonempty))
            .with("required_substrings"@, text_array(m.required_substrings))
            .with("json_object"@, JsonModel::Bool(m.json_object))
    }

    fn to_json(&self) -> (r: Json) {
        ObjectBuilder::new()
            .with("version", text_value(self.version.as_str()))
            .with("nonempty", Json::Bool(self.nonempty))
            .with("required_substrings", text_array_value(&self.required_substrings))
            .with("json_object", Json::Bool(self.json_object))
            .build()
    }
}

impl Encode for Constraints {
    open spec fn json_of(m: ConstraintsModel) -> JsonModel {
        empty_object()
            .with("allowed_models"@, text_array(list_of(m.allowed_models)))
            .with("allowed_providers"@, text_array(list_of(m.allowed_providers)))
            .with("allowed_regions"@, text_array(list_of(m.allowed_regions)))
            .with("local_only"@, JsonModel::Bool(m.local_only))
            .with("required_capabilities"@, text_array(list_of(m.required_capabilities)))
            .with("preferred_capabilities"@, text_array(list_of(m.preferred_capabilities)))
            .with("different_critic"@, JsonModel::Bool(m.different_critic))
    }

    fn to_json(&self) -> (r: Json) {
        ObjectBuilder::new()
            .with("allowed_models", set_json(&self.allowed_models))
            .with("allowed_providers", set_json(&self.allowed_providers))
            .with("allowed_regions", set_json(&self.allowed_regions))
            .with("local_only", Json::Bool(self.local_only))
            .with("required_capabilities", set_json(&self.required_capabilities))
            .with("preferred_capabilities", set_json(&self.preferred_capabilities))
            .with("different_critic", Json::Bool(self.different_critic))
            .build()
    }
}

impl Encode for ToolSpec {
    open spec fn json_of(m: ToolSpecModel) -> JsonModel {
        empty_object()
            .with("name"@, JsonModel::Text(m.name))
            .with("description"@, JsonModel::Text(m.description))
            .with("parameters"@, m.parameters)
            .with("max_cost"@, count_model(m.max_cost))
    }

    fn to_json(&self) -> (r: Json) {
        ObjectBuilder::new()
            .with("name", text_value(self.name.as_str()))
            .with("description", text_value(self.description.as_str()))
            .with("parameters", self.parameters.duplicate())
            .with("max_cost", count_value(self.max_cost))
            .build()
    }
}

impl Encode for ToolCall {
    open spec fn json_of(m: ToolCallModel) -> JsonModel {
        empty_object()
            .with("id"@, JsonModel::Text(m.id))
            .with("name"@, JsonModel::Text(m.name))
            .with("arguments"@, m.arguments)
    }

    fn to_json(&self) -> (r: Json) {
        ObjectBuilder::new()
            .with("id", text_value(self.id.as_str()))
            .with("name", text_value(self.name.as_str()))
            .with("arguments", self.arguments.duplicate())
            .build()
    }
}

impl Encode for Message {
    open spec fn json_of(m: MessageModel) -> JsonModel {
        empty_object()
            .with("role"@, JsonModel::Text(m.role))
            .with("content"@, JsonModel::Text(m.content))
            .with("tool_calls"@, array_of::<ToolCall>(m.tool_calls))
            .with("tool_call_id"@, text_or_null(m.tool_call_id))
    }

    fn to_json(&self) -> (r: Json) {
        ObjectBuilder::new()
            .with("role", text_value(self.role.as_str()))
            .with("content", text_value(self.content.as_str()))
            .with("tool_calls", array_json(&self.tool_calls))
            .with("tool_call_id", text_or_null_value(&self.tool_call_id))
            .build()
    }
}

impl Encode for Usage {
    open spec fn json_of(m: UsageModel) -> JsonModel {
        empty_object()
            .with("input_tokens"@, count_model(m.input_tokens))
            .with("output_tokens"@, count_model(m.output_tokens))
    }

    fn to_json(&self) -> (r: Json) {
        ObjectBuilder::new()
            .with("input_tokens", count_value(self.input_tokens))
            .with("output_tokens", count_value(self.output_tokens))
            .build()
    }
}

impl Encode for ModelOutput {
    open spec fn json_of(m: ModelOutputModel) -> JsonModel {
        empty_object()
            .with("text"@, JsonModel::Text(m.text))
            .with("tool_calls"@, array_of::<ToolCall>(m.tool_calls))
            .with("usage"@, option_of::<Usage>(m.usage))
            .with("request_id"@, text_or_null(m.request_id))
            .with("complete"@, JsonModel::Bool(m.complete))
    }

    fn to_json(&self) -> (r: Json) {
        ObjectBuilder::new()
            .with("text", text_value(self.text.as_str()))
            .with("tool_calls", array_json(&self.tool_calls))
            .with("usage", option_json(&self.usage))
            .with("request_id", text_or_null_value(&self.request_id))
            .with("complete", Json::Bool(self.complete))
            .build()
    }
}

impl Encode for EngineError {
    open spec fn json_of(m: EngineErrorModel) -> JsonModel {
        empty_object()
            .with("kind"@, JsonModel::Text(m.kind))
            .with("message"@, JsonModel::Text(m.message))
            .with("task_id"@, text_or_null(m.task_id))
            .with("details"@, m.details)
    }

    fn to_json(&self) -> (r: Json) {
        ObjectBuilder::new()
            .with("kind", text_value(self.kind.as_str()))
            .with("message", text_value(self.message.as_str()))
            .with("task_id", text_or_null_value(&self.task_id))
            .with("details", self.details.duplicate())
            .build()
    }
}

impl Encode for Artifact {
    open spec fn json_of(m: ArtifactModel) -> JsonModel {
        empty_object()
            .with("artifact_id"@, JsonModel::Text(m.artifact_id))
            .with("version"@, count_model(m.version as u64))
            .with("attempt_id"@, JsonModel::Text(m.attempt_id))
            .with("text"@, JsonModel::Text(m.text))
            .with("checksum"@, JsonModel::Text(m.checksum))
    }

    fn to_json(&self) -> (r: Json) {
        ObjectBuilder::new()
            .with("artifact_id", text_value(self.artifact_id.as_str()))
            .with("version", count_value(self.version as u64))
            .with("attempt_id", text_value(self.attempt_id.as_str()))
            .with("text", text_value(self.text.as_str()))
            .with("checksum", text_value(self.checksum.as_str()))
            .build()
    }
}

impl Encode for Evaluation {
    open spec fn json_of(m: EvaluationModel) -> JsonModel {
        empty_object()
            .with("status"@, EvaluationStatus::json_of(m.status))
            .with("checks"@, text_array(m.checks))
            .with("evidence"@, text_array(m.evidence))
            .with("defects"@, text_array(m.defects))
            .with("action"@, JsonModel::Text(m.action))
    }

    fn to_json(&self) -> (r: Json) {
        ObjectBuilder::new()
            .with("status", self.status.to_json())
            .with("checks", text_array_value(&self.checks))
            .with("evidence", text_array_value(&self.evidence))
            .with("defects", text_array_value(&self.defects))
            .with("action", text_value(self.action.as_str()))
            .build()
    }
}

impl Encode for TaskResult {
    open spec fn json_of(m: TaskResultModel) -> JsonModel {
        empty_object()
            .with("task_id"@, JsonModel::Text(m.task_id))
            .with("status"@, JsonModel::Text(m.status))
            .with("artifact"@, Artifact::json_of(m.artifact))
            .with("settled_cost"@, count_model(m.settled_cost))
            .with("reserved_cost"@, count_model(m.reserved_cost))
    }

    fn to_json(&self) -> (r: Json) {
        ObjectBuilder::new()
            .with("task_id", text_value(self.task_id.as_str()))
            .with("status", text_value(self.status.as_str()))
            .with("artifact", self.artifact.to_json())
            .with("settled_cost", count_value(self.settled_cost))
            .with("reserved_cost", count_value(self.reserved_cost))
            .build()
    }
}

impl Encode for PlanChoice {
    open spec fn json_of(m: PlanChoiceModel) -> JsonModel {
        empty_object()
            .with("task_type"@, TaskType::json_of(m.task_type))
            .with("strategy"@, Strategy::json_of(m.strategy))
    }

    fn to_json(&self) -> (r: Json) {
        ObjectBuilder::new()
            .with("task_type", self.task_type.to_json())
            .with("strategy", self.strategy.to_json())
            .build()
    }
}

impl Encode for CriticVerdict {
    open spec fn json_of(m: CriticVerdictModel) -> JsonModel {
        empty_object()
            .with("attempt_id"@, JsonModel::Text(m.attempt_id))
            .with("evaluation"@, Evaluation::json_of(m.evaluation))
    }

    fn to_json(&self) -> (r: Json) {
        ObjectBuilder::new()
            .with("attempt_id", text_value(self.attempt_id.as_str()))
            .with("evaluation", self.evaluation.to_json())
            .build()
    }
}

impl Encode for EvaluationRecord {
    open spec fn json_of(m: EvaluationRecordModel) -> JsonModel {
        empty_object()
            .with("task_id"@, JsonModel::Text(m.task_id))
            .with("artifact"@, Artifact::json_of(m.artifact))
            .with("deterministic"@, Evaluation::json_of(m.deterministic))
            .with("critic"@, option_of::<CriticVerdict>(m.critic))
    }

    fn to_json(&self) -> (r: Json) {
        ObjectBuilder::new()
            .with("task_id", text_value(self.task_id.as_str()))
            .with("artifact", self.artifact.to_json())
            .with("deterministic", self.deterministic.to_json())
            .with("critic", option_json(&self.critic))
            .build()
    }
}

/// What is accepted tells its version and each of its checks.
pub proof fn lemma_json_of_acceptance(m: AcceptanceModel)
    ensures
        ({
            let v = Acceptance::json_of(m);
            &&& v.at("version"@) == JsonModel::Text(m.version)
            &&& v.at("nonempty"@) == JsonModel::Bool(m.nonempty)
            &&& v.at("required_substrings"@) == text_array(m.required_substrings)
            &&& v.at("json_object"@) == JsonModel::Bool(m.json_object)
        }),
{
    lemma_names_of_acceptance();
}

proof fn lemma_names_of_acceptance()
    ensures
        "version"@ != "nonempty"@,
        "version"@ != "required_substrings"@,
        "version"@ != "json_object"@,
        "nonempty"@ != "required_substrings"@,
        "nonempty"@ != "json_object"@,
        "required_substrings"@ != "json_object"@,
{
    reveal_strlit("version");
    reveal_strlit("nonempty");
    reveal_strlit("required_substrings");
    reveal_strlit("json_object");
    assert("version"@.len() == 7);
    assert("nonempty"@.len() == 8);
    assert("required_substrings"@.len() == 19);
    assert("json_object"@.len() == 11);
}

/// Constraints tell each of their lists and switches under its own name.
pub proof fn lemma_json_of_constraints(m: ConstraintsModel)
    ensures
        ({
            let v = Constraints::json_of(m);
            &&& v.at("allowed_models"@) == text_array(list_of(m.allowed_models))
            &&& v.at("allowed_providers"@) == text_array(list_of(m.allowed_providers))
            &&& v.at("allowed_regions"@) == text_array(list_of(m.allowed_regions))
            &&& v.at("local_only"@) == JsonModel::Bool(m.local_only)
            &&& v.at("required_capabilities"@) == text_array(list_of(m.required_capabilities))
            &&& v.at("preferred_capabilities"@) == text_array(list_of(m.preferred_capabilities))
            &&& v.at("different_critic"@) == JsonModel::Bool(m.different_critic)
        }),
{
    lemma_names_of_constraints();
}

proof fn lemma_names_of_constraints()
    ensures
        "allowed_models"@ != "allowed_providers"@,
        "allowed_models"@ != "allowed_regions"@,
        "allowed_models"@ != "local_only"@,
        "allowed_models"@ != "required_capabilities"@,
        "allowed_models"@ != "preferred_capabilities"@,
        "allowed_models"@ != "different_critic"@,
        "allowed_providers"@ != "allowed_regions"@,
        "allowed_providers"@ != "local_only"@,
        "allowed_providers"@ != "required_capabilities"@,
        "allowed_providers"@ != "preferred_capabilities"@,
        "allowed_providers"@ != "different_critic"@,
        "allowed_regions"@ != "local_only"@,
        "allowed_regions"@ != "required_capabilities"@,
        "allowed_regions"@ != "preferred_capabilities"@,
        "allowed_regions"@ != "different_critic"@,
        "local_only"@ != "required_capabilities"@,
        "local_only"@ != "preferred_capabilities"@,
        "local_only"@ != "different_critic"@,
        "required_capabilities"@ != "preferred_capabilities"@,
        "required_capabilities"@ != "different_critic"@,
        "preferred_capabilities"@ != "different_critic"@,
{
    reveal_strlit("allowed_models");
    reveal_strlit("allowed_providers");
    reveal_strlit("allowed_regions");
    reveal_strlit("local_only");
    reveal_strlit("required_capabilities");
    reveal_strlit("preferred_capabilities");
    reveal_strlit("different_critic");
    assert("allowed_models"@.len() == 14);
    assert("allowed_providers"@.len() == 17);
    assert("allowed_regions"@.len() == 15);
    assert("local_only"@.len() == 10);
    assert("required_capabilities"@.len() == 21);
    assert("preferred_capabilities"@.len() == 22);
    assert("different_critic"@.len() == 16);
}

/// A tool tells its name, its description, its parameters and its price.
pub proof fn lemma_json_of_tool_spec(m: ToolSpecModel)
    ensures
        ({
            let v = ToolSpec::json_of(m);
            &&& v.at("name"@) == JsonModel::Text(m.name)
            &&& v.at("description"@) == JsonModel::Text(m.description)
            &&& v.at("parameters"@) == m.parameters
            &&& v.at("max_cost"@) == count_model(m.max_cost)
        }),
{
    lemma_names_of_tool_spec();
}

proof fn lemma_names_of_tool_spec()
    ensures
        "name"@ != "description"@,
        "name"@ != "parameters"@,
        "name"@ != "max_cost"@,
        "description"@ != "parameters"@,
        "description"@ != "max_cost"@,
        "parameters"@ != "max_cost"@,
{
    reveal_strlit("name");
    reveal_strlit("description");
    reveal_strlit("parameters");
    reveal_strlit("max_cost");
    assert("name"@.len() == 4);
    assert("description"@.len() == 11);
    assert("parameters"@.len() == 10);
    assert("max_cost"@.len() == 8);
}

/// A tool call tells its ID, the tool and the arguments.
pub proof fn lemma_json_of_tool_call(m: ToolCallModel)
    ensures
        ({
            let v = ToolCall::json_of(m);
            &&& v.at("id"@) == JsonModel::Text(m.id)
            &&& v.at("name"@) == JsonModel::Text(m.name)
            &&& v.at("arguments"@) == m.arguments
        }),
{
    lemma_names_of_tool_call();
}

proof fn lemma_names_of_tool_call()
    ensures
        "id"@ != "name"@,
        "id"@ != "arguments"@,
        "name"@ != "arguments"@,
{
    reveal_strlit("id");
    reveal_strlit("name");
    reveal_strlit("arguments");
    assert("id"@.len() == 2);
    assert("name"@.len() == 4);
    assert("arguments"@.len() == 9);
}

/// A message tells its role and content, its calls and the call that it answers.
pub proof fn lemma_json_of_message(m: MessageModel)
    ensures
        ({
            let v = Message::json_of(m);
            &&& v.at("role"@) == JsonModel::Text(m.role)
            &&& v.at("content"@) == JsonModel::Text(m.content)
            &&& v.at("tool_calls"@) == array_of::<ToolCall>(m.tool_calls)
            &&& v.at("tool_call_id"@) == text_or_null(m.tool_call_id)
        }),
{
    lemma_names_of_message();
}

proof fn lemma_names_of_message()
    ensures
        "role"@ != "content"@,
        "role"@ != "tool_calls"@,
        "role"@ != "tool_call_id"@,
        "content"@ != "tool_calls"@,
        "content"@ != "tool_call_id"@,
        "tool_calls"@ != "tool_call_id"@,
{
    reveal_strlit("role");
    reveal_strlit("content");
    reveal_strlit("tool_calls");
    reveal_strlit("tool_call_id");
    assert("role"@.len() == 4);
    assert("content"@.len() == 7);
    assert("tool_calls"@.len() == 10);
    assert("tool_call_id"@.len() == 12);
}

/// Usage tells input and output tokens apart.
pub proof fn lemma_json_of_usage(m: UsageModel)
    ensures
        ({
            let v = Usage::json_of(m);
            &&& v.at("input_tokens"@) == count_model(m.input_tokens)
            &&& v.at("output_tokens"@) == count_model(m.output_tokens)
        }),
{
    lemma_names_of_usage();
}

proof fn lemma_names_of_usage()
    ensures
        "input_tokens"@ != "output_tokens"@,
{
    reveal_strlit("input_tokens");
    reveal_strlit("output_tokens");
    assert("input_tokens"@.len() == 12);
    assert("output_tokens"@.len() == 13);
}

/// An output tells its text, its calls, its usage, its request and whether it is complete.
pub proof fn lemma_json_of_model_output(m: ModelOutputModel)
    ensures
        ({
            let v = ModelOutput::json_of(m);
            &&& v.at("text"@) == JsonModel::Text(m.text)
            &&& v.at("tool_calls"@) == array_of::<ToolCall>(m.tool_calls)
            &&& v.at("usage"@) == option_of::<Usage>(m.usage)
            &&& v.at("request_id"@) == text_or_null(m.request_id)
            &&& v.at("complete"@) == JsonModel::Bool(m.complete)
        }),
{
    lemma_names_of_model_output();
}

proof fn lemma_names_of_model_output()
    ensures
        "text"@ != "tool_calls"@,
        "text"@ != "usage"@,
        "text"@ != "request_id"@,
        "text"@ != "complete"@,
        "tool_calls"@ != "usage"@,
        "tool_calls"@ != "request_id"@,
        "tool_calls"@ != "complete"@,
        "usage"@ != "request_id"@,
        "usage"@ != "complete"@,
        "request_id"@ != "complete"@,
{
    reveal_strlit("text");
    reveal_strlit("tool_calls");
    reveal_strlit("usage");
    reveal_strlit("request_id");
    reveal_strlit("complete");
    assert("text"@.len() == 4);
    assert("tool_calls"@.len() == 10);
    assert("usage"@.len() == 5);
    assert("request_id"@.len() == 10);
    assert("complete"@.len() == 8);
    assert("tool_calls"@[0] != "request_id"@[0]);
}

/// An error tells its kind, its message, its task and its details.
pub proof fn lemma_json_of_engine_error(m: EngineErrorModel)
    ensures
        ({
            let v = EngineError::json_of(m);
            &&& v.at("kind"@) == JsonModel::Text(m.kind)
            &&& v.at("message"@) == JsonModel::Text(m.message)
            &&& v.at("task_id"@) == text_or_null(m.task_id)
            &&& v.at("details"@) == m.details
        }),
{
    lemma_names_of_engine_error();
}

proof fn lemma_names_of_engine_error()
    ensures
        "kind"@ != "message"@,
        "kind"@ != "task_id"@,
        "kind"@ != "details"@,
        "message"@ != "task_id"@,
        "message"@ != "details"@,
        "task_id"@ != "details"@,
{
    reveal_strlit("kind");
    reveal_strlit("message");
    reveal_strlit("task_id");
    reveal_strlit("details");
    assert("kind"@.len() == 4);
    assert("message"@.len() == 7);
    assert("task_id"@.len() == 7);
    assert("details"@.len() == 7);
    assert("message"@[0] != "task_id"@[0]);
    assert("message"@[0] != "details"@[0]);
    assert("task_id"@[0] != "details"@[0]);
}

/// An artifact tells its ID, its version, the call that made it, its text and its checksum.
pub proof fn lemma_json_of_artifact(m: ArtifactModel)
    ensures
        ({
            let v = Artifact::json_of(m);
            &&& v.at("artifact_id"@) == JsonModel::Text(m.artifact_id)
            &&& v.at("version"@) == count_model(m.version as u64)
            &&& v.at("attempt_id"@) == JsonModel::Text(m.attempt_id)
            &&& v.at("text"@) == JsonModel::Text(m.text)
            &&& v.at("checksum"@) == JsonModel::Text(m.checksum)
        }),
{
    lemma_names_of_artifact();
}

proof fn lemma_names_of_artifact()
    ensures
        "artifact_id"@ != "version"@,
        "artifact_id"@ != "attempt_id"@,
        "artifact_id"@ != "text"@,
        "artifact_id"@ != "checksum"@,
        "version"@ != "attempt_id"@,
        "version"@ != "text"@,
        "version"@ != "checksum"@,
        "attempt_id"@ != "text"@,
        "attempt_id"@ != "checksum"@,
        "text"@ != "checksum"@,
{
    reveal_strlit("artifact_id");
    reveal_strlit("version");
    reveal_strlit("attempt_id");
    reveal_strlit("text");
    reveal_strlit("checksum");
    assert("artifact_id"@.len() == 11);
    assert("version"@.len() == 7);
    assert("attempt_id"@.len() == 10);
    assert("text"@.len() == 4);
    assert("checksum"@.len() == 8);
}

/// An evaluation tells its status, its three lists and what to do.
pub proof fn lemma_json_of_evaluation(m: EvaluationModel)
    ensures
        ({
            let v = Evaluation::json_of(m);
            &&& v.at("status"@) == EvaluationStatus::json_of(m.status)
            &&& v.at("checks"@) == text_array(m.checks)
            &&& v.at("evidence"@) == text_array(m.evidence)
            &&& v.at("defects"@) == text_array(m.defects)
            &&& v.at("action"@) == JsonModel::Text(m.action)
        }),
{
    lemma_names_of_evaluation();
}

proof fn lemma_names_of_evaluation()
    ensures
        "status"@ != "checks"@,
        "status"@ != "evidence"@,
        "status"@ != "defects"@,
        "status"@ != "action"@,
        "checks"@ != "evidence"@,
        "checks"@ != "defects"@,
        "checks"@ != "action"@,
        "evidence"@ != "defects"@,
        "evidence"@ != "action"@,
        "defects"@ != "action"@,
{
    reveal_strlit("status");
    reveal_strlit("checks");
    reveal_strlit("evidence");
    reveal_strlit("defects");
    reveal_strlit("action");
    assert("status"@.len() == 6);
    assert("checks"@.len() == 6);
    assert("evidence"@.len() == 8);
    assert("defects"@.len() == 7);
    assert("action"@.len() == 6);
    assert("status"@[0] != "checks"@[0]);
    assert("status"@[0] != "action"@[0]);
    assert("checks"@[0] != "action"@[0]);
}

/// A result tells its task, its status, its artifact, and settled and reserved cost apart.
pub proof fn lemma_json_of_task_result(m: TaskResultModel)
    ensures
        ({
            let v = TaskResult::json_of(m);
            &&& v.at("task_id"@) == JsonModel::Text(m.task_id)
            &&& v.at("status"@) == JsonModel::Text(m.status)
            &&& v.at("artifact"@) == Artifact::json_of(m.artifact)
            &&& v.at("settled_cost"@) == count_model(m.settled_cost)
            &&& v.at("reserved_cost"@) == count_model(m.reserved_cost)
        }),
{
    lemma_names_of_task_result();
}

proof fn lemma_names_of_task_result()
    ensures
        "task_id"@ != "status"@,
        "task_id"@ != "artifact"@,
        "task_id"@ != "settled_cost"@,
        "task_id"@ != "reserved_cost"@,
        "status"@ != "artifact"@,
        "status"@ != "settled_cost"@,
        "status"@ != "reserved_cost"@,
        "artifact"@ != "settled_cost"@,
        "artifact"@ != "reserved_cost"@,
        "settled_cost"@ != "reserved_cost"@,
{
    reveal_strlit("task_id");
    reveal_strlit("status");
    reveal_strlit("artifact");
    reveal_strlit("settled_cost");
    reveal_strlit("reserved_cost");
    assert("task_id"@.len() == 7);
    assert("status"@.len() == 6);
    assert("artifact"@.len() == 8);
    assert("settled_cost"@.len() == 12);
    assert("reserved_cost"@.len() == 13);
}

/// A choice tells the type and the strategy.
pub proof fn lemma_json_of_plan_choice(m: PlanChoiceModel)
    ensures
        ({
            let v = PlanChoice::json_of(m);
            &&& v.at("task_type"@) == TaskType::json_of(m.task_type)
            &&& v.at("strategy"@) == Strategy::json_of(m.strategy)
        }),
{
    lemma_names_of_plan_choice();
}

proof fn lemma_names_of_plan_choice()
    ensures
        "task_type"@ != "strategy"@,
{
    reveal_strlit("task_type");
    reveal_strlit("strategy");
    assert("task_type"@.len() == 9);
    assert("strategy"@.len() == 8);
}

/// A verdict tells the critic's call and the evaluation.
pub proof fn lemma_json_of_critic_verdict(m: CriticVerdictModel)
    ensures
        ({
            let v = CriticVerdict::json_of(m);
            &&& v.at("attempt_id"@) == JsonModel::Text(m.attempt_id)
            &&& v.at("evaluation"@) == Evaluation::json_of(m.evaluation)
        }),
{
    lemma_names_of_critic_verdict();
}

proof fn lemma_names_of_critic_verdict()
    ensures
        "attempt_id"@ != "evaluation"@,
{
    reveal_strlit("attempt_id");
    reveal_strlit("evaluation");
    assert("attempt_id"@.len() == 10);
    assert("evaluation"@.len() == 10);
    assert("attempt_id"@[0] != "evaluation"@[0]);
}

/// A record tells the task, the artifact, the checks and the verdict.
pub proof fn lemma_json_of_evaluation_record(m: EvaluationRecordModel)
    ensures
        ({
            let v = EvaluationRecord::json_of(m);
            &&& v.at("task_id"@) == JsonModel::Text(m.task_id)
            &&& v.at("artifact"@) == Artifact::json_of(m.artifact)
            &&& v.at("deterministic"@) == Evaluation::json_of(m.deterministic)
            &&& v.at("critic"@) == option_of::<CriticVerdict>(m.critic)
        }),
{
    lemma_names_of_evaluation_record();
}

proof fn lemma_names_of_evaluation_record()
    ensures
        "task_id"@ != "artifact"@,
        "task_id"@ != "deterministic"@,
        "task_id"@ != "critic"@,
        "artifact"@ != "deterministic"@,
        "artifact"@ != "critic"@,
        "deterministic"@ != "critic"@,
{
    reveal_strlit("task_id");
    reveal_strlit("artifact");
    reveal_strlit("deterministic");
    reveal_strlit("critic");
    assert("task_id"@.len() == 7);
    assert("artifact"@.len() == 8);
    assert("deterministic"@.len() == 13);
    assert("critic"@.len() == 6);
}

/// The names of strategies, of statuses of an evaluation and of types of tasks.
pub proof fn lemma_names_in_json()
    ensures
        Strategy::json_of(Strategy::Single) == JsonModel::Text("single"@),
        Strategy::json_of(Strategy::Cascade) == JsonModel::Text("cascade"@),
        Strategy::json_of(Strategy::GeneratorCritic) == JsonModel::Text("generator_critic"@),
        EvaluationStatus::json_of(EvaluationStatus::Pass) == JsonModel::Text("pass"@),
        EvaluationStatus::json_of(EvaluationStatus::Revise) == JsonModel::Text("revise"@),
        EvaluationStatus::json_of(EvaluationStatus::MissingEvidence) == JsonModel::Text(
            "missing_evidence"@,
        ),
        EvaluationStatus::json_of(EvaluationStatus::Unacceptable) == JsonModel::Text(
            "unacceptable"@,
        ),
        EvaluationStatus::json_of(EvaluationStatus::HumanRequired) == JsonModel::Text(
            "human_required"@,
        ),
        TaskType::json_of(TaskType::General) == JsonModel::Text("general"@),
        TaskType::json_of(TaskType::CodeGeneration) == JsonModel::Text("code_generation"@),
        TaskType::json_of(TaskType::CodeReview) == JsonModel::Text("code_review"@),
        TaskType::json_of(TaskType::InformationExtraction) == JsonModel::Text(
            "information_extraction"@,
        ),
        TaskType::json_of(TaskType::Reasoning) == JsonModel::Text("reasoning"@),
        TaskType::json_of(TaskType::Writing) == JsonModel::Text("writing"@),
        TaskType::json_of(TaskType::ToolExecution) == JsonModel::Text("tool_execution"@),
{
}

/// A list as JSON has one item for each of its items, in order; what is absent is null.
pub proof fn lemma_lists_in_json<T: Encode>(items: Seq<T::V>, item: Option<T::V>, i: int)
    ensures
        array_of::<T>(items) is Array,
        array_of::<T>(items)->Array_0.len() == items.len(),
        0 <= i < items.len() ==> array_of::<T>(items)->Array_0[i] == T::json_of(items[i]),
        item is Some ==> option_of::<T>(item) == T::json_of(item->0),
        item is None ==> option_of::<T>(item) is Null,
{
}

/// Evidence tells its source, its text and whether it is trusted.
pub proof fn lemma_json_of_evidence(m: EvidenceModel)
    ensures
        ({
            let v = Evidence::json_of(m);
            &&& v.at("source"@) == JsonModel::Text(m.source)
            &&& v.at("text"@) == JsonModel::Text(m.text)
            &&& v.at("trusted"@) == JsonModel::Bool(m.trusted)
        }),
{
    lemma_names_of_evidence();
}

proof fn lemma_names_of_evidence()
    ensures
        "source"@ != "text"@,
        "source"@ != "trusted"@,
        "text"@ != "trusted"@,
{
    reveal_strlit("source");
    reveal_strlit("text");
    reveal_strlit("trusted");
    assert("source"@.len() == 6);
    assert("text"@.len() == 4);
    assert("trusted"@.len() == 7);
}

} // verus!
