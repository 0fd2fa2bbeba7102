//! The host boundary of tools. The host owns authorization, argument validation and side effects.
use crate::contracts::encoding::Encode;
use crate::contracts::task::{ToolCall, ToolCallModel};
use crate::json::{
    count_model, count_value, empty_object, text_value, Json, JsonModel, ObjectBuilder,
};
use crate::model::Duplicate;
use vstd::prelude::*;

verus! {

/// A tool call as the host is asked to execute it. Registration grants no blanket permission:
/// the host authorizes each request.
#[derive(Debug)]
pub struct ToolRequest {
    pub task_id: String,
    pub execution_id: String,
    pub model_attempt_id: String,
    pub call: ToolCall,
    pub max_cost: u64,
    pub deadline_ms: u64,
}

/// What a `ToolRequest` holds.
#[verifier::ext_equal]
pub ghost struct ToolRequestModel {
    pub task_id: Seq<char>,
    pub execution_id: Seq<char>,
    pub model_attempt_id: Seq<char>,
    pub call: ToolCallModel,
    pub max_cost: u64,
    pub deadline_ms: u64,
}

impl DeepView for ToolRequest {
    type V = ToolRequestModel;

    open spec fn deep_view(&self) -> ToolRequestModel {
        ToolRequestModel {
            task_id: self.task_id.deep_view(),
            execution_id: self.execution_id.deep_view(),
            model_attempt_id: self.model_attempt_id.deep_view(),
            call: self.call.deep_view(),
            max_cost: self.max_cost.deep_view(),
            deadline_ms: self.deadline_ms.deep_view(),
        }
    }
}

impl Duplicate for ToolRequest {
    fn duplicate(&self) -> (r: Self) {
        ToolRequest {
            task_id: self.task_id.duplicate(),
            execution_id: self.execution_id.duplicate(),
            model_attempt_id: self.model_attempt_id.duplicate(),
            call: self.call.duplicate(),
            max_cost: self.max_cost.duplicate(),
            deadline_ms: self.deadline_ms.duplicate(),
        }
    }
}

impl Clone for ToolRequest {
    fn clone(&self) -> (r: Self)
        ensures
            r.deep_view() == self.deep_view(),
    {
        self.duplicate()
    }
}

impl Encode for ToolRequest {
    open spec fn json_of(m: ToolRequestModel) -> JsonModel {
        empty_object()
            .with("task_id"@, JsonModel::Text(m.task_id))
            .with("execution_id"@, JsonModel::Text(m.execution_id))
            .with("model_attempt_id"@, JsonModel::Text(m.model_attempt_id))
            .with("call"@, ToolCall::json_of(m.call))
            .with("max_cost"@, count_model(m.max_cost))
            .with("deadline_ms"@, count_model(m.deadline_ms))
    }

    fn to_json(&self) -> (r: Json) {
        ObjectBuilder::new()
            .with("task_id", text_value(self.task_id.as_str()))
            .with("execution_id", text_value(self.execution_id.as_str()))
            .with("model_attempt_id", text_value(self.model_attempt_id.as_str()))
            .with("call", self.call.to_json())
            .with("max_cost", count_value(self.max_cost))
            .with("deadline_ms", count_value(self.deadline_ms))
            .build()
    }
}

/// A request for a tool in its JSON form tells all that it has.
pub proof fn lemma_tool_request_is_told(request: ToolRequestModel)
    ensures
        ({
            let v = ToolRequest::json_of(request);
            &&& v.at("task_id"@) == JsonModel::Text(request.task_id)
            &&& v.at("execution_id"@) == JsonModel::Text(request.execution_id)
            &&& v.at("model_attempt_id"@) == JsonModel::Text(request.model_attempt_id)
            &&& v.at("call"@) == ToolCall::json_of(request.call)
            &&& v.at("max_cost"@) == count_model(request.max_cost)
            &&& v.at("deadline_ms"@) == count_model(request.deadline_ms)
        }),
{
    lemma_request_names();
}

proof fn lemma_request_names()
    ensures
        "task_id"@ != "execution_id"@,
        "task_id"@ != "model_attempt_id"@,
        "task_id"@ != "call"@,
        "task_id"@ != "max_cost"@,
        "task_id"@ != "deadline_ms"@,
        "execution_id"@ != "model_attempt_id"@,
        "execution_id"@ != "call"@,
        "execution_id"@ != "max_cost"@,
        "execution_id"@ != "deadline_ms"@,
        "model_attempt_id"@ != "call"@,
        "model_attempt_id"@ != "max_cost"@,
        "model_attempt_id"@ != "deadline_ms"@,
        "call"@ != "max_cost"@,
        "call"@ != "deadline_ms"@,
        "max_cost"@ != "deadline_ms"@,
{
    reveal_strlit("task_id");
    reveal_strlit("execution_id");
    reveal_strlit("model_attempt_id");
    reveal_strlit("call");
    reveal_strlit("max_cost");
    reveal_strlit("deadline_ms");
    assert("task_id"@.len() == 7);
    assert("execution_id"@.len() == 12);
    assert("model_attempt_id"@.len() == 16);
    assert("call"@.len() == 4);
    assert("max_cost"@.len() == 8);
    assert("deadline_ms"@.len() == 11);
}

} // verus!
