//! Host tool batches and their accounting.
use super::{call_metrics, cutoff_ms, failed_metrics, failed_status, into_result, metrics_value};
use super::{result_of, viewed, Reply, ReplyModel};
use crate::adapter::{Message, MessageModel, ModelOutput, ModelOutputModel};
use crate::contracts::encoding::Encode;
use crate::contracts::task::{
    TaskSpec, TaskSpecModel, ToolCall, ToolCallModel, ToolResult, ToolResultModel, ToolSpec,
    ToolSpecModel,
};
use crate::fault::{answers, failure, EngineError, EngineErrorModel};
use crate::json::{
    count_model, count_or_null, count_or_null_value, count_value, empty_object, is_object,
    text_value, Json, JsonModel, ObjectBuilder,
};
use crate::model::Duplicate;
use crate::store::feedback::{checksum_of, text_checksum};
use crate::text::{byte_count, byte_len, same_text, TextSet};
use crate::tools::{ToolRequest, ToolRequestModel};
use vstd::prelude::*;

verus! {

/// The most tool calls of one output.
pub const MAX_BATCH: usize = 128;

/// A tool of that name is declared.
pub open spec fn declared(tools: Seq<ToolSpecModel>, name: Seq<char>) -> bool {
    exists|i: int| 0 <= i < tools.len() && (#[trigger] tools[i]).name == name
}

/// A call of a batch is new, declared and well formed.
pub open spec fn call_valid(
    calls: Seq<ToolCallModel>,
    tools: Seq<ToolSpecModel>,
    made: Set<Seq<char>>,
    i: int,
) -> bool {
    let call = calls[i];
    &&& call.id.len() > 0
    &&& !made.contains(call.id)
    &&& forall|j: int| 0 <= j < i ==> (#[trigger] calls[j]).id != call.id
    &&& call.arguments is Object
    &&& declared(tools, call.name)
}

/// The fault of a batch, where `made` are the calls before.
pub open spec fn batch_fault(
    calls: Seq<ToolCallModel>,
    tools: Seq<ToolSpecModel>,
    made: Set<Seq<char>>,
) -> Option<EngineErrorModel> {
    if calls.len() > MAX_BATCH {
        Some(failure("protocol"@, "too many tool calls"@))
    } else if exists|i: int| 0 <= i < calls.len() && !#[trigger] call_valid(calls, tools, made, i) {
        Some(failure("protocol"@, "undeclared, duplicate or malformed tool call"@))
    } else {
        None
    }
}

/// The calls made after a batch.
pub open spec fn with_batch(calls: Seq<ToolCallModel>, made: Set<Seq<char>>) -> Set<Seq<char>> {
    Set::new(
        |t: Seq<char>|
            made.contains(t) || exists|i: int|
                0 <= i < calls.len() && (#[trigger] calls[i]).id == t,
    )
}

/// The place of the first tool of a name.
pub open spec fn first_tool(tools: Seq<ToolSpecModel>, name: Seq<char>) -> int {
    choose|i: int| first_at(tools, name, i)
}

/// The first tool of a name stands at a place.
pub open spec fn first_at(tools: Seq<ToolSpecModel>, name: Seq<char>, i: int) -> bool {
    &&& 0 <= i < tools.len()
    &&& tools[i].name == name
    &&& forall|j: int| 0 <= j < i ==> (#[trigger] tools[j]).name != name
}

/// There is one first tool of a name.
pub proof fn lemma_first_tool(tools: Seq<ToolSpecModel>, name: Seq<char>, i: int)
    requires
        first_at(tools, name, i),
    ensures
        first_tool(tools, name) == i,
{
    let k = first_tool(tools, name);
    assert(first_at(tools, name, k));
    if k < i {
        assert(tools[k].name != name);
    } else if i < k {
        assert(tools[i].name != name);
    }
}

/// The place of a tool by its name.
pub fn find_tool(tools: &Vec<ToolSpec>, name: &str) -> (r: Option<usize>)
    ensures
        r is Some == declared(tools.deep_view(), name@),
        r matches Some(i) ==> first_at(tools.deep_view(), name@, i as int),
{
    let ghost all = tools.deep_view();
    let mut i: usize = 0;
    while i < tools.len()
        invariant
            i <= tools@.len(),
            all == tools.deep_view(),
            forall|j: int| 0 <= j < i ==> (#[trigger] all[j]).name != name@,
        decreases tools@.len() - i,
    {
        assert(all[i as int] == tools@[i as int].deep_view());
        if same_text(tools[i].name.as_str(), name) {
            return Some(i);
        }
        i += 1;
    }
    None
}

/// Checks a whole batch before its first side effect. The calls made then hold its own.
pub fn check_batch(calls: &Vec<ToolCall>, tools: &Vec<ToolSpec>, made: &TextSet) -> (r: Result<
    TextSet,
    EngineError,
>)
    ensures
        answers(r, batch_fault(calls.deep_view(), tools.deep_view(), made.deep_view())),
        r matches Ok(now) ==> now.deep_view() == with_batch(calls.deep_view(), made.deep_view()),
{
    if calls.len() > MAX_BATCH {
        return Err(EngineError::new("protocol", "too many tool calls"));
    }
    let ghost all = calls.deep_view();
    let ghost known = tools.deep_view();
    let ghost before = made.deep_view();
    let mut now: TextSet = made.clone();
    let mut i: usize = 0;
    while i < calls.len()
        invariant
            i <= calls@.len(),
            calls@.len() <= MAX_BATCH,
            all == calls.deep_view(),
            known == tools.deep_view(),
            before == made.deep_view(),
            forall|j: int| 0 <= j < i ==> #[trigger] call_valid(all, known, before, j),
            forall|t: Seq<char>| #[trigger]
                now.has(t) <==> (before.contains(t) || exists|j: int|
                    0 <= j < i && (#[trigger] all[j]).id == t),
        decreases calls@.len() - i,
    {
        let call: &ToolCall = &calls[i];
        let ghost held = now;
        assert(all[i as int] == call.deep_view());
        if call.id.as_str().is_empty() || !now.insert(call.id.clone()) || !is_object(
            Some(&call.arguments),
        ) || find_tool(tools, call.name.as_str()).is_none() {
            assert(!call_valid(all, known, before, i as int)) by {
                if call_valid(all, known, before, i as int) {
                    assert(!held.has(call.id@));
                }
            }
            return Err(
                EngineError::new("protocol", "undeclared, duplicate or malformed tool call"),
            );
        }
        proof {
            assert(!held.has(call.id@));
            assert(call_valid(all, known, before, i as int));
            assert forall|t: Seq<char>| #[trigger]
                now.has(t) <==> (before.contains(t) || exists|j: int|
                    0 <= j < i + 1 && (#[trigger] all[j]).id == t) by {
                assert(now.has(t) <==> held.has(t) || t == all[i as int].id);
            }
        }
        i += 1;
    }
    assert(now.deep_view() =~= with_batch(all, before));
    Ok(now)
}

/// The request to execute a call.
pub open spec fn requested(
    task: TaskSpecModel,
    model_attempt: Seq<char>,
    execution_id: Seq<char>,
    call: ToolCallModel,
    spec: ToolSpecModel,
) -> ToolRequestModel {
    ToolRequestModel {
        task_id: task.task_id,
        execution_id,
        model_attempt_id: model_attempt,
        call,
        max_cost: spec.max_cost,
        deadline_ms: task.cutoff() as u64,
    }
}

/// The request to execute a call of a model, under an identity of its own.
pub fn tool_request(
    task: &TaskSpec,
    model_attempt: &str,
    execution_id: &str,
    call: &ToolCall,
    spec: &ToolSpec,
) -> (r: ToolRequest)
    ensures
        r.deep_view() == requested(
            task.deep_view(),
            model_attempt@,
            execution_id@,
            call.deep_view(),
            spec.deep_view(),
        ),
{
    ToolRequest {
        task_id: task.task_id.clone(),
        execution_id: execution_id.to_owned(),
        model_attempt_id: model_attempt.to_owned(),
        call: call.duplicate(),
        max_cost: spec.max_cost,
        deadline_ms: cutoff_ms(task),
    }
}

/// What the event of a tool request tells.
pub fn tool_requested(request: &ToolRequest) -> (r: Json)
    ensures
        r@ == empty_object().with("name"@, JsonModel::Text(request.call.name@)).with(
            "call_id"@,
            JsonModel::Text(request.call.id@),
        ).with("model_attempt_id"@, JsonModel::Text(request.model_attempt_id@)).with(
            "max_cost"@,
            count_model(request.max_cost),
        ),
{
    ObjectBuilder::new().with("name", text_value(request.call.name.as_str())).with(
        "call_id",
        text_value(request.call.id.as_str()),
    ).with("model_attempt_id", text_value(request.model_attempt_id.as_str())).with(
        "max_cost",
        count_value(request.max_cost),
    ).build()
}

/// What is saved with the reservation of a tool call.
pub fn tool_metadata(request: &ToolRequest) -> (r: Json)
    ensures
        r@ == empty_object().with("kind"@, JsonModel::Text("tool"@)).with(
            "request"@,
            ToolRequest::json_of(request.deep_view()),
        ),
{
    ObjectBuilder::new().with("kind", text_value("tool")).with("request", request.to_json()).build()
}

/// The error of a tool call that is not made: cancellation counts before the deadline.
pub open spec fn tool_refused(cancelled: bool) -> EngineErrorModel {
    if cancelled {
        failure("cancelled"@, "cancelled before tool dispatch"@)
    } else {
        failure("deadline"@, "deadline before tool dispatch"@)
    }
}

/// The error of a tool call that is not made.
pub fn tool_refusal(cancelled: bool) -> (r: EngineError)
    ensures
        r.deep_view() == tool_refused(cancelled),
{
    if cancelled {
        EngineError::new("cancelled", "cancelled before tool dispatch")
    } else {
        EngineError::new("deadline", "deadline before tool dispatch")
    }
}

/// The result of a tool call.
pub open spec fn tool_result(reply: ReplyModel<ToolResultModel>) -> Result<
    ToolResultModel,
    EngineErrorModel,
> {
    result_of(reply, "cancelled during host tool execution"@, "host tool timed out"@)
}

/// The outcome that a tool call is settled with.
pub open spec fn tool_outcome(
    result: Result<ToolResultModel, EngineErrorModel>,
    latency_ms: u64,
) -> JsonModel {
    let tool = empty_object().with("kind"@, JsonModel::Text("tool"@));
    match result {
        Ok(t) => tool.with("output_checksum"@, JsonModel::Text(text_checksum(t.output))).with(
            "call_metrics"@,
            call_metrics("succeeded"@, latency_ms),
        ),
        Err(e) => tool.with("error"@, EngineError::json_of(e)).with(
            "call_metrics"@,
            call_metrics(failed_status(e.kind), latency_ms),
        ),
    }
}

/// The cost that a tool call is settled with: what the tool tells, and nothing known of one that
/// failed.
pub open spec fn tool_cost(result: Result<ToolResultModel, EngineErrorModel>) -> Option<u64> {
    match result {
        Ok(t) => t.actual_cost,
        Err(_) => None,
    }
}

/// A tool call that was made: what to settle it with, and its result.
pub struct MadeToolCall {
    pub cost: Option<u64>,
    pub outcome: Json,
    pub result: Result<ToolResult, EngineError>,
}

/// What came of a tool call that took `latency_ms`.
pub fn made_tool_call(reply: Reply<ToolResult>, latency_ms: u64) -> (r: MadeToolCall)
    ensures
        viewed(r.result) == tool_result(reply.deep_view()),
        r.cost == tool_cost(tool_result(reply.deep_view())),
        r.outcome@ == tool_outcome(tool_result(reply.deep_view()), latency_ms),
{
    let result: Result<ToolResult, EngineError> = into_result(
        reply,
        "cancelled during host tool execution",
        "host tool timed out",
    );
    let tool: ObjectBuilder = ObjectBuilder::new().with("kind", text_value("tool"));
    match result {
        Ok(t) => {
            let outcome: Json = tool.with(
                "output_checksum",
                text_value(checksum_of(t.output.as_str()).as_str()),
            ).with("call_metrics", metrics_value("succeeded", latency_ms)).build();
            MadeToolCall { cost: t.actual_cost, outcome, result: Ok(t) }
        },
        Err(e) => {
            let outcome: Json = tool.with("error", e.to_json()).with(
                "call_metrics",
                failed_metrics(e.kind.as_str(), latency_ms),
            ).build();
            MadeToolCall { cost: None, outcome, result: Err(e) }
        },
    }
}

/// The fault of a settled tool result that is too long.
pub open spec fn output_fault(output: Seq<char>, limit: usize) -> Option<EngineErrorModel> {
    if byte_len(output) > limit {
        Some(failure("context"@, "tool result exceeds context byte limit"@))
    } else {
        None
    }
}

/// Checks the length of a settled tool result.
pub fn check_output(result: &ToolResult, limit: usize) -> (r: Result<(), EngineError>)
    ensures
        answers(r, output_fault(result.output@, limit)),
{
    if byte_count(result.output.as_str()) > limit {
        return Err(EngineError::new("context", "tool result exceeds context byte limit"));
    }
    Ok(())
}

/// What the event of a completed tool call tells.
pub fn tool_completed(name: &str, result: &ToolResult) -> (r: Json)
    ensures
        r@ == empty_object().with("name"@, JsonModel::Text(name@)).with(
            "actual_cost"@,
            count_or_null(result.actual_cost),
        ),
{
    ObjectBuilder::new().with("name", text_value(name)).with(
        "actual_cost",
        count_or_null_value(result.actual_cost),
    ).build()
}

/// The message of a model that calls tools.
pub open spec fn assistant_message(output: ModelOutputModel) -> MessageModel {
    MessageModel {
        role: "assistant"@,
        content: output.text,
        tool_calls: output.tool_calls,
        tool_call_id: None,
    }
}

/// The message of a model that calls tools.
pub fn calling_message(output: &ModelOutput) -> (r: Message)
    ensures
        r.deep_view() == assistant_message(output.deep_view()),
{
    Message {
        role: "assistant".to_owned(),
        content: output.text.clone(),
        tool_calls: output.tool_calls.duplicate(),
        tool_call_id: None,
    }
}

/// The message that answers a tool call.
pub open spec fn answer_message(call: ToolCallModel, result: ToolResultModel) -> MessageModel {
    MessageModel {
        role: "tool"@,
        content: result.output,
        tool_calls: Seq::empty(),
        tool_call_id: Some(call.id),
    }
}

/// The message that answers a tool call.
pub fn answering_message(call: &ToolCall, result: &ToolResult) -> (r: Message)
    ensures
        r.deep_view() == answer_message(call.deep_view(), result.deep_view()),
{
    let r = Message {
        role: "tool".to_owned(),
        content: result.output.clone(),
        tool_calls: Vec::new(),
        tool_call_id: Some(call.id.clone()),
    };
    assert(r.deep_view().tool_calls =~= Seq::empty());
    r
}

/// The outcome of a tool call tells that it was one, its latency, and either the checksum of what
/// came or the error and how it failed.
pub proof fn lemma_outcome_of_a_tool_call(
    result: Result<ToolResultModel, EngineErrorModel>,
    latency_ms: u64,
)
    ensures
        ({
            let v = tool_outcome(result, latency_ms);
            let metrics = v.at("call_metrics"@);
            &&& v.at("kind"@) == JsonModel::Text("tool"@)
            &&& metrics.at("latency_ms"@) == count_model(latency_ms)
            &&& result is Ok ==> v.at("output_checksum"@) == JsonModel::Text(
                text_checksum(result->Ok_0.output),
            ) && metrics.at("status"@) == JsonModel::Text("succeeded"@) && !v.has("error"@)
            &&& result is Err ==> v.at("error"@) == EngineError::json_of(result->Err_0) && !v.has(
                "output_checksum"@,
            )
            &&& result is Err && result->Err_0.kind == "cancelled"@ ==> metrics.at("status"@)
                == JsonModel::Text("cancelled"@)
            &&& result is Err && result->Err_0.kind == "deadline"@ ==> metrics.at("status"@)
                == JsonModel::Text("timed_out"@)
            &&& result is Err && result->Err_0.kind != "cancelled"@ && result->Err_0.kind
                != "deadline"@ ==> metrics.at("status"@) == JsonModel::Text("failed"@)
        }),
{
    lemma_outcome_names();
    reveal_strlit("cancelled");
    reveal_strlit("deadline");
    assert("cancelled"@.len() == 9 && "deadline"@.len() == 8);
}

/// A batch is accepted exactly where it is not too large and each call has an ID that no call
/// before has, arguments that are an object, and a declared tool. A result is too long exactly
/// where it takes more bytes than it may.
pub proof fn lemma_which_batch_is_accepted(
    calls: Seq<ToolCallModel>,
    tools: Seq<ToolSpecModel>,
    made: Set<Seq<char>>,
    output: Seq<char>,
    limit: usize,
)
    ensures
        batch_fault(calls, tools, made) is None <==> calls.len() <= 128 && forall|i: int|
            #![trigger calls[i]]
            0 <= i < calls.len() ==> {
                &&& calls[i].id.len() > 0 && !made.contains(calls[i].id)
                &&& forall|j: int| 0 <= j < i ==> (#[trigger] calls[j]).id != calls[i].id
                &&& calls[i].arguments is Object
                &&& exists|k: int|
                    0 <= k < tools.len() && (#[trigger] tools[k]).name == calls[i].name
            },
        output_fault(output, limit) is None <==> byte_len(output) <= limit,
{
    if batch_fault(calls, tools, made) is None {
        assert forall|i: int| #![trigger calls[i]] 0 <= i < calls.len() implies {
            &&& calls[i].id.len() > 0 && !made.contains(calls[i].id)
            &&& forall|j: int| 0 <= j < i ==> (#[trigger] calls[j]).id != calls[i].id
            &&& calls[i].arguments is Object
            &&& exists|k: int| 0 <= k < tools.len() && (#[trigger] tools[k]).name == calls[i].name
        } by {
            assert(call_valid(calls, tools, made, i));
        }
    } else if calls.len() <= 128 {
        let i = choose|i: int|
            0 <= i < calls.len() && !#[trigger] call_valid(calls, tools, made, i);
        assert(calls[i].id == calls[i].id);
    }
}

proof fn lemma_outcome_names()
    ensures
        "kind"@ != "output_checksum"@,
        "kind"@ != "call_metrics"@,
        "kind"@ != "error"@,
        "kind"@ != "status"@,
        "kind"@ != "latency_ms"@,
        "output_checksum"@ != "call_metrics"@,
        "output_checksum"@ != "error"@,
        "output_checksum"@ != "status"@,
        "output_checksum"@ != "latency_ms"@,
        "call_metrics"@ != "error"@,
        "call_metrics"@ != "status"@,
        "call_metrics"@ != "latency_ms"@,
        "error"@ != "status"@,
        "error"@ != "latency_ms"@,
        "status"@ != "latency_ms"@,
{
    reveal_strlit("kind");
    reveal_strlit("output_checksum");
    reveal_strlit("call_metrics");
    reveal_strlit("error");
    reveal_strlit("status");
    reveal_strlit("latency_ms");
    assert("kind"@.len() == 4);
    assert("output_checksum"@.len() == 15);
    assert("call_metrics"@.len() == 12);
    assert("error"@.len() == 5);
    assert("status"@.len() == 6);
    assert("latency_ms"@.len() == 10);
}

} // verus!
