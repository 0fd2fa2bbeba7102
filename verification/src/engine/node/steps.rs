//! What each step of a node does with what happened.
use super::{NodeActionModel, NodeEventModel, NodeModel, ToolTurnModel};
use crate::adapter::{Message, MessageModel, ModelOutput, ModelOutputModel};
use crate::contracts::encoding::{array_of, Encode};
use crate::contracts::task::{TaskSpecModel, ToolCallModel, ToolResultModel, ToolSpec, ToolSpecModel};
use crate::engine::invocation::{InvocationModel, CRITIC_PROMPT, WORKER_PROMPT};
use crate::engine::tools::{batch_fault, call_valid, declared, first_at, first_tool};
use crate::engine::ReplyModel;
use crate::fault::EngineErrorModel;
use crate::json::{empty_object, json_text, JsonModel, NumberModel};
use crate::text::byte_len;
use vstd::prelude::*;

verus! {

/// Whether there is time left to execute: less was used than the deadline leaves after what is kept
/// for the end.
pub open spec fn in_time(task: TaskSpecModel, now: u64) -> bool {
    now + task.finalization_ms < task.deadline_ms
}

/// How many bytes a conversation takes as JSON.
pub open spec fn conversation_bytes(
    messages: Seq<MessageModel>,
    tools: Seq<ToolSpecModel>,
) -> nat {
    byte_len(
        json_text(
            empty_object().with("messages"@, array_of::<Message>(messages)).with(
                "tools"@,
                array_of::<ToolSpec>(tools),
            ),
        ),
    )
}

/// The work that begins has the prompt of its role and the snapshot, the task's tools unless it is
/// a critic's, and nothing tried but what was excluded.
pub proof fn lemma_work_begins(
    task: TaskSpecModel,
    role: Seq<char>,
    snapshot: Seq<char>,
    excluded: Set<Seq<char>>,
)
    ensures
        ({
            let work = InvocationModel::started(task, role, snapshot, excluded);
            &&& work.messages.len() == 2
            &&& work.messages[0].role == "system"@
            &&& role == "critic"@ ==> work.messages[0].content == CRITIC_PROMPT@
            &&& role != "critic"@ ==> work.messages[0].content == WORKER_PROMPT@
            &&& work.messages[1].role == "user"@ && work.messages[1].content == snapshot
            &&& forall|i: int|
                0 <= i < 2 ==> (#[trigger] work.messages[i]).tool_calls.len() == 0
                    && work.messages[i].tool_call_id is None
            &&& role == "critic"@ ==> work.tools.len() == 0
            &&& role != "critic"@ ==> work.tools == task.tools
            &&& work.excluded == excluded && work.attempted == excluded
            &&& work.failures == 0
            &&& forall|id: Seq<char>| !work.made.contains(id)
        }),
{
}

/// What a step that wants a model does: it asks for one, for the bytes of its conversation and a
/// little more, where attempts, room and time are left and nobody cancelled; otherwise it ends, and
/// says which of these it was.
pub open spec fn wants_a_model(
    work: InvocationModel,
    task: TaskSpecModel,
    limit: usize,
    cancelled: bool,
    now: u64,
    after: (NodeModel, NodeActionModel),
) -> bool {
    let bytes = conversation_bytes(work.messages, work.tools);
    let attempts_left = work.failures < task.max_attempts;
    let fits = bytes <= limit;
    &&& after.0.work == work
    &&& if attempts_left && fits && !cancelled && in_time(task, now) {
        after.1 is Route && after.1->Route_input_tokens == bytes + 256 && after.0.phase is Routing
    } else {
        &&& after.1 is Fail && after.0.phase is Over
        &&& !attempts_left ==> after.1->Fail_error.kind == "model"@
        &&& attempts_left && !fits ==> after.1->Fail_error.kind == "context"@
        &&& attempts_left && fits && cancelled ==> after.1->Fail_error.kind == "cancelled"@
        &&& attempts_left && fits && !cancelled ==> after.1->Fail_error.kind == "deadline"@
    }
}

/// A node that begins wants a model.
pub proof fn lemma_node_begins(node: NodeModel, cancelled: bool, now: u64, fresh: Seq<char>)
    requires
        node.limit <= u64::MAX - 256,
        node.phase is Ready,
    ensures
        wants_a_model(
            node.work,
            node.task,
            node.limit,
            cancelled,
            now,
            node.after(NodeEventModel::Done { cancelled, now, fresh }),
        ),
{
}

/// The selected model is announced, its estimated cost is set aside, and it is then called with the
/// conversation and the tools of the work, for the time that is left. Where no time is left, or
/// somebody cancelled, the call is settled at no cost and the node ends.
pub proof fn lemma_model_call_follows_its_route(
    node: NodeModel,
    event: NodeEventModel,
    cancelled: bool,
    now: u64,
    fresh: Seq<char>,
)
    ensures
        ({
            let done = NodeEventModel::Done { cancelled, now, fresh };
            &&& node.phase is Routing && event is Routed ==> {
                let call = event->Routed_call;
                let (next, action) = node.after(event);
                &&& next.phase is Announcing && next.phase->Announcing_call == call
                &&& next.phase->Announcing_metadata == event->Routed_metadata
                &&& action is Emit && action->Emit_attempt == call.attempt
                &&& action->Emit_kind == "model_started"@
                &&& action->Emit_data.at("model_id"@) == JsonModel::Text(call.model.id)
                &&& action->Emit_data.at("estimated_cost"@) == JsonModel::Number(
                    NumberModel::PosInt(call.amount),
                )
                &&& next.work == node.work
            }
            &&& node.phase is Announcing ==> {
                let call = node.phase->Announcing_call;
                let (next, action) = node.after(done);
                &&& action is Reserve && action->Reserve_attempt == call.attempt
                &&& action->Reserve_amount == call.amount
                &&& action->Reserve_metadata == node.phase->Announcing_metadata
                &&& next.phase is Reserving && next.phase->Reserving_call == call
                &&& next.work == node.work
            }
            &&& node.phase is Reserving && !cancelled && in_time(node.task, now) ==> {
                let call = node.phase->Reserving_call;
                let (next, action) = node.after(done);
                &&& action is CallModel
                &&& action->CallModel_timeout_ms == node.task.deadline_ms - node.task.finalization_ms
                    - now
                &&& action->CallModel_request.model == call.model
                &&& action->CallModel_request.attempt_id == call.attempt
                &&& action->CallModel_request.messages == node.work.messages
                &&& action->CallModel_request.tools == node.work.tools
                &&& action->CallModel_request.task_id == node.task.task_id
                &&& action->CallModel_request.node == node.role
                &&& action->CallModel_request.output_tokens == node.task.output_tokens
                &&& action->CallModel_request.json_object <==> node.task.acceptance.json_object
                    || node.role == "critic"@
                &&& next.phase is Waiting && next.phase->Waiting_call == call
                &&& next.work == node.work
            }
            &&& node.phase is Reserving && (cancelled || !in_time(node.task, now)) ==> {
                let call = node.phase->Reserving_call;
                let (next, action) = node.after(done);
                &&& action is Settle && action->Settle_attempt == call.attempt
                &&& action->Settle_cost == Some(0u64)
                &&& action->Settle_outcome.at("not_dispatched"@) == JsonModel::Bool(true)
                &&& action->Settle_outcome.at("call_metrics"@).at("status"@) == JsonModel::Text(
                    "not_dispatched"@,
                )
                &&& next.phase is Refusing
            }
            &&& node.phase is Refusing ==> {
                let (next, action) = node.after(done);
                &&& action is Fail && next.phase is Over
                &&& cancelled ==> action->Fail_error.kind == "cancelled"@
                &&& !cancelled ==> action->Fail_error.kind == "deadline"@
            }
        }),
{
    lemma_event_names();
    lemma_outcome_names();
}

/// A model's answer is settled for the call that was made, and is what the node goes on with.
pub proof fn lemma_model_answer_is_settled(
    node: NodeModel,
    reply: ReplyModel<ModelOutputModel>,
    latency_ms: u64,
)
    requires
        node.phase is Waiting,
    ensures
        ({
            let call = node.phase->Waiting_call;
            let (next, action) = node.after(NodeEventModel::ModelReplied { reply, latency_ms });
            &&& action is Settle && action->Settle_attempt == call.attempt
            &&& next.phase is Settling && next.phase->Settling_call == call
            &&& next.work == node.work
            &&& match reply {
                ReplyModel::Answered(result) => next.phase->Settling_result == result,
                ReplyModel::Cancelled => next.phase->Settling_result is Err
                    && next.phase->Settling_result->Err_0.kind == "cancelled"@,
                ReplyModel::TimedOut => next.phase->Settling_result is Err
                    && next.phase->Settling_result->Err_0.kind == "deadline"@,
            }
        }),
{
}

/// A model that failed is not tried again in its step: another is wanted, with one attempt less and
/// the same conversation. Any other error ends the node with that error.
pub proof fn lemma_failed_model_is_passed_over(
    node: NodeModel,
    cancelled: bool,
    now: u64,
    fresh: Seq<char>,
)
    requires
        node.valid(),
        node.phase is Settling,
        node.phase->Settling_result is Err,
    ensures
        ({
            let after = node.after(NodeEventModel::Done { cancelled, now, fresh });
            let error = node.phase->Settling_result->Err_0;
            &&& error.kind == "model"@ ==> {
                let work = after.0.work;
                &&& work.failures == node.work.failures + 1
                &&& forall|m: Seq<char>|
                    work.attempted.contains(m) <==> node.work.attempted.contains(m) || m
                        == node.phase->Settling_call.model.id
                &&& work.messages == node.work.messages && work.tools == node.work.tools
                &&& work.excluded == node.work.excluded && work.made == node.work.made
                &&& wants_a_model(work, node.task, node.limit, cancelled, now, after)
            }
            &&& error.kind != "model"@ ==> after.1 is Fail && after.1->Fail_error == error
                && after.0.phase is Over
        }),
{
}

/// Whether a tool call can be made: it has an ID that no earlier call has, arguments that are an
/// object, and the name of a declared tool.
pub open spec fn can_be_made(
    calls: Seq<ToolCallModel>,
    tools: Seq<ToolSpecModel>,
    made: Set<Seq<char>>,
    i: int,
) -> bool {
    &&& calls[i].id.len() > 0
    &&& !made.contains(calls[i].id)
    &&& forall|j: int| 0 <= j < i ==> (#[trigger] calls[j]).id != calls[i].id
    &&& calls[i].arguments is Object
    &&& exists|k: int| 0 <= k < tools.len() && (#[trigger] tools[k]).name == calls[i].name
}

/// An answer without tool calls that is complete and not too long is the node's result, as it came
/// and from the model that was called; one that is incomplete or too long ends the node.
pub proof fn lemma_answer_is_the_result(
    node: NodeModel,
    cancelled: bool,
    now: u64,
    fresh: Seq<char>,
)
    requires
        node.phase is Settling,
        node.phase->Settling_result is Ok,
    ensures
        ({
            let (next, action) = node.after(NodeEventModel::Done { cancelled, now, fresh });
            let output = node.phase->Settling_result->Ok_0;
            let fits = byte_len(json_text(ModelOutput::json_of(output))) <= node.limit;
            &&& !output.complete ==> action is Fail && action->Fail_error.kind == "protocol"@
            &&& output.complete && !fits ==> action is Fail && action->Fail_error.kind
                == "context"@
            &&& output.complete && fits && output.tool_calls.len() == 0 ==> action is Finish
                && action->Finish_output == output && action->Finish_call
                == node.phase->Settling_call && next.phase is Over
            &&& action is Finish ==> output.complete && fits && output.tool_calls.len() == 0
        }),
{
}

/// The tool that a request is for.
pub open spec fn is_request_for(
    request: crate::tools::ToolRequestModel,
    task: TaskSpecModel,
    call: ToolCallModel,
    tools: Seq<ToolSpecModel>,
    model_attempt: Seq<char>,
    execution: Seq<char>,
) -> bool {
    &&& request.call == call
    &&& request.task_id == task.task_id
    &&& request.execution_id == execution
    &&& request.model_attempt_id == model_attempt
    &&& task.finalization_ms <= task.deadline_ms ==> request.deadline_ms == task.deadline_ms
        - task.finalization_ms
    &&& task.finalization_ms > task.deadline_ms ==> request.deadline_ms == 0
    &&& exists|k: int|
        {
            &&& 0 <= k < tools.len() && (#[trigger] tools[k]).name == call.name
            &&& forall|j: int| 0 <= j < k ==> (#[trigger] tools[j]).name != call.name
            &&& request.max_cost == tools[k].max_cost
        }
}

/// Whether a tool of that name is declared.
pub open spec fn is_declared(tools: Seq<ToolSpecModel>, name: Seq<char>) -> bool {
    exists|k: int| 0 <= k < tools.len() && (#[trigger] tools[k]).name == name
}

/// What is announced of a tool call that is asked for.
pub open spec fn announces(
    action: NodeActionModel,
    request: crate::tools::ToolRequestModel,
) -> bool {
    &&& action is Emit && action->Emit_attempt == request.execution_id
    &&& action->Emit_kind == "tool_requested"@
    &&& action->Emit_data.at("name"@) == JsonModel::Text(request.call.name)
    &&& action->Emit_data.at("call_id"@) == JsonModel::Text(request.call.id)
    &&& action->Emit_data.at("model_attempt_id"@) == JsonModel::Text(request.model_attempt_id)
    &&& action->Emit_data.at("max_cost"@) == JsonModel::Number(
        NumberModel::PosInt(request.max_cost),
    )
}

proof fn lemma_first_declared(tools: Seq<ToolSpecModel>, name: Seq<char>, n: int)
    requires
        0 <= n < tools.len(),
        tools[n].name == name,
    ensures
        exists|k: int| first_at(tools, name, k),
    decreases n,
{
    if exists|j: int| 0 <= j < n && (#[trigger] tools[j]).name == name {
        let j = choose|j: int| 0 <= j < n && (#[trigger] tools[j]).name == name;
        lemma_first_declared(tools, name, j);
    } else {
        assert(first_at(tools, name, n));
    }
}

/// An answer whose tool calls can all be made is told to the conversation as the assistant's, its
/// calls are marked as made, and the first is asked for, at the price of the first tool of its
/// name. One call that cannot be made, or too many calls, end the node.
pub proof fn lemma_tool_calls_are_asked_for(
    node: NodeModel,
    cancelled: bool,
    now: u64,
    fresh: Seq<char>,
)
    requires
        node.phase is Settling,
        node.phase->Settling_result is Ok,
        node.phase->Settling_result->Ok_0.complete,
        byte_len(json_text(ModelOutput::json_of(node.phase->Settling_result->Ok_0))) <= node.limit,
        node.phase->Settling_result->Ok_0.tool_calls.len() > 0,
    ensures
        ({
            let (next, action) = node.after(NodeEventModel::Done { cancelled, now, fresh });
            let output = node.phase->Settling_result->Ok_0;
            let calls = output.tool_calls;
            let good = calls.len() <= 128 && forall|i: int|
                0 <= i < calls.len() ==> #[trigger] can_be_made(
                    calls,
                    node.work.tools,
                    node.work.made,
                    i,
                );
            &&& !good ==> action is Fail && action->Fail_error.kind == "protocol"@
            &&& good && !node.executes ==> action is Fail && action->Fail_error.kind
                == "configuration"@
            &&& good && node.executes ==> {
                &&& next.phase is ToolAnnouncing
                &&& next.phase->ToolAnnouncing_turn.calls == calls
                &&& next.phase->ToolAnnouncing_turn.next == 0
                &&& next.phase->ToolAnnouncing_turn.model_attempt
                    == node.phase->Settling_call.attempt
                &&& is_request_for(
                    next.phase->ToolAnnouncing_request,
                    node.task,
                    calls[0],
                    node.work.tools,
                    node.phase->Settling_call.attempt,
                    fresh,
                )
                &&& announces(action, next.phase->ToolAnnouncing_request)
                &&& next.work.messages.len() == node.work.messages.len() + 1
                &&& next.work.messages.drop_last() == node.work.messages
                &&& next.work.messages.last().role == "assistant"@
                &&& next.work.messages.last().content == output.text
                &&& next.work.messages.last().tool_calls == calls
                &&& next.work.messages.last().tool_call_id is None
                &&& forall|id: Seq<char>|
                    next.work.made.contains(id) <==> node.work.made.contains(id) || exists|i: int|
                        0 <= i < calls.len() && (#[trigger] calls[i]).id == id
                &&& next.work.tools == node.work.tools && next.work.attempted
                    == node.work.attempted && next.work.failures == node.work.failures
            }
        }),
{
    lemma_request_names();
    lemma_event_names();
    let calls = node.phase->Settling_result->Ok_0.tool_calls;
    let tools = node.work.tools;
    let made = node.work.made;
    assert forall|i: int| 0 <= i < calls.len() implies #[trigger] can_be_made(
        calls,
        tools,
        made,
        i,
    ) == call_valid(calls, tools, made, i) by {}
    if batch_fault(calls, tools, made) is None {
        assert forall|i: int| 0 <= i < calls.len() implies #[trigger] can_be_made(
            calls,
            tools,
            made,
            i,
        ) by {
            assert(call_valid(calls, tools, made, i));
        }
        assert(call_valid(calls, tools, made, 0));
        let n = choose|k: int| 0 <= k < tools.len() && (#[trigger] tools[k]).name == calls[0].name;
        lemma_first_declared(tools, calls[0].name, n);
        assert(first_at(tools, calls[0].name, first_tool(tools, calls[0].name)));
        assert(tools[first_tool(tools, calls[0].name)].name == calls[0].name);
        let next = node.after(NodeEventModel::Done { cancelled, now, fresh }).0;
        assert(node.executes ==> next.work.messages.drop_last() =~= node.work.messages);
    } else if calls.len() <= 128 {
        let i = choose|i: int| 0 <= i < calls.len() && !#[trigger] call_valid(calls, tools, made, i);
        assert(!can_be_made(calls, tools, made, i));
    }
}

/// A tool call is paid for at the price of its tool: that is set aside, the tool is called for the
/// time that is left of its request, and the answer is settled at the cost it tells. Where no time
/// is left, or somebody cancelled, the call is settled at no cost and the node ends.
pub proof fn lemma_tool_call_follows_its_request(
    node: NodeModel,
    cancelled: bool,
    now: u64,
    fresh: Seq<char>,
    answer: ReplyModel<ToolResultModel>,
    latency_ms: u64,
)
    ensures
        ({
            let done = NodeEventModel::Done { cancelled, now, fresh };
            &&& node.phase is ToolAnnouncing ==> {
                let request = node.phase->ToolAnnouncing_request;
                let (next, action) = node.after(done);
                &&& action is Reserve && action->Reserve_attempt == request.execution_id
                &&& action->Reserve_amount == request.max_cost
                &&& action->Reserve_metadata.at("kind"@) == JsonModel::Text("tool"@)
                &&& action->Reserve_metadata.at("request"@)
                    == crate::tools::ToolRequest::json_of(request)
                &&& next.phase is ToolReserving && next.phase->ToolReserving_request == request
                &&& next.phase->ToolReserving_turn == node.phase->ToolAnnouncing_turn
                &&& next.work == node.work
            }
            &&& node.phase is ToolReserving ==> {
                let request = node.phase->ToolReserving_request;
                let (next, action) = node.after(done);
                &&& !cancelled && now < request.deadline_ms ==> {
                    &&& action is CallTool && action->CallTool_tool == request
                    &&& action->CallTool_timeout_ms == request.deadline_ms - now
                    &&& next.phase is ToolWaiting && next.phase->ToolWaiting_request == request
                    &&& next.phase->ToolWaiting_turn == node.phase->ToolReserving_turn
                    &&& next.work == node.work
                }
                &&& cancelled || now >= request.deadline_ms ==> {
                    &&& action is Settle && action->Settle_attempt == request.execution_id
                    &&& action->Settle_cost == Some(0u64)
                    &&& action->Settle_outcome.at("not_dispatched"@) == JsonModel::Bool(true)
                    &&& next.phase is ToolRefusing
                }
            }
            &&& node.phase is ToolRefusing ==> {
                let (next, action) = node.after(done);
                &&& action is Fail && next.phase is Over
                &&& cancelled ==> action->Fail_error.kind == "cancelled"@
                &&& !cancelled ==> action->Fail_error.kind == "deadline"@
            }
            &&& node.phase is ToolWaiting ==> {
                let request = node.phase->ToolWaiting_request;
                let (next, action) = node.after(
                    NodeEventModel::ToolReplied { answer, latency_ms },
                );
                &&& action is Settle && action->Settle_attempt == request.execution_id
                &&& action->Settle_outcome.at("kind"@) == JsonModel::Text("tool"@)
                &&& next.phase is ToolSettling && next.phase->ToolSettling_request == request
                &&& next.phase->ToolSettling_turn == node.phase->ToolWaiting_turn
                &&& next.work == node.work
                &&& match answer {
                    ReplyModel::Answered(result) => {
                        &&& next.phase->ToolSettling_settled == result
                        &&& result is Ok ==> action->Settle_cost == result->Ok_0.actual_cost
                        &&& result is Err ==> action->Settle_cost is None
                    },
                    ReplyModel::Cancelled => action->Settle_cost is None
                        && next.phase->ToolSettling_settled is Err
                        && next.phase->ToolSettling_settled->Err_0.kind == "cancelled"@,
                    ReplyModel::TimedOut => action->Settle_cost is None
                        && next.phase->ToolSettling_settled is Err
                        && next.phase->ToolSettling_settled->Err_0.kind == "deadline"@,
                }
            }
            &&& node.phase is ToolSettling ==> {
                let request = node.phase->ToolSettling_request;
                let (next, action) = node.after(done);
                match node.phase->ToolSettling_settled {
                    Err(e) => action is Fail && action->Fail_error == e && next.phase is Over,
                    Ok(t) => {
                        &&& byte_len(t.output) > node.limit ==> action is Fail
                            && action->Fail_error.kind == "context"@
                        &&& byte_len(t.output) <= node.limit ==> {
                            &&& action is Emit && action->Emit_attempt == request.execution_id
                            &&& action->Emit_kind == "tool_completed"@
                            &&& action->Emit_data.at("name"@) == JsonModel::Text(request.call.name)
                            &&& action->Emit_data.at("actual_cost"@) == (match t.actual_cost {
                                Some(c) => JsonModel::Number(NumberModel::PosInt(c)),
                                None => JsonModel::Null,
                            })
                            &&& next.phase is ToolReporting && next.phase->ToolReporting_answer
                                == t && next.phase->ToolReporting_request == request
                            &&& next.phase->ToolReporting_turn == node.phase->ToolSettling_turn
                            &&& next.work == node.work
                        }
                    },
                }
            }
        }),
{
    lemma_event_names();
    lemma_outcome_names();
    lemma_saved_names();
}

/// An answer of a tool is told to the conversation under the ID of its call. The next call of the
/// same turn is then asked for; after the last one a model is wanted again, with all attempts anew.
/// A conversation that has grown too long ends the node.
pub proof fn lemma_tool_answer_is_told(
    node: NodeModel,
    cancelled: bool,
    now: u64,
    fresh: Seq<char>,
)
    requires
        node.limit <= u64::MAX - 256,
        node.phase is ToolReporting,
        node.phase->ToolReporting_turn.next < node.phase->ToolReporting_turn.calls.len(),
        node.phase->ToolReporting_turn.calls.len() <= usize::MAX,
    ensures
        ({
            let after = node.after(NodeEventModel::Done { cancelled, now, fresh });
            let (next, action) = after;
            let turn = node.phase->ToolReporting_turn;
            let fits = conversation_bytes(next.work.messages, next.work.tools) <= node.limit;
            &&& next.work.messages.len() == node.work.messages.len() + 1
            &&& next.work.messages.drop_last() == node.work.messages
            &&& next.work.messages.last().role == "tool"@
            &&& next.work.messages.last().content == node.phase->ToolReporting_answer.output
            &&& next.work.messages.last().tool_call_id == Some(
                node.phase->ToolReporting_request.call.id,
            )
            &&& next.work.messages.last().tool_calls.len() == 0
            &&& next.work.tools == node.work.tools && next.work.made == node.work.made
            &&& !fits ==> action is Fail && action->Fail_error.kind == "context"@
            &&& fits && turn.next + 1 < turn.calls.len() && node.executes && is_declared(
                node.work.tools,
                turn.calls[turn.next + 1].name,
            ) ==> {
                &&& next.phase is ToolAnnouncing
                &&& next.phase->ToolAnnouncing_turn == (ToolTurnModel {
                    calls: turn.calls,
                    next: (turn.next + 1) as usize,
                    model_attempt: turn.model_attempt,
                })
                &&& is_request_for(
                    next.phase->ToolAnnouncing_request,
                    node.task,
                    turn.calls[turn.next + 1],
                    node.work.tools,
                    turn.model_attempt,
                    fresh,
                )
                &&& announces(action, next.phase->ToolAnnouncing_request)
            }
            &&& fits && turn.next + 1 < turn.calls.len() && !node.executes ==> action is Fail
                && action->Fail_error.kind == "configuration"@
            &&& fits && turn.next + 1 < turn.calls.len() && node.executes && !is_declared(
                node.work.tools,
                turn.calls[turn.next + 1].name,
            ) ==> action is Fail && action->Fail_error.kind == "protocol"@
            &&& fits && turn.next + 1 == turn.calls.len() ==> {
                &&& next.work.failures == 0 && next.work.attempted == node.work.excluded
                &&& wants_a_model(next.work, node.task, node.limit, cancelled, now, after)
            }
        }),
{
    lemma_request_names();
    lemma_event_names();
    let turn = node.phase->ToolReporting_turn;
    let next = node.after(NodeEventModel::Done { cancelled, now, fresh }).0;
    assert(next.work.messages.drop_last() =~= node.work.messages);
    if turn.next + 1 < turn.calls.len() {
        let name = turn.calls[turn.next + 1].name;
        let tools = node.work.tools;
        if declared(tools, name) {
            let n = choose|k: int| 0 <= k < tools.len() && (#[trigger] tools[k]).name == name;
            lemma_first_declared(tools, name, n);
            assert(first_at(tools, name, first_tool(tools, name)));
            assert(tools[first_tool(tools, name)].name == name);
        }
    }
}

/// What could not be done ends the node with that error, and a node that ended does nothing more.
pub proof fn lemma_broken_node_ends(
    node: NodeModel,
    error: EngineErrorModel,
    event: NodeEventModel,
)
    ensures
        !(node.phase is Over) ==> node.after(NodeEventModel::Broken { error }).1 is Fail
            && node.after(NodeEventModel::Broken { error }).1->Fail_error == error
            && node.after(NodeEventModel::Broken { error }).0.phase is Over,
        node.phase is Over ==> node.after(event).0 == node && node.after(event).1 is Wait,
{
}

/// A node keeps its task, its role and its limits, whatever happens.
pub proof fn lemma_node_keeps_its_task(node: NodeModel, event: NodeEventModel)
    ensures
        ({
            let next = node.after(event).0;
            &&& next.task == node.task && next.role == node.role
            &&& next.limit == node.limit && next.executes == node.executes
            &&& next.work.excluded == node.work.excluded
        }),
{
}

proof fn lemma_event_names()
    ensures
        "model_id"@ != "estimated_cost"@,
        "model_id"@ != "name"@,
        "model_id"@ != "actual_cost"@,
        "estimated_cost"@ != "name"@,
        "estimated_cost"@ != "actual_cost"@,
        "name"@ != "actual_cost"@,
{
    reveal_strlit("model_id");
    reveal_strlit("estimated_cost");
    reveal_strlit("name");
    reveal_strlit("actual_cost");
    assert("model_id"@.len() == 8);
    assert("estimated_cost"@.len() == 14);
    assert("name"@.len() == 4);
    assert("actual_cost"@.len() == 11);
}

proof fn lemma_outcome_names()
    ensures
        "not_dispatched"@ != "call_metrics"@,
        "not_dispatched"@ != "status"@,
        "not_dispatched"@ != "kind"@,
        "not_dispatched"@ != "output_checksum"@,
        "not_dispatched"@ != "error"@,
        "call_metrics"@ != "status"@,
        "call_metrics"@ != "kind"@,
        "call_metrics"@ != "output_checksum"@,
        "call_metrics"@ != "error"@,
        "status"@ != "kind"@,
        "status"@ != "output_checksum"@,
        "status"@ != "error"@,
        "kind"@ != "output_checksum"@,
        "kind"@ != "error"@,
        "output_checksum"@ != "error"@,
{
    reveal_strlit("not_dispatched");
    reveal_strlit("call_metrics");
    reveal_strlit("status");
    reveal_strlit("kind");
    reveal_strlit("output_checksum");
    reveal_strlit("error");
    assert("not_dispatched"@.len() == 14);
    assert("call_metrics"@.len() == 12);
    assert("status"@.len() == 6);
    assert("kind"@.len() == 4);
    assert("output_checksum"@.len() == 15);
    assert("error"@.len() == 5);
}

proof fn lemma_saved_names()
    ensures
        "kind"@ != "request"@,
{
    reveal_strlit("kind");
    reveal_strlit("request");
    assert("kind"@.len() == 4);
    assert("request"@.len() == 7);
}

proof fn lemma_request_names()
    ensures
        "name"@ != "call_id"@,
        "name"@ != "model_attempt_id"@,
        "name"@ != "max_cost"@,
        "call_id"@ != "model_attempt_id"@,
        "call_id"@ != "max_cost"@,
        "model_attempt_id"@ != "max_cost"@,
{
    reveal_strlit("name");
    reveal_strlit("call_id");
    reveal_strlit("model_attempt_id");
    reveal_strlit("max_cost");
    assert("name"@.len() == 4);
    assert("call_id"@.len() == 7);
    assert("model_attempt_id"@.len() == 16);
    assert("max_cost"@.len() == 8);
}

} // verus!
