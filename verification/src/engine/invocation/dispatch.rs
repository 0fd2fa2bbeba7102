//! Model dispatch and settlement share one cancellation boundary.
use crate::adapter::{InvokeRequest, InvokeRequestModel, Message, MessageModel, ModelOutput, ModelOutputModel};
use crate::contracts::configuration::{Model, ModelModel};
use crate::contracts::encoding::Encode;
use crate::contracts::task::{TaskSpec, TaskSpecModel, ToolSpec, ToolSpecModel, UsageModel};
use crate::cut::{clip, clipped};
use crate::engine::{
    call_metrics, failed_metrics, failed_status, into_result, metrics_value, remaining_ms, result_of,
    viewed, Reply, ReplyModel,
};
use crate::fault::{failure, EngineError, EngineErrorModel};
use crate::json::{
    empty_object, text_or_null, text_or_null_value, text_value, Json, JsonModel, NumberModel,
    ObjectBuilder,
};
use crate::model::Duplicate;
use crate::router::{cost_of, token_cost, RouteInputs};
use crate::text::{byte_count, byte_len, same_text};
use vstd::prelude::*;

verus! {

/// The time that a call may take, where it may be made. One that may not is settled at no cost.
pub fn dispatch_time(task: &TaskSpec, cancelled: bool, now: u64) -> (r: Option<u64>)
    ensures
        r == (if task.deep_view().time_left(now) == 0 || cancelled {
            None
        } else {
            Some(task.deep_view().time_left(now) as u64)
        }),
{
    let remaining: u64 = remaining_ms(task, now);
    if remaining == 0 || cancelled {
        None
    } else {
        Some(remaining)
    }
}

/// The error of a model call that is not made: cancellation counts before the deadline.
pub open spec fn refusal_of(cancelled: bool) -> EngineErrorModel {
    if cancelled {
        failure("cancelled"@, "task cancelled before dispatch"@)
    } else {
        failure("deadline"@, "execution deadline reached before dispatch"@)
    }
}

/// The error of a model call that is not made.
pub fn dispatch_refusal(cancelled: bool) -> (r: EngineError)
    ensures
        r.deep_view() == refusal_of(cancelled),
{
    if cancelled {
        EngineError::new("cancelled", "task cancelled before dispatch")
    } else {
        EngineError::new("deadline", "execution deadline reached before dispatch")
    }
}

/// The call of a model for a role.
pub open spec fn model_request(
    task: TaskSpecModel,
    role: Seq<char>,
    model: ModelModel,
    attempt: Seq<char>,
    messages: Seq<MessageModel>,
    tools: Seq<ToolSpecModel>,
) -> InvokeRequestModel {
    InvokeRequestModel {
        model,
        messages,
        tools,
        json_object: task.acceptance.json_object || role == "critic"@,
        output_tokens: task.output_tokens,
        task_id: task.task_id,
        node: role,
        attempt_id: attempt,
    }
}

/// The call of a model for a role.
pub fn invoke_request(
    task: &TaskSpec,
    role: &str,
    model: &Model,
    attempt: &str,
    messages: &Vec<Message>,
    tools: &Vec<ToolSpec>,
) -> (r: InvokeRequest)
    ensures
        r.deep_view() == model_request(
            task.deep_view(),
            role@,
            model.deep_view(),
            attempt@,
            messages.deep_view(),
            tools.deep_view(),
        ),
{
    InvokeRequest {
        model: model.duplicate(),
        messages: messages.duplicate(),
        tools: tools.duplicate(),
        json_object: task.acceptance.json_object || same_text(role, "critic"),
        output_tokens: task.output_tokens,
        task_id: task.task_id.clone(),
        node: role.to_owned(),
        attempt_id: attempt.to_owned(),
    }
}

/// Whether the text of a role goes to the host as it comes. A planner's text does not.
pub fn streams_to_host(role: &str) -> (r: bool)
    ensures
        r == (role@ != "planner"@),
{
    !same_text(role, "planner")
}

/// The result of a model call.
pub open spec fn model_result(reply: ReplyModel<ModelOutputModel>) -> Result<
    ModelOutputModel,
    EngineErrorModel,
> {
    result_of(reply, "task cancelled during model invocation"@, "model invocation timed out"@)
}

/// What is known of the cost: an error, or an output without usage, tells nothing.
pub open spec fn model_cost(
    result: Result<ModelOutputModel, EngineErrorModel>,
    model: ModelModel,
) -> Option<u64> {
    match result {
        Ok(output) => match output.usage {
            Some(u) => Some(
                token_cost(
                    u.input_tokens,
                    model.input_price,
                    u.output_tokens,
                    model.output_price,
                ) as u64,
            ),
            None => None,
        },
        Err(_) => None,
    }
}

/// What is kept of a planner's output.
pub open spec fn planning_output(output: ModelOutputModel, limit: usize) -> JsonModel {
    empty_object().with("text"@, JsonModel::Text(clipped(output.text, limit as nat))).with(
        "truncated"@,
        JsonModel::Bool(byte_len(clipped(output.text, limit as nat)) < byte_len(output.text)),
    ).with("tool_calls_present"@, JsonModel::Bool(output.tool_calls.len() > 0))
}

/// The outcome that a model call is settled with.
pub open spec fn model_outcome(
    result: Result<ModelOutputModel, EngineErrorModel>,
    role: Seq<char>,
    limit: usize,
    latency_ms: u64,
) -> JsonModel {
    match result {
        Ok(output) => {
            let outcome = empty_object().with("request_id"@, text_or_null(output.request_id)).with(
                "complete"@,
                JsonModel::Bool(output.complete),
            ).with(
                "call_metrics"@,
                call_metrics(
                    if output.complete {
                        "succeeded"@
                    } else {
                        "failed"@
                    },
                    latency_ms,
                ),
            );
            if role == "planner"@ {
                outcome.with("planning_output"@, planning_output(output, limit))
            } else {
                outcome
            }
        },
        Err(e) => empty_object().with("error"@, EngineError::json_of(e)).with(
            "call_metrics"@,
            call_metrics(failed_status(e.kind), latency_ms),
        ),
    }
}

/// A model call that was made: what to settle it with, and its result.
pub struct MadeModelCall {
    pub cost: Option<u64>,
    pub outcome: Json,
    pub result: Result<ModelOutput, EngineError>,
}

/// What came of a model call that took `latency_ms`.
pub fn made_model_call(
    reply: Reply<ModelOutput>,
    model: &Model,
    role: &str,
    limit: usize,
    latency_ms: u64,
) -> (r: MadeModelCall)
    ensures
        viewed(r.result) == model_result(reply.deep_view()),
        r.cost == model_cost(model_result(reply.deep_view()), model.deep_view()),
        r.outcome@ == model_outcome(model_result(reply.deep_view()), role@, limit, latency_ms),
{
    let result: Result<ModelOutput, EngineError> = into_result(
        reply,
        "task cancelled during model invocation",
        "model invocation timed out",
    );
    match result {
        Ok(output) => {
            let cost: Option<u64> = match &output.usage {
                Some(u) => Some(
                    cost_of(u.input_tokens, model.input_price, u.output_tokens, model.output_price),
                ),
                None => None,
            };
            let metrics: Json = if output.complete {
                metrics_value("succeeded", latency_ms)
            } else {
                metrics_value("failed", latency_ms)
            };
            let mut outcome: ObjectBuilder = ObjectBuilder::new().with(
                "request_id",
                text_or_null_value(&output.request_id),
            ).with("complete", Json::Bool(output.complete)).with("call_metrics", metrics);
            if same_text(role, "planner") {
                let text: String = clip(output.text.as_str(), limit);
                let truncated: bool = byte_count(text.as_str()) < byte_count(output.text.as_str());
                let kept: Json = ObjectBuilder::new().with("text", text_value(text.as_str())).with(
                    "truncated",
                    Json::Bool(truncated),
                ).with("tool_calls_present", Json::Bool(output.tool_calls.len() > 0)).build();
                outcome = outcome.with("planning_output", kept);
            }
            MadeModelCall { cost, outcome: outcome.build(), result: Ok(output) }
        },
        Err(e) => {
            let outcome: Json = ObjectBuilder::new().with("error", e.to_json()).with(
                "call_metrics",
                failed_metrics(e.kind.as_str(), latency_ms),
            ).build();
            MadeModelCall { cost: None, outcome, result: Err(e) }
        },
    }
}

/// A call that ends in an error has an unknown cost: what was set aside for it stays so.
pub proof fn lemma_error_cost_unknown(reply: ReplyModel<ModelOutputModel>, model: ModelModel)
    requires
        model_result(reply) is Err,
    ensures
        model_cost(model_result(reply), model) is None,
{
}

/// A call that ends in an output with usage is settled at each token's price of the called model,
/// at most the greatest number; one without usage, or with an error, at no known cost.
pub proof fn lemma_settled_at_its_price(reply: ReplyModel<ModelOutputModel>, model: ModelModel)
    ensures
        ({
            let cost = model_cost(model_result(reply), model);
            match reply {
                ReplyModel::Answered(Ok(output)) => match output.usage {
                    Some(u) => {
                        let price = u.input_tokens * model.input_price + u.output_tokens
                            * model.output_price;
                        &&& price <= u64::MAX ==> cost == Some(price as u64)
                        &&& price > u64::MAX ==> cost == Some(u64::MAX)
                    },
                    None => cost is None,
                },
                _ => cost is None,
            }
        }),
{
    match reply {
        ReplyModel::Answered(Ok(output)) => match output.usage {
            Some(u) => {
                assert(u.input_tokens * model.input_price >= 0) by (nonlinear_arith);
                assert(u.output_tokens * model.output_price >= 0) by (nonlinear_arith);
            },
            None => {},
        },
        _ => {},
    }
}

/// What was set aside is what a call costs that uses the tokens that it was routed for: the settled
/// cost of such a call is the estimate of its route.
pub proof fn lemma_estimated_use_costs_the_estimate(
    inputs: RouteInputs,
    k: int,
    decision_id: Seq<char>,
    output: ModelOutputModel,
)
    requires
        output.usage == Some(
            UsageModel {
                input_tokens: inputs.input_tokens,
                output_tokens: inputs.task.output_tokens,
            },
        ),
    ensures
        model_cost(model_result(ReplyModel::Answered(Ok(output))), inputs.models[k]) == Some(
            inputs.decision(k, decision_id).estimated_cost,
        ),
{
}

/// The result of a call is its answer; a call that was cancelled or took too long fails as such.
pub proof fn lemma_result_is_the_answer(reply: ReplyModel<ModelOutputModel>)
    ensures
        match reply {
            ReplyModel::Answered(r) => model_result(reply) == r,
            ReplyModel::Cancelled => model_result(reply) is Err && model_result(reply)->Err_0.kind
                == "cancelled"@,
            ReplyModel::TimedOut => model_result(reply) is Err && model_result(reply)->Err_0.kind
                == "deadline"@,
        },
{
}

/// The outcome of a call tells how it ended and how long it took, and the request it belongs to;
/// the output of a planner is kept with it, of others it is not.
pub proof fn lemma_outcome_tells_how_it_ended(
    result: Result<ModelOutputModel, EngineErrorModel>,
    role: Seq<char>,
    limit: usize,
    latency_ms: u64,
)
    ensures
        ({
            let outcome = model_outcome(result, role, limit, latency_ms);
            let metrics = outcome.at("call_metrics"@);
            &&& metrics.at("latency_ms"@) == JsonModel::Number(NumberModel::PosInt(latency_ms))
            &&& match result {
                Ok(output) => {
                    &&& metrics.at("status"@) == JsonModel::Text(
                        if output.complete {
                            "succeeded"@
                        } else {
                            "failed"@
                        },
                    )
                    &&& outcome.at("complete"@) == JsonModel::Bool(output.complete)
                    &&& outcome.at("request_id"@) == (match output.request_id {
                        Some(id) => JsonModel::Text(id),
                        None => JsonModel::Null,
                    })
                    &&& outcome.has("planning_output"@) <==> role == "planner"@
                    &&& !outcome.has("error"@)
                },
                Err(e) => {
                    &&& metrics.at("status"@) == JsonModel::Text(
                        if e.kind == "cancelled"@ {
                            "cancelled"@
                        } else if e.kind == "deadline"@ {
                            "timed_out"@
                        } else {
                            "failed"@
                        },
                    )
                    &&& outcome.at("error"@).at("kind"@) == JsonModel::Text(e.kind)
                    &&& outcome.at("error"@).at("message"@) == JsonModel::Text(e.message)
                },
            }
        }),
{
    lemma_outcome_names();
    lemma_metric_names();
    lemma_error_names();
}

proof fn lemma_outcome_names()
    ensures
        "call_metrics"@ != "complete"@,
        "call_metrics"@ != "request_id"@,
        "call_metrics"@ != "planning_output"@,
        "call_metrics"@ != "error"@,
        "complete"@ != "request_id"@,
        "complete"@ != "planning_output"@,
        "complete"@ != "error"@,
        "request_id"@ != "planning_output"@,
        "request_id"@ != "error"@,
        "planning_output"@ != "error"@,
{
    reveal_strlit("call_metrics");
    reveal_strlit("complete");
    reveal_strlit("request_id");
    reveal_strlit("planning_output");
    reveal_strlit("error");
    assert("call_metrics"@.len() == 12);
    assert("complete"@.len() == 8);
    assert("request_id"@.len() == 10);
    assert("planning_output"@.len() == 15);
    assert("error"@.len() == 5);
}

proof fn lemma_metric_names()
    ensures
        "status"@ != "latency_ms"@,
{
    reveal_strlit("status");
    reveal_strlit("latency_ms");
    assert("status"@.len() == 6);
    assert("latency_ms"@.len() == 10);
}

proof fn lemma_error_names()
    ensures
        "kind"@ != "message"@,
        "kind"@ != "task_id"@,
        "kind"@ != "details"@,
        "message"@ != "task_id"@,
        "message"@ != "details"@,
        "task_id"@ != "details"@,
{
    reveal_strlit("kind");
    reveal_strlit("message");
    reveal_strlit("task_id");
    reveal_strlit("details");
    assert("kind"@.len() == 4);
    assert("message"@.len() == 7);
    assert("task_id"@.len() == 7);
    assert("details"@.len() == 7);
    assert("message"@[0] != "task_id"@[0]);
    assert("message"@[0] != "details"@[0]);
    assert("task_id"@[0] != "details"@[0]);
}

} // verus!
