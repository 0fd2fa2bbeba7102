//! The work of one node as a machine: what to do next after each thing that happened. The host
//! side performs the actions and reports what came of them.
pub mod steps;

use super::invocation::dispatch::{
    dispatch_refusal, dispatch_time, invoke_request, made_model_call, model_cost, model_outcome,
    model_request, model_result, refusal_of, MadeModelCall,
};
use super::invocation::{check_output as check_model_output, output_fault as model_output_fault};
use super::invocation::{Invocation, InvocationModel};
use super::tools::{
    batch_fault, check_output, declared, find_tool, first_tool, lemma_first_tool, made_tool_call,
    output_fault, requested, tool_completed, tool_cost, tool_metadata, tool_outcome, tool_refusal,
    tool_refused, tool_request, tool_requested, tool_result, MadeToolCall,
};
use super::{undispatched, undispatched_outcome, viewed, Reply, ReplyModel};
use crate::adapter::{InvokeRequest, InvokeRequestModel, ModelOutput, ModelOutputModel};
use crate::binary64::Binary64;
use crate::contracts::configuration::{Model, ModelModel};
use crate::contracts::encoding::Encode;
use crate::contracts::task::{
    TaskSpec, TaskSpecModel, ToolCall, ToolCallModel, ToolResult, ToolResultModel,
};
use crate::fault::{failure, EngineError, EngineErrorModel};
use crate::json::{
    count_model, count_or_null, count_value, empty_object, text_value, Json, JsonModel,
    ObjectBuilder,
};
use crate::model::Duplicate;
use crate::text::TextSet;
use crate::tools::{ToolRequest, ToolRequestModel};
use vstd::prelude::*;

verus! {

/// A call of a model: its identity, the model, the amount set aside, and the quality expected.
#[derive(Debug)]
pub struct ModelCall {
    pub attempt: String,
    pub model: Model,
    pub amount: u64,
    pub quality: Binary64,
}

/// What a `ModelCall` holds.
#[verifier::ext_equal]
pub ghost struct ModelCallModel {
    pub attempt: Seq<char>,
    pub model: ModelModel,
    pub amount: u64,
    pub quality: Binary64,
}

impl DeepView for ModelCall {
    type V = ModelCallModel;

    open spec fn deep_view(&self) -> ModelCallModel {
        ModelCallModel {
            attempt: self.attempt.deep_view(),
            model: self.model.deep_view(),
            amount: self.amount.deep_view(),
            quality: self.quality.deep_view(),
        }
    }
}

impl Duplicate for ModelCall {
    fn duplicate(&self) -> (r: Self) {
        ModelCall {
            attempt: self.attempt.duplicate(),
            model: self.model.duplicate(),
            amount: self.amount.duplicate(),
            quality: self.quality.duplicate(),
        }
    }
}

impl Clone for ModelCall {
    fn clone(&self) -> (r: Self)
        ensures
            r.deep_view() == self.deep_view(),
    {
        self.duplicate()
    }
}

/// The tool calls of one output, in their order, with the place of the one that is next.
#[derive(Debug)]
pub struct ToolTurn {
    pub calls: Vec<ToolCall>,
    pub next: usize,
    pub model_attempt: String,
}

/// What a `ToolTurn` holds.
#[verifier::ext_equal]
pub ghost struct ToolTurnModel {
    pub calls: Seq<ToolCallModel>,
    pub next: usize,
    pub model_attempt: Seq<char>,
}

impl DeepView for ToolTurn {
    type V = ToolTurnModel;

    open spec fn deep_view(&self) -> ToolTurnModel {
        ToolTurnModel {
            calls: self.calls.deep_view(),
            next: self.next.deep_view(),
            model_attempt: self.model_attempt.deep_view(),
        }
    }
}

impl Duplicate for ToolTurn {
    fn duplicate(&self) -> (r: Self) {
        ToolTurn {
            calls: self.calls.duplicate(),
            next: self.next.duplicate(),
            model_attempt: self.model_attempt.duplicate(),
        }
    }
}

impl Clone for ToolTurn {
    fn clone(&self) -> (r: Self)
        ensures
            r.deep_view() == self.deep_view(),
    {
        self.duplicate()
    }
}

/// What a node waits for.
pub enum NodePhase {
    Ready,
    Routing,
    Announcing { call: ModelCall, metadata: Json },
    Reserving { call: ModelCall },
    Waiting { call: ModelCall },
    Refusing,
    Settling { call: ModelCall, result: Result<ModelOutput, EngineError> },
    ToolAnnouncing { turn: ToolTurn, request: ToolRequest },
    ToolReserving { turn: ToolTurn, request: ToolRequest },
    ToolWaiting { turn: ToolTurn, request: ToolRequest },
    ToolRefusing,
    ToolSettling { turn: ToolTurn, request: ToolRequest, settled: Result<ToolResult, EngineError> },
    ToolReporting { turn: ToolTurn, request: ToolRequest, answer: ToolResult },
    Over,
}

/// What a `NodePhase` holds.
#[verifier::ext_equal]
pub ghost enum NodePhaseModel {
    Ready,
    Routing,
    Announcing { call: ModelCallModel, metadata: JsonModel },
    Reserving { call: ModelCallModel },
    Waiting { call: ModelCallModel },
    Refusing,
    Settling { call: ModelCallModel, result: Result<ModelOutputModel, EngineErrorModel> },
    ToolAnnouncing { turn: ToolTurnModel, request: ToolRequestModel },
    ToolReserving { turn: ToolTurnModel, request: ToolRequestModel },
    ToolWaiting { turn: ToolTurnModel, request: ToolRequestModel },
    ToolRefusing,
    ToolSettling {
        turn: ToolTurnModel,
        request: ToolRequestModel,
        settled: Result<ToolResultModel, EngineErrorModel>,
    },
    ToolReporting { turn: ToolTurnModel, request: ToolRequestModel, answer: ToolResultModel },
    Over,
}

impl DeepView for NodePhase {
    type V = NodePhaseModel;

    open spec fn deep_view(&self) -> NodePhaseModel {
        match self {
            NodePhase::Ready => NodePhaseModel::Ready,
            NodePhase::Routing => NodePhaseModel::Routing,
            NodePhase::Announcing { call, metadata } => NodePhaseModel::Announcing {
                call: call.deep_view(),
                metadata: metadata.deep_view(),
            },
            NodePhase::Reserving { call } => NodePhaseModel::Reserving {
                call: call.deep_view(),
            },
            NodePhase::Waiting { call } => NodePhaseModel::Waiting {
                call: call.deep_view(),
            },
            NodePhase::Refusing => NodePhaseModel::Refusing,
            NodePhase::Settling { call, result } => NodePhaseModel::Settling {
                call: call.deep_view(),
                result: viewed(*result),
            },
            NodePhase::ToolAnnouncing { turn, request } => NodePhaseModel::ToolAnnouncing {
                turn: turn.deep_view(),
                request: request.deep_view(),
            },
            NodePhase::ToolReserving { turn, request } => NodePhaseModel::ToolReserving {
                turn: turn.deep_view(),
                request: request.deep_view(),
            },
            NodePhase::ToolWaiting { turn, request } => NodePhaseModel::ToolWaiting {
                turn: turn.deep_view(),
                request: request.deep_view(),
            },
            NodePhase::ToolRefusing => NodePhaseModel::ToolRefusing,
            NodePhase::ToolSettling { turn, request, settled } => NodePhaseModel::ToolSettling {
                turn: turn.deep_view(),
                request: request.deep_view(),
                settled: viewed(*settled),
            },
            NodePhase::ToolReporting { turn, request, answer } => NodePhaseModel::ToolReporting {
                turn: turn.deep_view(),
                request: request.deep_view(),
                answer: answer.deep_view(),
            },
            NodePhase::Over => NodePhaseModel::Over,
        }
    }
}

/// What happened. A step that was done comes with the state of cancellation and the clock after
/// it, and with a new identity for what is done next.
pub enum NodeEvent {
    /// The node's work begins, or what was asked for is done.
    Done { cancelled: bool, now: u64, fresh: String },
    /// A model was selected; the metadata are saved with the reservation.
    Routed { call: ModelCall, metadata: Json },
    /// What came of a model call.
    ModelReplied { reply: Reply<ModelOutput>, latency_ms: u64 },
    /// What came of a tool call.
    ToolReplied { answer: Reply<ToolResult>, latency_ms: u64 },
    /// What was asked for could not be done.
    Broken { error: EngineError },
}

/// What a `NodeEvent` holds.
#[verifier::ext_equal]
pub ghost enum NodeEventModel {
    Done { cancelled: bool, now: u64, fresh: Seq<char> },
    Routed { call: ModelCallModel, metadata: JsonModel },
    ModelReplied { reply: ReplyModel<ModelOutputModel>, latency_ms: u64 },
    ToolReplied { answer: ReplyModel<ToolResultModel>, latency_ms: u64 },
    Broken { error: EngineErrorModel },
}

impl DeepView for NodeEvent {
    type V = NodeEventModel;

    open spec fn deep_view(&self) -> NodeEventModel {
        match self {
            NodeEvent::Done { cancelled, now, fresh } => NodeEventModel::Done {
                cancelled: cancelled.deep_view(),
                now: now.deep_view(),
                fresh: fresh.deep_view(),
            },
            NodeEvent::Routed { call, metadata } => NodeEventModel::Routed {
                call: call.deep_view(),
                metadata: metadata.deep_view(),
            },
            NodeEvent::ModelReplied { reply, latency_ms } => NodeEventModel::ModelReplied {
                reply: reply.deep_view(),
                latency_ms: latency_ms.deep_view(),
            },
            NodeEvent::ToolReplied { answer, latency_ms } => NodeEventModel::ToolReplied {
                answer: answer.deep_view(),
                latency_ms: latency_ms.deep_view(),
            },
            NodeEvent::Broken { error } => NodeEventModel::Broken {
                error: error.deep_view(),
            },
        }
    }
}

/// What to do next.
pub enum NodeAction {
    /// Select a model for so many input tokens.
    Route { input_tokens: u64 },
    Emit { attempt: String, kind: String, data: Json },
    Reserve { attempt: String, amount: u64, metadata: Json },
    CallModel { request: InvokeRequest, timeout_ms: u64 },
    CallTool { tool: ToolRequest, timeout_ms: u64 },
    Settle { attempt: String, cost: Option<u64>, outcome: Json },
    Finish { output: ModelOutput, call: ModelCall },
    Fail { error: EngineError },
    /// Nothing: what happened is not what the node waits for.
    Wait,
}

/// What a `NodeAction` holds.
#[verifier::ext_equal]
pub ghost enum NodeActionModel {
    Route { input_tokens: u64 },
    Emit { attempt: Seq<char>, kind: Seq<char>, data: JsonModel },
    Reserve { attempt: Seq<char>, amount: u64, metadata: JsonModel },
    CallModel { request: InvokeRequestModel, timeout_ms: u64 },
    CallTool { tool: ToolRequestModel, timeout_ms: u64 },
    Settle { attempt: Seq<char>, cost: Option<u64>, outcome: JsonModel },
    Finish { output: ModelOutputModel, call: ModelCallModel },
    Fail { error: EngineErrorModel },
    Wait,
}

impl DeepView for NodeAction {
    type V = NodeActionModel;

    open spec fn deep_view(&self) -> NodeActionModel {
        match self {
            NodeAction::Route { input_tokens } => NodeActionModel::Route {
                input_tokens: input_tokens.deep_view(),
            },
            NodeAction::Emit { attempt, kind, data } => NodeActionModel::Emit {
                attempt: attempt.deep_view(),
                kind: kind.deep_view(),
                data: data.deep_view(),
            },
            NodeAction::Reserve { attempt, amount, metadata } => NodeActionModel::Reserve {
                attempt: attempt.deep_view(),
                amount: amount.deep_view(),
                metadata: metadata.deep_view(),
            },
            NodeAction::CallModel { request, timeout_ms } => NodeActionModel::CallModel {
                request: request.deep_view(),
                timeout_ms: timeout_ms.deep_view(),
            },
            NodeAction::CallTool { tool, timeout_ms } => NodeActionModel::CallTool {
                tool: tool.deep_view(),
                timeout_ms: timeout_ms.deep_view(),
            },
            NodeAction::Settle { attempt, cost, outcome } => NodeActionModel::Settle {
                attempt: attempt.deep_view(),
                cost: cost.deep_view(),
                outcome: outcome.deep_view(),
            },
            NodeAction::Finish { output, call } => NodeActionModel::Finish {
                output: output.deep_view(),
                call: call.deep_view(),
            },
            NodeAction::Fail { error } => NodeActionModel::Fail {
                error: error.deep_view(),
            },
            NodeAction::Wait => NodeActionModel::Wait,
        }
    }
}

/// The work of one node.
pub struct Node {
    task: TaskSpec,
    role: String,
    limit: usize,
    executes: bool,
    work: Invocation,
    phase: NodePhase,
}

/// The state of a node's work.
#[verifier::ext_equal]
pub ghost struct NodeModel {
    pub task: TaskSpecModel,
    pub role: Seq<char>,
    pub limit: usize,
    /// Whether the host executes tools.
    pub executes: bool,
    pub work: InvocationModel,
    pub phase: NodePhaseModel,
}

impl DeepView for Node {
    type V = NodeModel;

    closed spec fn deep_view(&self) -> NodeModel {
        NodeModel {
            task: self.task.deep_view(),
            role: self.role@,
            limit: self.limit,
            executes: self.executes,
            work: self.work.deep_view(),
            phase: self.phase.deep_view(),
        }
    }
}

/// What the event of a model call tells.
pub open spec fn started(call: ModelCallModel) -> JsonModel {
    empty_object().with("model_id"@, JsonModel::Text(call.model.id)).with(
        "estimated_cost"@,
        count_model(call.amount),
    )
}

/// What the event of a model call tells.
pub fn model_started(call: &ModelCall) -> (r: Json)
    ensures
        r@ == started(call.deep_view()),
{
    ObjectBuilder::new().with("model_id", text_value(call.model.id.as_str())).with(
        "estimated_cost",
        count_value(call.amount),
    ).build()
}

/// What the event of a tool request tells.
pub open spec fn asked(request: ToolRequestModel) -> JsonModel {
    empty_object().with("name"@, JsonModel::Text(request.call.name)).with(
        "call_id"@,
        JsonModel::Text(request.call.id),
    ).with("model_attempt_id"@, JsonModel::Text(request.model_attempt_id)).with(
        "max_cost"@,
        count_model(request.max_cost),
    )
}

/// What the event of a completed tool call tells.
pub open spec fn completed(request: ToolRequestModel, result: ToolResultModel) -> JsonModel {
    empty_object().with("name"@, JsonModel::Text(request.call.name)).with(
        "actual_cost"@,
        count_or_null(result.actual_cost),
    )
}

/// What is saved with the reservation of a tool call.
pub open spec fn tool_saved(request: ToolRequestModel) -> JsonModel {
    empty_object().with("kind"@, JsonModel::Text("tool"@)).with(
        "request"@,
        ToolRequest::json_of(request),
    )
}

impl NodeModel {
    /// The conversation cannot be counted past the machine's range, and once a call was allowed
    /// the failures are below their limit.
    pub open spec fn valid(self) -> bool {
        &&& self.limit <= u64::MAX - 256
        &&& self.phase !is Ready && self.phase !is Over ==> self.work.failures
            < self.task.max_attempts
    }

    /// The node in another phase, with what to do.
    pub open spec fn to(self, phase: NodePhaseModel, action: NodeActionModel) -> (
        NodeModel,
        NodeActionModel,
    ) {
        (NodeModel { phase, ..self }, action)
    }

    /// The end of the work with an error.
    pub open spec fn fails(self, error: EngineErrorModel) -> (NodeModel, NodeActionModel) {
        self.to(NodePhaseModel::Over, NodeActionModel::Fail { error })
    }

    /// The begin of a model step: a model is selected, unless no further call may be made.
    pub open spec fn begins(self, cancelled: bool, now: u64) -> (NodeModel, NodeActionModel) {
        match self.work.call_fault(self.task, self.limit, cancelled, now) {
            Some(e) => self.fails(e),
            None => self.to(
                NodePhaseModel::Routing,
                NodeActionModel::Route { input_tokens: (self.work.size() + 256) as u64 },
            ),
        }
    }

    /// A reserved model call is dispatched, or settled at no cost where its time is up.
    pub open spec fn dispatches(self, call: ModelCallModel, cancelled: bool, now: u64) -> (
        NodeModel,
        NodeActionModel,
    ) {
        if self.task.time_left(now) == 0 || cancelled {
            self.to(
                NodePhaseModel::Refusing,
                NodeActionModel::Settle {
                    attempt: call.attempt,
                    cost: Some(0),
                    outcome: undispatched(),
                },
            )
        } else {
            self.to(
                NodePhaseModel::Waiting { call },
                NodeActionModel::CallModel {
                    request: model_request(
                        self.task,
                        self.role,
                        call.model,
                        call.attempt,
                        self.work.messages,
                        self.work.tools,
                    ),
                    timeout_ms: self.task.time_left(now) as u64,
                },
            )
        }
    }

    /// A model call that was made is settled.
    pub open spec fn settles(
        self,
        call: ModelCallModel,
        result: Result<ModelOutputModel, EngineErrorModel>,
        latency_ms: u64,
    ) -> (NodeModel, NodeActionModel) {
        self.to(
            NodePhaseModel::Settling { call, result },
            NodeActionModel::Settle {
                attempt: call.attempt,
                cost: model_cost(result, call.model),
                outcome: model_outcome(result, self.role, self.limit, latency_ms),
            },
        )
    }

    /// What follows a settled model call: the work is done, its tools are called, or another
    /// model is tried.
    pub open spec fn goes_on(
        self,
        call: ModelCallModel,
        result: Result<ModelOutputModel, EngineErrorModel>,
        cancelled: bool,
        now: u64,
        fresh: Seq<char>,
    ) -> (NodeModel, NodeActionModel) {
        match result {
            Err(e) => if e.kind == "model"@ {
                NodeModel { work: self.work.without(call.model.id), ..self }.begins(cancelled, now)
            } else {
                self.fails(e)
            },
            Ok(output) => match model_output_fault(output, self.limit) {
                Some(e) => self.fails(e),
                None => if output.tool_calls.len() == 0 {
                    self.to(NodePhaseModel::Over, NodeActionModel::Finish { output, call })
                } else {
                    match batch_fault(output.tool_calls, self.work.tools, self.work.made) {
                        Some(e) => self.fails(e),
                        None => NodeModel {
                            work: self.work.calling(output),
                            ..self
                        }.asks(
                            ToolTurnModel {
                                calls: output.tool_calls,
                                next: 0,
                                model_attempt: call.attempt,
                            },
                            fresh,
                        ),
                    }
                },
            },
        }
    }

    /// The next tool call of a turn is announced.
    pub open spec fn asks(self, turn: ToolTurnModel, fresh: Seq<char>) -> (
        NodeModel,
        NodeActionModel,
    ) {
        let call = turn.calls[turn.next as int];
        if !self.executes {
            self.fails(failure("configuration"@, "host tool executor missing"@))
        } else if !declared(self.work.tools, call.name) {
            self.fails(failure("protocol"@, "undeclared, duplicate or malformed tool call"@))
        } else {
            let request = requested(
                self.task,
                turn.model_attempt,
                fresh,
                call,
                self.work.tools[first_tool(self.work.tools, call.name)],
            );
            self.to(
                NodePhaseModel::ToolAnnouncing { turn, request },
                NodeActionModel::Emit {
                    attempt: fresh,
                    kind: "tool_requested"@,
                    data: asked(request),
                },
            )
        }
    }

    /// A reserved tool call is dispatched, or settled at no cost where its time is up.
    pub open spec fn dispatches_tool(
        self,
        turn: ToolTurnModel,
        request: ToolRequestModel,
        cancelled: bool,
        now: u64,
    ) -> (NodeModel, NodeActionModel) {
        let left = crate::contracts::task::minus_floored(request.deadline_ms as int, now as int);
        if left == 0 || cancelled {
            self.to(
                NodePhaseModel::ToolRefusing,
                NodeActionModel::Settle {
                    attempt: request.execution_id,
                    cost: Some(0),
                    outcome: undispatched(),
                },
            )
        } else {
            self.to(
                NodePhaseModel::ToolWaiting { turn, request },
                NodeActionModel::CallTool { tool: request, timeout_ms: left as u64 },
            )
        }
    }

    /// A tool call that was made is settled.
    pub open spec fn settles_tool(
        self,
        turn: ToolTurnModel,
        request: ToolRequestModel,
        result: Result<ToolResultModel, EngineErrorModel>,
        latency_ms: u64,
    ) -> (NodeModel, NodeActionModel) {
        self.to(
            NodePhaseModel::ToolSettling { turn, request, settled: result },
            NodeActionModel::Settle {
                attempt: request.execution_id,
                cost: tool_cost(result),
                outcome: tool_outcome(result, latency_ms),
            },
        )
    }

    /// What follows a settled tool call: its completion is announced; a failed one is not tried
    /// again.
    pub open spec fn reports(
        self,
        turn: ToolTurnModel,
        request: ToolRequestModel,
        result: Result<ToolResultModel, EngineErrorModel>,
    ) -> (NodeModel, NodeActionModel) {
        match result {
            Err(e) => self.fails(e),
            Ok(t) => match output_fault(t.output, self.limit) {
                Some(e) => self.fails(e),
                None => self.to(
                    NodePhaseModel::ToolReporting { turn, request, answer: t },
                    NodeActionModel::Emit {
                        attempt: request.execution_id,
                        kind: "tool_completed"@,
                        data: completed(request, t),
                    },
                ),
            },
        }
    }

    /// What follows an answered tool call: the next call of the turn, or a new model step.
    pub open spec fn continues(
        self,
        turn: ToolTurnModel,
        request: ToolRequestModel,
        result: ToolResultModel,
        cancelled: bool,
        now: u64,
        fresh: Seq<char>,
    ) -> (NodeModel, NodeActionModel) {
        let told = NodeModel { work: self.work.answered(request.call, result), ..self };
        if told.work.size() > self.limit {
            told.fails(failure("context"@, "tool conversation exceeds context byte limit"@))
        } else if turn.next + 1 < turn.calls.len() {
            told.asks(ToolTurnModel { next: (turn.next + 1) as usize, ..turn }, fresh)
        } else {
            NodeModel { work: told.work.continued(), ..told }.begins(cancelled, now)
        }
    }

    /// The state after an event, and what to do.
    pub open spec fn after(self, event: NodeEventModel) -> (NodeModel, NodeActionModel) {
        match (self.phase, event) {
            (NodePhaseModel::Over, _) => (self, NodeActionModel::Wait),
            (_, NodeEventModel::Broken { error }) => self.fails(error),
            (NodePhaseModel::Ready, NodeEventModel::Done { cancelled, now, .. }) => self.begins(
                cancelled,
                now,
            ),
            (NodePhaseModel::Routing, NodeEventModel::Routed { call, metadata }) => self.to(
                NodePhaseModel::Announcing { call, metadata },
                NodeActionModel::Emit {
                    attempt: call.attempt,
                    kind: "model_started"@,
                    data: started(call),
                },
            ),
            (
                NodePhaseModel::Announcing { call, metadata },
                NodeEventModel::Done { .. },
            ) => self.to(
                NodePhaseModel::Reserving { call },
                NodeActionModel::Reserve { attempt: call.attempt, amount: call.amount, metadata },
            ),
            (
                NodePhaseModel::Reserving { call },
                NodeEventModel::Done { cancelled, now, .. },
            ) => self.dispatches(call, cancelled, now),
            (
                NodePhaseModel::Waiting { call },
                NodeEventModel::ModelReplied { reply, latency_ms },
            ) => self.settles(call, model_result(reply), latency_ms),
            (NodePhaseModel::Refusing, NodeEventModel::Done { cancelled, .. }) => self.fails(
                refusal_of(cancelled),
            ),
            (
                NodePhaseModel::Settling { call, result },
                NodeEventModel::Done { cancelled, now, fresh },
            ) => self.goes_on(call, result, cancelled, now, fresh),
            (
                NodePhaseModel::ToolAnnouncing { turn, request },
                NodeEventModel::Done { .. },
            ) => self.to(
                NodePhaseModel::ToolReserving { turn, request },
                NodeActionModel::Reserve {
                    attempt: request.execution_id,
                    amount: request.max_cost,
                    metadata: tool_saved(request),
                },
            ),
            (
                NodePhaseModel::ToolReserving { turn, request },
                NodeEventModel::Done { cancelled, now, .. },
            ) => self.dispatches_tool(turn, request, cancelled, now),
            (
                NodePhaseModel::ToolWaiting { turn, request },
                NodeEventModel::ToolReplied { answer, latency_ms },
            ) => self.settles_tool(turn, request, tool_result(answer), latency_ms),
            (NodePhaseModel::ToolRefusing, NodeEventModel::Done { cancelled, .. }) => self.fails(
                tool_refused(cancelled),
            ),
            (
                NodePhaseModel::ToolSettling { turn, request, settled },
                NodeEventModel::Done { .. },
            ) => self.reports(turn, request, settled),
            (
                NodePhaseModel::ToolReporting { turn, request, answer },
                NodeEventModel::Done { cancelled, now, fresh },
            ) => self.continues(turn, request, answer, cancelled, now, fresh),
            _ => (self, NodeActionModel::Wait),
        }
    }
}

impl Node {
    #[verifier::type_invariant]
    spec fn kept(self) -> bool {
        self.deep_view().valid()
    }

    /// A node that has not begun. The snapshot comes in its serialized form; `executes` tells
    /// whether the host executes tools.
    pub fn new(
        task: &TaskSpec,
        role: &str,
        snapshot: &str,
        excluded: &TextSet,
        limit: usize,
        executes: bool,
    ) -> (r: Self)
        requires
            limit <= u64::MAX - 256,
        ensures
            r.deep_view() == (NodeModel {
                task: task.deep_view(),
                role: role@,
                limit,
                executes,
                work: InvocationModel::started(
                    task.deep_view(),
                    role@,
                    snapshot@,
                    excluded.deep_view(),
                ),
                phase: NodePhaseModel::Ready,
            }),
    {
        Node {
            task: task.duplicate(),
            role: role.to_owned(),
            limit,
            executes,
            work: Invocation::new(task, role, snapshot, excluded),
            phase: NodePhase::Ready,
        }
    }

    /// The models that may not be selected now.
    pub fn attempted(&self) -> (r: &TextSet)
        ensures
            r.deep_view() == self.deep_view().work.attempted,
    {
        &self.work.attempted
    }

    fn begin(parts: NodeParts, cancelled: bool, now: u64) -> (r: (Node, NodeAction))
        requires
            parts.limit <= u64::MAX - 256,
        ensures
            (r.0.deep_view(), r.1.deep_view()) == parts.model(NodePhaseModel::Over).begins(
                    cancelled,
                    now,
                ),
    {
        match parts.work.call(&parts.task, parts.limit, cancelled, now) {
            Err(e) => parts.fail(e),
            Ok(input_tokens) => parts.go(NodePhase::Routing, NodeAction::Route { input_tokens }),
        }
    }
}

/// A node without its phase.
struct NodeParts {
    task: TaskSpec,
    role: String,
    limit: usize,
    executes: bool,
    work: Invocation,
}

impl NodeParts {
    spec fn model(self, phase: NodePhaseModel) -> NodeModel {
        NodeModel {
            task: self.task.deep_view(),
            role: self.role@,
            limit: self.limit,
            executes: self.executes,
            work: self.work.deep_view(),
            phase,
        }
    }

    fn go(self, phase: NodePhase, action: NodeAction) -> (r: (Node, NodeAction))
        requires
            self.model(phase.deep_view()).valid(),
        ensures
            r.0.deep_view() == self.model(phase.deep_view()),
            r.1 == action,
    {
        (
            Node {
                task: self.task,
                role: self.role,
                limit: self.limit,
                executes: self.executes,
                work: self.work,
                phase,
            },
            action,
        )
    }

    fn fail(self, error: EngineError) -> (r: (Node, NodeAction))
        requires
            self.limit <= u64::MAX - 256,
        ensures
            (r.0.deep_view(), r.1.deep_view()) == self.model(NodePhaseModel::Over).fails(
                    error.deep_view(),
                ),
    {
        self.go(NodePhase::Over, NodeAction::Fail { error })
    }

    fn ask(self, turn: ToolTurn, fresh: String) -> (r: (Node, NodeAction))
        requires
            turn.next < turn.calls@.len(),
            self.limit <= u64::MAX - 256,
            self.work.failures < self.task.max_attempts,
        ensures
            (r.0.deep_view(), r.1.deep_view()) == self.model(NodePhaseModel::Over).asks(
                    turn.deep_view(),
                    fresh@,
                ),
    {
        if !self.executes {
            return self.fail(EngineError::new("configuration", "host tool executor missing"));
        }
        let call: &ToolCall = &turn.calls[turn.next];
        assert(turn.deep_view().calls[turn.next as int] == call.deep_view());
        match find_tool(&self.work.tools, call.name.as_str()) {
            None => self.fail(
                EngineError::new("protocol", "undeclared, duplicate or malformed tool call"),
            ),
            Some(i) => {
                proof {
                    lemma_first_tool(self.work.tools.deep_view(), call.name@, i as int);
                    assert(self.work.tools.deep_view()[i as int]
                        == self.work.tools@[i as int].deep_view());
                }
                let request: ToolRequest = tool_request(
                    &self.task,
                    turn.model_attempt.as_str(),
                    fresh.as_str(),
                    call,
                    &self.work.tools[i],
                );
                let data: Json = tool_requested(&request);
                self.go(
                    NodePhase::ToolAnnouncing { turn, request },
                    NodeAction::Emit { attempt: fresh, kind: "tool_requested".to_owned(), data },
                )
            },
        }
    }

    fn dispatch(self, call: ModelCall, cancelled: bool, now: u64) -> (r: (Node, NodeAction))
        requires
            self.limit <= u64::MAX - 256,
            self.work.failures < self.task.max_attempts,
        ensures
            (r.0.deep_view(), r.1.deep_view()) == self.model(NodePhaseModel::Over).dispatches(
                    call.deep_view(),
                    cancelled,
                    now,
                ),
    {
        match dispatch_time(&self.task, cancelled, now) {
            None => self.go(
                NodePhase::Refusing,
                NodeAction::Settle {
                    attempt: call.attempt,
                    cost: Some(0),
                    outcome: undispatched_outcome(),
                },
            ),
            Some(timeout_ms) => {
                let request: InvokeRequest = invoke_request(
                    &self.task,
                    self.role.as_str(),
                    &call.model,
                    call.attempt.as_str(),
                    &self.work.messages,
                    &self.work.tools,
                );
                self.go(
                    NodePhase::Waiting { call },
                    NodeAction::CallModel { request, timeout_ms },
                )
            },
        }
    }

    fn go_on(
        self,
        call: ModelCall,
        result: Result<ModelOutput, EngineError>,
        cancelled: bool,
        now: u64,
        fresh: String,
    ) -> (r: (Node, NodeAction))
        requires
            self.limit <= u64::MAX - 256,
            self.work.failures < self.task.max_attempts,
        ensures
            (r.0.deep_view(), r.1.deep_view()) == self.model(NodePhaseModel::Over).goes_on(
                    call.deep_view(),
                    viewed(result),
                    cancelled,
                    now,
                    fresh@,
                ),
    {
        let mut parts: NodeParts = self;
        match result {
            Err(e) => {
                match parts.work.failed(call.model.id.as_str(), e) {
                    Err(e) => parts.fail(e),
                    Ok(_) => {
                        let r = Node::begin(parts, cancelled, now);
                        r
                    },
                }
            },
            Ok(output) => {
                if let Err(e) = check_model_output(&output, parts.limit) {
                    return parts.fail(e);
                }
                if output.tool_calls.len() == 0 {
                    return parts.go(NodePhase::Over, NodeAction::Finish { output, call });
                }
                if let Err(e) = parts.work.start_tools(&output) {
                    return parts.fail(e);
                }
                let turn = ToolTurn {
                    calls: output.tool_calls,
                    next: 0,
                    model_attempt: call.attempt,
                };
                let r = parts.ask(turn, fresh);
                r
            },
        }
    }

    fn dispatch_tool(
        self,
        turn: ToolTurn,
        request: ToolRequest,
        cancelled: bool,
        now: u64,
    ) -> (r: (Node, NodeAction))
        requires
            self.limit <= u64::MAX - 256,
            self.work.failures < self.task.max_attempts,
        ensures
            (r.0.deep_view(), r.1.deep_view()) == self.model(NodePhaseModel::Over).dispatches_tool(
                    turn.deep_view(),
                    request.deep_view(),
                    cancelled,
                    now,
                ),
    {
        let left: u64 = request.deadline_ms.saturating_sub(now);
        if left == 0 || cancelled {
            return self.go(
                NodePhase::ToolRefusing,
                NodeAction::Settle {
                    attempt: request.execution_id,
                    cost: Some(0),
                    outcome: undispatched_outcome(),
                },
            );
        }
        let sent: ToolRequest = request.duplicate();
        self.go(
            NodePhase::ToolWaiting { turn, request },
            NodeAction::CallTool { tool: sent, timeout_ms: left },
        )
    }

    fn report(self, turn: ToolTurn, request: ToolRequest, result: Result<ToolResult, EngineError>)
        -> (r: (Node, NodeAction))
        requires
            self.limit <= u64::MAX - 256,
            self.work.failures < self.task.max_attempts,
        ensures
            (r.0.deep_view(), r.1.deep_view()) == self.model(NodePhaseModel::Over).reports(
                    turn.deep_view(),
                    request.deep_view(),
                    viewed(result),
                ),
    {
        match result {
            Err(e) => self.fail(e),
            Ok(t) => {
                if let Err(e) = check_output(&t, self.limit) {
                    return self.fail(e);
                }
                let data: Json = tool_completed(request.call.name.as_str(), &t);
                let attempt: String = request.execution_id.clone();
                self.go(
                    NodePhase::ToolReporting { turn, request, answer: t },
                    NodeAction::Emit { attempt, kind: "tool_completed".to_owned(), data },
                )
            },
        }
    }

    fn proceed(
        self,
        turn: ToolTurn,
        request: ToolRequest,
        result: ToolResult,
        cancelled: bool,
        now: u64,
        fresh: String,
    ) -> (r: (Node, NodeAction))
        requires
            self.limit <= u64::MAX - 256,
            self.work.failures < self.task.max_attempts,
        ensures
            (r.0.deep_view(), r.1.deep_view()) == self.model(NodePhaseModel::Over).continues(
                    turn.deep_view(),
                    request.deep_view(),
                    result.deep_view(),
                    cancelled,
                    now,
                    fresh@,
                ),
    {
        let mut parts: NodeParts = self;
        parts.work.answer(&request.call, &result);
        if let Err(e) = parts.work.check_size(parts.limit) {
            return parts.fail(e);
        }
        if turn.calls.len() > 0 && turn.next < turn.calls.len() - 1 {
            let turn = ToolTurn {
                calls: turn.calls,
                next: turn.next + 1,
                model_attempt: turn.model_attempt,
            };
            let r = parts.ask(turn, fresh);
            return r;
        }
        parts.work.resume();
        let r = Node::begin(parts, cancelled, now);
        r
    }
}

impl Node {
    /// Takes what happened, and tells what to do next.
    pub fn step(self, event: NodeEvent) -> (r: (Node, NodeAction))
        ensures
            (r.0.deep_view(), r.1.deep_view()) == self.deep_view().after(event.deep_view()),
            self.deep_view().valid(),
            r.0.deep_view().valid(),
    {
        proof {
            use_type_invariant(&self);
        }
        let ghost before = self.deep_view();
        let parts = NodeParts {
            task: self.task,
            role: self.role,
            limit: self.limit,
            executes: self.executes,
            work: self.work,
        };
        assert(parts.model(before.phase) == before);
        let r: (Node, NodeAction) = match (self.phase, event) {
            (NodePhase::Over, _) => parts.go(NodePhase::Over, NodeAction::Wait),
            (_, NodeEvent::Broken { error }) => parts.fail(error),
            (NodePhase::Ready, NodeEvent::Done { cancelled, now, .. }) => Node::begin(
                parts,
                cancelled,
                now,
            ),
            (NodePhase::Routing, NodeEvent::Routed { call, metadata }) => {
                let data: Json = model_started(&call);
                let attempt: String = call.attempt.clone();
                parts.go(
                    NodePhase::Announcing { call, metadata },
                    NodeAction::Emit { attempt, kind: "model_started".to_owned(), data },
                )
            },
            (NodePhase::Announcing { call, metadata }, NodeEvent::Done { .. }) => {
                let attempt: String = call.attempt.clone();
                let amount: u64 = call.amount;
                parts.go(
                    NodePhase::Reserving { call },
                    NodeAction::Reserve { attempt, amount, metadata },
                )
            },
            (NodePhase::Reserving { call }, NodeEvent::Done { cancelled, now, .. }) => {
                parts.dispatch(call, cancelled, now)
            },
            (NodePhase::Waiting { call }, NodeEvent::ModelReplied { reply, latency_ms }) => {
                let made: MadeModelCall = made_model_call(
                    reply,
                    &call.model,
                    parts.role.as_str(),
                    parts.limit,
                    latency_ms,
                );
                let attempt: String = call.attempt.clone();
                parts.go(
                    NodePhase::Settling { call, result: made.result },
                    NodeAction::Settle { attempt, cost: made.cost, outcome: made.outcome },
                )
            },
            (NodePhase::Refusing, NodeEvent::Done { cancelled, .. }) => parts.fail(
                dispatch_refusal(cancelled),
            ),
            (NodePhase::Settling { call, result }, NodeEvent::Done { cancelled, now, fresh }) => {
                parts.go_on(call, result, cancelled, now, fresh)
            },
            (NodePhase::ToolAnnouncing { turn, request }, NodeEvent::Done { .. }) => {
                let metadata: Json = tool_metadata(&request);
                let attempt: String = request.execution_id.clone();
                let amount: u64 = request.max_cost;
                parts.go(
                    NodePhase::ToolReserving { turn, request },
                    NodeAction::Reserve { attempt, amount, metadata },
                )
            },
            (NodePhase::ToolReserving { turn, request }, NodeEvent::Done { cancelled, now, .. })
                => parts.dispatch_tool(turn, request, cancelled, now),
            (
                NodePhase::ToolWaiting { turn, request },
                NodeEvent::ToolReplied { answer, latency_ms },
            ) => {
                let made: MadeToolCall = made_tool_call(answer, latency_ms);
                let attempt: String = request.execution_id.clone();
                parts.go(
                    NodePhase::ToolSettling { turn, request, settled: made.result },
                    NodeAction::Settle { attempt, cost: made.cost, outcome: made.outcome },
                )
            },
            (NodePhase::ToolRefusing, NodeEvent::Done { cancelled, .. }) => parts.fail(
                tool_refusal(cancelled),
            ),
            (NodePhase::ToolSettling { turn, request, settled }, NodeEvent::Done { .. }) => {
                parts.report(turn, request, settled)
            },
            (
                NodePhase::ToolReporting { turn, request, answer },
                NodeEvent::Done { cancelled, now, fresh },
            ) => parts.proceed(turn, request, answer, cancelled, now, fresh),
            (phase, _) => parts.go(phase, NodeAction::Wait),
        };
        proof {
            use_type_invariant(&r.0);
        }
        r
    }
}

} // verus!
