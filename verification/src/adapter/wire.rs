//! Requests as the provider endpoints take them.
use super::{InvokeRequest, InvokeRequestModel, Message, MessageModel};
use crate::contracts::task::{Endpoint, ToolCall, ToolCallModel, ToolSpec, ToolSpecModel};
use crate::fault::{answers, failure, EngineError, EngineErrorModel};
use crate::json::{
    array_value, count_model, count_value, empty_object, json_text, models, text_value, to_value,
    Json, JsonModel, NumberModel, ObjectBuilder,
};
use vstd::prelude::*;

verus! {

/// Whether a value reads as a Chat Completions request of the OpenAI SDK.
pub uninterp spec fn chat_request(body: JsonModel) -> bool;

/// Whether a value reads as a Responses request of the OpenAI SDK.
pub uninterp spec fn responses_request(body: JsonModel) -> bool;

/// Calls `serde_json::from_value` for `async_openai::types::chat::CreateChatCompletionRequest`:
/// whether that succeeds is a function of the value.
#[verifier::external_body]
fn reads_as_chat_request(body: &Json) -> (r: bool)
    ensures
        r == chat_request(body@),
{
    serde_json::from_value::<async_openai::types::chat::CreateChatCompletionRequest>(to_value(body)).is_ok()
}

/// Calls `serde_json::from_value` for `async_openai::types::responses::CreateResponse`: whether
/// that succeeds is a function of the value.
#[verifier::external_body]
fn reads_as_responses_request(body: &Json) -> (r: bool)
    ensures
        r == responses_request(body@),
{
    serde_json::from_value::<async_openai::types::responses::CreateResponse>(to_value(body)).is_ok()
}

/// A tool call of a Chat Completions message.
pub open spec fn chat_call(call: ToolCallModel) -> JsonModel {
    empty_object().with("id"@, JsonModel::Text(call.id)).with(
        "type"@,
        JsonModel::Text("function"@),
    ).with(
        "function"@,
        empty_object().with("name"@, JsonModel::Text(call.name)).with(
            "arguments"@,
            JsonModel::Text(json_text(call.arguments)),
        ),
    )
}

/// A message of Chat Completions.
pub open spec fn chat_message(m: MessageModel) -> JsonModel {
    let plain = empty_object().with("role"@, JsonModel::Text(m.role)).with(
        "content"@,
        JsonModel::Text(m.content),
    );
    let answered = match m.tool_call_id {
        Some(id) => plain.with("tool_call_id"@, JsonModel::Text(id)),
        None => plain,
    };
    if m.tool_calls.len() == 0 {
        answered
    } else {
        answered.with(
            "tool_calls"@,
            JsonModel::Array(Seq::new(m.tool_calls.len(), |i: int| chat_call(m.tool_calls[i]))),
        )
    }
}

/// A tool of Chat Completions.
pub open spec fn chat_tool(t: ToolSpecModel) -> JsonModel {
    empty_object().with("type"@, JsonModel::Text("function"@)).with(
        "function"@,
        empty_object().with("name"@, JsonModel::Text(t.name)).with(
            "description"@,
            JsonModel::Text(t.description),
        ).with("parameters"@, t.parameters),
    )
}

/// The body for Chat Completions.
pub open spec fn chat_body(r: InvokeRequestModel) -> JsonModel {
    let plain = empty_object().with("model"@, JsonModel::Text(r.model.model)).with(
        "messages"@,
        JsonModel::Array(Seq::new(r.messages.len(), |i: int| chat_message(r.messages[i]))),
    ).with("max_completion_tokens"@, count_model(r.output_tokens)).with(
        "stream"@,
        JsonModel::Bool(true),
    ).with("stream_options"@, empty_object().with("include_usage"@, JsonModel::Bool(true)));
    let tooled = if r.tools.len() == 0 {
        plain
    } else {
        plain.with(
            "tools"@,
            JsonModel::Array(Seq::new(r.tools.len(), |i: int| chat_tool(r.tools[i]))),
        )
    };
    if r.json_object {
        tooled.with(
            "response_format"@,
            empty_object().with("type"@, JsonModel::Text("json_object"@)),
        )
    } else {
        tooled
    }
}

/// A tool call as an input item of Responses.
pub open spec fn responses_call(call: ToolCallModel) -> JsonModel {
    empty_object().with("type"@, JsonModel::Text("function_call"@)).with(
        "call_id"@,
        JsonModel::Text(call.id),
    ).with("name"@, JsonModel::Text(call.name)).with(
        "arguments"@,
        JsonModel::Text(json_text(call.arguments)),
    )
}

/// The input items of Responses that a message becomes.
pub open spec fn responses_items(m: MessageModel) -> Seq<JsonModel> {
    match m.tool_call_id {
        Some(id) => seq![
            empty_object().with("type"@, JsonModel::Text("function_call_output"@)).with(
                "call_id"@,
                JsonModel::Text(id),
            ).with("output"@, JsonModel::Text(m.content)),
        ],
        None => (if m.content.len() > 0 {
            seq![
                empty_object().with("role"@, JsonModel::Text(m.role)).with(
                    "content"@,
                    JsonModel::Text(m.content),
                ),
            ]
        } else {
            Seq::empty()
        }) + Seq::new(m.tool_calls.len(), |i: int| responses_call(m.tool_calls[i])),
    }
}

/// The input items of the first `n` messages.
pub open spec fn responses_input(messages: Seq<MessageModel>, n: nat) -> Seq<JsonModel>
    decreases n,
{
    if n == 0 {
        Seq::empty()
    } else {
        responses_input(messages, (n - 1) as nat) + responses_items(messages[n - 1])
    }
}

/// A tool of Responses.
pub open spec fn responses_tool(t: ToolSpecModel) -> JsonModel {
    empty_object().with("type"@, JsonModel::Text("function"@)).with(
        "name"@,
        JsonModel::Text(t.name),
    ).with("description"@, JsonModel::Text(t.description)).with("parameters"@, t.parameters).with(
        "strict"@,
        JsonModel::Bool(false),
    )
}

/// The body for Responses.
pub open spec fn responses_body(r: InvokeRequestModel) -> JsonModel {
    let plain = empty_object().with("model"@, JsonModel::Text(r.model.model)).with(
        "input"@,
        JsonModel::Array(responses_input(r.messages, r.messages.len())),
    ).with("max_output_tokens"@, count_model(r.output_tokens)).with(
        "stream"@,
        JsonModel::Bool(true),
    ).with("store"@, JsonModel::Bool(false));
    let tooled = if r.tools.len() == 0 {
        plain
    } else {
        plain.with(
            "tools"@,
            JsonModel::Array(Seq::new(r.tools.len(), |i: int| responses_tool(r.tools[i]))),
        )
    };
    if r.json_object {
        tooled.with(
            "text"@,
            empty_object().with(
                "format"@,
                empty_object().with("type"@, JsonModel::Text("json_object"@)),
            ),
        )
    } else {
        tooled
    }
}

/// The body of a request for its endpoint.
pub open spec fn body_of(r: InvokeRequestModel) -> JsonModel {
    match r.model.endpoint {
        Endpoint::ChatCompletions => chat_body(r),
        Endpoint::Responses => responses_body(r),
    }
}

/// The fault of a body that the SDK does not read as a request of its endpoint.
pub open spec fn body_fault(endpoint: Endpoint, read: bool) -> Option<EngineErrorModel> {
    if read {
        None
    } else {
        Some(
            failure(
                "protocol"@,
                match endpoint {
                    Endpoint::ChatCompletions => "invalid Chat Completions request"@,
                    Endpoint::Responses => "invalid Responses request"@,
                },
            ),
        )
    }
}

/// Whether the SDK reads a body as a request of an endpoint.
pub open spec fn sdk_reads(endpoint: Endpoint, body: JsonModel) -> bool {
    match endpoint {
        Endpoint::ChatCompletions => chat_request(body),
        Endpoint::Responses => responses_request(body),
    }
}

fn chat_call_value(call: &ToolCall) -> (r: Json)
    ensures
        r@ == chat_call(call.deep_view()),
{
    let arguments: String = call.arguments.to_text();
    ObjectBuilder::new().with("id", text_value(call.id.as_str())).with(
        "type",
        text_value("function"),
    ).with(
        "function",
        ObjectBuilder::new().with("name", text_value(call.name.as_str())).with(
            "arguments",
            text_value(arguments.as_str()),
        ).build(),
    ).build()
}

fn chat_message_value(m: &Message) -> (r: Json)
    ensures
        r@ == chat_message(m.deep_view()),
{
    let mut out: ObjectBuilder = ObjectBuilder::new().with(
        "role",
        text_value(m.role.as_str()),
    ).with("content", text_value(m.content.as_str()));
    if let Some(id) = &m.tool_call_id {
        out = out.with("tool_call_id", text_value(id.as_str()));
    }
    if m.tool_calls.len() > 0 {
        let mut calls: Vec<Json> = Vec::new();
        let mut i: usize = 0;
        while i < m.tool_calls.len()
            invariant
                i <= m.tool_calls@.len(),
                calls@.len() == i,
                forall|j: int|
                    0 <= j < i ==> (#[trigger] calls@[j])@ == chat_call(
                        m.deep_view().tool_calls[j],
                    ),
            decreases m.tool_calls@.len() - i,
        {
            calls.push(chat_call_value(&m.tool_calls[i]));
            i += 1;
        }
        assert(models(calls@) =~= Seq::new(
            m.tool_calls@.len(),
            |i: int| chat_call(m.deep_view().tool_calls[i]),
        ));
        out = out.with("tool_calls", array_value(calls));
    }
    out.build()
}

fn chat_tool_value(t: &ToolSpec) -> (r: Json)
    ensures
        r@ == chat_tool(t.deep_view()),
{
    ObjectBuilder::new().with("type", text_value("function")).with(
        "function",
        ObjectBuilder::new().with("name", text_value(t.name.as_str())).with(
            "description",
            text_value(t.description.as_str()),
        ).with("parameters", t.parameters.clone()).build(),
    ).build()
}

fn chat_body_value(r: &InvokeRequest) -> (res: Json)
    ensures
        res@ == chat_body(r.deep_view()),
{
    let ghost request = r.deep_view();
    let mut messages: Vec<Json> = Vec::new();
    let mut i: usize = 0;
    while i < r.messages.len()
        invariant
            i <= r.messages@.len(),
            request == r.deep_view(),
            messages@.len() == i,
            forall|j: int|
                0 <= j < i ==> (#[trigger] messages@[j])@ == chat_message(request.messages[j]),
        decreases r.messages@.len() - i,
    {
        assert(request.messages[i as int] == r.messages@[i as int].deep_view());
        messages.push(chat_message_value(&r.messages[i]));
        i += 1;
    }
    assert(models(messages@) =~= Seq::new(
        request.messages.len(),
        |i: int| chat_message(request.messages[i]),
    ));
    let mut body: ObjectBuilder = ObjectBuilder::new().with(
        "model",
        text_value(r.model.model.as_str()),
    ).with("messages", array_value(messages)).with(
        "max_completion_tokens",
        count_value(r.output_tokens),
    ).with("stream", Json::Bool(true)).with(
        "stream_options",
        ObjectBuilder::new().with("include_usage", Json::Bool(true)).build(),
    );
    if r.tools.len() > 0 {
        let mut tools: Vec<Json> = Vec::new();
        let mut k: usize = 0;
        while k < r.tools.len()
            invariant
                k <= r.tools@.len(),
                request == r.deep_view(),
                tools@.len() == k,
                forall|j: int|
                    0 <= j < k ==> (#[trigger] tools@[j])@ == chat_tool(request.tools[j]),
            decreases r.tools@.len() - k,
        {
            assert(request.tools[k as int] == r.tools@[k as int].deep_view());
            tools.push(chat_tool_value(&r.tools[k]));
            k += 1;
        }
        assert(models(tools@) =~= Seq::new(
            request.tools.len(),
            |i: int| chat_tool(request.tools[i]),
        ));
        body = body.with("tools", array_value(tools));
    }
    if r.json_object {
        body = body.with(
            "response_format",
            ObjectBuilder::new().with("type", text_value("json_object")).build(),
        );
    }
    body.build()
}

fn responses_call_value(call: &ToolCall) -> (r: Json)
    ensures
        r@ == responses_call(call.deep_view()),
{
    let arguments: String = call.arguments.to_text();
    ObjectBuilder::new().with("type", text_value("function_call")).with(
        "call_id",
        text_value(call.id.as_str()),
    ).with("name", text_value(call.name.as_str())).with(
        "arguments",
        text_value(arguments.as_str()),
    ).build()
}

fn push_responses_items(out: &mut Vec<Json>, m: &Message)
    ensures
        models(final(out)@) == models(old(out)@) + responses_items(m.deep_view()),
{
    let ghost before = models(out@);
    let ghost message = m.deep_view();
    match &m.tool_call_id {
        Some(call_id) => {
            let item: Json = ObjectBuilder::new().with(
                "type",
                text_value("function_call_output"),
            ).with("call_id", text_value(call_id.as_str())).with(
                "output",
                text_value(m.content.as_str()),
            ).build();
            out.push(item);
            assert(models(out@) =~= before + responses_items(message));
        },
        None => {
            if !m.content.as_str().is_empty() {
                let item: Json = ObjectBuilder::new().with(
                    "role",
                    text_value(m.role.as_str()),
                ).with("content", text_value(m.content.as_str())).build();
                out.push(item);
            }
            let ghost front = models(out@);
            let ghost calls = Seq::new(
                message.tool_calls.len(),
                |i: int| responses_call(message.tool_calls[i]),
            );
            let mut i: usize = 0;
            assert(front =~= front + calls.take(0));
            while i < m.tool_calls.len()
                invariant
                    i <= m.tool_calls@.len(),
                    message == m.deep_view(),
                    calls == Seq::new(
                        message.tool_calls.len(),
                        |i: int| responses_call(message.tool_calls[i]),
                    ),
                    models(out@) == front + calls.take(i as int),
                decreases m.tool_calls@.len() - i,
            {
                let ghost here = models(out@);
                assert(message.tool_calls[i as int] == m.tool_calls@[i as int].deep_view());
                out.push(responses_call_value(&m.tool_calls[i]));
                proof {
                    assert(models(out@) =~= here.push(calls[i as int]));
                    assert(calls.take(i + 1) =~= calls.take(i as int).push(calls[i as int]));
                    assert(models(out@) =~= front + calls.take(i + 1));
                }
                i += 1;
            }
            assert(calls.take(calls.len() as int) =~= calls);
            assert(models(out@) =~= before + responses_items(message));
        },
    }
}

fn responses_tool_value(t: &ToolSpec) -> (r: Json)
    ensures
        r@ == responses_tool(t.deep_view()),
{
    ObjectBuilder::new().with("type", text_value("function")).with(
        "name",
        text_value(t.name.as_str()),
    ).with("description", text_value(t.description.as_str())).with(
        "parameters",
        t.parameters.clone(),
    ).with("strict", Json::Bool(false)).build()
}

fn responses_body_value(r: &InvokeRequest) -> (res: Json)
    ensures
        res@ == responses_body(r.deep_view()),
{
    let ghost request = r.deep_view();
    let mut input: Vec<Json> = Vec::new();
    let mut i: usize = 0;
    assert(models(input@) =~= Seq::empty());
    while i < r.messages.len()
        invariant
            i <= r.messages@.len(),
            request == r.deep_view(),
            models(input@) == responses_input(request.messages, i as nat),
        decreases r.messages@.len() - i,
    {
        assert(request.messages[i as int] == r.messages@[i as int].deep_view());
        push_responses_items(&mut input, &r.messages[i]);
        i += 1;
    }
    let mut body: ObjectBuilder = ObjectBuilder::new().with(
        "model",
        text_value(r.model.model.as_str()),
    ).with("input", array_value(input)).with(
        "max_output_tokens",
        count_value(r.output_tokens),
    ).with("stream", Json::Bool(true)).with("store", Json::Bool(false));
    if r.tools.len() > 0 {
        let mut tools: Vec<Json> = Vec::new();
        let mut k: usize = 0;
        while k < r.tools.len()
            invariant
                k <= r.tools@.len(),
                request == r.deep_view(),
                tools@.len() == k,
                forall|j: int|
                    0 <= j < k ==> (#[trigger] tools@[j])@ == responses_tool(request.tools[j]),
            decreases r.tools@.len() - k,
        {
            assert(request.tools[k as int] == r.tools@[k as int].deep_view());
            tools.push(responses_tool_value(&r.tools[k]));
            k += 1;
        }
        assert(models(tools@) =~= Seq::new(
            request.tools.len(),
            |i: int| responses_tool(request.tools[i]),
        ));
        body = body.with("tools", array_value(tools));
    }
    if r.json_object {
        body = body.with(
            "text",
            ObjectBuilder::new().with(
                "format",
                ObjectBuilder::new().with("type", text_value("json_object")).build(),
            ).build(),
        );
    }
    body.build()
}

/// The body of a request, where the SDK reads it as a request of its endpoint.
pub fn wire_request(r: &InvokeRequest) -> (res: Result<Json, EngineError>)
    ensures
        answers(
            res,
            body_fault(
                r.model.endpoint,
                sdk_reads(r.model.endpoint, body_of(r.deep_view())),
            ),
        ),
        res is Ok ==> res->Ok_0@ == body_of(r.deep_view()),
{
    let body: Json = wire_body(r);
    let read: bool = match r.model.endpoint {
        Endpoint::ChatCompletions => reads_as_chat_request(&body),
        Endpoint::Responses => reads_as_responses_request(&body),
    };
    checked_body(r.model.endpoint, body, read)
}

/// The body of a request for its endpoint.
pub fn wire_body(r: &InvokeRequest) -> (res: Json)
    ensures
        res@ == body_of(r.deep_view()),
{
    match r.model.endpoint {
        Endpoint::ChatCompletions => chat_body_value(r),
        Endpoint::Responses => responses_body_value(r),
    }
}

/// A body, where the SDK has read it.
pub fn checked_body(endpoint: Endpoint, body: Json, read: bool) -> (res: Result<Json, EngineError>)
    ensures
        answers(res, body_fault(endpoint, read)),
        res is Ok ==> res->Ok_0@ == body@,
{
    if read {
        return Ok(body);
    }
    Err(
        EngineError::new(
            "protocol",
            match endpoint {
                Endpoint::ChatCompletions => "invalid Chat Completions request",
                Endpoint::Responses => "invalid Responses request",
            },
        ),
    )
}

/// The body for Chat Completions names the configured model, has one message for each message in
/// order, asks for at most the given number of tokens, streams and asks for the usage. Tools stand
/// there exactly where the request has some, and a JSON object is asked for exactly where the
/// request asks for one.
pub proof fn lemma_chat_body_says_the_request(r: InvokeRequestModel)
    requires
        r.model.endpoint == Endpoint::ChatCompletions,
    ensures
        ({
            let body = body_of(r);
            let messages = body.at("messages"@);
            let tools = body.at("tools"@);
            &&& body.at("model"@) == JsonModel::Text(r.model.model)
            &&& messages is Array && messages->Array_0.len() == r.messages.len()
            &&& forall|i: int|
                0 <= i < r.messages.len() ==> (#[trigger] messages->Array_0[i]).at("role"@)
                    == JsonModel::Text(r.messages[i].role) && messages->Array_0[i].at("content"@)
                    == JsonModel::Text(r.messages[i].content)
            &&& body.at("max_completion_tokens"@) == JsonModel::Number(
                NumberModel::PosInt(r.output_tokens),
            )
            &&& body.at("stream"@) == JsonModel::Bool(true)
            &&& body.at("stream_options"@).at("include_usage"@) == JsonModel::Bool(true)
            &&& r.tools.len() == 0 ==> !body.has("tools"@)
            &&& r.tools.len() > 0 ==> tools is Array && tools->Array_0.len() == r.tools.len()
            &&& forall|i: int|
                0 <= i < r.tools.len() ==> (#[trigger] tools->Array_0[i]).at("function"@).at(
                    "name"@,
                ) == JsonModel::Text(r.tools[i].name) && tools->Array_0[i].at("function"@).at(
                    "description"@,
                ) == JsonModel::Text(r.tools[i].description) && tools->Array_0[i].at(
                    "function"@,
                ).at("parameters"@) == r.tools[i].parameters && tools->Array_0[i].at("type"@)
                    == JsonModel::Text("function"@)
            &&& if r.json_object {
                body.at("response_format"@).at("type"@) == JsonModel::Text("json_object"@)
            } else {
                !body.has("response_format"@)
            }
        }),
{
    lemma_chat_names();
    lemma_tool_names();
    lemma_message_names();
    let body = body_of(r);
    let messages = body.at("messages"@);
    assert forall|i: int| 0 <= i < r.messages.len() implies (
    #[trigger] messages->Array_0[i]).at("role"@) == JsonModel::Text(r.messages[i].role)
        && messages->Array_0[i].at("content"@) == JsonModel::Text(r.messages[i].content) by {
        assert(messages->Array_0[i] == chat_message(r.messages[i]));
    }
    let tools = body.at("tools"@);
    assert forall|i: int| 0 <= i < r.tools.len() implies (#[trigger] tools->Array_0[i]).at(
        "function"@,
    ).at("name"@) == JsonModel::Text(r.tools[i].name) && tools->Array_0[i].at("function"@).at(
        "description"@,
    ) == JsonModel::Text(r.tools[i].description) && tools->Array_0[i].at("function"@).at(
        "parameters"@,
    ) == r.tools[i].parameters && tools->Array_0[i].at("type"@) == JsonModel::Text(
        "function"@,
    ) by {
        assert(tools->Array_0[i] == chat_tool(r.tools[i]));
    }
}

/// A message of Chat Completions names the call it answers exactly where it answers one, and has
/// one call for each tool call in order, with its ID, its name and its arguments as text.
pub proof fn lemma_chat_message_tells_its_calls(m: MessageModel)
    ensures
        ({
            let v = chat_message(m);
            let calls = v.at("tool_calls"@);
            &&& v.has("tool_call_id"@) <==> m.tool_call_id is Some
            &&& m.tool_call_id is Some ==> v.at("tool_call_id"@) == JsonModel::Text(
                m.tool_call_id->0,
            )
            &&& v.has("tool_calls"@) <==> m.tool_calls.len() > 0
            &&& m.tool_calls.len() > 0 ==> calls is Array && calls->Array_0.len()
                == m.tool_calls.len()
            &&& forall|i: int|
                0 <= i < m.tool_calls.len() ==> (#[trigger] calls->Array_0[i]).at("id"@)
                    == JsonModel::Text(m.tool_calls[i].id) && calls->Array_0[i].at("type"@)
                    == JsonModel::Text("function"@) && calls->Array_0[i].at("function"@).at(
                    "name"@,
                ) == JsonModel::Text(m.tool_calls[i].name) && calls->Array_0[i].at("function"@).at(
                    "arguments"@,
                ) == JsonModel::Text(json_text(m.tool_calls[i].arguments))
        }),
{
    lemma_message_names();
    lemma_call_names();
    let calls = chat_message(m).at("tool_calls"@);
    assert forall|i: int| 0 <= i < m.tool_calls.len() implies (
    #[trigger] calls->Array_0[i]).at("id"@) == JsonModel::Text(m.tool_calls[i].id)
        && calls->Array_0[i].at("type"@) == JsonModel::Text("function"@) && calls->Array_0[i].at(
        "function"@,
    ).at("name"@) == JsonModel::Text(m.tool_calls[i].name) && calls->Array_0[i].at(
        "function"@,
    ).at("arguments"@) == JsonModel::Text(json_text(m.tool_calls[i].arguments)) by {
        assert(calls->Array_0[i] == chat_call(m.tool_calls[i]));
    }
}

/// The body for Responses names the configured model, asks for at most the given number of tokens,
/// streams and asks that nothing be stored. Tools stand there exactly where the request has some,
/// and a JSON object is asked for exactly where the request asks for one.
pub proof fn lemma_responses_body_says_the_request(r: InvokeRequestModel)
    requires
        r.model.endpoint == Endpoint::Responses,
    ensures
        ({
            let body = body_of(r);
            let tools = body.at("tools"@);
            &&& body.at("model"@) == JsonModel::Text(r.model.model)
            &&& body.at("input"@) is Array
            &&& body.at("max_output_tokens"@) == JsonModel::Number(
                NumberModel::PosInt(r.output_tokens),
            )
            &&& body.at("stream"@) == JsonModel::Bool(true)
            &&& body.at("store"@) == JsonModel::Bool(false)
            &&& r.tools.len() == 0 ==> !body.has("tools"@)
            &&& r.tools.len() > 0 ==> tools is Array && tools->Array_0.len() == r.tools.len()
            &&& forall|i: int|
                0 <= i < r.tools.len() ==> (#[trigger] tools->Array_0[i]).at("name"@)
                    == JsonModel::Text(r.tools[i].name) && tools->Array_0[i].at("description"@)
                    == JsonModel::Text(r.tools[i].description) && tools->Array_0[i].at(
                    "parameters"@,
                ) == r.tools[i].parameters && tools->Array_0[i].at("type"@) == JsonModel::Text(
                    "function"@,
                ) && tools->Array_0[i].at("strict"@) == JsonModel::Bool(false)
            &&& if r.json_object {
                body.at("text"@).at("format"@).at("type"@) == JsonModel::Text("json_object"@)
            } else {
                !body.has("text"@)
            }
        }),
{
    lemma_responses_names();
    lemma_tool_names();
    let tools = body_of(r).at("tools"@);
    assert forall|i: int| 0 <= i < r.tools.len() implies (#[trigger] tools->Array_0[i]).at(
        "name"@,
    ) == JsonModel::Text(r.tools[i].name) && tools->Array_0[i].at("description"@)
        == JsonModel::Text(r.tools[i].description) && tools->Array_0[i].at("parameters"@)
        == r.tools[i].parameters && tools->Array_0[i].at("type"@) == JsonModel::Text("function"@)
        && tools->Array_0[i].at("strict"@) == JsonModel::Bool(false) by {
        assert(tools->Array_0[i] == responses_tool(r.tools[i]));
    }
}

/// What an input item of Responses says of the message it stands for.
pub open spec fn stands_for(item: JsonModel, m: MessageModel) -> bool {
    match m.tool_call_id {
        Some(id) => {
            &&& item.at("type"@) == JsonModel::Text("function_call_output"@)
            &&& item.at("call_id"@) == JsonModel::Text(id)
            &&& item.at("output"@) == JsonModel::Text(m.content)
        },
        None => {
            &&& item.at("role"@) == JsonModel::Text(m.role)
            &&& item.at("content"@) == JsonModel::Text(m.content)
            &&& !item.has("type"@)
        },
    }
}

/// What an input item of Responses says of a tool call.
pub open spec fn is_call_of(item: JsonModel, call: ToolCallModel) -> bool {
    &&& item.at("type"@) == JsonModel::Text("function_call"@)
    &&& item.at("call_id"@) == JsonModel::Text(call.id)
    &&& item.at("name"@) == JsonModel::Text(call.name)
    &&& item.at("arguments"@) == JsonModel::Text(json_text(call.arguments))
}

/// The input items of a Responses message: an answer to a call is one item; any other message is an
/// item where it has content, then one item for each of its calls in order.
pub proof fn lemma_responses_message_tells_its_calls(m: MessageModel, i: int)
    ensures
        ({
            let items = responses_items(m);
            let lead: int = if m.content.len() > 0 {
                1
            } else {
                0
            };
            &&& m.tool_call_id is Some ==> items.len() == 1 && stands_for(items[0], m)
            &&& m.tool_call_id is None ==> items.len() == lead + m.tool_calls.len()
            &&& m.tool_call_id is None && m.content.len() > 0 ==> stands_for(items[0], m)
            &&& m.tool_call_id is None && 0 <= i < m.tool_calls.len() ==> is_call_of(
                items[lead + i],
                m.tool_calls[i],
            )
        }),
{
    lemma_item_names();
}

/// The input of a Responses body holds the items of each message, all before those of the next.
pub proof fn lemma_responses_input_keeps_the_order(messages: Seq<MessageModel>, n: nat, k: int)
    requires
        n < messages.len(),
    ensures
        ({
            let before = responses_input(messages, n);
            let after = responses_input(messages, n + 1);
            let items = responses_items(messages[n as int]);
            &&& responses_input(messages, 0).len() == 0
            &&& after.len() == before.len() + items.len()
            &&& 0 <= k < before.len() ==> after[k] == before[k]
            &&& 0 <= k < items.len() ==> after[before.len() + k] == items[k]
        }),
{
    reveal_with_fuel(responses_input, 2);
}

proof fn lemma_chat_names()
    ensures
        "model"@ != "messages"@,
        "model"@ != "max_completion_tokens"@,
        "model"@ != "stream"@,
        "model"@ != "stream_options"@,
        "model"@ != "tools"@,
        "model"@ != "response_format"@,
        "messages"@ != "max_completion_tokens"@,
        "messages"@ != "stream"@,
        "messages"@ != "stream_options"@,
        "messages"@ != "tools"@,
        "messages"@ != "response_format"@,
        "max_completion_tokens"@ != "stream"@,
        "max_completion_tokens"@ != "stream_options"@,
        "max_completion_tokens"@ != "tools"@,
        "max_completion_tokens"@ != "response_format"@,
        "stream"@ != "stream_options"@,
        "stream"@ != "tools"@,
        "stream"@ != "response_format"@,
        "stream_options"@ != "tools"@,
        "stream_options"@ != "response_format"@,
        "tools"@ != "response_format"@,
{
    reveal_strlit("model");
    reveal_strlit("messages");
    reveal_strlit("max_completion_tokens");
    reveal_strlit("stream");
    reveal_strlit("stream_options");
    reveal_strlit("tools");
    reveal_strlit("response_format");
    assert("model"@.len() == 5);
    assert("messages"@.len() == 8);
    assert("max_completion_tokens"@.len() == 21);
    assert("stream"@.len() == 6);
    assert("stream_options"@.len() == 14);
    assert("tools"@.len() == 5);
    assert("response_format"@.len() == 15);
    assert("model"@[0] != "tools"@[0]);
}

proof fn lemma_tool_names()
    ensures
        "type"@ != "function"@,
        "type"@ != "name"@,
        "type"@ != "description"@,
        "type"@ != "parameters"@,
        "type"@ != "strict"@,
        "function"@ != "name"@,
        "function"@ != "description"@,
        "function"@ != "parameters"@,
        "function"@ != "strict"@,
        "name"@ != "description"@,
        "name"@ != "parameters"@,
        "name"@ != "strict"@,
        "description"@ != "parameters"@,
        "description"@ != "strict"@,
        "parameters"@ != "strict"@,
{
    reveal_strlit("type");
    reveal_strlit("function");
    reveal_strlit("name");
    reveal_strlit("description");
    reveal_strlit("parameters");
    reveal_strlit("strict");
    assert("type"@.len() == 4);
    assert("function"@.len() == 8);
    assert("name"@.len() == 4);
    assert("description"@.len() == 11);
    assert("parameters"@.len() == 10);
    assert("strict"@.len() == 6);
    assert("type"@[0] != "name"@[0]);
}

proof fn lemma_message_names()
    ensures
        "role"@ != "content"@,
        "role"@ != "tool_call_id"@,
        "role"@ != "tool_calls"@,
        "content"@ != "tool_call_id"@,
        "content"@ != "tool_calls"@,
        "tool_call_id"@ != "tool_calls"@,
{
    reveal_strlit("role");
    reveal_strlit("content");
    reveal_strlit("tool_call_id");
    reveal_strlit("tool_calls");
    assert("role"@.len() == 4);
    assert("content"@.len() == 7);
    assert("tool_call_id"@.len() == 12);
    assert("tool_calls"@.len() == 10);
}

proof fn lemma_call_names()
    ensures
        "id"@ != "type"@,
        "id"@ != "function"@,
        "id"@ != "name"@,
        "id"@ != "arguments"@,
        "type"@ != "function"@,
        "type"@ != "name"@,
        "type"@ != "arguments"@,
        "function"@ != "name"@,
        "function"@ != "arguments"@,
        "name"@ != "arguments"@,
{
    reveal_strlit("id");
    reveal_strlit("type");
    reveal_strlit("function");
    reveal_strlit("name");
    reveal_strlit("arguments");
    assert("id"@.len() == 2);
    assert("type"@.len() == 4);
    assert("function"@.len() == 8);
    assert("name"@.len() == 4);
    assert("arguments"@.len() == 9);
    assert("type"@[0] != "name"@[0]);
}

proof fn lemma_responses_names()
    ensures
        "model"@ != "input"@,
        "model"@ != "max_output_tokens"@,
        "model"@ != "stream"@,
        "model"@ != "store"@,
        "model"@ != "tools"@,
        "model"@ != "text"@,
        "input"@ != "max_output_tokens"@,
        "input"@ != "stream"@,
        "input"@ != "store"@,
        "input"@ != "tools"@,
        "input"@ != "text"@,
        "max_output_tokens"@ != "stream"@,
        "max_output_tokens"@ != "store"@,
        "max_output_tokens"@ != "tools"@,
        "max_output_tokens"@ != "text"@,
        "stream"@ != "store"@,
        "stream"@ != "tools"@,
        "stream"@ != "text"@,
        "store"@ != "tools"@,
        "store"@ != "text"@,
        "tools"@ != "text"@,
{
    reveal_strlit("model");
    reveal_strlit("input");
    reveal_strlit("max_output_tokens");
    reveal_strlit("stream");
    reveal_strlit("store");
    reveal_strlit("tools");
    reveal_strlit("text");
    assert("model"@.len() == 5);
    assert("input"@.len() == 5);
    assert("max_output_tokens"@.len() == 17);
    assert("stream"@.len() == 6);
    assert("store"@.len() == 5);
    assert("tools"@.len() == 5);
    assert("text"@.len() == 4);
    assert("model"@[0] != "input"@[0]);
    assert("model"@[0] != "store"@[0]);
    assert("model"@[0] != "tools"@[0]);
    assert("input"@[0] != "store"@[0]);
    assert("input"@[0] != "tools"@[0]);
    assert("store"@[0] != "tools"@[0]);
}

proof fn lemma_item_names()
    ensures
        "type"@ != "call_id"@,
        "type"@ != "name"@,
        "type"@ != "arguments"@,
        "type"@ != "output"@,
        "type"@ != "role"@,
        "type"@ != "content"@,
        "call_id"@ != "name"@,
        "call_id"@ != "arguments"@,
        "call_id"@ != "output"@,
        "call_id"@ != "role"@,
        "call_id"@ != "content"@,
        "name"@ != "arguments"@,
        "name"@ != "output"@,
        "name"@ != "role"@,
        "name"@ != "content"@,
        "arguments"@ != "output"@,
        "arguments"@ != "role"@,
        "arguments"@ != "content"@,
        "output"@ != "role"@,
        "output"@ != "content"@,
        "role"@ != "content"@,
{
    reveal_strlit("type");
    reveal_strlit("call_id");
    reveal_strlit("name");
    reveal_strlit("arguments");
    reveal_strlit("output");
    reveal_strlit("role");
    reveal_strlit("content");
    assert("type"@.len() == 4);
    assert("call_id"@.len() == 7);
    assert("name"@.len() == 4);
    assert("arguments"@.len() == 9);
    assert("output"@.len() == 6);
    assert("role"@.len() == 4);
    assert("content"@.len() == 7);
    assert("type"@[0] != "name"@[0]);
    assert("type"@[0] != "role"@[0]);
    assert("call_id"@[1] != "content"@[1]);
    assert("name"@[0] != "role"@[0]);
}

/// A body is sent exactly where the SDK reads it as a request of its endpoint.
pub proof fn lemma_which_body_is_sent(endpoint: Endpoint, body: JsonModel)
    ensures
        body_fault(endpoint, sdk_reads(endpoint, body)) is None <==> match endpoint {
            Endpoint::ChatCompletions => chat_request(body),
            Endpoint::Responses => responses_request(body),
        },
        body_fault(endpoint, false)->0.kind == "protocol"@,
{
}

} // verus!
