use model_collaboration_engine::adapter::evidence::ModelEvidence;
use model_collaboration_engine::adapter::sse::{
    check_response, delta_event, endpoint_url, StreamLimits, StreamReader,
};
use model_collaboration_engine::adapter::stream::Accumulator;
use model_collaboration_engine::adapter::wire::{checked_body, wire_body, wire_request};
use model_collaboration_engine::adapter::{InvokeRequest, Message, ModelOutput};
use model_collaboration_engine::assessment::ExecutionClass;
use model_collaboration_engine::binary64::number;
use model_collaboration_engine::contracts::{
    Endpoint, EngineError, Model, ToolCall, ToolSpec, Usage,
};
use model_collaboration_engine::contracts::encoding::Encode;
use model_collaboration_engine::events::{check_delivery, check_encoded, Delivery, Event};
use model_collaboration_engine::json::{member, parse, Json};
use model_collaboration_engine::text::TextSet;

fn model(endpoint: Endpoint) -> Model {
    Model {
        id: "local".into(),
        model: "model-name".into(),
        version: "1".into(),
        endpoint,
        base_url: "http://127.0.0.1:8000/v1/".into(),
        api_key_env: "MODEL_API_KEY".into(),
        provider: "local".into(),
        region: "local".into(),
        local: true,
        capabilities: TextSet::new(),
        context_tokens: 32_768,
        input_price: 1,
        output_price: 2,
        price_version: "1".into(),
        acceptance: number(0.8f64.to_bits()),
        reliability: number(0.9f64.to_bits()),
        latency_ms: 1000,
        uncertainty: number(0.1f64.to_bits()),
        execution_class: ExecutionClass::Simple,
    }
}

fn json(text: &str) -> Json {
    parse(text).unwrap()
}

fn said(role: &str, content: &str) -> Message {
    Message {
        role: role.into(),
        content: content.into(),
        tool_calls: vec![],
        tool_call_id: None,
    }
}

fn request(endpoint: Endpoint) -> InvokeRequest {
    let mut calling = said("assistant", "");
    calling.tool_calls.push(ToolCall {
        id: "call-0".into(),
        name: "lookup".into(),
        arguments: json(r#"{"query":"x"}"#),
    });
    let mut answering = said("tool", "lookup result");
    answering.tool_call_id = Some("call-0".into());
    InvokeRequest {
        model: model(endpoint),
        messages: vec![said("user", "goal"), calling, answering],
        tools: vec![ToolSpec {
            name: "lookup".into(),
            description: "look something up".into(),
            parameters: json(r#"{"type":"object"}"#),
            max_cost: 50,
        }],
        json_object: true,
        output_tokens: 100,
        task_id: "task".into(),
        node: "invoke".into(),
        attempt_id: "attempt".into(),
    }
}

#[test]
fn chat_requests_carry_messages_tools_and_format() {
    let body = wire_request(&request(Endpoint::ChatCompletions)).unwrap();
    let expected = json(
        r#"{"model":"model-name","messages":[{"role":"user","content":"goal"},{"role":"assistant","content":"","tool_calls":[{"id":"call-0","type":"function","function":{"name":"lookup","arguments":"{\"query\":\"x\"}"}}]},{"role":"tool","content":"lookup result","tool_call_id":"call-0"}],"max_completion_tokens":100,"stream":true,"stream_options":{"include_usage":true},"tools":[{"type":"function","function":{"name":"lookup","description":"look something up","parameters":{"type":"object"}}}],"response_format":{"type":"json_object"}}"#,
    );
    assert_eq!(body.to_text(), expected.to_text());
}

#[test]
fn responses_requests_carry_items_tools_and_format() {
    let body = wire_request(&request(Endpoint::Responses)).unwrap();
    let expected = json(
        r#"{"model":"model-name","input":[{"role":"user","content":"goal"},{"type":"function_call","call_id":"call-0","name":"lookup","arguments":"{\"query\":\"x\"}"},{"type":"function_call_output","call_id":"call-0","output":"lookup result"}],"max_output_tokens":100,"stream":true,"store":false,"tools":[{"type":"function","name":"lookup","description":"look something up","parameters":{"type":"object"},"strict":false}],"text":{"format":{"type":"json_object"}}}"#,
    );
    assert_eq!(body.to_text(), expected.to_text());
}

#[test]
fn plain_requests_leave_tools_and_format_out() {
    let mut plain = request(Endpoint::ChatCompletions);
    plain.tools = vec![];
    plain.json_object = false;
    let body = wire_body(&plain);
    assert!(member(Some(&body), "tools").is_none());
    assert!(member(Some(&body), "response_format").is_none());
}

#[test]
fn requests_that_the_protocol_does_not_know_are_refused() {
    let mut odd = request(Endpoint::ChatCompletions);
    odd.messages = vec![said("stranger", "goal")];
    let error = wire_request(&odd).unwrap_err();
    assert_eq!(error.kind, "protocol");
    assert_eq!(error.message, "invalid Chat Completions request");
    let mut odd = request(Endpoint::Responses);
    odd.output_tokens = u64::MAX;
    assert_eq!(wire_request(&odd).unwrap_err().message, "invalid Responses request");
    let error = checked_body(Endpoint::Responses, Json::Null, false).unwrap_err();
    assert_eq!(error.message, "invalid Responses request");
    assert!(checked_body(Endpoint::Responses, Json::Null, true).is_ok());
}

fn limits(endpoint: Endpoint) -> StreamLimits {
    StreamLimits {
        endpoint,
        frame_bytes: 4096,
        output_bytes: 4096,
        event_bytes: 64,
    }
}

/// Feeds a whole stream, and gives the increments with the output.
fn read(limits: StreamLimits, stream: &[u8]) -> Result<(Vec<String>, ModelOutput), EngineError> {
    let mut reader = StreamReader::new(limits);
    let mut parts = vec![];
    for byte in stream {
        parts.extend(reader.feed(*byte)?);
        if reader.ended {
            break;
        }
    }
    Ok((parts, reader.finish()?))
}

#[test]
fn chat_stream_yields_increments_tools_usage_and_completion() {
    let stream = concat_lines(&[
        r#"data: {"id":"req-1","choices":[{"index":0,"delta":{"content":"Hel"}}]}"#,
        "",
        ": a comment",
        r#"data: {"choices":[{"index":1,"delta":{"content":"other"}}]}"#,
        "",
        r#"data: {"choices":[{"index":0,"delta":{"content":"lo","tool_calls":[{"index":0,"id":"c1","function":{"name":"look","arguments":"{\"a\""}}]}}]}"#,
        "",
        r#"data: {"choices":[{"index":0,"delta":{"tool_calls":[{"index":0,"function":{"name":"up","arguments":":1}"}}]},"finish_reason":"tool_calls"}],"usage":{"prompt_tokens":10,"completion_tokens":5}}"#,
        "",
        "data: [DONE]",
        "",
        "",
    ]);
    let (parts, output) = read(limits(Endpoint::ChatCompletions), stream.as_bytes()).unwrap();
    assert_eq!(parts, vec!["Hel", "lo"]);
    assert_eq!(output.text, "Hello");
    assert_eq!(output.request_id.as_deref(), Some("req-1"));
    assert!(output.complete);
    assert_eq!(output.tool_calls.len(), 1);
    assert_eq!(output.tool_calls[0].id, "c1");
    assert_eq!(output.tool_calls[0].name, "lookup");
    assert_eq!(output.tool_calls[0].arguments.to_text(), r#"{"a":1}"#);
    let usage = output.usage.unwrap();
    assert_eq!((usage.input_tokens, usage.output_tokens), (10, 5));
}

fn concat_lines(lines: &[&str]) -> String {
    lines.join("\r\n")
}

#[test]
fn responses_stream_yields_the_final_response() {
    let stream = concat_lines(&[
        r#"data: {"type":"response.output_text.delta","delta":"hi"}"#,
        "",
        r#"data: {"type":"response.reasoning.delta","delta":"hidden"}"#,
        "",
        r#"data: {"type":"response.completed","response":{"id":"r1","status":"completed","usage":{"input_tokens":3,"output_tokens":2},"output":[{"type":"message"},{"type":"function_call","call_id":"c","name":"n","arguments":"{}"}]}}"#,
        "",
        "",
    ]);
    let (parts, output) = read(limits(Endpoint::Responses), stream.as_bytes()).unwrap();
    assert_eq!(parts, vec!["hi"]);
    assert_eq!(output.text, "hi");
    assert!(output.complete);
    assert_eq!(output.request_id.as_deref(), Some("r1"));
    assert_eq!(output.tool_calls[0].id, "c");
    assert_eq!(output.usage.unwrap().input_tokens, 3);
    let stream = "data: {\"type\":\"response.incomplete\",\"response\":{\"status\":\"incomplete\"}}\n\n";
    let (_, output) = read(limits(Endpoint::Responses), stream.as_bytes()).unwrap();
    assert!(!output.complete);
    assert!(output.usage.is_none());
}

fn failure(endpoint: Endpoint, stream: &[u8]) -> (String, String) {
    match read(limits(endpoint), stream) {
        Ok(_) => panic!("the stream is accepted"),
        Err(e) => (e.kind, e.message),
    }
}

#[test]
fn each_fault_of_a_stream_has_its_error() {
    let chat = Endpoint::ChatCompletions;
    let cases: Vec<(Endpoint, Vec<u8>, &str, &str)> = vec![
        (chat, b"data: {\"error\":1}\n\n".to_vec(), "model", "provider returned a stream error"),
        (
            Endpoint::Responses,
            b"data: {\"type\":\"error\"}\n\n".to_vec(),
            "model",
            "Responses stream error",
        ),
        (chat, b"data: nothing\n\n".to_vec(), "protocol", "invalid SSE JSON"),
        (chat, b"\xff\n".to_vec(), "protocol", "invalid SSE UTF-8"),
        (chat, b"data: {}".to_vec(), "protocol", "truncated SSE frame"),
        (chat, b"data: {}\n".to_vec(), "protocol", "truncated SSE frame"),
        (
            chat,
            b"data: {\"choices\":[{\"delta\":{\"tool_calls\":[{\"id\":\"x\"}]}}]}\n\n".to_vec(),
            "protocol",
            "tool index missing",
        ),
        (
            chat,
            b"data: {\"choices\":[{\"delta\":{\"tool_calls\":[{\"index\":0}]}}]}\n\n".to_vec(),
            "protocol",
            "incomplete tool call",
        ),
        (chat, vec![b'x'; 4097], "protocol", "SSE frame exceeds byte limit"),
    ];
    for (endpoint, stream, kind, message) in cases {
        assert_eq!(failure(endpoint, &stream), (kind.to_owned(), message.to_owned()));
    }
    let mut small = limits(chat);
    small.output_bytes = 3;
    let stream = b"data: {\"choices\":[{\"delta\":{\"content\":\"four\"}}]}\n\n";
    assert_eq!(
        read(small, stream).unwrap_err().message,
        "model output exceeds byte or tool count limit"
    );
    let mut acc = Accumulator::new();
    let frame = json(
        r#"{"choices":[{"delta":{"tool_calls":[{"index":0,"id":"x","function":{"name":"n","arguments":"{"}}]}}]}"#,
    );
    acc.frame(&frame, chat).unwrap();
    assert_eq!(acc.finish().unwrap_err().message, "invalid tool argument JSON");
}

#[test]
fn increments_are_split_on_character_boundaries() {
    let stream = "data: {\"choices\":[{\"delta\":{\"content\":\"aaaaaaé€b\"}}]}\n\n";
    let (parts, output) = read(limits(Endpoint::ChatCompletions), stream.as_bytes()).unwrap();
    assert_eq!(parts, vec!["aaaaaaé", "€b"]);
    assert_eq!(parts.concat(), output.text);
}

#[test]
fn tool_parts_stay_in_the_order_of_their_indices() {
    let mut acc = Accumulator::new();
    for index in [2, 0, 1] {
        let frame = format!(
            r#"{{"choices":[{{"delta":{{"tool_calls":[{{"index":{index},"id":"id-{index}","function":{{"name":"n","arguments":"{{}}"}}}}]}}}}]}}"#
        );
        acc.frame(&json(&frame), Endpoint::ChatCompletions).unwrap();
    }
    assert!(!acc.exceeds(100));
    assert!(acc.exceeds(20));
    let ids: Vec<String> = acc.finish().unwrap().tool_calls.into_iter().map(|c| c.id).collect();
    assert_eq!(ids, vec!["id-0", "id-1", "id-2"]);
}

#[test]
fn responses_are_checked_before_they_are_read() {
    assert!(check_response(200, Some("text/event-stream; charset=utf-8")).is_ok());
    let refused = check_response(429, Some("text/event-stream")).unwrap_err();
    assert_eq!(refused.kind, "model");
    assert_eq!(refused.details.to_text(), r#"{"http_status":429}"#);
    assert_eq!(check_response(200, None).unwrap_err().kind, "protocol");
    assert_eq!(
        check_response(204, Some("application/json")).unwrap_err().message,
        "expected an SSE response"
    );
}

#[test]
fn endpoints_have_their_own_paths() {
    assert_eq!(
        endpoint_url(&model(Endpoint::ChatCompletions)),
        "http://127.0.0.1:8000/v1/chat/completions"
    );
    assert_eq!(
        endpoint_url(&model(Endpoint::Responses)),
        "http://127.0.0.1:8000/v1/responses"
    );
}

#[test]
fn increments_of_a_planner_are_not_told() {
    let mut r = request(Endpoint::Responses);
    let event = delta_event(&r, "text", 7, 9).unwrap();
    assert_eq!(event.kind, "content_delta");
    assert_eq!((event.sequence, event.timestamp_ms), (7, 9));
    assert_eq!(event.data.to_text(), r#"{"stage":"candidate","text":"text"}"#);
    r.node = "planner".into();
    assert!(delta_event(&r, "text", 7, 9).is_none());
}

#[test]
fn received_evidence_is_not_erased() {
    let mut evidence = ModelEvidence::default();
    assert!(evidence.snapshot().usage.is_none());
    assert!(evidence.snapshot().request_id.is_none());
    let usage = Usage {
        input_tokens: 10,
        output_tokens: 5,
    };
    evidence.record(Some(usage), None);
    let before = evidence.snapshot();
    evidence.record(None, Some("r1".into()));
    evidence.record(None, None);
    let received = evidence.snapshot();
    let usage = received.usage.as_ref().unwrap();
    assert_eq!((usage.input_tokens, usage.output_tokens), (10, 5));
    assert_eq!(received.request_id.as_deref(), Some("r1"));
    assert!(before.request_id.is_none());
    let copy = received.clone();
    evidence.record(None, Some("second".into()));
    assert_eq!(evidence.snapshot().request_id.as_deref(), Some("second"));
    assert_eq!(copy.request_id.as_deref(), Some("r1"));
}

#[test]
fn chunk_boundaries_do_not_matter() {
    let text = concat_lines(&[
        r#"data: {"type":"response.output_text.delta","delta":"Käse 𝄞 und mehr"}"#,
        "",
        r#"data: {"type":"response.output_text.delta","delta":", dann der Rest"}"#,
        "",
        "data: nothing",
        "",
        "data: [DONE]",
        "",
        "",
    ]);
    let good = text.replace("data: nothing\r\n\r\n", "");
    for stream in [text.as_bytes(), good.as_bytes()] {
        let mut seen: Option<(Vec<String>, Option<String>, String, bool)> = None;
        for size in 1..=stream.len() {
            let mut reader = StreamReader::new(limits(Endpoint::Responses));
            let mut parts = vec![];
            let mut fault = None;
            for chunk in stream.chunks(size) {
                let received = reader.take_chunk(chunk);
                parts.extend(received.parts);
                if let Some(e) = received.fault {
                    fault = Some(e.message);
                    break;
                }
            }
            let now = (parts, fault, reader.acc.text.clone(), reader.ended);
            assert_eq!(*seen.get_or_insert(now.clone()), now);
        }
        let (parts, fault, text, ended) = seen.unwrap();
        assert_eq!(parts.concat(), "Käse 𝄞 und mehr, dann der Rest");
        assert_eq!(text, parts.concat());
        assert_eq!(fault.is_none(), ended);
        assert!(ended || fault.as_deref() == Some("invalid SSE JSON"));
    }
}

#[test]
fn events_are_bounded_and_their_consumer_may_go() {
    let event = Event {
        task_id: "task".into(),
        node_id: None,
        attempt_id: Some("é".into()),
        sequence: 7,
        timestamp_ms: 9,
        kind: "content_delta".into(),
        data: json(r#"{"text":"a\nb"}"#),
    };
    let text = r#"{"attempt_id":"é","data":{"text":"a\nb"},"kind":"content_delta","node_id":null,"sequence":7,"task_id":"task","timestamp_ms":9}"#;
    assert_eq!(event.to_json().to_text(), text);
    assert!(event.check_size(text.len()).is_ok());
    let error = event.check_size(text.len() - 1).unwrap_err();
    assert_eq!(error.kind, "protocol");
    assert_eq!(error.message, "event exceeds configured size limit");
    assert!(check_encoded("é", 2).is_ok());
    assert_eq!(check_encoded("é", 1).unwrap_err().kind, "protocol");
    assert!(check_delivery(Delivery::Sent).is_ok());
    assert!(check_delivery(Delivery::ConsumerGone).is_ok());
    assert_eq!(check_delivery(Delivery::Cancelled).unwrap_err().kind, "cancelled");
    assert_eq!(check_delivery(Delivery::TimedOut).unwrap_err().kind, "deadline");
}

#[test]
fn increments_join_to_the_text_of_the_output() {
    let words = ["Ein Käse, ", "zwei 𝄞𝄞 und ", "noch etwas Text"];
    let mut frames = String::new();
    for word in words {
        frames.push_str(&format!(
            "data: {{\"type\":\"response.output_text.delta\",\"delta\":\"{word}\"}}\r\n\r\n"
        ));
    }
    frames.push_str("data: [DONE]\n\n");
    let (parts, output) = read(limits(Endpoint::Responses), frames.as_bytes()).unwrap();
    assert_eq!(output.text, words.concat());
    assert_eq!(parts.concat(), output.text);
    assert!(parts.len() > words.len());
    assert!(parts.iter().all(|part| part.len() <= 8));
}

#[test]
fn a_reader_holds_no_more_than_its_limits() {
    let mut bounded = limits(Endpoint::Responses);
    bounded.frame_bytes = 12;
    let mut reader = StreamReader::new(bounded);
    for byte in b"data: ab\ndata:c\n" {
        assert!(reader.feed(*byte).unwrap().is_empty());
        assert!(reader.line.len() + reader.data.len() <= 12);
    }
    assert_eq!(reader.data, "ab\nc\n");
    for byte in b"1234567" {
        assert!(reader.feed(*byte).is_ok());
    }
    assert_eq!(reader.feed(b'8').unwrap_err().message, "SSE frame exceeds byte limit");
}
