//! Streamed output of both endpoints, gathered frame by frame.
use super::{ModelOutput, ModelOutputModel};
use crate::contracts::task::{Endpoint, ToolCall, ToolCallModel, Usage, UsageModel};
use crate::fault::{
    answers, failure, first_fault, lemma_first_fault, lemma_first_fault_at,
    lemma_first_fault_is_one, EngineError, EngineErrorModel,
};
use crate::json::{
    as_array, as_count, as_text, is_null, is_text, member, models, parse, parsed_json, seen, Json,
    JsonModel, NumberModel,
};
use crate::model::Duplicate;
use crate::text::{byte_count, byte_len, join, same_text};
use vstd::prelude::*;

verus! {

/// A tool call under construction.
#[derive(Debug)]
pub struct ToolPart {
    pub index: u64,
    pub id: String,
    pub name: String,
    pub arguments: String,
}

/// What a `ToolPart` holds.
#[verifier::ext_equal]
pub ghost struct ToolPartModel {
    pub index: u64,
    pub id: Seq<char>,
    pub name: Seq<char>,
    pub arguments: Seq<char>,
}

impl DeepView for ToolPart {
    type V = ToolPartModel;

    open spec fn deep_view(&self) -> ToolPartModel {
        ToolPartModel {
            index: self.index.deep_view(),
            id: self.id.deep_view(),
            name: self.name.deep_view(),
            arguments: self.arguments.deep_view(),
        }
    }
}

impl Duplicate for ToolPart {
    fn duplicate(&self) -> (r: Self) {
        ToolPart {
            index: self.index.duplicate(),
            id: self.id.duplicate(),
            name: self.name.duplicate(),
            arguments: self.arguments.duplicate(),
        }
    }
}

impl Clone for ToolPart {
    fn clone(&self) -> (r: Self)
        ensures
            r.deep_view() == self.deep_view(),
    {
        self.duplicate()
    }
}

/// What has been received of an output. Tool calls are in the order of their index.
#[derive(Debug)]
pub struct Accumulator {
    pub text: String,
    pub tools: Vec<ToolPart>,
    pub usage: Option<Usage>,
    pub request_id: Option<String>,
    pub complete: bool,
}

/// What a `Accumulator` holds.
#[verifier::ext_equal]
pub ghost struct AccumulatorModel {
    pub text: Seq<char>,
    pub tools: Seq<ToolPartModel>,
    pub usage: Option<UsageModel>,
    pub request_id: Option<Seq<char>>,
    pub complete: bool,
}

impl DeepView for Accumulator {
    type V = AccumulatorModel;

    open spec fn deep_view(&self) -> AccumulatorModel {
        AccumulatorModel {
            text: self.text.deep_view(),
            tools: self.tools.deep_view(),
            usage: self.usage.deep_view(),
            request_id: self.request_id.deep_view(),
            complete: self.complete.deep_view(),
        }
    }
}

impl Duplicate for Accumulator {
    fn duplicate(&self) -> (r: Self) {
        Accumulator {
            text: self.text.duplicate(),
            tools: self.tools.duplicate(),
            usage: self.usage.duplicate(),
            request_id: self.request_id.duplicate(),
            complete: self.complete.duplicate(),
        }
    }
}

impl Clone for Accumulator {
    fn clone(&self) -> (r: Self)
        ensures
            r.deep_view() == self.deep_view(),
    {
        self.duplicate()
    }
}

/// Where an index stands, or would be put, among parts.
pub open spec fn slot(tools: Seq<ToolPartModel>, index: u64) -> nat
    decreases tools.len(),
{
    if tools.len() == 0 || tools[0].index >= index {
        0
    } else {
        1 + slot(tools.drop_first(), index)
    }
}

/// The parts with one put in at its index, in place of one there.
pub open spec fn put(tools: Seq<ToolPartModel>, part: ToolPartModel) -> Seq<ToolPartModel> {
    let k = slot(tools, part.index) as int;
    if k < tools.len() && tools[k].index == part.index {
        tools.update(k, part)
    } else {
        tools.insert(k, part)
    }
}

/// The part at an index; an empty one where there is none.
pub open spec fn part_at(tools: Seq<ToolPartModel>, index: u64) -> ToolPartModel {
    let k = slot(tools, index) as int;
    if k < tools.len() && tools[k].index == index {
        tools[k]
    } else {
        ToolPartModel { index, id: Seq::empty(), name: Seq::empty(), arguments: Seq::empty() }
    }
}

/// A text, empty where the value is none.
pub open spec fn text_or_empty(v: JsonModel) -> Seq<char> {
    match v.text() {
        Some(s) => s,
        None => Seq::empty(),
    }
}

/// The usage of a value, where both counts are there.
pub open spec fn usage_of(v: JsonModel, input: Seq<char>, output: Seq<char>) -> Option<UsageModel> {
    match (v.at(input).count(), v.at(output).count()) {
        (Some(i), Some(o)) => Some(UsageModel { input_tokens: i, output_tokens: o }),
        _ => None,
    }
}

/// What comes of a frame: the output gathered, the text received, and a fault that ends it.
#[verifier::ext_equal]
pub ghost struct Step {
    pub acc: AccumulatorModel,
    pub delta: Option<Seq<char>>,
    pub fault: Option<EngineErrorModel>,
}

/// The first `n` tool fragments of a choice.
pub open spec fn chat_tools(acc: AccumulatorModel, items: Seq<JsonModel>, n: nat) -> (
    AccumulatorModel,
    Option<EngineErrorModel>,
)
    decreases n,
{
    if n == 0 {
        (acc, None)
    } else {
        let (before, fault) = chat_tools(acc, items, (n - 1) as nat);
        let t = items[n - 1];
        if fault is Some {
            (before, fault)
        } else {
            match t.at("index"@).count() {
                None => (before, Some(failure("protocol"@, "tool index missing"@))),
                Some(index) => {
                    let part = part_at(before.tools, index);
                    (
                        AccumulatorModel {
                            tools: put(
                                before.tools,
                                ToolPartModel {
                                    index,
                                    id: part.id + text_or_empty(t.at("id"@)),
                                    name: part.name + text_or_empty(
                                        t.at("function"@).at("name"@),
                                    ),
                                    arguments: part.arguments + text_or_empty(
                                        t.at("function"@).at("arguments"@),
                                    ),
                                },
                            ),
                            ..before
                        },
                        None,
                    )
                },
            }
        }
    }
}

/// One choice of a frame. Only the first alternative counts.
pub open spec fn chat_choice(step: Step, choice: JsonModel) -> Step {
    let index = choice.at("index"@).count();
    let d = choice.at("delta"@);
    if step.fault is Some || (index is Some && index->0 != 0) {
        step
    } else {
        let worded = match d.at("content"@).text() {
            Some(s) => AccumulatorModel { text: step.acc.text + s, ..step.acc },
            None => step.acc,
        };
        let delta = match d.at("content"@).text() {
            Some(s) => Some(s),
            None => step.delta,
        };
        let (tooled, fault) = match d.at("tool_calls"@).items() {
            Some(items) => chat_tools(worded, items, items.len()),
            None => (worded, None),
        };
        let acc = match choice.at("finish_reason"@).text() {
            Some(f) => if fault is None {
                AccumulatorModel { complete: f == "stop"@ || f == "tool_calls"@, ..tooled }
            } else {
                tooled
            },
            None => tooled,
        };
        Step { acc, delta, fault }
    }
}

/// The first `n` choices of a frame.
pub open spec fn chat_choices(step: Step, choices: Seq<JsonModel>, n: nat) -> Step
    decreases n,
{
    if n == 0 {
        step
    } else {
        chat_choice(chat_choices(step, choices, (n - 1) as nat), choices[n - 1])
    }
}

/// A frame of Chat Completions.
pub open spec fn chat_frame(acc: AccumulatorModel, v: JsonModel) -> Step {
    let named = match v.at("id"@).text() {
        Some(s) => AccumulatorModel { request_id: Some(s), ..acc },
        None => acc,
    };
    let counted = if v.has("usage"@) && !(v.at("usage"@) is Null) {
        AccumulatorModel {
            usage: usage_of(v.at("usage"@), "prompt_tokens"@, "completion_tokens"@),
            ..named
        }
    } else {
        named
    };
    let step = Step { acc: counted, delta: None, fault: None };
    match v.at("choices"@).items() {
        Some(choices) => chat_choices(step, choices, choices.len()),
        None => step,
    }
}

/// The first `n` output items of a finished response.
pub open spec fn response_items(
    tools: Seq<ToolPartModel>,
    items: Seq<JsonModel>,
    n: nat,
) -> Seq<ToolPartModel>
    decreases n,
{
    if n == 0 {
        tools
    } else {
        let before = response_items(tools, items, (n - 1) as nat);
        let item = items[n - 1];
        if item.at("type"@) == JsonModel::Text("function_call"@) {
            put(
                before,
                ToolPartModel {
                    index: (n - 1) as u64,
                    id: text_or_empty(item.at("call_id"@)),
                    name: text_or_empty(item.at("name"@)),
                    arguments: text_or_empty(item.at("arguments"@)),
                },
            )
        } else {
            before
        }
    }
}

/// A frame of Responses. Frames of other types are not exposed.
pub open spec fn responses_frame(acc: AccumulatorModel, v: JsonModel) -> Step {
    let kind = text_or_empty(v.at("type"@));
    if kind == "response.output_text.delta"@ {
        match v.at("delta"@).text() {
            Some(s) => Step {
                acc: AccumulatorModel { text: acc.text + s, ..acc },
                delta: Some(s),
                fault: None,
            },
            None => Step { acc, delta: None, fault: None },
        }
    } else if kind == "response.completed"@ || kind == "response.incomplete"@ || kind
        == "response.failed"@ {
        let response = v.at("response"@);
        Step {
            acc: AccumulatorModel {
                text: acc.text,
                tools: match response.at("output"@).items() {
                    Some(items) => response_items(acc.tools, items, items.len()),
                    None => acc.tools,
                },
                usage: usage_of(response.at("usage"@), "input_tokens"@, "output_tokens"@),
                request_id: response.at("id"@).text(),
                complete: kind == "response.completed"@ && response.at("status"@)
                    == JsonModel::Text("completed"@),
            },
            delta: None,
            fault: None,
        }
    } else if kind == "error"@ {
        Step { acc, delta: None, fault: Some(failure("model"@, "Responses stream error"@)) }
    } else {
        Step { acc, delta: None, fault: None }
    }
}

/// What comes of a frame.
pub open spec fn frame_step(acc: AccumulatorModel, v: JsonModel, endpoint: Endpoint) -> Step {
    if v.has("error"@) {
        Step {
            acc,
            delta: None,
            fault: Some(failure("model"@, "provider returned a stream error"@)),
        }
    } else {
        match endpoint {
            Endpoint::ChatCompletions => chat_frame(acc, v),
            Endpoint::Responses => responses_frame(acc, v),
        }
    }
}

/// Bytes of the first `n` parts.
pub open spec fn part_bytes(tools: Seq<ToolPartModel>, n: nat) -> nat
    decreases n,
{
    if n == 0 {
        0
    } else {
        part_bytes(tools, (n - 1) as nat) + byte_len(tools[n - 1].id) + byte_len(
            tools[n - 1].name,
        ) + byte_len(tools[n - 1].arguments)
    }
}

impl AccumulatorModel {
    /// The bytes received: text and tool calls.
    pub open spec fn size(self) -> nat {
        byte_len(self.text) + part_bytes(self.tools, self.tools.len())
    }

    pub open spec fn part_faults(self) -> spec_fn(int) -> Option<EngineErrorModel> {
        |i: int|
            if self.tools[i].id.len() == 0 || self.tools[i].name.len() == 0 {
                Some(failure("protocol"@, "incomplete tool call"@))
            } else if parsed_json(self.tools[i].arguments) is None {
                Some(failure("protocol"@, "invalid tool argument JSON"@))
            } else {
                None
            }
    }

    /// The finished output.
    pub open spec fn output(self) -> ModelOutputModel {
        ModelOutputModel {
            text: self.text,
            tool_calls: Seq::new(
                self.tools.len(),
                |i: int|
                    ToolCallModel {
                        id: self.tools[i].id,
                        name: self.tools[i].name,
                        arguments: parsed_json(self.tools[i].arguments)->0,
                    },
            ),
            usage: self.usage,
            request_id: self.request_id,
            complete: self.complete,
        }
    }
}

/// Nothing received.
pub open spec fn nothing() -> AccumulatorModel {
    AccumulatorModel {
        text: Seq::empty(),
        tools: Seq::empty(),
        usage: None,
        request_id: None,
        complete: false,
    }
}

fn parse_usage(v: Option<&Json>, input: &str, output: &str) -> (r: Option<Usage>)
    ensures
        r.deep_view() == usage_of(seen(v), input@, output@),
{
    match (as_count(member(v, input)), as_count(member(v, output))) {
        (Some(i), Some(o)) => Some(Usage { input_tokens: i, output_tokens: o }),
        _ => None,
    }
}

fn text_or_nothing(v: Option<&Json>) -> (r: String)
    ensures
        r@ == text_or_empty(seen(v)),
{
    match as_text(v) {
        Some(s) => s.clone(),
        None => String::new(),
    }
}

fn find_slot(tools: &Vec<ToolPart>, index: u64) -> (r: usize)
    ensures
        r == slot(tools.deep_view(), index),
        r <= tools@.len(),
{
    let ghost all = tools.deep_view();
    let mut k: usize = 0;
    assert(all.skip(0) =~= all);
    while k < tools.len() && tools[k].index < index
        invariant
            k <= tools@.len(),
            all == tools.deep_view(),
            slot(all, index) == k + slot(all.skip(k as int), index),
        decreases tools@.len() - k,
    {
        proof {
            assert(all.skip(k as int)[0] == all[k as int]);
            assert(all.skip(k as int).drop_first() =~= all.skip(k + 1));
        }
        k += 1;
    }
    proof {
        if k < tools@.len() {
            assert(all.skip(k as int)[0] == all[k as int]);
        }
    }
    k
}

fn put_part(tools: &mut Vec<ToolPart>, part: ToolPart)
    ensures
        final(tools).deep_view() == put(old(tools).deep_view(), part.deep_view()),
{
    let ghost before = tools.deep_view();
    let ghost added = part.deep_view();
    let k: usize = find_slot(tools, part.index);
    if k < tools.len() && tools[k].index == part.index {
        tools.set(k, part);
        assert(tools.deep_view() =~= before.update(k as int, added));
    } else {
        tools.insert(k, part);
        assert(tools.deep_view() =~= before.insert(k as int, added));
    }
}

fn copy_part(tools: &Vec<ToolPart>, index: u64) -> (r: ToolPart)
    ensures
        r.deep_view() == part_at(tools.deep_view(), index),
{
    let k: usize = find_slot(tools, index);
    if k < tools.len() && tools[k].index == index {
        tools[k].duplicate()
    } else {
        ToolPart { index, id: String::new(), name: String::new(), arguments: String::new() }
    }
}

impl Accumulator {
    /// Nothing received.
    pub fn new() -> (r: Self)
        ensures
            r.deep_view() == nothing(),
    {
        let r = Accumulator {
            text: String::new(),
            tools: Vec::new(),
            usage: None,
            request_id: None,
            complete: false,
        };
        assert(r.deep_view().tools =~= Seq::empty());
        r
    }

    fn add_chat_tools(&mut self, items: &Vec<Json>) -> (r: Result<(), EngineError>)
        ensures
            (final(self).deep_view(), match r {
                Ok(_) => None,
                Err(e) => Some(e.deep_view()),
            }) == chat_tools(old(self).deep_view(), models(items@), items@.len()),
    {
        let ghost start = self.deep_view();
        let ghost all = models(items@);
        let mut i: usize = 0;
        while i < items.len()
            invariant
                i <= items@.len(),
                all == models(items@),
                start == old(self).deep_view(),
                (self.deep_view(), None::<EngineErrorModel>) == chat_tools(start, all, i as nat),
            decreases items@.len() - i,
        {
            let t: Option<&Json> = Some(&items[i]);
            assert(all[i as int] == seen(t));
            let index: u64 = match as_count(member(t, "index")) {
                Some(index) => index,
                None => {
                    proof {
                        lemma_chat_tools_end(start, all, (i + 1) as nat, items@.len());
                    }
                    return Err(EngineError::new("protocol", "tool index missing"));
                },
            };
            let function: Option<&Json> = member(t, "function");
            let part: ToolPart = copy_part(&self.tools, index);
            let more_id: String = text_or_nothing(member(t, "id"));
            let more_name: String = text_or_nothing(member(function, "name"));
            let more_arguments: String = text_or_nothing(member(function, "arguments"));
            let grown = ToolPart {
                index,
                id: join(part.id.as_str(), more_id.as_str()),
                name: join(part.name.as_str(), more_name.as_str()),
                arguments: join(part.arguments.as_str(), more_arguments.as_str()),
            };
            put_part(&mut self.tools, grown);
            i += 1;
        }
        Ok(())
    }

    fn add_choice(&mut self, choice: Option<&Json>, delta: &mut Option<String>) -> (r: Result<
        (),
        EngineError,
    >)
        ensures
            (Step {
                acc: final(self).deep_view(),
                delta: final(delta).deep_view(),
                fault: match r {
                    Ok(_) => None,
                    Err(e) => Some(e.deep_view()),
                },
            }) == chat_choice(
                Step {
                    acc: old(self).deep_view(),
                    delta: old(delta).deep_view(),
                    fault: None,
                },
                seen(choice),
            ),
    {
        if let Some(n) = as_count(member(choice, "index")) {
            if n != 0 {
                return Ok(());
            }
        }
        let d: Option<&Json> = member(choice, "delta");
        if let Some(s) = as_text(member(d, "content")) {
            self.text = join(self.text.as_str(), s.as_str());
            *delta = Some(s.clone());
        }
        if let Some(items) = as_array(member(d, "tool_calls")) {
            if let Err(e) = self.add_chat_tools(items) {
                return Err(e);
            }
        }
        if let Some(f) = as_text(member(choice, "finish_reason")) {
            self.complete = same_text(f.as_str(), "stop") || same_text(f.as_str(), "tool_calls");
        }
        Ok(())
    }

    fn chat(&mut self, v: Option<&Json>) -> (r: Result<Option<String>, EngineError>)
        ensures
            stepped(r, final(self).deep_view(), chat_frame(old(self).deep_view(), seen(v))),
    {
        let mut delta: Option<String> = None;
        if let Some(s) = as_text(member(v, "id")) {
            self.request_id = Some(s.clone());
        }
        let usage: Option<&Json> = member(v, "usage");
        if usage.is_some() && !is_null(usage) {
            self.usage = parse_usage(usage, "prompt_tokens", "completion_tokens");
        }
        if let Some(choices) = as_array(member(v, "choices")) {
            let ghost start = Step { acc: self.deep_view(), delta: None, fault: None };
            let ghost all = models(choices@);
            let mut i: usize = 0;
            while i < choices.len()
                invariant
                    i <= choices@.len(),
                    all == models(choices@),
                    chat_frame(old(self).deep_view(), seen(v)) == chat_choices(
                        start,
                        all,
                        choices@.len(),
                    ),
                    (Step {
                        acc: self.deep_view(),
                        delta: delta.deep_view(),
                        fault: None,
                    }) == chat_choices(start, all, i as nat),
                decreases choices@.len() - i,
            {
                let choice: Option<&Json> = Some(&choices[i]);
                assert(all[i as int] == seen(choice));
                if let Err(e) = self.add_choice(choice, &mut delta) {
                    proof {
                        lemma_chat_choices_end(start, all, (i + 1) as nat, choices@.len());
                    }
                    return Err(e);
                }
                i += 1;
            }
        }
        Ok(delta)
    }

    fn responses(&mut self, v: Option<&Json>) -> (r: Result<Option<String>, EngineError>)
        ensures
            stepped(r, final(self).deep_view(), responses_frame(old(self).deep_view(), seen(v))),
    {
        let kind: String = text_or_nothing(member(v, "type"));
        if same_text(kind.as_str(), "response.output_text.delta") {
            if let Some(s) = as_text(member(v, "delta")) {
                self.text = join(self.text.as_str(), s.as_str());
                return Ok(Some(s.clone()));
            }
            return Ok(None);
        }
        let completed: bool = same_text(kind.as_str(), "response.completed");
        if completed || same_text(kind.as_str(), "response.incomplete") || same_text(
            kind.as_str(),
            "response.failed",
        ) {
            let response: Option<&Json> = member(v, "response");
            self.complete = completed && is_text(member(response, "status"), "completed");
            self.request_id = match as_text(member(response, "id")) {
                Some(s) => Some(s.clone()),
                None => None,
            };
            self.usage = parse_usage(
                member(response, "usage"),
                "input_tokens",
                "output_tokens",
            );
            if let Some(items) = as_array(member(response, "output")) {
                self.put_items(items);
            }
            return Ok(None);
        }
        if same_text(kind.as_str(), "error") {
            return Err(EngineError::new("model", "Responses stream error"));
        }
        Ok(None)
    }

    fn put_items(&mut self, items: &Vec<Json>)
        ensures
            final(self).deep_view() == (AccumulatorModel {
                tools: response_items(
                    old(self).deep_view().tools,
                    models(items@),
                    items@.len(),
                ),
                ..old(self).deep_view()
            }),
    {
        let ghost start = self.deep_view();
        let ghost all = models(items@);
        let mut i: usize = 0;
        while i < items.len()
            invariant
                i <= items@.len(),
                all == models(items@),
                self.deep_view() == (AccumulatorModel {
                    tools: response_items(start.tools, all, i as nat),
                    ..start
                }),
            decreases items@.len() - i,
        {
            let item: Option<&Json> = Some(&items[i]);
            assert(all[i as int] == seen(item));
            if is_text(member(item, "type"), "function_call") {
                let part = ToolPart {
                    index: i as u64,
                    id: text_or_nothing(member(item, "call_id")),
                    name: text_or_nothing(member(item, "name")),
                    arguments: text_or_nothing(member(item, "arguments")),
                };
                put_part(&mut self.tools, part);
            }
            i += 1;
        }
    }

    /// Takes in a frame; hands out the text received with it.
    pub fn frame(&mut self, v: &Json, endpoint: Endpoint) -> (r: Result<
        Option<String>,
        EngineError,
    >)
        ensures
            stepped(
                r,
                final(self).deep_view(),
                frame_step(old(self).deep_view(), v@, endpoint),
            ),
    {
        let value: Option<&Json> = Some(v);
        if member(value, "error").is_some() {
            return Err(EngineError::new("model", "provider returned a stream error"));
        }
        match endpoint {
            Endpoint::ChatCompletions => self.chat(value),
            Endpoint::Responses => self.responses(value),
        }
    }

    /// Whether more than `limit` bytes were received.
    pub fn exceeds(&self, limit: usize) -> (r: bool)
        ensures
            r == (self.deep_view().size() > limit),
    {
        let ghost all = self.deep_view().tools;
        let text: usize = byte_count(self.text.as_str());
        if text > limit {
            return true;
        }
        let mut left: usize = limit - text;
        let mut i: usize = 0;
        while i < self.tools.len()
            invariant
                i <= self.tools@.len(),
                all == self.deep_view().tools,
                self.tools@.len() == all.len(),
                self.deep_view().size() == byte_len(self.text@) + part_bytes(all, all.len()),
                left == limit - byte_len(self.text@) - part_bytes(all, i as nat),
            decreases self.tools@.len() - i,
        {
            let part: &ToolPart = &self.tools[i];
            proof {
                assert(all[i as int] == part.deep_view());
                lemma_part_bytes_grow(all, (i + 1) as nat, all.len());
            }
            let id: usize = byte_count(part.id.as_str());
            let name: usize = byte_count(part.name.as_str());
            let arguments: usize = byte_count(part.arguments.as_str());
            if id > left || name > left - id || arguments > left - id - name {
                return true;
            }
            left = left - id - name - arguments;
            i += 1;
        }
        false
    }

    /// The finished output.
    pub fn finish(self) -> (r: Result<ModelOutput, EngineError>)
        ensures
            answers(r, first_fault(self.deep_view().part_faults(), self.tools@.len())),
            r is Ok ==> r->Ok_0.deep_view() == self.deep_view().output(),
    {
        let ghost acc = self.deep_view();
        let ghost faults = acc.part_faults();
        let mut tool_calls: Vec<ToolCall> = Vec::new();
        let mut i: usize = 0;
        while i < self.tools.len()
            invariant
                i <= self.tools@.len(),
                acc == self.deep_view(),
                faults == acc.part_faults(),
                first_fault(faults, i as nat) is None,
                tool_calls@.len() == i,
                forall|j: int|
                    0 <= j < i ==> (#[trigger] tool_calls@[j]).deep_view()
                        == acc.output().tool_calls[j],
            decreases self.tools@.len() - i,
        {
            let part: &ToolPart = &self.tools[i];
            proof {
                assert(acc.tools[i as int] == part.deep_view());
                if faults(i as int) is Some {
                    lemma_first_fault(faults, i as nat, self.tools@.len());
                }
            }
            if part.id.as_str().is_empty() || part.name.as_str().is_empty() {
                return Err(EngineError::new("protocol", "incomplete tool call"));
            }
            let arguments: Json = match parse(part.arguments.as_str()) {
                Some(arguments) => arguments,
                None => {
                    return Err(EngineError::new("protocol", "invalid tool argument JSON"));
                },
            };
            tool_calls.push(
                ToolCall { id: part.id.clone(), name: part.name.clone(), arguments },
            );
            i += 1;
        }
        let r = ModelOutput {
            text: self.text,
            tool_calls,
            usage: self.usage,
            request_id: self.request_id,
            complete: self.complete,
        };
        assert(r.deep_view().tool_calls =~= acc.output().tool_calls);
        Ok(r)
    }
}

proof fn lemma_part_bytes_grow(tools: Seq<ToolPartModel>, i: nat, n: nat)
    requires
        i <= n,
    ensures
        part_bytes(tools, i) <= part_bytes(tools, n),
    decreases n,
{
    if i < n {
        lemma_part_bytes_grow(tools, i, (n - 1) as nat);
    }
}

/// A result and a state are what came of a frame.
pub open spec fn stepped(
    r: Result<Option<String>, EngineError>,
    acc: AccumulatorModel,
    step: Step,
) -> bool {
    &&& acc == step.acc
    &&& answers(r, step.fault)
    &&& r is Ok ==> r->Ok_0.deep_view() == step.delta
}

proof fn lemma_chat_tools_end(acc: AccumulatorModel, items: Seq<JsonModel>, i: nat, n: nat)
    requires
        i <= n,
        chat_tools(acc, items, i).1 is Some,
    ensures
        chat_tools(acc, items, n) == chat_tools(acc, items, i),
    decreases n,
{
    if i < n {
        lemma_chat_tools_end(acc, items, i, (n - 1) as nat);
    }
}

proof fn lemma_chat_choices_end(step: Step, choices: Seq<JsonModel>, i: nat, n: nat)
    requires
        i <= n,
        chat_choices(step, choices, i).fault is Some,
    ensures
        chat_choices(step, choices, n) == chat_choices(step, choices, i),
    decreases n,
{
    if i < n {
        lemma_chat_choices_end(step, choices, i, (n - 1) as nat);
    }
}

/// The parts are in strictly rising order of their index.
pub open spec fn rising(tools: Seq<ToolPartModel>) -> bool {
    forall|i: int, j: int|
        0 <= i < j < tools.len() ==> (#[trigger] tools[i]).index < (#[trigger] tools[j]).index
}

proof fn lemma_slot(tools: Seq<ToolPartModel>, index: u64)
    requires
        rising(tools),
    ensures
        slot(tools, index) <= tools.len(),
        forall|i: int| 0 <= i < slot(tools, index) ==> (#[trigger] tools[i]).index < index,
        forall|i: int| slot(tools, index) <= i < tools.len() ==> (#[trigger] tools[i]).index
            >= index,
    decreases tools.len(),
{
    if tools.len() > 0 && tools[0].index < index {
        let rest = tools.drop_first();
        assert forall|i: int, j: int| 0 <= i < j < rest.len() implies (#[trigger] rest[i]).index < (
        #[trigger] rest[j]).index by {
            assert(rest[i] == tools[i + 1] && rest[j] == tools[j + 1]);
        }
        lemma_slot(rest, index);
        assert forall|i: int| 0 <= i < slot(tools, index) implies (#[trigger] tools[i]).index
            < index by {
            if i > 0 {
                assert(tools[i] == rest[i - 1]);
            }
        }
        assert forall|i: int| slot(tools, index) <= i < tools.len() implies (
        #[trigger] tools[i]).index >= index by {
            assert(tools[i] == rest[i - 1]);
        }
    }
}

/// Parts stay in strictly rising order of their index, and the one put in is the one at its
/// index.
pub proof fn lemma_put_keeps_order(tools: Seq<ToolPartModel>, part: ToolPartModel)
    requires
        rising(tools),
    ensures
        rising(put(tools, part)),
        part_at(put(tools, part), part.index) == part,
{
    lemma_slot(tools, part.index);
    let k = slot(tools, part.index) as int;
    let after = put(tools, part);
    assert forall|i: int, j: int| 0 <= i < j < after.len() implies (#[trigger] after[i]).index < (
    #[trigger] after[j]).index by {
        if k < tools.len() && tools[k].index == part.index {
        } else {
            let p = if i < k { i } else { i - 1 };
            let q = if j < k { j } else { j - 1 };
            if i != k {
                assert(after[i] == tools[p]);
            }
            if j != k {
                assert(after[j] == tools[q]);
            }
        }
    }
    lemma_slot(after, part.index);
    let m = slot(after, part.index) as int;
    assert(after[k] == part);
    if m < k {
        assert(after[m] == tools[m]);
    } else if m > k {
        assert(after[k].index < part.index);
    }
}

/// A choice adds to the text.
pub open spec fn speaks(choice: JsonModel) -> bool {
    let index = choice.at("index"@).count();
    (index is None || index->0 == 0) && choice.at("delta"@).at("content"@).text() is Some
}

/// At most one choice of a frame adds to the text.
pub open spec fn one_voice(v: JsonModel) -> bool {
    v.at("choices"@).items() matches Some(choices) ==> forall|i: int, j: int|
        0 <= i < j < choices.len() ==> !(speaks(#[trigger] choices[i]) && speaks(
            #[trigger] choices[j],
        ))
}

/// The text received with a frame.
pub open spec fn received(delta: Option<Seq<char>>) -> Seq<char> {
    match delta {
        Some(s) => s,
        None => Seq::empty(),
    }
}

proof fn lemma_chat_tools_text(acc: AccumulatorModel, items: Seq<JsonModel>, n: nat)
    ensures
        chat_tools(acc, items, n).0.text == acc.text,
    decreases n,
{
    if n > 0 {
        lemma_chat_tools_text(acc, items, (n - 1) as nat);
    }
}

proof fn lemma_chat_choices_text(step: Step, choices: Seq<JsonModel>, n: nat)
    requires
        n <= choices.len(),
        step.delta is None,
        forall|i: int, j: int|
            0 <= i < j < n ==> !(speaks(#[trigger] choices[i]) && speaks(#[trigger] choices[j])),
    ensures
        ({
            let after = chat_choices(step, choices, n);
            &&& after.fault is None ==> after.acc.text == step.acc.text + received(after.delta)
            &&& after.delta is Some ==> exists|i: int|
                0 <= i < n && speaks(#[trigger] choices[i])
        }),
    decreases n,
{
    if n > 0 {
        let before = chat_choices(step, choices, (n - 1) as nat);
        let choice = choices[n - 1];
        lemma_chat_choices_text(step, choices, (n - 1) as nat);
        let worded = match choice.at("delta"@).at("content"@).text() {
            Some(s) => AccumulatorModel { text: before.acc.text + s, ..before.acc },
            None => before.acc,
        };
        match choice.at("delta"@).at("tool_calls"@).items() {
            Some(items) => lemma_chat_tools_text(worded, items, items.len()),
            None => {},
        }
        if before.fault is None && speaks(choice) {
            assert(before.delta is None);
            assert(before.acc.text =~= step.acc.text);
        }
    } else {
        assert(step.acc.text + Seq::<char>::empty() =~= step.acc.text);
    }
}

/// The text received with a frame is what it adds to the output, where at most one choice of it
/// has text.
pub proof fn lemma_delta_is_the_text(acc: AccumulatorModel, v: JsonModel, endpoint: Endpoint)
    requires
        endpoint == Endpoint::ChatCompletions ==> one_voice(v),
        frame_step(acc, v, endpoint).fault is None,
    ensures
        frame_step(acc, v, endpoint).acc.text == acc.text + received(
            frame_step(acc, v, endpoint).delta,
        ),
{
    assert(acc.text + Seq::<char>::empty() =~= acc.text);
    if endpoint == Endpoint::ChatCompletions {
        match v.at("choices"@).items() {
            Some(choices) => {
                let named = match v.at("id"@).text() {
                    Some(s) => AccumulatorModel { request_id: Some(s), ..acc },
                    None => acc,
                };
                let counted = if v.has("usage"@) && !(v.at("usage"@) is Null) {
                    AccumulatorModel {
                        usage: usage_of(
                            v.at("usage"@),
                            "prompt_tokens"@,
                            "completion_tokens"@,
                        ),
                        ..named
                    }
                } else {
                    named
                };
                let step = Step { acc: counted, delta: None, fault: None };
                lemma_chat_choices_text(step, choices, choices.len());
            },
            None => {},
        }
    }
}

proof fn lemma_part_is_found(tools: Seq<ToolPartModel>, k: int)
    requires
        rising(tools),
        0 <= k < tools.len(),
    ensures
        part_at(tools, tools[k].index) == tools[k],
{
    lemma_slot(tools, tools[k].index);
    let m = slot(tools, tools[k].index) as int;
    if m < k {
        assert(tools[m].index < tools[k].index);
    }
}

proof fn lemma_part_is_absent(tools: Seq<ToolPartModel>, index: u64)
    requires
        rising(tools),
        forall|k: int| 0 <= k < tools.len() ==> (#[trigger] tools[k]).index != index,
    ensures
        part_at(tools, index) == (ToolPartModel {
            index,
            id: Seq::empty(),
            name: Seq::empty(),
            arguments: Seq::empty(),
        }),
{
    lemma_slot(tools, index);
}

/// A part that is put in leaves the parts of other indices as they are.
pub proof fn lemma_put_keeps_others(tools: Seq<ToolPartModel>, part: ToolPartModel, other: u64)
    requires
        rising(tools),
        other != part.index,
    ensures
        part_at(put(tools, part), other) == part_at(tools, other),
{
    lemma_put_keeps_order(tools, part);
    lemma_slot(tools, part.index);
    let k = slot(tools, part.index) as int;
    let after = put(tools, part);
    let replaced = k < tools.len() && tools[k].index == part.index;
    if exists|m: int| 0 <= m < tools.len() && (#[trigger] tools[m]).index == other {
        let m = choose|m: int| 0 <= m < tools.len() && (#[trigger] tools[m]).index == other;
        lemma_part_is_found(tools, m);
        let at = if replaced || m < k {
            m
        } else {
            m + 1
        };
        assert(after[at] == tools[m]);
        lemma_part_is_found(after, at);
    } else {
        lemma_part_is_absent(tools, other);
        assert forall|m: int| 0 <= m < after.len() implies (#[trigger] after[m]).index != other by {
            if m != k {
                let from = if replaced || m < k {
                    m
                } else {
                    m - 1
                };
                assert(after[m] == tools[from]);
            } else {
                assert(after[k] == part);
            }
        }
        lemma_part_is_absent(after, other);
    }
}

proof fn lemma_chat_tools_rise(acc: AccumulatorModel, items: Seq<JsonModel>, n: nat)
    requires
        rising(acc.tools),
    ensures
        rising(chat_tools(acc, items, n).0.tools),
    decreases n,
{
    if n > 0 {
        lemma_chat_tools_rise(acc, items, (n - 1) as nat);
        let before = chat_tools(acc, items, (n - 1) as nat).0;
        let t = items[n - 1];
        match t.at("index"@).count() {
            Some(index) => {
                let part = part_at(before.tools, index);
                lemma_put_keeps_order(
                    before.tools,
                    ToolPartModel {
                        index,
                        id: part.id + text_or_empty(t.at("id"@)),
                        name: part.name + text_or_empty(t.at("function"@).at("name"@)),
                        arguments: part.arguments + text_or_empty(
                            t.at("function"@).at("arguments"@),
                        ),
                    },
                );
            },
            None => {},
        }
    }
}

proof fn lemma_chat_choices_rise(step: Step, choices: Seq<JsonModel>, n: nat)
    requires
        rising(step.acc.tools),
    ensures
        rising(chat_choices(step, choices, n).acc.tools),
    decreases n,
{
    if n > 0 {
        lemma_chat_choices_rise(step, choices, (n - 1) as nat);
        let before = chat_choices(step, choices, (n - 1) as nat);
        let d = choices[n - 1].at("delta"@);
        let worded = match d.at("content"@).text() {
            Some(s) => AccumulatorModel { text: before.acc.text + s, ..before.acc },
            None => before.acc,
        };
        match d.at("tool_calls"@).items() {
            Some(items) => lemma_chat_tools_rise(worded, items, items.len()),
            None => {},
        }
    }
}

proof fn lemma_response_items_rise(tools: Seq<ToolPartModel>, items: Seq<JsonModel>, n: nat)
    requires
        rising(tools),
    ensures
        rising(response_items(tools, items, n)),
    decreases n,
{
    if n > 0 {
        lemma_response_items_rise(tools, items, (n - 1) as nat);
        let item = items[n - 1];
        lemma_put_keeps_order(
            response_items(tools, items, (n - 1) as nat),
            ToolPartModel {
                index: (n - 1) as u64,
                id: text_or_empty(item.at("call_id"@)),
                name: text_or_empty(item.at("name"@)),
                arguments: text_or_empty(item.at("arguments"@)),
            },
        );
    }
}

/// Whatever frames come, tool calls stay in the order of their indices, each index once.
pub proof fn lemma_frames_keep_order(acc: AccumulatorModel, v: JsonModel, endpoint: Endpoint)
    requires
        rising(acc.tools),
    ensures
        rising(frame_step(acc, v, endpoint).acc.tools),
        rising(nothing().tools),
{
    match endpoint {
        Endpoint::ChatCompletions => match v.at("choices"@).items() {
            Some(choices) => {
                let named = match v.at("id"@).text() {
                    Some(s) => AccumulatorModel { request_id: Some(s), ..acc },
                    None => acc,
                };
                let counted = if v.has("usage"@) && !(v.at("usage"@) is Null) {
                    AccumulatorModel {
                        usage: usage_of(
                            v.at("usage"@),
                            "prompt_tokens"@,
                            "completion_tokens"@,
                        ),
                        ..named
                    }
                } else {
                    named
                };
                let step = Step { acc: counted, delta: None, fault: None };
                lemma_chat_choices_rise(step, choices, choices.len());
            },
            None => {},
        },
        Endpoint::Responses => match v.at("response"@).at("output"@).items() {
            Some(items) => lemma_response_items_rise(acc.tools, items, items.len()),
            None => {},
        },
    }
}

/// What a text is that may be absent.
pub open spec fn text_if_any(v: JsonModel) -> Seq<char> {
    match v {
        JsonModel::Text(s) => s,
        _ => Seq::empty(),
    }
}

/// The count that a value is.
pub open spec fn is_count(v: JsonModel, n: u64) -> bool {
    v == JsonModel::Number(NumberModel::PosInt(n))
}

/// A frame of Chat Completions with one choice, the first alternative: its content is the text
/// received and is added to the output. The output is complete where the choice ends by `stop` or
/// `tool_calls`, not complete where it ends by anything else, and as before where it does not end.
pub proof fn lemma_chat_frame_with_one_choice(
    acc: AccumulatorModel,
    v: JsonModel,
    choice: JsonModel,
)
    requires
        !v.has("error"@),
        v.at("choices"@) == JsonModel::Array(seq![choice]),
        is_count(choice.at("index"@), 0) || choice.at("index"@) is Null,
        frame_step(acc, v, Endpoint::ChatCompletions).fault is None,
    ensures
        ({
            let step = frame_step(acc, v, Endpoint::ChatCompletions);
            &&& match choice.at("finish_reason"@) {
                JsonModel::Text(reason) => step.acc.complete <==> (reason == "stop"@ || reason
                    == "tool_calls"@),
                _ => step.acc.complete == acc.complete,
            }
            &&& match choice.at("delta"@).at("content"@) {
                JsonModel::Text(s) => step.delta == Some(s) && step.acc.text == acc.text + s,
                _ => step.delta is None && step.acc.text == acc.text,
            }
            &&& !(choice.at("delta"@).at("tool_calls"@) is Array) ==> step.acc.tools == acc.tools
        }),
{
    let one = seq![choice];
    assert(one.len() == 1 && one[0] == choice);
    reveal_with_fuel(chat_choices, 2);
    let d = choice.at("delta"@);
    let worded = match d.at("content"@).text() {
        Some(s) => AccumulatorModel { text: acc.text + s, ..acc },
        None => acc,
    };
    match d.at("tool_calls"@).items() {
        Some(items) => {
            let named = match v.at("id"@).text() {
                Some(s) => AccumulatorModel { request_id: Some(s), ..worded },
                None => worded,
            };
            let counted = if v.has("usage"@) && !(v.at("usage"@) is Null) {
                AccumulatorModel {
                    usage: usage_of(v.at("usage"@), "prompt_tokens"@, "completion_tokens"@),
                    ..named
                }
            } else {
                named
            };
            lemma_chat_tools_text(counted, items, items.len());
            lemma_chat_tools_keep(counted, items, items.len());
        },
        None => {},
    }
}

proof fn lemma_chat_tools_keep(acc: AccumulatorModel, items: Seq<JsonModel>, n: nat)
    ensures
        ({
            let after = chat_tools(acc, items, n).0;
            &&& after.text == acc.text
            &&& after.usage == acc.usage
            &&& after.request_id == acc.request_id
            &&& after.complete == acc.complete
        }),
    decreases n,
{
    if n > 0 {
        lemma_chat_tools_keep(acc, items, (n - 1) as nat);
    }
}

proof fn lemma_chat_choices_keep(step: Step, choices: Seq<JsonModel>, n: nat)
    ensures
        chat_choices(step, choices, n).acc.usage == step.acc.usage,
        chat_choices(step, choices, n).acc.request_id == step.acc.request_id,
    decreases n,
{
    if n > 0 {
        lemma_chat_choices_keep(step, choices, (n - 1) as nat);
        let before = chat_choices(step, choices, (n - 1) as nat);
        let d = choices[n - 1].at("delta"@);
        let worded = match d.at("content"@).text() {
            Some(s) => AccumulatorModel { text: before.acc.text + s, ..before.acc },
            None => before.acc,
        };
        match d.at("tool_calls"@).items() {
            Some(items) => lemma_chat_tools_keep(worded, items, items.len()),
            None => {},
        }
    }
}

/// A frame of Chat Completions names its request and counts tokens: prompt tokens go in, completion
/// tokens come out. A frame without a name or a count leaves what is known; a count that lacks one
/// of the two is not known.
pub proof fn lemma_chat_frame_counts(acc: AccumulatorModel, v: JsonModel, input: u64, output: u64)
    requires
        !v.has("error"@),
    ensures
        ({
            let after = frame_step(acc, v, Endpoint::ChatCompletions).acc;
            let usage = v.at("usage"@);
            &&& is_count(usage.at("prompt_tokens"@), input) && is_count(
                usage.at("completion_tokens"@),
                output,
            ) ==> after.usage == Some(
                UsageModel { input_tokens: input, output_tokens: output },
            )
            &&& usage is Null ==> after.usage == acc.usage
            &&& usage is Object && (usage.at("prompt_tokens"@) is Null || usage.at(
                "completion_tokens"@,
            ) is Null) ==> after.usage is None
            &&& match v.at("id"@) {
                JsonModel::Text(id) => after.request_id == Some(id),
                _ => after.request_id == acc.request_id,
            }
        }),
{
    let named = match v.at("id"@).text() {
        Some(s) => AccumulatorModel { request_id: Some(s), ..acc },
        None => acc,
    };
    let counted = if v.has("usage"@) && !(v.at("usage"@) is Null) {
        AccumulatorModel {
            usage: usage_of(v.at("usage"@), "prompt_tokens"@, "completion_tokens"@),
            ..named
        }
    } else {
        named
    };
    match v.at("choices"@).items() {
        Some(choices) => lemma_chat_choices_keep(
            Step { acc: counted, delta: None, fault: None },
            choices,
            choices.len(),
        ),
        None => {},
    }
}

/// A fragment of a tool call in Chat Completions goes on the call of its index: name, arguments and
/// ID grow by what the fragment has of each, and calls of other indices stay as they are. A
/// fragment without an index ends the stream.
pub proof fn lemma_tool_fragment_goes_on_its_call(
    acc: AccumulatorModel,
    v: JsonModel,
    choice: JsonModel,
    fragment: JsonModel,
    index: u64,
    other: u64,
)
    requires
        rising(acc.tools),
        !v.has("error"@),
        v.at("choices"@) == JsonModel::Array(seq![choice]),
        is_count(choice.at("index"@), 0) || choice.at("index"@) is Null,
        choice.at("delta"@).at("tool_calls"@) == JsonModel::Array(seq![fragment]),
    ensures
        ({
            let step = frame_step(acc, v, Endpoint::ChatCompletions);
            let f = fragment.at("function"@);
            &&& fragment.at("index"@) is Null ==> step.fault is Some && step.fault->0.kind
                == "protocol"@
            &&& is_count(fragment.at("index"@), index) ==> {
                let before = part_at(acc.tools, index);
                let after = part_at(step.acc.tools, index);
                &&& step.fault is None
                &&& after.id == before.id + text_if_any(fragment.at("id"@))
                &&& after.name == before.name + text_if_any(f.at("name"@))
                &&& after.arguments == before.arguments + text_if_any(f.at("arguments"@))
                &&& other != index ==> part_at(step.acc.tools, other) == part_at(acc.tools, other)
            }
        }),
{
    let one = seq![choice];
    let fragments = seq![fragment];
    assert(one.len() == 1 && one[0] == choice);
    assert(fragments.len() == 1 && fragments[0] == fragment);
    reveal_with_fuel(chat_choices, 2);
    reveal_with_fuel(chat_tools, 2);
    let f = fragment.at("function"@);
    let before = part_at(acc.tools, index);
    let part = ToolPartModel {
        index,
        id: before.id + text_or_empty(fragment.at("id"@)),
        name: before.name + text_or_empty(f.at("name"@)),
        arguments: before.arguments + text_or_empty(f.at("arguments"@)),
    };
    lemma_put_keeps_order(acc.tools, part);
    if other != index {
        lemma_put_keeps_others(acc.tools, part, other);
    }
}

/// A choice that is not the first alternative is passed over.
pub proof fn lemma_other_alternatives_are_passed_over(step: Step, choice: JsonModel, index: u64)
    requires
        is_count(choice.at("index"@), index),
        index != 0,
    ensures
        chat_choice(step, choice) == step,
{
}

/// A frame with an error ends the stream, at either endpoint.
pub proof fn lemma_error_ends_the_stream(acc: AccumulatorModel, v: JsonModel, endpoint: Endpoint)
    requires
        v.has("error"@) || endpoint == Endpoint::Responses && v.at("type"@) == JsonModel::Text(
            "error"@,
        ),
    ensures
        frame_step(acc, v, endpoint).fault is Some,
        frame_step(acc, v, endpoint).fault->0.kind == "model"@,
        frame_step(acc, v, endpoint).acc == acc,
{
    lemma_frame_types();
}

/// The frames of Responses: a text delta is received and added to the output; a response that ends
/// gives its ID and its count of tokens, and is complete exactly where it is reported as completed
/// and says so itself; any other frame changes nothing.
pub proof fn lemma_responses_frames(acc: AccumulatorModel, v: JsonModel, input: u64, output: u64)
    requires
        !v.has("error"@),
    ensures
        ({
            let step = frame_step(acc, v, Endpoint::Responses);
            let kind = v.at("type"@);
            let response = v.at("response"@);
            let ended = kind == JsonModel::Text("response.completed"@) || kind == JsonModel::Text(
                "response.incomplete"@,
            ) || kind == JsonModel::Text("response.failed"@);
            let delta = kind == JsonModel::Text("response.output_text.delta"@);
            &&& delta ==> step.fault is None && match v.at("delta"@) {
                JsonModel::Text(s) => step.delta == Some(s) && step.acc.text == acc.text + s,
                _ => step.delta is None && step.acc == acc,
            }
            &&& delta ==> step.acc.complete == acc.complete && step.acc.usage == acc.usage
                && step.acc.tools == acc.tools
            &&& ended ==> {
                &&& step.fault is None && step.delta is None && step.acc.text == acc.text
                &&& step.acc.complete <==> kind == JsonModel::Text("response.completed"@)
                    && response.at("status"@) == JsonModel::Text("completed"@)
                &&& step.acc.request_id == (match response.at("id"@) {
                    JsonModel::Text(id) => Some(id),
                    _ => None,
                })
                &&& is_count(response.at("usage"@).at("input_tokens"@), input) && is_count(
                    response.at("usage"@).at("output_tokens"@),
                    output,
                ) ==> step.acc.usage == Some(
                    UsageModel { input_tokens: input, output_tokens: output },
                )
                &&& response.at("usage"@) is Null ==> step.acc.usage is None
                &&& !(response.at("output"@) is Array) ==> step.acc.tools == acc.tools
            }
            &&& !delta && !ended && kind != JsonModel::Text("error"@) ==> step.fault is None
                && step.delta is None && step.acc == acc
        }),
{
    lemma_frame_types();
    lemma_no_type();
}

proof fn lemma_no_type()
    ensures
        Seq::<char>::empty() != "response.completed"@,
        Seq::<char>::empty() != "response.incomplete"@,
        Seq::<char>::empty() != "response.failed"@,
        Seq::<char>::empty() != "response.output_text.delta"@,
        Seq::<char>::empty() != "error"@,
{
    reveal_strlit("response.completed");
    assert("response.completed"@.len() == 18);
    reveal_strlit("response.incomplete");
    assert("response.incomplete"@.len() == 19);
    reveal_strlit("response.failed");
    assert("response.failed"@.len() == 15);
    reveal_strlit("response.output_text.delta");
    assert("response.output_text.delta"@.len() == 26);
    reveal_strlit("error");
    assert("error"@.len() == 5);
}

/// A tool call among the output items of a response stands at the place of its item.
pub proof fn lemma_response_item_is_a_call(
    tools: Seq<ToolPartModel>,
    items: Seq<JsonModel>,
    i: int,
)
    requires
        rising(tools),
        0 <= i < items.len() <= u64::MAX,
        items[i].at("type"@) == JsonModel::Text("function_call"@),
    ensures
        ({
            let part = part_at(response_items(tools, items, items.len()), i as u64);
            &&& part.id == text_if_any(items[i].at("call_id"@))
            &&& part.name == text_if_any(items[i].at("name"@))
            &&& part.arguments == text_if_any(items[i].at("arguments"@))
        }),
{
    lemma_response_item(tools, items, i, items.len());
}

proof fn lemma_response_item(tools: Seq<ToolPartModel>, items: Seq<JsonModel>, i: int, n: nat)
    requires
        rising(tools),
        0 <= i < n <= items.len() <= u64::MAX,
        items[i].at("type"@) == JsonModel::Text("function_call"@),
    ensures
        part_at(response_items(tools, items, n), i as u64) == (ToolPartModel {
            index: i as u64,
            id: text_if_any(items[i].at("call_id"@)),
            name: text_if_any(items[i].at("name"@)),
            arguments: text_if_any(items[i].at("arguments"@)),
        }),
    decreases n,
{
    let before = response_items(tools, items, (n - 1) as nat);
    let item = items[n - 1];
    let part = ToolPartModel {
        index: (n - 1) as u64,
        id: text_or_empty(item.at("call_id"@)),
        name: text_or_empty(item.at("name"@)),
        arguments: text_or_empty(item.at("arguments"@)),
    };
    lemma_response_items_rise(tools, items, (n - 1) as nat);
    if i == n - 1 {
        lemma_put_keeps_order(before, part);
    } else {
        lemma_response_item(tools, items, i, (n - 1) as nat);
        lemma_put_keeps_others(before, part, i as u64);
    }
}

/// An output is finished exactly where each of its tool calls has an ID, a name and arguments that
/// read as JSON. It has the text received, one call for each part in order, and the usage, request
/// and completion that were told.
pub proof fn lemma_finished_output(acc: AccumulatorModel, i: int)
    requires
        0 <= i < acc.tools.len(),
    ensures
        ({
            let out = acc.output();
            let part = acc.tools[i];
            &&& first_fault(acc.part_faults(), acc.tools.len()) is None ==> part.id.len() > 0
                && part.name.len() > 0 && parsed_json(part.arguments) is Some
            &&& (forall|k: int|
                0 <= k < acc.tools.len() ==> (#[trigger] acc.tools[k]).id.len() > 0
                    && acc.tools[k].name.len() > 0 && parsed_json(acc.tools[k].arguments)
                    is Some) ==> first_fault(acc.part_faults(), acc.tools.len()) is None
            &&& out.text == acc.text && out.usage == acc.usage
            &&& out.request_id == acc.request_id && out.complete == acc.complete
            &&& out.tool_calls.len() == acc.tools.len()
            &&& out.tool_calls[i].id == part.id && out.tool_calls[i].name == part.name
            &&& parsed_json(part.arguments) == Some(out.tool_calls[i].arguments)
                || parsed_json(part.arguments) is None
        }),
{
    let faults = acc.part_faults();
    let n = acc.tools.len();
    if first_fault(faults, n) is None {
        lemma_first_fault_at(faults, n, i);
    } else {
        let at = lemma_first_fault_is_one(faults, n);
        assert(acc.tools[at].index == acc.tools[at].index);
    }
}

proof fn lemma_frame_types()
    ensures
        "response.completed"@ != "response.incomplete"@,
        "response.completed"@ != "response.failed"@,
        "response.completed"@ != "response.output_text.delta"@,
        "response.completed"@ != "error"@,
        "response.incomplete"@ != "response.failed"@,
        "response.incomplete"@ != "response.output_text.delta"@,
        "response.incomplete"@ != "error"@,
        "response.failed"@ != "response.output_text.delta"@,
        "response.failed"@ != "error"@,
        "response.output_text.delta"@ != "error"@,
{
    reveal_strlit("response.completed");
    reveal_strlit("response.incomplete");
    reveal_strlit("response.failed");
    reveal_strlit("response.output_text.delta");
    reveal_strlit("error");
    assert("response.completed"@.len() == 18);
    assert("response.incomplete"@.len() == 19);
    assert("response.failed"@.len() == 15);
    assert("response.output_text.delta"@.len() == 26);
    assert("error"@.len() == 5);
}

/// The bytes received are those of the text and of the ID, the name and the arguments of each tool
/// call.
pub proof fn lemma_size_of_an_output(acc: AccumulatorModel, part: ToolPartModel)
    ensures
        (AccumulatorModel { tools: acc.tools.push(part), ..acc }).size() == acc.size() + byte_len(
            part.id,
        ) + byte_len(part.name) + byte_len(part.arguments),
        (AccumulatorModel { tools: Seq::empty(), ..acc }).size() == byte_len(acc.text),
{
    lemma_part_bytes_push(acc.tools, part, acc.tools.len());
    assert(acc.tools.push(part)[acc.tools.len() as int] == part);
}

proof fn lemma_part_bytes_push(tools: Seq<ToolPartModel>, part: ToolPartModel, n: nat)
    requires
        n <= tools.len(),
    ensures
        part_bytes(tools.push(part), n) == part_bytes(tools, n),
    decreases n,
{
    if n > 0 {
        lemma_part_bytes_push(tools, part, (n - 1) as nat);
        assert(tools.push(part)[n - 1] == tools[n - 1]);
    }
}

} // verus!
