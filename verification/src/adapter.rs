//! Wire contracts of the built-in endpoints, with a bounded stream reader. No hidden retries.
pub mod evidence;
pub mod sse;
pub mod stream;
pub mod wire;

use crate::contracts::configuration::{Model, ModelModel};
use crate::contracts::task::{
    ToolCall, ToolCallModel, ToolSpec, ToolSpecModel, Usage, UsageModel,
};
use crate::model::Duplicate;
pub use evidence::{
    ModelEvidence, ModelEvidenceModel, ReceivedEvidence, ReceivedEvidenceModel,
};
use vstd::prelude::*;
pub use wire::wire_request;

verus! {

/// A message of a conversation.
#[derive(Debug)]
pub struct Message {
    pub role: String,
    pub content: String,
    pub tool_calls: Vec<ToolCall>,
    pub tool_call_id: Option<String>,
}

/// What a `Message` holds.
#[verifier::ext_equal]
pub ghost struct MessageModel {
    pub role: Seq<char>,
    pub content: Seq<char>,
    pub tool_calls: Seq<ToolCallModel>,
    pub tool_call_id: Option<Seq<char>>,
}

impl DeepView for Message {
    type V = MessageModel;

    open spec fn deep_view(&self) -> MessageModel {
        MessageModel {
            role: self.role.deep_view(),
            content: self.content.deep_view(),
            tool_calls: self.tool_calls.deep_view(),
            tool_call_id: self.tool_call_id.deep_view(),
        }
    }
}

impl Duplicate for Message {
    fn duplicate(&self) -> (r: Self) {
        Message {
            role: self.role.duplicate(),
            content: self.content.duplicate(),
            tool_calls: self.tool_calls.duplicate(),
            tool_call_id: self.tool_call_id.duplicate(),
        }
    }
}

impl Clone for Message {
    fn clone(&self) -> (r: Self)
        ensures
            r.deep_view() == self.deep_view(),
    {
        self.duplicate()
    }
}

/// What a model is asked.
#[derive(Debug)]
pub struct InvokeRequest {
    pub model: Model,
    pub messages: Vec<Message>,
    pub tools: Vec<ToolSpec>,
    pub json_object: bool,
    pub output_tokens: u64,
    pub task_id: String,
    pub node: String,
    pub attempt_id: String,
}

/// What a `InvokeRequest` holds.
#[verifier::ext_equal]
pub ghost struct InvokeRequestModel {
    pub model: ModelModel,
    pub messages: Seq<MessageModel>,
    pub tools: Seq<ToolSpecModel>,
    pub json_object: bool,
    pub output_tokens: u64,
    pub task_id: Seq<char>,
    pub node: Seq<char>,
    pub attempt_id: Seq<char>,
}

impl DeepView for InvokeRequest {
    type V = InvokeRequestModel;

    open spec fn deep_view(&self) -> InvokeRequestModel {
        InvokeRequestModel {
            model: self.model.deep_view(),
            messages: self.messages.deep_view(),
            tools: self.tools.deep_view(),
            json_object: self.json_object.deep_view(),
            output_tokens: self.output_tokens.deep_view(),
            task_id: self.task_id.deep_view(),
            node: self.node.deep_view(),
            attempt_id: self.attempt_id.deep_view(),
        }
    }
}

impl Duplicate for InvokeRequest {
    fn duplicate(&self) -> (r: Self) {
        InvokeRequest {
            model: self.model.duplicate(),
            messages: self.messages.duplicate(),
            tools: self.tools.duplicate(),
            json_object: self.json_object.duplicate(),
            output_tokens: self.output_tokens.duplicate(),
            task_id: self.task_id.duplicate(),
            node: self.node.duplicate(),
            attempt_id: self.attempt_id.duplicate(),
        }
    }
}

impl Clone for InvokeRequest {
    fn clone(&self) -> (r: Self)
        ensures
            r.deep_view() == self.deep_view(),
    {
        self.duplicate()
    }
}

/// What a model gave back.
#[derive(Debug)]
pub struct ModelOutput {
    pub text: String,
    pub tool_calls: Vec<ToolCall>,
    pub usage: Option<Usage>,
    pub request_id: Option<String>,
    pub complete: bool,
}

/// What a `ModelOutput` holds.
#[verifier::ext_equal]
pub ghost struct ModelOutputModel {
    pub text: Seq<char>,
    pub tool_calls: Seq<ToolCallModel>,
    pub usage: Option<UsageModel>,
    pub request_id: Option<Seq<char>>,
    pub complete: bool,
}

impl DeepView for ModelOutput {
    type V = ModelOutputModel;

    open spec fn deep_view(&self) -> ModelOutputModel {
        ModelOutputModel {
            text: self.text.deep_view(),
            tool_calls: self.tool_calls.deep_view(),
            usage: self.usage.deep_view(),
            request_id: self.request_id.deep_view(),
            complete: self.complete.deep_view(),
        }
    }
}

impl Duplicate for ModelOutput {
    fn duplicate(&self) -> (r: Self) {
        ModelOutput {
            text: self.text.duplicate(),
            tool_calls: self.tool_calls.duplicate(),
            usage: self.usage.duplicate(),
            request_id: self.request_id.duplicate(),
            complete: self.complete.duplicate(),
        }
    }
}

impl Clone for ModelOutput {
    fn clone(&self) -> (r: Self)
        ensures
            r.deep_view() == self.deep_view(),
    {
        self.duplicate()
    }
}

impl Message {
    /// A message of text alone.
    pub fn text(role: &str, text: String) -> (r: Self)
        ensures
            r.deep_view() == text_message(role@, text@),
    {
        let r = Message {
            role: role.to_owned(),
            content: text,
            tool_calls: Vec::new(),
            tool_call_id: None,
        };
        assert(r.deep_view().tool_calls =~= Seq::empty());
        r
    }
}

/// A message of text alone.
pub open spec fn text_message(role: Seq<char>, text: Seq<char>) -> MessageModel {
    MessageModel { role, content: text, tool_calls: Seq::empty(), tool_call_id: None }
}

} // verus!
