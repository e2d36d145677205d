//! Response values: models, balances, messages and streamed chunks.
use vstd::prelude::*;
use crate::text::{decimal, decimal_text};

verus! {

/// The models that the service offers.
#[derive(Debug, Clone, Copy, PartialEq, Eq)]
pub enum ModelType {
    /// The chat model; the default.
    DeepSeekChat,
    /// The reasoning model.
    DeepSeekReasoner,
}

impl Default for ModelType {
    fn default() -> (r: Self)
        ensures
            r == ModelType::DeepSeekChat,
    {
        ModelType::DeepSeekChat
    }
}

impl ModelType {
    /// The limits of the model, in thousands of tokens: context length,
    /// maximum thought-chain length (reasoning model only) and maximum
    /// output length.
    pub fn get_limit_info(&self) -> (r: (u32, Option<u32>, u32))
        ensures
            r.0 == 64,
            r.2 == 8,
            *self == ModelType::DeepSeekChat ==> r.1 is None,
            *self == ModelType::DeepSeekReasoner ==> r.1 == Some(32u32),
    {
        match self {
            ModelType::DeepSeekChat => (64, None, 8),
            ModelType::DeepSeekReasoner => (64, Some(32), 8),
        }
    }

    /// A description of the model and its limits.
    pub fn description(&self) -> (r: String)
        ensures
            *self == ModelType::DeepSeekChat ==> r@ == "DeepSeekChat: Context Length = "@
                + decimal(64) + "K, Max Output Length = "@ + decimal(8) + "K"@,
            *self == ModelType::DeepSeekReasoner ==> r@ == "DeepSeekReasoner: Context Length = "@
                + decimal(64) + "K, Max Thought Chain Length = Some("@ + decimal(32)
                + ")K, Max Output Length = "@ + decimal(8) + "K"@,
    {
        let (context_len, thought_chain_len, output_len) = self.get_limit_info();
        match thought_chain_len {
            None => String::from_str("DeepSeekChat: Context Length = ").concat(
                decimal_text(context_len).as_str(),
            ).concat("K, Max Output Length = ").concat(decimal_text(output_len).as_str()).concat(
                "K",
            ),
            Some(thought) => String::from_str("DeepSeekReasoner: Context Length = ").concat(
                decimal_text(context_len).as_str(),
            ).concat("K, Max Thought Chain Length = Some(").concat(
                decimal_text(thought).as_str(),
            ).concat(")K, Max Output Length = ").concat(decimal_text(output_len).as_str()).concat(
                "K",
            ),
        }
    }

    /// The name of the model on the wire.
    pub fn wire_name(&self) -> (r: &'static str)
        ensures
            *self == ModelType::DeepSeekChat ==> r@ == "deepseek-chat"@,
            *self == ModelType::DeepSeekReasoner ==> r@ == "deepseek-reasoner"@,
    {
        match self {
            ModelType::DeepSeekChat => "deepseek-chat",
            ModelType::DeepSeekReasoner => "deepseek-reasoner",
        }
    }

    /// Whether requests for this model carry the sampling options
    /// (temperature, top-p, penalties, log probabilities); the reasoning
    /// model ignores them, so they are left out.
    pub fn takes_sampling_options(&self) -> (r: bool)
        ensures
            r == (*self == ModelType::DeepSeekChat),
    {
        match self {
            ModelType::DeepSeekChat => true,
            ModelType::DeepSeekReasoner => false,
        }
    }
}

/// A model and its owner.
#[derive(Debug, Clone, PartialEq, Eq)]
pub struct Model {
    pub id: String,
    pub object: String,
    pub owned_by: String,
}

/// The list of models.
#[derive(Debug, Clone, PartialEq, Eq)]
pub struct ModelResp {
    pub object: String,
    pub data: Vec<Model>,
}

/// The balance of an account in one currency.
#[derive(Debug, Clone, PartialEq, Eq)]
pub struct BalanceInfo {
    pub currency: String,
    pub total_balance: String,
    pub granted_balance: String,
    pub topped_up_balance: String,
}

/// The balances of an account.
#[derive(Debug, Clone, PartialEq, Eq)]
pub struct BalanceResp {
    pub is_available: bool,
    pub balance_infos: Vec<BalanceInfo>,
}

/// A function that the model asks to call, with its arguments as JSON text.
#[derive(Debug, Clone, PartialEq, Eq)]
pub struct Function {
    pub name: String,
    pub arguments: String,
}

/// A tool call that the model asks for.
#[derive(Debug, Clone, PartialEq, Eq)]
pub struct ToolCall {
    pub id: String,
    pub tool_type: String,
    pub function: Function,
}

/// A message written by the assistant.
#[derive(Debug, Clone, PartialEq, Eq)]
pub struct AssistantMessage {
    pub content: String,
    pub reasoning_content: Option<String>,
    pub tool_calls: Option<Vec<ToolCall>>,
    pub name: Option<String>,
    pub prefix: bool,
}

impl AssistantMessage {
    pub fn new(msg: &str) -> (r: Self)
        ensures
            r.content@ == msg@,
            r.reasoning_content is None,
            r.tool_calls is None,
            r.name is None,
            !r.prefix,
    {
        AssistantMessage {
            content: msg.to_owned(),
            reasoning_content: None,
            tool_calls: None,
            name: None,
            prefix: false,
        }
    }

    pub fn new_with_name(name: &str, msg: &str) -> (r: Self)
        ensures
            r.content@ == msg@,
            r.reasoning_content is None,
            r.tool_calls is None,
            r.name matches Some(n) && n@ == name@,
            !r.prefix,
    {
        AssistantMessage {
            content: msg.to_owned(),
            reasoning_content: None,
            tool_calls: None,
            name: Some(name.to_owned()),
            prefix: false,
        }
    }

    /// Replaces the content; the message becomes a prefix to continue.
    pub fn set_prefix(self, content: &str) -> (r: Self)
        ensures
            r.content@ == content@,
            r.reasoning_content == self.reasoning_content,
            r.tool_calls == self.tool_calls,
            r.name == self.name,
            r.prefix,
    {
        AssistantMessage { prefix: true, content: content.to_owned(), ..self }
    }
}

/// A received message together with its role.
#[derive(Debug, Clone, PartialEq, Eq)]
pub struct Message {
    pub content: String,
    pub reasoning_content: Option<String>,
    pub tool_calls: Option<Vec<ToolCall>>,
    pub role: String,
}

/// Why the model stopped.
#[derive(Debug, Clone, Copy, PartialEq, Eq)]
pub enum FinishReason {
    Stop,
    Length,
    ContentFilter,
    ToolCalls,
    InsufficientSystemResource,
}

/// Token counts of a request.
#[derive(Debug, Clone, Copy, PartialEq, Eq)]
pub struct Usage {
    pub completion_tokens: u64,
    pub prompt_tokens: u64,
    pub prompt_cache_hit_tokens: u64,
    pub prompt_cache_miss_tokens: u64,
    pub total_tokens: u64,
    pub completion_tokens_details: Option<CompletionTokensDetails>,
}

/// Token counts of the reasoning.
#[derive(Debug, Clone, Copy, PartialEq, Eq)]
pub struct CompletionTokensDetails {
    pub reasoning_tokens: u64,
}

/// The text that one streamed chunk adds.
#[derive(Debug, Clone, PartialEq, Eq)]
pub struct Delta {
    pub content: String,
    pub reasoning_content: String,
    pub role: String,
}

/// One choice of a streamed chat chunk.
#[derive(Debug, Clone, PartialEq, Eq)]
pub struct JSONChoiceStream {
    pub delta: Delta,
    pub finish_reason: Option<FinishReason>,
    pub index: usize,
}

/// One choice of a streamed completion chunk.
#[derive(Debug, Clone, PartialEq, Eq)]
pub struct TextChoiceStream {
    pub text: String,
    pub finish_reason: Option<FinishReason>,
    pub index: usize,
}

/// One chunk of a streamed completion.
#[derive(Debug, Clone, PartialEq, Eq)]
pub struct ChatCompletionStream<T> {
    pub id: String,
    pub choices: Vec<T>,
    pub created: u32,
    pub model: String,
    pub system_fingerprint: String,
    pub object: String,
}

} // verus!
