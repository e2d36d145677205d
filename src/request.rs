//! Request values: validated options and the messages of a conversation.
use vstd::prelude::*;
use crate::response::Message;

verus! {

/// Why a request value was refused.
#[derive(Debug, Clone, PartialEq, Eq)]
pub enum RequestError {
    /// A maximum token count outside 1..=8192.
    MaxTokenOutOfRange(u32),
    /// A temperature above 2.
    TemperatureOutOfRange(u32),
    /// A count of top log probabilities above 20.
    TopLogprobsOutOfRange(u32),
    /// A message role other than system, user, assistant or tool.
    InvalidRole(String),
}

impl RequestError {
    /// A sentence that describes the error.
    pub fn to_string(&self) -> (r: String)
        ensures
            r@ == request_error_message(*self),
    {
        match self {
            RequestError::MaxTokenOutOfRange(_) => String::from_str("Max token must be between 1 and 8192."),
            RequestError::TemperatureOutOfRange(_) => String::from_str("Temperature must be between 0 and 2."),
            RequestError::TopLogprobsOutOfRange(_) => String::from_str("Top log probs must be between 0 and 20."),
            RequestError::InvalidRole(_) => String::from_str("Invalid message role."),
        }
    }
}

pub open spec fn request_error_message(e: RequestError) -> Seq<char> {
    match e {
        RequestError::MaxTokenOutOfRange(_) => "Max token must be between 1 and 8192."@,
        RequestError::TemperatureOutOfRange(_) => "Temperature must be between 0 and 2."@,
        RequestError::TopLogprobsOutOfRange(_) => "Top log probs must be between 0 and 20."@,
        RequestError::InvalidRole(_) => "Invalid message role."@,
    }
}

/// The kind of response asked for.
#[derive(Debug, Clone, Copy, PartialEq, Eq)]
pub enum ResponseType {
    Json,
    Text,
}

/// The format of the response.
#[derive(Debug, Clone, Copy, PartialEq, Eq)]
pub struct ResponseFormat {
    pub resp_type: ResponseType,
}

impl ResponseFormat {
    pub fn new(rt: ResponseType) -> (r: Self)
        ensures
            r.resp_type == rt,
    {
        ResponseFormat { resp_type: rt }
    }
}

/// The largest number of tokens to generate: between 1 and 8192.
#[derive(Debug, Clone, Copy, PartialEq, Eq)]
pub struct MaxToken(pub u32);

impl MaxToken {
    pub fn new(v: u32) -> (r: Result<Self, RequestError>)
        ensures
            r is Ok <==> 1 <= v <= 8192,
            r matches Ok(m) ==> m.0 == v,
            r matches Err(e) ==> e == RequestError::MaxTokenOutOfRange(v),
    {
        if v < 1 || v > 8192 {
            return Err(RequestError::MaxTokenOutOfRange(v));
        }
        Ok(MaxToken(v))
    }
}

impl Default for MaxToken {
    fn default() -> (r: Self)
        ensures
            r.0 == 4096,
    {
        MaxToken(4096)
    }
}

/// Where generation stops.
#[derive(Debug, Clone, PartialEq, Eq)]
pub enum Stop {
    Single(String),
    Multiple(Vec<String>),
}

/// Options of a streamed response.
#[derive(Debug, Clone, Copy, PartialEq, Eq)]
pub struct StreamOptions {
    pub include_usage: bool,
}

impl StreamOptions {
    pub fn new(include_usage: bool) -> (r: Self)
        ensures
            r.include_usage == include_usage,
    {
        StreamOptions { include_usage }
    }
}

/// The sampling temperature: between 0 and 2.
#[derive(Debug, Clone, Copy, PartialEq, Eq)]
pub struct Temperature(pub u32);

impl Temperature {
    pub fn new(v: u32) -> (r: Result<Self, RequestError>)
        ensures
            r is Ok <==> v <= 2,
            r matches Ok(t) ==> t.0 == v,
            r matches Err(e) ==> e == RequestError::TemperatureOutOfRange(v),
    {
        if v > 2 {
            return Err(RequestError::TemperatureOutOfRange(v));
        }
        Ok(Temperature(v))
    }
}

impl Default for Temperature {
    fn default() -> (r: Self)
        ensures
            r.0 == 1,
    {
        Temperature(1)
    }
}

/// The kind of a tool.
#[derive(Debug, Clone, Copy, PartialEq, Eq)]
pub enum ToolType {
    Function,
}

/// Whether and how the model may call tools.
#[derive(Debug, Clone, Copy, PartialEq, Eq)]
pub enum ChatCompletionToolChoice {
    /// No tool is called (`none` on the wire).
    NoTool,
    Auto,
    Required,
}

/// A function named by its name.
#[derive(Debug, Clone, PartialEq, Eq)]
pub struct FunctionChoice {
    pub name: String,
}

/// A tool that the model must call.
#[derive(Debug, Clone, PartialEq, Eq)]
pub struct ChatCompletionNamedToolChoice {
    pub tool_type: ToolType,
    pub function: FunctionChoice,
}

/// The tool choice of a request.
#[derive(Debug, Clone, PartialEq, Eq)]
pub enum ToolChoice {
    ChatCompletion(ChatCompletionToolChoice),
    ChatCompletionNamed(ChatCompletionNamedToolChoice),
}

/// How many of the most likely tokens to report: between 0 and 20.
#[derive(Debug, Clone, Copy, PartialEq, Eq)]
pub struct TopLogprobs(pub u32);

impl TopLogprobs {
    pub fn new(v: u32) -> (r: Result<Self, RequestError>)
        ensures
            r is Ok <==> v <= 20,
            r matches Ok(t) ==> t.0 == v,
            r matches Err(e) ==> e == RequestError::TopLogprobsOutOfRange(v),
    {
        if v > 20 {
            return Err(RequestError::TopLogprobsOutOfRange(v));
        }
        Ok(TopLogprobs(v))
    }
}

impl Default for TopLogprobs {
    fn default() -> (r: Self)
        ensures
            r.0 == 0,
    {
        TopLogprobs(0)
    }
}

/// A message from the system.
#[derive(Debug, Clone, PartialEq, Eq)]
pub struct SystemMessageRequest {
    pub content: String,
    pub name: Option<String>,
}

impl SystemMessageRequest {
    pub fn new(msg: &str) -> (r: Self)
        ensures
            r.content@ == msg@,
            r.name is None,
    {
        SystemMessageRequest { content: msg.to_owned(), name: None }
    }

    pub fn new_with_name(name: &str, msg: &str) -> (r: Self)
        ensures
            r.content@ == msg@,
            r.name matches Some(n) && n@ == name@,
    {
        SystemMessageRequest { content: msg.to_owned(), name: Some(name.to_owned()) }
    }
}

/// A message from the user.
#[derive(Debug, Clone, PartialEq, Eq)]
pub struct UserMessageRequest {
    pub content: String,
    pub name: Option<String>,
}

impl UserMessageRequest {
    pub fn new(msg: &str) -> (r: Self)
        ensures
            r.content@ == msg@,
            r.name is None,
    {
        UserMessageRequest { content: msg.to_owned(), name: None }
    }

    pub fn new_with_name(name: &str, msg: &str) -> (r: Self)
        ensures
            r.content@ == msg@,
            r.name matches Some(n) && n@ == name@,
    {
        UserMessageRequest { content: msg.to_owned(), name: Some(name.to_owned()) }
    }
}

/// A message from the assistant, sent back as history or as a prefix to
/// continue.
#[derive(Debug, Clone, PartialEq, Eq)]
pub struct AssistantMessageRequest {
    pub content: String,
    pub name: Option<String>,
    pub prefix: bool,
    pub reasoning_content: Option<String>,
}

impl AssistantMessageRequest {
    pub fn new(msg: &str) -> (r: Self)
        ensures
            r.content@ == msg@,
            r.name is None,
            !r.prefix,
            r.reasoning_content is None,
    {
        AssistantMessageRequest { content: msg.to_owned(), name: None, prefix: false, reasoning_content: None }
    }

    pub fn new_with_name(name: &str, msg: &str) -> (r: Self)
        ensures
            r.content@ == msg@,
            r.name matches Some(n) && n@ == name@,
            !r.prefix,
            r.reasoning_content is None,
    {
        AssistantMessageRequest {
            content: msg.to_owned(),
            name: Some(name.to_owned()),
            prefix: false,
            reasoning_content: None,
        }
    }

    /// Sets the reasoning content; the message becomes a prefix.
    pub fn set_reasoning_content(self, content: &str) -> (r: Self)
        ensures
            r.content == self.content,
            r.name == self.name,
            r.prefix,
            r.reasoning_content matches Some(c) && c@ == content@,
    {
        AssistantMessageRequest { prefix: true, reasoning_content: Some(content.to_owned()), ..self }
    }

    /// Replaces the content; the message becomes a prefix.
    pub fn set_prefix(self, content: &str) -> (r: Self)
        ensures
            r.content@ == content@,
            r.name == self.name,
            r.prefix,
            r.reasoning_content == self.reasoning_content,
    {
        AssistantMessageRequest { prefix: true, content: content.to_owned(), ..self }
    }
}

/// The result of a tool call, sent back to the model.
#[derive(Debug, Clone, PartialEq, Eq)]
pub struct ToolMessageRequest {
    pub content: String,
    pub tool_call_id: String,
}

impl ToolMessageRequest {
    pub fn new(msg: &str, tool_call_id: &str) -> (r: Self)
        ensures
            r.content@ == msg@,
            r.tool_call_id@ == tool_call_id@,
    {
        ToolMessageRequest { content: msg.to_owned(), tool_call_id: tool_call_id.to_owned() }
    }
}

/// A message of a conversation, by role.
#[derive(Debug, Clone, PartialEq, Eq)]
pub enum MessageRequest {
    System(SystemMessageRequest),
    User(UserMessageRequest),
    Assistant(AssistantMessageRequest),
    Tool(ToolMessageRequest),
}

/// The content of a message.
pub open spec fn content_of(m: MessageRequest) -> Seq<char> {
    match m {
        MessageRequest::System(r) => r.content@,
        MessageRequest::User(r) => r.content@,
        MessageRequest::Assistant(r) => r.content@,
        MessageRequest::Tool(r) => r.content@,
    }
}

impl MessageRequest {
    /// Turns a received message into one to send back, by its role.
    pub fn from_message(resp_message: &Message) -> (r: Result<Self, RequestError>)
        ensures
            r is Ok <==> (resp_message.role@ == "system"@ || resp_message.role@ == "user"@
                || resp_message.role@ == "assistant"@ || resp_message.role@ == "tool"@),
            r matches Err(e) ==> e matches RequestError::InvalidRole(role) && role@ == resp_message.role@,
            r matches Ok(m) ==> content_of(m) == resp_message.content@,
            r matches Ok(MessageRequest::System(s)) ==> resp_message.role@ == "system"@ && s.name is None,
            r matches Ok(MessageRequest::User(u)) ==> resp_message.role@ == "user"@ && u.name is None,
            r matches Ok(MessageRequest::Assistant(a)) ==> {
                &&& resp_message.role@ == "assistant"@
                &&& a.name is None
                &&& a.prefix == resp_message.reasoning_content is Some
                &&& match resp_message.reasoning_content {
                    Some(rc) => a.reasoning_content matches Some(c) && c@ == rc@,
                    None => a.reasoning_content is None,
                }
            },
            r matches Ok(MessageRequest::Tool(t)) ==> resp_message.role@ == "tool"@ && t.tool_call_id@.len() == 0,
    {
        let role = resp_message.role.as_str();
        let content = resp_message.content.as_str();
        if crate::text::same_text(role, "system") {
            Ok(MessageRequest::System(SystemMessageRequest::new(content)))
        } else if crate::text::same_text(role, "user") {
            Ok(MessageRequest::User(UserMessageRequest::new(content)))
        } else if crate::text::same_text(role, "assistant") {
            let request = match &resp_message.reasoning_content {
                Some(reasoning) => AssistantMessageRequest::new(content).set_reasoning_content(reasoning.as_str()),
                None => AssistantMessageRequest::new(content),
            };
            Ok(MessageRequest::Assistant(request))
        } else if crate::text::same_text(role, "tool") {
            let empty = String::new();
            Ok(MessageRequest::Tool(ToolMessageRequest::new(content, empty.as_str())))
        } else {
            Err(RequestError::InvalidRole(role.to_owned()))
        }
    }

    /// The content of the message, whatever its role.
    pub fn get_content(&self) -> (r: &str)
        ensures
            r@ == content_of(*self),
    {
        match self {
            MessageRequest::System(req) => req.content.as_str(),
            MessageRequest::User(req) => req.content.as_str(),
            MessageRequest::Assistant(req) => req.content.as_str(),
            MessageRequest::Tool(req) => req.content.as_str(),
        }
    }
}

} // verus!
