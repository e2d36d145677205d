use deepseek_api::event::{classify_line, Event};
use deepseek_api::request::{
    AssistantMessageRequest, MaxToken, MessageRequest, RequestError, ResponseFormat, ResponseType,
    StreamOptions, SystemMessageRequest, Temperature, ToolMessageRequest, TopLogprobs,
    UserMessageRequest,
};
use deepseek_api::response::{AssistantMessage, Message, ModelType};

#[test]
fn test_get_limit_info() {
    let chat_model = ModelType::DeepSeekChat;
    let reasoner_model = ModelType::DeepSeekReasoner;

    let (context_len, thought_chain_len, output_len) = chat_model.get_limit_info();
    assert_eq!(context_len, 64);
    assert_eq!(thought_chain_len, None);
    assert_eq!(output_len, 8);

    let (context_len, thought_chain_len, output_len) = reasoner_model.get_limit_info();
    assert_eq!(context_len, 64);
    assert_eq!(thought_chain_len, Some(32));
    assert_eq!(output_len, 8);
}

#[test]
fn model_names_and_options() {
    assert_eq!(ModelType::default(), ModelType::DeepSeekChat);
    assert_eq!(ModelType::DeepSeekChat.wire_name(), "deepseek-chat");
    assert_eq!(ModelType::DeepSeekReasoner.wire_name(), "deepseek-reasoner");
    assert!(ModelType::DeepSeekChat.takes_sampling_options());
    assert!(!ModelType::DeepSeekReasoner.takes_sampling_options());
}

#[test]
fn max_token_bounds() {
    assert_eq!(MaxToken::new(0), Err(RequestError::MaxTokenOutOfRange(0)));
    assert_eq!(MaxToken::new(1), Ok(MaxToken(1)));
    assert_eq!(MaxToken::new(8192), Ok(MaxToken(8192)));
    assert_eq!(MaxToken::new(8193), Err(RequestError::MaxTokenOutOfRange(8193)));
    assert_eq!(MaxToken::default(), MaxToken(4096));
    assert_eq!(
        RequestError::MaxTokenOutOfRange(0).to_string(),
        "Max token must be between 1 and 8192."
    );
}

#[test]
fn temperature_bounds() {
    assert_eq!(Temperature::new(0), Ok(Temperature(0)));
    assert_eq!(Temperature::new(2), Ok(Temperature(2)));
    assert_eq!(Temperature::new(3), Err(RequestError::TemperatureOutOfRange(3)));
    assert_eq!(Temperature::default(), Temperature(1));
    assert_eq!(
        RequestError::TemperatureOutOfRange(3).to_string(),
        "Temperature must be between 0 and 2."
    );
}

#[test]
fn top_logprobs_bounds() {
    assert_eq!(TopLogprobs::new(0), Ok(TopLogprobs(0)));
    assert_eq!(TopLogprobs::new(20), Ok(TopLogprobs(20)));
    assert_eq!(TopLogprobs::new(21), Err(RequestError::TopLogprobsOutOfRange(21)));
    assert_eq!(TopLogprobs::default(), TopLogprobs(0));
    assert_eq!(
        RequestError::TopLogprobsOutOfRange(21).to_string(),
        "Top log probs must be between 0 and 20."
    );
}

#[test]
fn simple_constructors() {
    assert_eq!(ResponseFormat::new(ResponseType::Json).resp_type, ResponseType::Json);
    assert!(StreamOptions::new(true).include_usage);
    let s = SystemMessageRequest::new_with_name("sys", "be brief");
    assert_eq!(s.content, "be brief");
    assert_eq!(s.name, Some("sys".to_string()));
    let u = UserMessageRequest::new("hi");
    assert_eq!(u.content, "hi");
    assert_eq!(u.name, None);
    let t = ToolMessageRequest::new("42", "call_1");
    assert_eq!(t.content, "42");
    assert_eq!(t.tool_call_id, "call_1");
}

#[test]
fn assistant_message_request_setters() {
    let a = AssistantMessageRequest::new("draft");
    assert!(!a.prefix);
    let a = a.set_reasoning_content("because");
    assert!(a.prefix);
    assert_eq!(a.reasoning_content, Some("because".to_string()));
    assert_eq!(a.content, "draft");
    let b = AssistantMessageRequest::new_with_name("bot", "x").set_prefix("```python\n");
    assert_eq!(b.content, "```python\n");
    assert_eq!(b.name, Some("bot".to_string()));
    assert!(b.prefix);
}

#[test]
fn assistant_message_setters() {
    let m = AssistantMessage::new_with_name("bot", "hello").set_prefix("continue");
    assert_eq!(m.content, "continue");
    assert_eq!(m.name, Some("bot".to_string()));
    assert!(m.prefix);
    assert_eq!(m.tool_calls, None);
    assert!(!AssistantMessage::new("x").prefix);
}

fn message(role: &str, reasoning: Option<&str>) -> Message {
    Message {
        content: "text".to_string(),
        reasoning_content: reasoning.map(|r| r.to_string()),
        tool_calls: None,
        role: role.to_string(),
    }
}

#[test]
fn message_request_from_message() {
    assert_eq!(
        MessageRequest::from_message(&message("system", None)),
        Ok(MessageRequest::System(SystemMessageRequest::new("text")))
    );
    assert_eq!(
        MessageRequest::from_message(&message("user", None)),
        Ok(MessageRequest::User(UserMessageRequest::new("text")))
    );
    assert_eq!(
        MessageRequest::from_message(&message("assistant", None)),
        Ok(MessageRequest::Assistant(AssistantMessageRequest::new("text")))
    );
    assert_eq!(
        MessageRequest::from_message(&message("assistant", Some("why"))),
        Ok(MessageRequest::Assistant(
            AssistantMessageRequest::new("text").set_reasoning_content("why")
        ))
    );
    assert_eq!(
        MessageRequest::from_message(&message("tool", None)),
        Ok(MessageRequest::Tool(ToolMessageRequest::new("text", "")))
    );
    let err = MessageRequest::from_message(&message("robot", None)).unwrap_err();
    assert_eq!(err, RequestError::InvalidRole("robot".to_string()));
    assert_eq!(err.to_string(), "Invalid message role.");
}

#[test]
fn message_request_content() {
    let m = MessageRequest::Tool(ToolMessageRequest::new("result", "id"));
    assert_eq!(m.get_content(), "result");
    let m = MessageRequest::Assistant(AssistantMessageRequest::new("answer"));
    assert_eq!(m.get_content(), "answer");
}

#[test]
fn classify_trims_unicode_white_space() {
    assert_eq!(
        classify_line("\u{3000} data: {\"a\":1} \t\r".as_bytes().to_vec()),
        Event::Data("{\"a\":1}".to_string())
    );
    assert_eq!(classify_line(b"  : keep-alive ".to_vec()), Event::KeepAlive);
    assert_eq!(classify_line(b"\xc2\xa0".to_vec()), Event::Blank);
    assert_eq!(classify_line(b" data: [DONE]\r".to_vec()), Event::Terminator);
    assert_eq!(classify_line(b"data: ".to_vec()), Event::Unprefixed("data:".to_string()));
    assert_eq!(classify_line(b"data:  x".to_vec()), Event::Data(" x".to_string()));
    assert_eq!(
        classify_line(b" id: 7 ".to_vec()),
        Event::Unprefixed("id: 7".to_string())
    );
    assert_eq!(classify_line(vec![0xc3]), Event::NotUtf8(vec![0xc3]));
}

#[test]
fn model_descriptions() {
    assert_eq!(
        ModelType::DeepSeekChat.description(),
        "DeepSeekChat: Context Length = 64K, Max Output Length = 8K"
    );
    assert_eq!(
        ModelType::DeepSeekReasoner.description(),
        "DeepSeekReasoner: Context Length = 64K, Max Thought Chain Length = Some(32)K, Max Output Length = 8K"
    );
}
