use velo_hub::converter::{
    AnthropicContent, AnthropicDelta, AnthropicResponse, AnthropicStreamChunk, AnthropicToolChoice, AnthropicUsage,
    FormatConverter, GeminiCandidate, GeminiContent, GeminiPart, GeminiResponse, GeminiStreamChunk, GeminiUsageMetadata,
};
use velo_hub::models::{
    ChatCompletionRequest, FunctionCall, Message, Tool, ToolCall, ToolChoice, ToolChoiceFunction, ToolFunction,
};

fn msg(role: &str, content: &str) -> Message {
    Message { role: role.to_string(), content: Some(content.to_string()), name: None, tool_calls: None, tool_call_id: None }
}

fn request(model: &str, messages: Vec<Message>) -> ChatCompletionRequest {
    ChatCompletionRequest {
        model: model.to_string(),
        messages,
        temperature: Some(0.7f32.to_bits()),
        max_tokens: Some(1000),
        top_p: None,
        n: None,
        stream: false,
        stop: None,
        presence_penalty: None,
        frequency_penalty: None,
        user: None,
        tools: None,
        tool_choice: None,
    }
}

#[test]
fn test_openai_to_anthropic_basic() {
    let req = request("opus-3-20240229", vec![msg("system", "You are a helpful assistant"), msg("user", "Hello")]);
    let anthropic_req = FormatConverter::openai_to_anthropic(&req).unwrap();
    assert_eq!(anthropic_req.model, "opus-3-20240229");
    assert_eq!(anthropic_req.system, Some("You are a helpful assistant".to_string()));
    assert_eq!(anthropic_req.messages.len(), 1);
    assert_eq!(anthropic_req.messages[0].role, "user");
    assert_eq!(anthropic_req.messages[0].content, "Hello");
}

#[test]
fn test_openai_to_anthropic_with_tools() {
    let mut req = request("opus-3-20240229", vec![msg("user", "What's the weather?")]);
    req.temperature = None;
    req.max_tokens = None;
    let parameters: serde_json::Value =
        serde_json::from_str(r#"{"type": "object", "properties": {"location": {"type": "string"}}}"#).unwrap();
    req.tools = Some(vec![Tool {
        tool_type: "function".to_string(),
        function: ToolFunction {
            name: "get_weather".to_string(),
            description: Some("Get the weather".to_string()),
            parameters,
        },
    }]);
    let anthropic_req = FormatConverter::openai_to_anthropic(&req).unwrap();
    assert!(anthropic_req.tools.is_some());
    let tools = anthropic_req.tools.unwrap();
    assert_eq!(tools.len(), 1);
    assert_eq!(tools[0].name, "get_weather");
    assert_eq!(anthropic_req.max_tokens, 4096);
}

#[test]
fn test_anthropic_to_openai_basic() {
    let anthropic_response = AnthropicResponse {
        id: "msg_123".to_string(),
        response_type: "message".to_string(),
        role: "assistant".to_string(),
        content: vec![AnthropicContent::Text { text: "Hello! How can I help you?".to_string() }],
        model: "opus-3-20240229".to_string(),
        stop_reason: Some("end_turn".to_string()),
        usage: AnthropicUsage { input_tokens: 10, output_tokens: 20 },
    };
    let openai_response = FormatConverter::anthropic_to_openai(anthropic_response, "opus-3-20240229").unwrap();
    assert_eq!(openai_response.model, "opus-3-20240229");
    assert_eq!(openai_response.choices.len(), 1);
    assert_eq!(openai_response.choices[0].message.content, Some("Hello! How can I help you?".to_string()));
    assert_eq!(openai_response.usage.prompt_tokens, 10);
    assert_eq!(openai_response.usage.completion_tokens, 20);
}

#[test]
fn test_openai_to_gemini_basic() {
    let req = request("gemini-pro", vec![msg("system", "You are helpful"), msg("user", "Hello")]);
    let gemini_req = FormatConverter::openai_to_gemini(&req).unwrap();
    assert_eq!(gemini_req.system_instruction, Some("You are helpful".to_string()));
    assert_eq!(gemini_req.contents.len(), 1);
    assert_eq!(gemini_req.contents[0].role, "user");
}

#[test]
fn gemini_roles_and_generation_config() {
    let req = request("gemini-pro", vec![msg("user", "Hi"), msg("assistant", "Hello"), msg("tool", "42")]);
    let g = FormatConverter::openai_to_gemini(&req).unwrap();
    let roles: Vec<&str> = g.contents.iter().map(|c| c.role.as_str()).collect();
    assert_eq!(roles, vec!["user", "model", "user"]);
    let cfg = g.generation_config.unwrap();
    assert_eq!(cfg.max_output_tokens, Some(1000));
    assert_eq!(cfg.temperature, Some(0.7f32.to_bits()));
}

#[test]
fn anthropic_tool_use_and_joined_text() {
    let input: serde_json::Value = serde_json::from_str(r#"{"city":"Paris"}"#).unwrap();
    let resp = AnthropicResponse {
        id: "msg_1".to_string(),
        response_type: "message".to_string(),
        role: "assistant".to_string(),
        content: vec![
            AnthropicContent::Text { text: "one".to_string() },
            AnthropicContent::ToolUse { id: "tu_1".to_string(), name: "weather".to_string(), input },
            AnthropicContent::Text { text: "two".to_string() },
        ],
        model: "m".to_string(),
        stop_reason: None,
        usage: AnthropicUsage { input_tokens: 1, output_tokens: 2 },
    };
    let r = FormatConverter::anthropic_to_openai_at(resp, "m", 77).unwrap();
    assert_eq!(r.created, 77);
    assert_eq!(r.object, "chat.completion");
    assert_eq!(r.usage.total_tokens, 3);
    let c = &r.choices[0];
    assert_eq!(c.message.content, Some("one\ntwo".to_string()));
    assert_eq!(c.finish_reason, Some("stop".to_string()));
    let calls = c.message.tool_calls.as_ref().unwrap();
    assert_eq!(calls[0].id, "tu_1");
    assert_eq!(calls[0].call_type, "function");
    assert_eq!(calls[0].function.arguments, r#"{"city":"Paris"}"#);
}

#[test]
fn gemini_response_conversion() {
    let resp = GeminiResponse {
        candidates: vec![GeminiCandidate {
            content: GeminiContent {
                role: "model".to_string(),
                parts: vec![GeminiPart::Text { text: "a".to_string() }, GeminiPart::Text { text: "b".to_string() }],
            },
            finish_reason: Some("STOP".to_string()),
        }],
        usage_metadata: Some(GeminiUsageMetadata {
            prompt_token_count: Some(3),
            candidates_token_count: None,
            total_token_count: Some(9),
        }),
    };
    let r = FormatConverter::gemini_to_openai_at(resp, "gemini-pro", 123, 5).unwrap();
    assert_eq!(r.id, "gemini-123");
    assert_eq!(r.choices[0].message.role, "assistant");
    assert_eq!(r.choices[0].message.content, Some("a\nb".to_string()));
    assert_eq!(r.choices[0].finish_reason, Some("STOP".to_string()));
    assert_eq!(r.usage.prompt_tokens, 3);
    assert_eq!(r.usage.completion_tokens, 0);
    assert_eq!(r.usage.total_tokens, 9);
}

#[test]
fn gemini_without_candidates_is_refused() {
    let resp = GeminiResponse { candidates: vec![], usage_metadata: None };
    let e = FormatConverter::gemini_to_openai(resp, "g").unwrap_err();
    assert_eq!(e.to_string(), "Provider error: Provider response error: No candidates in response");
}

#[test]
fn anthropic_stream_events() {
    let start = FormatConverter::anthropic_chunk_to_openai_at(
        AnthropicStreamChunk { event_type: "content_block_start".to_string(), delta: None }, "m", 9, 1);
    assert_eq!(start.id, "chatcmpl-9");
    assert_eq!(start.choices[0].delta.role, Some("assistant".to_string()));
    let delta = FormatConverter::anthropic_chunk_to_openai_at(
        AnthropicStreamChunk { event_type: "content_block_delta".to_string(), delta: Some(AnthropicDelta { text: Some("Hi".to_string()) }) },
        "m", 9, 1);
    assert_eq!(delta.choices[0].delta.content, Some("Hi".to_string()));
    assert_eq!(delta.choices[0].finish_reason, None);
    let stop = FormatConverter::anthropic_chunk_to_openai_at(
        AnthropicStreamChunk { event_type: "message_stop".to_string(), delta: None }, "m", 9, 1);
    assert_eq!(stop.choices[0].finish_reason, Some("stop".to_string()));
    assert_eq!(stop.object, "chat.completion.chunk");
}

#[test]
fn gemini_stream_chunks() {
    let empty = FormatConverter::gemini_chunk_to_openai_at(GeminiStreamChunk { candidates: vec![] }, "g", 1, 2);
    assert_eq!(empty.choices[0].delta.role, None);
    let chunk = GeminiStreamChunk {
        candidates: vec![GeminiCandidate {
            content: GeminiContent { role: "model".to_string(), parts: vec![GeminiPart::Text { text: "x".to_string() }, GeminiPart::Text { text: "y".to_string() }] },
            finish_reason: None,
        }],
    };
    let c = FormatConverter::gemini_chunk_to_openai_at(chunk, "g", 1, 2);
    assert_eq!(c.choices[0].delta.content, Some("xy".to_string()));
}

#[test]
fn tool_calls_are_written_as_json() {
    let calls = vec![ToolCall {
        id: "c\"1".to_string(),
        call_type: "function".to_string(),
        function: FunctionCall { name: "f".to_string(), arguments: "{\"a\":\n1}".to_string() },
    }];
    let text = FormatConverter::convert_tool_calls_to_anthropic_content(&calls).unwrap();
    assert_eq!(text, "[{\"id\":\"c\\\"1\",\"type\":\"function\",\"function\":{\"name\":\"f\",\"arguments\":\"{\\\"a\\\":\\n1}\"}}]");
    let parsed: serde_json::Value = serde_json::from_str(&text).unwrap();
    assert_eq!(parsed[0]["id"], "c\"1");
    assert_eq!(parsed[0]["function"]["arguments"], "{\"a\":\n1}");
}

#[test]
fn tool_choice_conversion() {
    assert!(matches!(FormatConverter::convert_tool_choice_to_anthropic(&ToolChoice::Auto), Some(AnthropicToolChoice::Auto)));
    assert!(matches!(FormatConverter::convert_tool_choice_to_anthropic(&ToolChoice::Required), Some(AnthropicToolChoice::Any)));
    assert!(FormatConverter::convert_tool_choice_to_anthropic(&ToolChoice::NoTool).is_none());
    let specific = ToolChoice::Specific { choice_type: "function".to_string(), function: ToolChoiceFunction { name: "f".to_string() } };
    match FormatConverter::convert_tool_choice_to_anthropic(&specific) {
        Some(AnthropicToolChoice::Tool { name }) => assert_eq!(name, "f"),
        _ => panic!("expected a named tool"),
    }
}
