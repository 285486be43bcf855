use moeb::messages::{AgentResponse, Message, ToolCall, ToolDef};
use moeb::wire::{
    anthropic_request, anthropic_request_body, gemini_request, gemini_request_body, openai_request, SystemPrompt, parse_anthropic_response, parse_gemini_response, parse_openai_response,
    parse_response_body, AnthropicBlock, AnthropicBody, AnthropicContent, ContentBlock, FunctionCallJson,
    GeminiBody, GeminiCallJson, GeminiPart, GeminiPartOut, OpenAiBody, ReplayBody, WireError,
};

fn block(kind: &str, text: Option<&str>, id: Option<&str>, name: Option<&str>, input: &str) -> ContentBlock {
    ContentBlock {
        kind: Some(kind.to_string()),
        text: text.map(str::to_string),
        id: id.map(str::to_string),
        name: name.map(str::to_string),
        input: input.to_string(),
    }
}

#[test]
fn system_message_extracted_to_top_level() {
    let messages = vec![Message::System("sys".to_string()), Message::User("hi".to_string())];
    let req = anthropic_request(&messages);
    assert_eq!(req.system.as_deref(), Some("sys"), "system field must be top-level");
    assert_eq!(req.messages.len(), 1, "only one user message expected");
    assert!(req.messages[0].user);
}

#[test]
fn consecutive_tool_results_are_batched() {
    let messages = vec![
        Message::ToolResult { call_id: "c1".to_string(), content: "r1".to_string() },
        Message::ToolResult { call_id: "c2".to_string(), content: "r2".to_string() },
    ];
    let req = anthropic_request(&messages);
    assert_eq!(req.messages.len(), 1, "two ToolResults must be batched into one user message");
    assert!(req.messages[0].user);
    match &req.messages[0].content {
        AnthropicContent::Blocks(bs) => {
            assert_eq!(bs.len(), 2);
            assert!(matches!(&bs[0], AnthropicBlock::ToolResult { tool_use_id, .. } if tool_use_id == "c1"));
            assert!(matches!(&bs[1], AnthropicBlock::ToolResult { tool_use_id, .. } if tool_use_id == "c2"));
        }
        _ => panic!("expected blocks"),
    }
}

#[test]
fn anthropic_layout_of_a_conversation() {
    let messages = vec![
        Message::System("first".to_string()),
        Message::User("u".to_string()),
        Message::Assistant("a".to_string()),
        Message::System("second".to_string()),
        Message::AssistantToolCalls(vec![ToolCall { id: "t".into(), name: "read".into(), arguments: "{\"p\":1}".into() }]),
        Message::ToolResult { call_id: "t".into(), content: "x".into() },
        Message::System("third".to_string()),
        Message::ToolResult { call_id: "u".into(), content: "y".into() },
        Message::User("again".to_string()),
    ];
    let req = anthropic_request(&messages);
    assert_eq!(req.system.as_deref(), Some("first"));
    assert_eq!(req.messages.len(), 5);
    assert!(matches!(&req.messages[0].content, AnthropicContent::Plain(t) if t == "u"));
    assert!(!req.messages[1].user);
    assert!(matches!(&req.messages[1].content, AnthropicContent::Blocks(bs) if matches!(&bs[0], AnthropicBlock::Text(t) if t == "a")));
    assert!(matches!(&req.messages[2].content, AnthropicContent::Blocks(bs) if matches!(&bs[0], AnthropicBlock::ToolUse { input, .. } if input == "{\"p\":1}")));
    assert!(matches!(&req.messages[3].content, AnthropicContent::Blocks(bs) if bs.len() == 2));
    assert!(req.messages[4].user);
}

#[test]
fn anthropic_answers() {
    let text = AnthropicBody {
        stop_reason: Some("end_turn".into()),
        content: Some(vec![block("thinking", None, None, None, "null"), block("text", Some("hi"), None, None, "null")]),
    };
    assert!(matches!(parse_anthropic_response(&text), Ok(AgentResponse::Text(t)) if t == "hi"));
    let tools = AnthropicBody {
        stop_reason: Some("tool_use".into()),
        content: Some(vec![
            block("text", Some("let me look"), None, None, "null"),
            block("tool_use", None, Some("tu1"), Some("read_file"), "{\"path\":\"a\"}"),
        ]),
    };
    match parse_anthropic_response(&tools) {
        Ok(AgentResponse::ToolCalls(cs)) => {
            assert_eq!(cs.len(), 1);
            assert_eq!(cs[0].id, "tu1");
            assert_eq!(cs[0].arguments, "{\"path\":\"a\"}");
        }
        other => panic!("unexpected {:?}", other),
    }
    let missing = AnthropicBody { stop_reason: None, content: None };
    assert_eq!(parse_anthropic_response(&missing).unwrap_err(), WireError::AnthropicMissingContent);
    let no_id = AnthropicBody {
        stop_reason: Some("tool_use".into()),
        content: Some(vec![block("tool_use", None, None, Some("x"), "null")]),
    };
    assert_eq!(parse_anthropic_response(&no_id).unwrap_err().message(), "Tool use block missing id");
}

#[test]
fn openai_answers() {
    let none = OpenAiBody { has_message: false, finish_reason: None, tool_calls: None, content: None };
    assert_eq!(parse_openai_response(&none).unwrap_err().message(), "Missing choices[0].message in OpenAI response");
    let text = OpenAiBody { has_message: true, finish_reason: Some("stop".into()), tool_calls: None, content: Some("yo".into()) };
    assert!(matches!(parse_openai_response(&text), Ok(AgentResponse::Text(t)) if t == "yo"));
    let call = FunctionCallJson { id: Some("c".into()), name: Some("f".into()), arguments: Some("{}".into()) };
    let tools = OpenAiBody { has_message: true, finish_reason: Some("tool_calls".into()), tool_calls: Some(vec![call]), content: None };
    assert!(matches!(parse_openai_response(&tools), Ok(AgentResponse::ToolCalls(cs)) if cs.len() == 1 && cs[0].name == "f"));
    let bad = FunctionCallJson { id: Some("c".into()), name: Some("f".into()), arguments: None };
    let tools = OpenAiBody { has_message: true, finish_reason: Some("tool_calls".into()), tool_calls: Some(vec![bad]), content: None };
    assert_eq!(parse_openai_response(&tools).unwrap_err(), WireError::OpenAiCallMissingArguments);
}

#[test]
fn parse_response_returns_text() {
    let body = GeminiBody { parts: Some(vec![GeminiPart { function_call: None, text: Some("hello there".into()) }]) };
    match parse_gemini_response(&body).unwrap() {
        AgentResponse::Text(t) => assert_eq!(t, "hello there"),
        other => panic!("expected Text, got {:?}", other),
    }
}

#[test]
fn parse_response_returns_tool_calls() {
    let body = GeminiBody {
        parts: Some(vec![GeminiPart {
            function_call: Some(GeminiCallJson { name: Some("read_file".into()), args: "{\"path\":\"src/main.rs\"}".into() }),
            text: None,
        }]),
    };
    match parse_gemini_response(&body).unwrap() {
        AgentResponse::ToolCalls(calls) => {
            assert_eq!(calls.len(), 1);
            assert_eq!(calls[0].id, "gemini_call_0");
            assert_eq!(calls[0].name, "read_file");
            let args: serde_json::Value = serde_json::from_str(&calls[0].arguments).unwrap();
            assert_eq!(args["path"], "src/main.rs");
        }
        other => panic!("expected ToolCalls, got {:?}", other),
    }
}

#[test]
fn gemini_texts_join_and_calls_are_numbered() {
    let body = GeminiBody {
        parts: Some(vec![
            GeminiPart { function_call: None, text: Some("a".into()) },
            GeminiPart { function_call: None, text: Some("b".into()) },
        ]),
    };
    assert!(matches!(parse_gemini_response(&body), Ok(AgentResponse::Text(t)) if t == "ab"));
    let fc = |n: &str| GeminiPart { function_call: Some(GeminiCallJson { name: Some(n.into()), args: "{}".into() }), text: None };
    let body = GeminiBody { parts: Some(vec![fc("x"), GeminiPart { function_call: None, text: Some("t".into()) }, fc("y")]) };
    match parse_gemini_response(&body).unwrap() {
        AgentResponse::ToolCalls(cs) => {
            assert_eq!(cs[0].id, "gemini_call_0");
            assert_eq!(cs[1].id, "gemini_call_1");
            assert_eq!(cs[1].name, "y");
        }
        other => panic!("unexpected {:?}", other),
    }
    assert_eq!(parse_gemini_response(&GeminiBody { parts: None }).unwrap_err(), WireError::GeminiMissingParts);
}

#[test]
fn system_message_becomes_system_instruction() {
    let messages = vec![Message::System("be helpful".to_string()), Message::User("hello".to_string())];
    let req = gemini_request(&messages);
    assert_eq!(req.system_instruction.as_deref(), Some("be helpful"));
    assert_eq!(req.contents.len(), 1, "only the user turn should be in contents");
    assert!(req.contents[0].user);
}

#[test]
fn consecutive_tool_results_batched_into_one_user_turn() {
    let messages = vec![
        Message::AssistantToolCalls(vec![
            ToolCall { id: "gemini_call_0".to_string(), name: "tool_a".to_string(), arguments: "{}".to_string() },
            ToolCall { id: "gemini_call_1".to_string(), name: "tool_b".to_string(), arguments: "{}".to_string() },
        ]),
        Message::ToolResult { call_id: "gemini_call_0".to_string(), content: "result_a".to_string() },
        Message::ToolResult { call_id: "gemini_call_1".to_string(), content: "result_b".to_string() },
    ];
    let req = gemini_request(&messages);
    assert_eq!(req.contents.len(), 2, "model turn + one batched user turn");
    assert!(!req.contents[0].user);
    assert!(req.contents[1].user);
    let parts = &req.contents[1].parts;
    assert_eq!(parts.len(), 2);
    assert!(matches!(&parts[0], GeminiPartOut::FunctionResponse { name, .. } if name == "tool_a"));
    assert!(matches!(&parts[1], GeminiPartOut::FunctionResponse { name, .. } if name == "tool_b"));
}

#[test]
fn tool_result_uses_function_name_from_preceding_tool_calls() {
    let messages = vec![
        Message::AssistantToolCalls(vec![ToolCall {
            id: "gemini_call_0".to_string(),
            name: "write_file".to_string(),
            arguments: "{}".to_string(),
        }]),
        Message::ToolResult { call_id: "gemini_call_0".to_string(), content: "ok".to_string() },
    ];
    let req = gemini_request(&messages);
    let parts = &req.contents[1].parts;
    assert!(
        matches!(&parts[0], GeminiPartOut::FunctionResponse { name, .. } if name == "write_file"),
        "functionResponse name must match the original tool call name"
    );
}

#[test]
fn gemini_unknown_call_id_is_its_own_name_and_last_system_wins() {
    let messages = vec![
        Message::System("one".into()),
        Message::System("two".into()),
        Message::ToolResult { call_id: "orphan".into(), content: "c".into() },
    ];
    let req = gemini_request(&messages);
    assert_eq!(req.system_instruction.as_deref(), Some("two"));
    assert!(matches!(&req.contents[0].parts[0], GeminiPartOut::FunctionResponse { name, .. } if name == "orphan"));
}

#[test]
fn replayed_answers() {
    let plain = ReplayBody { stop_reason: None, content: None, finish_reason: None, tool_calls: None, message_content: None, text: Some("raw".into()) };
    assert!(matches!(parse_response_body(&plain), Ok(AgentResponse::Text(t)) if t == "raw"));
    let anth = ReplayBody {
        stop_reason: Some("tool_use".into()),
        content: Some(vec![block("tool_use", None, Some("i"), None, "null")]),
        finish_reason: None,
        tool_calls: None,
        message_content: None,
        text: None,
    };
    assert_eq!(parse_response_body(&anth).unwrap_err().message(), "missing name");
    let oa = ReplayBody {
        stop_reason: None,
        content: None,
        finish_reason: Some("tool_calls".into()),
        tool_calls: None,
        message_content: None,
        text: None,
    };
    assert_eq!(parse_response_body(&oa).unwrap_err().message(), "Expected tool_calls array");
    let oa_text = ReplayBody {
        stop_reason: None,
        content: None,
        finish_reason: Some("stop".into()),
        tool_calls: None,
        message_content: Some("done".into()),
        text: None,
    };
    assert!(matches!(parse_response_body(&oa_text), Ok(AgentResponse::Text(t)) if t == "done"));
}

#[test]
fn build_request_body_caches_system_when_prompt_cache_true() {
    let messages = vec![Message::System("sys".to_string()), Message::User("hi".to_string())];
    let body = anthropic_request_body("model-x", &messages, &vec![], true);
    match &body.system {
        Some(SystemPrompt::CachedText(t)) => assert_eq!(t, "sys"),
        _ => panic!("system must be a cached text block when prompt_cache=true"),
    }
    assert_eq!(body.messages.len(), 1);
    assert!(body.messages[0].user);
    assert!(body.tools.is_empty());
    assert_eq!(body.max_tokens, 8192);
}

#[test]
fn build_request_body_plain_string_system_when_prompt_cache_false() {
    let messages = vec![Message::System("sys".to_string()), Message::User("hi".to_string())];
    let body = anthropic_request_body("model-x", &messages, &vec![], false);
    match &body.system {
        Some(SystemPrompt::Plain(t)) => assert_eq!(t, "sys"),
        _ => panic!("system must be a plain string when prompt_cache=false"),
    }
    assert_eq!(body.model, "model-x");
}

#[test]
fn tools_are_carried_into_requests() {
    let tools = vec![ToolDef {
        name: "read_file".to_string(),
        description: "Reads a file".to_string(),
        parameters: "{\"type\":\"object\"}".to_string(),
    }];
    let messages = vec![Message::User("hi".to_string())];
    let a = anthropic_request_body("m", &messages, &tools, false);
    assert_eq!(a.tools.len(), 1);
    assert_eq!(a.tools[0].name, "read_file");
    let o = openai_request("gpt", &messages, &tools);
    assert_eq!(o.tools.len(), 1);
    assert_eq!(o.tools[0].parameters, "{\"type\":\"object\"}");
}

#[test]
fn openai_messages_take_their_roles() {
    let call = ToolCall { id: "c1".into(), name: "f".into(), arguments: "{}".into() };
    let messages = vec![
        Message::System("s".into()),
        Message::User("u".into()),
        Message::Assistant("a".into()),
        Message::AssistantToolCalls(vec![call]),
        Message::ToolResult { call_id: "c1".into(), content: "r".into() },
    ];
    let o = openai_request("gpt", &messages, &vec![]);
    let roles: Vec<&str> = o.messages.iter().map(|m| m.role.as_str()).collect();
    assert_eq!(roles, vec!["system", "user", "assistant", "assistant", "tool"]);
    assert_eq!(o.messages[0].content.as_deref(), Some("s"));
    assert!(o.messages[3].content.is_none());
    assert_eq!(o.messages[3].tool_calls.as_ref().unwrap()[0].id, "c1");
    assert_eq!(o.messages[4].tool_call_id.as_deref(), Some("c1"));
    assert_eq!(o.messages[4].content.as_deref(), Some("r"));
    assert!(o.messages[1].tool_calls.is_none() && o.messages[1].tool_call_id.is_none());
}

#[test]
fn gemini_body_carries_tools_and_token_limit() {
    let tools = vec![ToolDef { name: "f".into(), description: "d".into(), parameters: "{}".into() }];
    let messages = vec![Message::System("s".into()), Message::User("u".into())];
    let b = gemini_request_body(&messages, &tools);
    assert_eq!(b.system_instruction.as_deref(), Some("s"));
    assert_eq!(b.contents.len(), 1);
    assert_eq!(b.tools.len(), 1);
    assert_eq!(b.max_output_tokens, 8192);
}
