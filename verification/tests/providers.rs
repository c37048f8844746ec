use minder::anthropic::{
    from_anthropic_response, to_anthropic_messages, AnthropicContentBlock, AnthropicProvider,
    AnthropicResponse,
};
use minder::gemini::{
    from_gemini_response, to_gemini_contents, GeminiProvider, GmCandidate, GmContent, GmPart,
    GmResponse, GmUsage,
};
use minder::json::Json;
use minder::message::{
    ContentBlock, Message, Role, StopReason, ToolCall, ToolResult, ToolResultContent, ToolSpec,
};
use minder::openai::{
    from_openai_response, to_openai_messages, OaChoice, OaFunctionCall, OaResponse, OaToolCall,
    OaUsage, OpenAiProvider,
};
use minder::provider::{
    check_reply, is_context_length_error, mentions_context_limit, ProviderError,
};

fn json(text: &str) -> Json {
    Json::parse(text).expect("valid JSON")
}

fn text_in(j: &Json, key: &str) -> String {
    j.get_text(key).expect("a text").clone()
}

fn results(id: &str, content: &str) -> Vec<Message> {
    vec![Message::tool_results(vec![ToolResult {
        tool_call_id: id.into(),
        content: ToolResultContent::Text(content.into()),
        is_error: false,
    }])]
}

fn with_system() -> Vec<Message> {
    vec![
        Message {
            role: Role::System,
            content: vec![ContentBlock::Text("ignored".into())],
            metadata: Json::Null,
        },
        Message::user_text("hi"),
    ]
}

#[test]
fn anthropic_parses_text_only_response() {
    let resp = from_anthropic_response(AnthropicResponse {
        content: vec![AnthropicContentBlock::Text { text: "hello there friend".to_string() }],
        stop_reason: Some("end_turn".to_string()),
        input_tokens: 10,
        output_tokens: 4,
    });
    assert_eq!(resp.stop_reason, StopReason::EndTurn);
    assert_eq!(resp.usage.input_tokens, 10);
    assert_eq!(resp.usage.output_tokens, 4);
    match &resp.message.content[0] {
        ContentBlock::Text(t) => assert_eq!(t, "hello there friend"),
        _ => panic!("expected Text"),
    }
}

#[test]
fn parses_tool_use_response_as_stop_reason_tool_use() {
    let resp = from_anthropic_response(AnthropicResponse {
        content: vec![
            AnthropicContentBlock::Text { text: "Let me check that.".to_string() },
            AnthropicContentBlock::ToolUse {
                id: "toolu_1".to_string(),
                name: "bash".to_string(),
                input: json(r#"{"command": "ls"}"#),
            },
        ],
        stop_reason: Some("tool_use".to_string()),
        input_tokens: 20,
        output_tokens: 8,
    });
    assert_eq!(resp.stop_reason, StopReason::ToolUse);
    let calls = resp.message.tool_calls();
    assert_eq!(calls.len(), 1);
    assert_eq!(calls[0].name, "bash");
    assert_eq!(text_in(&calls[0].arguments, "command"), "ls");
}

#[test]
fn tool_role_message_becomes_user_role_with_tool_result_block() {
    let mapped = to_anthropic_messages(&results("toolu_1", "file1\nfile2"));
    assert_eq!(mapped.len(), 1);
    assert_eq!(mapped[0].role, "user");
    match &mapped[0].content[0] {
        AnthropicContentBlock::ToolResult { tool_use_id, content, is_error } => {
            assert_eq!(tool_use_id, "toolu_1");
            assert_eq!(content, "file1\nfile2");
            assert_eq!(*is_error, None);
        }
        _ => panic!("expected ToolResult"),
    }
}

#[test]
fn system_role_message_is_excluded_from_messages_array() {
    let mapped = to_anthropic_messages(&with_system());
    assert_eq!(mapped.len(), 1);
    assert_eq!(mapped[0].role, "user");
}

#[test]
fn openai_parses_text_only_response() {
    let resp = from_openai_response(OaResponse {
        choices: vec![OaChoice {
            content: Some("hello there".to_string()),
            tool_calls: Vec::new(),
            finish_reason: Some("stop".to_string()),
        }],
        usage: Some(OaUsage { prompt_tokens: 10, completion_tokens: 3 }),
    })
    .ok()
    .unwrap();
    assert_eq!(resp.stop_reason, StopReason::EndTurn);
    match &resp.message.content[0] {
        ContentBlock::Text(t) => assert_eq!(t, "hello there"),
        _ => panic!("expected Text"),
    }
}

#[test]
fn parses_tool_call_response() {
    let resp = from_openai_response(OaResponse {
        choices: vec![OaChoice {
            content: None,
            tool_calls: vec![OaToolCall {
                id: "call_1".to_string(),
                kind: "function".to_string(),
                function: OaFunctionCall {
                    name: "bash".to_string(),
                    arguments: "{\"command\":\"ls\"}".to_string(),
                },
            }],
            finish_reason: Some("tool_calls".to_string()),
        }],
        usage: Some(OaUsage { prompt_tokens: 20, completion_tokens: 8 }),
    })
    .ok()
    .unwrap();
    assert_eq!(resp.stop_reason, StopReason::ToolUse);
    let calls = resp.message.tool_calls();
    assert_eq!(calls[0].name, "bash");
    assert_eq!(text_in(&calls[0].arguments, "command"), "ls");
}

#[test]
fn assistant_tool_use_becomes_tool_calls_with_stringified_arguments() {
    let messages = vec![Message {
        role: Role::Assistant,
        content: vec![ContentBlock::ToolUse(ToolCall {
            id: "call_1".into(),
            name: "bash".into(),
            arguments: json(r#"{"command": "ls"}"#),
        })],
        metadata: Json::Null,
    }];
    let mapped = to_openai_messages(&messages);
    assert_eq!(mapped[0].tool_calls[0].function.arguments, r#"{"command":"ls"}"#);
}

#[test]
fn an_answer_without_choices_is_an_error() {
    let e = from_openai_response(OaResponse { choices: Vec::new(), usage: None }).err().unwrap();
    assert!(matches!(e, ProviderError::Deserialize(_)));
    let e = from_gemini_response(GmResponse { candidates: Vec::new(), usage_metadata: None })
        .err()
        .unwrap();
    assert!(matches!(e, ProviderError::Deserialize(_)));
}

#[test]
fn gemini_parses_text_only_response() {
    let resp = from_gemini_response(GmResponse {
        candidates: vec![GmCandidate {
            content: Some(GmContent {
                role: Some("model".to_string()),
                parts: vec![GmPart::Text { text: "hello there".to_string() }],
            }),
            finish_reason: Some("STOP".to_string()),
        }],
        usage_metadata: Some(GmUsage { prompt_token_count: 10, candidates_token_count: 3 }),
    })
    .ok()
    .unwrap();
    assert_eq!(resp.stop_reason, StopReason::EndTurn);
    match &resp.message.content[0] {
        ContentBlock::Text(t) => assert_eq!(t, "hello there"),
        _ => panic!("expected Text"),
    }
}

#[test]
fn parses_function_call_and_synthesizes_id() {
    let resp = from_gemini_response(GmResponse {
        candidates: vec![GmCandidate {
            content: Some(GmContent {
                role: Some("model".to_string()),
                parts: vec![GmPart::FunctionCall {
                    name: "bash".to_string(),
                    args: json(r#"{"command": "ls"}"#),
                }],
            }),
            finish_reason: Some("STOP".to_string()),
        }],
        usage_metadata: Some(GmUsage { prompt_token_count: 20, candidates_token_count: 8 }),
    })
    .ok()
    .unwrap();
    assert_eq!(resp.stop_reason, StopReason::ToolUse);
    let calls = resp.message.tool_calls();
    assert_eq!(calls[0].name, "bash");
    assert_eq!(calls[0].id, "bash::0");
    assert_eq!(text_in(&calls[0].arguments, "command"), "ls");
}

#[test]
fn tool_result_becomes_function_response_keyed_by_recovered_name() {
    let mapped = to_gemini_contents(&results("bash::0", "file listing"));
    assert_eq!(mapped.len(), 1);
    assert_eq!(mapped[0].role.as_deref(), Some("user"));
    match &mapped[0].parts[0] {
        GmPart::FunctionResponse { name, response } => {
            assert_eq!(name, "bash");
            assert_eq!(text_in(response, "result"), "file listing");
        }
        _ => panic!("expected FunctionResponse"),
    }
}

#[test]
fn system_role_message_is_excluded_from_contents() {
    let mapped = to_gemini_contents(&with_system());
    assert_eq!(mapped.len(), 1);
}

#[test]
fn requests_carry_model_prompt_and_tools() {
    let tools = vec![ToolSpec {
        name: "bash".to_string(),
        description: "runs".to_string(),
        parameters: json("{}"),
    }];
    let prompt = Some("be nice".to_string());
    let messages = vec![Message::user_text("hi")];
    let a = AnthropicProvider::new("key", "m");
    assert_eq!(a.id(), "anthropic");
    assert!(a.url().starts_with("https://api.anthropic.com"));
    let r = a.request(&messages, &tools, &prompt);
    assert_eq!(r.model, "m");
    assert_eq!(r.system.as_deref(), Some("be nice"));
    assert_eq!(r.tools[0].name, "bash");
    let o = OpenAiProvider::new("key", "m");
    assert_eq!(o.id(), "openai");
    let r = o.request(&messages, &tools, &prompt);
    assert_eq!(r.messages[0].role, "system");
    assert_eq!(r.messages.len(), 2);
    let g = GeminiProvider::new("key", "m");
    assert_eq!(g.id(), "gemini");
    assert!(g.url().contains("m"));
    let r = g.request(&messages, &tools, &prompt);
    assert!(r.system_instruction.is_some());
    assert_eq!(r.tools[0].function_declarations[0].name, "bash");
}

#[test]
fn replies_are_sorted_by_status() {
    assert_eq!(check_reply(200, "body".to_string()).ok().unwrap(), "body");
    assert!(matches!(
        check_reply(429, String::new()).err().unwrap(),
        ProviderError::RateLimited { retry_after_secs: None }
    ));
    match check_reply(500, "oops".to_string()).err().unwrap() {
        ProviderError::Api { status, body } => {
            assert_eq!(status, 500);
            assert_eq!(body, "oops");
        }
        _ => panic!("expected Api"),
    }
}

#[test]
fn context_limits_are_recognized_whatever_the_case() {
    assert!(mentions_context_limit("maximum context length is 8192"));
    assert!(!mentions_context_limit("bad request"));
    let shouted = ProviderError::Api { status: 400, body: "CONTEXT_LENGTH_EXCEEDED".to_string() };
    assert!(is_context_length_error(&shouted));
    let other = ProviderError::Api { status: 400, body: "BAD REQUEST".to_string() };
    assert!(!is_context_length_error(&other));
    assert!(is_context_length_error(&ProviderError::Api {
        status: 413,
        body: String::new()
    }));
}

#[test]
fn requests_have_the_bodies_of_their_services() {
    let messages = vec![
        Message::user_text("hi"),
        Message {
            role: Role::Assistant,
            content: vec![
                ContentBlock::Thinking { text: "hm".into(), signature: Some("s".into()) },
                ContentBlock::ToolUse(ToolCall {
                    id: "1".into(),
                    name: "ls".into(),
                    arguments: json(r#"{"path": "."}"#),
                }),
            ],
            metadata: Json::Null,
        },
        Message::tool_results(vec![ToolResult {
            tool_call_id: "1".into(),
            content: ToolResultContent::Text("done".into()),
            is_error: true,
        }]),
    ];
    let tools = vec![ToolSpec {
        name: "ls".into(),
        description: "lists".into(),
        parameters: json("{}"),
    }];
    let prompt = Some("sys".to_string());
    let a = AnthropicProvider::new("k", "m");
    assert_eq!(
        a.request(&messages, &tools, &prompt).body().text(),
        concat_lines(&[
            r#"{"model":"m","max_tokens":8192,"system":"sys","messages":["#,
            r#"{"role":"user","content":[{"type":"text","text":"hi"}]},"#,
            r#"{"role":"assistant","content":[{"type":"thinking","thinking":"hm","signature":"s"},"#,
            r#"{"type":"tool_use","id":"1","name":"ls","input":{"path":"."}}]},"#,
            r#"{"role":"user","content":[{"type":"tool_result","tool_use_id":"1","content":"done","#,
            r#""is_error":true}]}],"#,
            r#""tools":[{"name":"ls","description":"lists","input_schema":{}}]}"#,
        ])
    );
    let o = OpenAiProvider::new("k", "m");
    assert_eq!(
        o.request(&messages, &tools, &None).body().text(),
        concat_lines(&[
            r#"{"model":"m","max_completion_tokens":8192,"messages":["#,
            r#"{"role":"user","content":"hi"},"#,
            r#"{"role":"assistant","tool_calls":[{"id":"1","type":"function","function":"#,
            r#"{"name":"ls","arguments":"{\"path\":\".\"}"}}]},"#,
            r#"{"role":"tool","content":"done","tool_call_id":"1"}],"#,
            r#""tools":[{"type":"function","function":{"name":"ls","description":"lists","#,
            r#""parameters":{}}}]}"#,
        ])
    );
    let g = GeminiProvider::new("k", "m");
    assert_eq!(
        g.request(&vec![Message::user_text("hi")], &Vec::new(), &prompt).body().text(),
        concat_lines(&[
            r#"{"contents":[{"role":"user","parts":[{"text":"hi"}]}],"#,
            r#""system_instruction":{"parts":[{"text":"sys"}]},"#,
            r#""generation_config":{"max_output_tokens":8192}}"#,
        ])
    );
}

fn concat_lines(parts: &[&str]) -> String {
    parts.concat()
}
