//! Tests of the models and of their providers.
use spacebot::config::LlmConfig;
use spacebot::llm::chat::{
    copy_history, extract_last_assistant_text, user_text, AssistantContent, ChatMessage, ToolCall,
    ToolResult, ToolResultPart, UserContent,
};
use spacebot::llm::manager::{LlmError, LlmManager, SECOND_NANOS};
use spacebot::llm::model::{
    anthropic_body, api_error, chain_exhausted, convert_messages_to_anthropic,
    convert_messages_to_openai, model_failed, openai_body, parse_anthropic_response,
    parse_openai_response, read_anthropic_answer, read_openai_answer, AfterFailure, AnswerError,
    CompletionRequest, Endpoint, FallbackChain, SpacebotModel, ToolDefinition,
};

fn json(text: &str) -> serde_json::Value {
    serde_json::from_str(text).unwrap()
}

fn keys() -> LlmConfig {
    LlmConfig {
        anthropic_key: Some("k1".to_string()),
        openai_key: None,
        openrouter_key: None,
        zhipu_key: None,
        groq_key: None,
        together_key: None,
        fireworks_key: None,
        deepseek_key: None,
        xai_key: None,
        mistral_key: None,
        opencode_zen_key: None,
    }
}

fn conversation() -> Vec<ChatMessage> {
    vec![
        user_text("read it".to_string()),
        ChatMessage::Assistant(vec![
            AssistantContent::Text("ok".to_string()),
            AssistantContent::ToolCall(ToolCall {
                id: "t1".to_string(),
                name: "read".to_string(),
                arguments: json("{\"path\":\"a\"}"),
            }),
        ]),
        ChatMessage::User(vec![UserContent::ToolResult(ToolResult {
            id: "t1".to_string(),
            parts: vec![ToolResultPart::Text("content".to_string())],
        })]),
    ]
}

#[test]
fn a_model_name_holds_its_provider() {
    let m = SpacebotModel::make("openrouter/google/gemini");
    assert_eq!(m.provider, "openrouter");
    assert_eq!(m.model_name, "google/gemini");
    assert_eq!(m.model_name(), "google/gemini");
    assert_eq!(m.full_model_name(), "openrouter/google/gemini");
    for name in ["openrouter/google/gemini", "openrouter", "openai/gpt", "plain", "/", "a//b"] {
        let first = SpacebotModel::make(name);
        let again = SpacebotModel::make(first.full_model_name());
        assert_eq!(first.provider, again.provider);
        assert_eq!(first.model_name, again.model_name);
    }
    assert!(matches!(m.endpoint(), Ok(Endpoint::OpenRouter)));
    let plain = SpacebotModel::make("opus");
    assert_eq!(plain.provider, "anthropic");
    assert!(matches!(plain.endpoint(), Ok(Endpoint::Anthropic)));
    assert!(matches!(SpacebotModel::make("openai/gpt").endpoint(), Ok(Endpoint::OpenAi)));
    match SpacebotModel::make("nobody/x").endpoint() {
        Ok(_) => panic!("nobody is no provider"),
        Err(e) => assert!(e.contains("nobody")),
    }
}

#[test]
fn keys_of_providers() {
    let manager = LlmManager::new(keys());
    assert!(matches!(manager.get_api_key("anthropic"), Ok(k) if k == "k1"));
    assert!(matches!(
        manager.get_api_key("openai"),
        Err(LlmError::MissingProviderKey(p)) if p == "openai"
    ));
    assert!(matches!(
        manager.get_api_key("nobody"),
        Err(LlmError::UnknownProvider(p)) if p == "nobody"
    ));
    assert!(keys().has_any_key());
    let (provider, model) = manager.resolve_model("openai/gpt-4.1");
    assert_eq!((provider.as_str(), model.as_str()), ("openai", "gpt-4.1"));
}

#[test]
fn a_cooldown_ends() {
    let mut manager = LlmManager::new(keys());
    manager.record_rate_limit("m", 10 * SECOND_NANOS);
    assert!(manager.is_rate_limited("m", 60, 69 * SECOND_NANOS));
    assert!(!manager.is_rate_limited("m", 60, 70 * SECOND_NANOS));
    assert!(!manager.is_rate_limited("other", 60, 11 * SECOND_NANOS));
    manager.cleanup_rate_limits(60, 30 * SECOND_NANOS);
    assert!(manager.is_rate_limited("m", 60, 31 * SECOND_NANOS));
    manager.cleanup_rate_limits(60, 80 * SECOND_NANOS);
    assert!(!manager.is_rate_limited("m", 60, 11 * SECOND_NANOS));
}

#[test]
fn models_in_cooldown_are_skipped() {
    let mut manager = LlmManager::new(keys());
    let fallbacks = vec!["b".to_string(), "c".to_string(), "d".to_string()];
    let mut chain = FallbackChain::new("a", &fallbacks, 2);
    let now = 100 * SECOND_NANOS;
    assert_eq!(chain.next_model(&manager, 60, now).as_deref(), Some("a"));
    assert!(matches!(model_failed(&mut manager, "a", true, now), AfterFailure::TryNext));
    assert!(manager.is_rate_limited("a", 60, now));
    manager.record_rate_limit("b", now);
    assert_eq!(chain.next_model(&manager, 60, now).as_deref(), Some("c"));
    assert_eq!(chain.next_model(&manager, 60, now), None);
    assert_eq!(chain.next_model(&manager, 0, now), None);
    assert!(matches!(model_failed(&mut manager, "c", false, now), AfterFailure::Report));
    assert!(!chain_exhausted().is_empty());
}

#[test]
fn a_model_without_routing_is_called_directly() {
    let mut manager = LlmManager::new(keys());
    let now = 100 * SECOND_NANOS;
    manager.record_rate_limit("a", now);
    let mut chain = FallbackChain::direct("a");
    assert_eq!(chain.next_model(&manager, 60, now).as_deref(), Some("a"));
    assert!(matches!(chain.failed(&mut manager, "a", true, now), AfterFailure::Report));
    assert_eq!(chain.next_model(&manager, 60, now), None);
    let routed = FallbackChain::new("b", &vec![], 2);
    assert!(matches!(routed.failed(&mut manager, "b", true, now), AfterFailure::TryNext));
    assert!(manager.is_rate_limited("b", 60, now));
}

#[test]
fn messages_for_anthropic() {
    let out = convert_messages_to_anthropic(&conversation());
    assert_eq!(out.len(), 3);
    assert_eq!(out[0]["role"], "user");
    assert_eq!(out[0]["content"][0], json("{\"type\":\"text\",\"text\":\"read it\"}"));
    assert_eq!(out[1]["role"], "assistant");
    assert_eq!(
        out[1]["content"][1],
        json("{\"type\":\"tool_use\",\"id\":\"t1\",\"name\":\"read\",\"input\":{\"path\":\"a\"}}")
    );
    assert_eq!(
        out[2]["content"][0],
        json("{\"type\":\"tool_result\",\"tool_use_id\":\"t1\",\"content\":\"content\"}")
    );
}

#[test]
fn messages_for_openai() {
    let out = convert_messages_to_openai(&conversation());
    assert_eq!(out[0], json("{\"role\":\"user\",\"content\":\"read it\"}"));
    assert_eq!(out[1]["role"], "assistant");
    assert_eq!(out[1]["tool_calls"][0]["function"]["name"], "read");
    assert_eq!(out[1]["tool_calls"][0]["function"]["arguments"], "{\"path\":\"a\"}");
    assert_eq!(
        out[2],
        json("{\"role\":\"tool\",\"tool_call_id\":\"t1\",\"content\":\"content\"}")
    );
}

#[test]
fn bodies_of_requests() {
    let request = CompletionRequest {
        preamble: Some("be kind".to_string()),
        chat_history: conversation(),
        max_tokens: None,
        temperature: Some(json("0.5")),
        tools: vec![ToolDefinition {
            name: "read".to_string(),
            description: "reads".to_string(),
            parameters: json("{\"type\":\"object\"}"),
        }],
    };
    let body = anthropic_body("opus", &request);
    assert_eq!(body["model"], "opus");
    assert_eq!(body["max_tokens"], 4096);
    assert_eq!(body["system"], "be kind");
    assert_eq!(body["temperature"], json("0.5"));
    assert_eq!(body["messages"].as_array().unwrap().len(), 3);
    assert_eq!(body["tools"][0]["input_schema"], json("{\"type\":\"object\"}"));
    let body = openai_body("gpt", &request);
    assert_eq!(body["messages"][0], json("{\"role\":\"system\",\"content\":\"be kind\"}"));
    assert_eq!(body["messages"].as_array().unwrap().len(), 4);
    assert_eq!(body["tools"][0]["function"]["name"], "read");
    assert!(body.get("max_tokens").is_none());
}

#[test]
fn answers_of_anthropic() {
    let body = json(
        "{\"content\":[{\"type\":\"text\",\"text\":\"hi\"},{\"type\":\"thinking\"},{\"type\":\"tool_use\",\"id\":\"t\",\"name\":\"read\",\"input\":{\"a\":1}}],\"usage\":{\"input_tokens\":3,\"output_tokens\":4,\"cache_read_input_tokens\":2}}",
    );
    let c = match parse_anthropic_response(&body) {
        Ok(c) => c,
        Err(e) => panic!("{e}"),
    };
    assert_eq!(c.choice.len(), 2);
    assert!(matches!(&c.choice[0], AssistantContent::Text(s) if s == "hi"));
    assert!(matches!(
        &c.choice[1],
        AssistantContent::ToolCall(t) if t.name == "read" && t.arguments == json("{\"a\":1}")
    ));
    assert_eq!(c.usage.total_tokens, 7);
    assert_eq!(c.usage.cached_input_tokens, 2);
    assert!(matches!(
        parse_anthropic_response(&json("{\"content\":[]}")),
        Err("empty response from Anthropic")
    ));
    assert!(matches!(parse_anthropic_response(&json("{}")), Err("missing content array")));
}

#[test]
fn answers_of_openai() {
    let body = json(
        "{\"choices\":[{\"message\":{\"content\":\"hi\",\"tool_calls\":[{\"id\":\"t\",\"function\":{\"name\":\"read\",\"arguments\":\"{\\\"a\\\":1}\"}}]}}],\"usage\":{\"prompt_tokens\":3,\"completion_tokens\":4}}",
    );
    let c = match parse_openai_response(&body) {
        Ok(c) => c,
        Err(e) => panic!("{e}"),
    };
    assert_eq!(c.choice.len(), 2);
    assert!(matches!(
        &c.choice[1],
        AssistantContent::ToolCall(t) if t.arguments == json("{\"a\":1}")
    ));
    assert_eq!(c.usage.total_tokens, 7);
    assert!(matches!(parse_openai_response(&json("{}")), Err("empty response from OpenAI")));
}

#[test]
fn answers_that_give_no_completion() {
    assert!(matches!(
        read_anthropic_answer(true, "200 OK", "<html>"),
        Err(AnswerError::Unreadable)
    ));
    assert!(matches!(
        read_anthropic_answer(false, "429 Too Many Requests", "{\"error\":{\"message\":\"slow\"}}"),
        Err(AnswerError::Refused(m)) if m == "Anthropic API error (429 Too Many Requests): slow"
    ));
    assert!(matches!(
        read_openai_answer("OpenRouter", false, "500", "{}"),
        Err(AnswerError::Refused(m)) if m == "OpenRouter API error (500): unknown error"
    ));
    assert!(matches!(
        read_anthropic_answer(
            true,
            "200 OK",
            "{\"usage\":{\"input_tokens\":18446744073709551615,\"output_tokens\":1}}"
        ),
        Err(AnswerError::TooManyTokens)
    ));
    assert!(matches!(
        read_openai_answer("OpenAI", true, "200 OK", "{}"),
        Err(AnswerError::Incomplete("empty response from OpenAI"))
    ));
    let answer = "{\"content\":[{\"type\":\"text\",\"text\":\"hi\"}]}";
    match read_anthropic_answer(true, "200 OK", answer) {
        Ok(c) => assert_eq!(c.choice.len(), 1),
        Err(_) => panic!("the answer says something"),
    }
    assert_eq!(api_error("OpenAI", "400", &json("{}")), "OpenAI API error (400): unknown error");
}

#[test]
fn what_a_model_said_last() {
    let h = conversation();
    assert_eq!(extract_last_assistant_text(&h).as_deref(), Some("ok"));
    assert_eq!(extract_last_assistant_text(&vec![]), None);
    let copy = copy_history(&h);
    assert_eq!(copy.len(), 3);
    assert_eq!(extract_last_assistant_text(&copy).as_deref(), Some("ok"));
}
