use layermind::config::ProviderConfig;
use layermind::provider::{
    anthropic_completion, create_provider, error_for_status, gemini_completion, is_retryable, join_with_newlines,
    openai_completion, retry_decision, retry_delay_ms, trim_trailing_slashes, AiError, AnthropicResponse,
    GeminiResponse, OpenAiResponse, ProviderCreationError, ProviderEnv, ProviderKind, RetryDecision, StreamChunk,
    TokenUsage,
};

fn no_env() -> ProviderEnv {
    ProviderEnv {
        openai_api_key: None,
        openrouter_api_key: None,
        anthropic_api_key: None,
        gemini_api_key: None,
    }
}

fn config_for(provider: &str) -> ProviderConfig {
    ProviderConfig {
        provider: provider.into(),
        model: "test-model".into(),
        api_key: Some("test-key".into()),
        ..Default::default()
    }
}

#[test]
fn create_openai_with_key() {
    let cfg = config_for("openai");
    let result = create_provider(&cfg, &no_env());
    assert!(result.is_ok());
    let p = result.ok().unwrap();
    assert_eq!(p.name(), "openai");
    assert_eq!(p.model(), "test-model");
}

#[test]
fn create_openai_missing_key() {
    let cfg = ProviderConfig {
        provider: "openai".into(),
        model: "m".into(),
        api_key: None,
        ..Default::default()
    };
    let result = create_provider(&cfg, &no_env());
    match result {
        Ok(_) => {}
        Err(e) => assert!(matches!(e, ProviderCreationError::MissingApiKey(_))),
    }
}

#[test]
fn create_openrouter_returns_correct_name() {
    let cfg = config_for("openrouter");
    let result = create_provider(&cfg, &no_env());
    assert!(result.is_ok());
    assert_eq!(result.ok().unwrap().name(), "openrouter");
}

#[test]
fn create_ollama_no_auth() {
    let cfg = ProviderConfig {
        provider: "ollama".into(),
        model: "llama3.3".into(),
        ..Default::default()
    };
    let result = create_provider(&cfg, &no_env());
    assert!(result.is_ok());
    assert_eq!(result.ok().unwrap().name(), "ollama");
}

#[test]
fn create_anthropic_with_key() {
    let cfg = config_for("anthropic");
    let result = create_provider(&cfg, &no_env());
    assert!(result.is_ok());
    assert_eq!(result.ok().unwrap().name(), "anthropic");
}

#[test]
fn create_gemini_with_key() {
    let cfg = config_for("gemini");
    let result = create_provider(&cfg, &no_env());
    assert!(result.is_ok());
    assert_eq!(result.ok().unwrap().name(), "gemini");
}

#[test]
fn create_custom_requires_endpoint() {
    let cfg = ProviderConfig {
        provider: "custom".into(),
        model: "m".into(),
        endpoint: None,
        ..Default::default()
    };
    let result = create_provider(&cfg, &no_env());
    match result {
        Err(ProviderCreationError::InvalidConfig(_)) => {}
        _ => panic!("expected InvalidConfig"),
    }
}

#[test]
fn create_custom_with_endpoint() {
    let cfg = ProviderConfig {
        provider: "custom".into(),
        model: "m".into(),
        endpoint: Some("http://localhost:9999".into()),
        api_key: Some("k".into()),
    };
    let result = create_provider(&cfg, &no_env());
    match result {
        Ok(p) => assert_eq!(p.name(), "custom"),
        Err(e) => panic!("unexpected error: {}", e.message()),
    }
}

#[test]
fn create_unknown_provider_errors() {
    let cfg = ProviderConfig {
        provider: "nonexistent".into(),
        model: "m".into(),
        ..Default::default()
    };
    let result = create_provider(&cfg, &no_env());
    match result {
        Err(ProviderCreationError::UnknownProvider(_)) => {}
        _ => panic!("expected UnknownProvider"),
    }
}

#[test]
fn all_known_providers_produce_valid_providers() {
    for name in &["openai", "openrouter", "ollama", "anthropic", "gemini", "custom"] {
        let cfg = ProviderConfig {
            provider: name.to_string(),
            model: "m".into(),
            endpoint: if *name == "custom" { Some("http://localhost:9999".into()) } else { None },
            api_key: Some("k".into()),
        };
        let result = create_provider(&cfg, &no_env());
        match result {
            Ok(p) => assert_eq!(p.model(), "m"),
            Err(e) => panic!("failed for provider '{}': {}", name, e.message()),
        }
    }
}

#[test]
fn stream_chunk_is_clone() {
    let chunk = StreamChunk { content: "test".into(), done: false };
    let _c2 = chunk.clone();
}

#[test]
fn stream_chunk_done_flag_works() {
    let chunk = StreamChunk { content: "final".into(), done: true };
    assert!(chunk.done);
}

#[test]
fn missing_key_names_the_environment_variable() {
    let cfg = ProviderConfig {
        provider: "anthropic".into(),
        model: "m".into(),
        api_key: None,
        ..Default::default()
    };
    match create_provider(&cfg, &no_env()) {
        Err(ProviderCreationError::MissingApiKey(v)) => assert_eq!(v, "ANTHROPIC_API_KEY"),
        _ => panic!("expected MissingApiKey"),
    }
}

#[test]
fn environment_key_is_used_when_config_has_none() {
    let cfg = ProviderConfig {
        provider: "gemini".into(),
        model: "gemini-pro".into(),
        api_key: None,
        ..Default::default()
    };
    let env = ProviderEnv { gemini_api_key: Some("env-key".into()), ..no_env() };
    let p = create_provider(&cfg, &env).ok().unwrap();
    assert!(p.kind == ProviderKind::Gemini);
    assert_eq!(p.api_key, "env-key");
    assert_eq!(p.base_url, "https://generativelanguage.googleapis.com");
}

#[test]
fn empty_configured_key_falls_back_to_environment() {
    let cfg = ProviderConfig {
        provider: "openai".into(),
        model: "m".into(),
        api_key: Some(String::new()),
        ..Default::default()
    };
    let env = ProviderEnv { openai_api_key: Some("from-env".into()), ..no_env() };
    let p = create_provider(&cfg, &env).ok().unwrap();
    assert_eq!(p.api_key, "from-env");
}

#[test]
fn endpoint_trailing_slashes_are_trimmed() {
    let cfg = ProviderConfig {
        provider: "custom".into(),
        model: "m".into(),
        endpoint: Some("http://host:1//".into()),
        api_key: None,
    };
    let p = create_provider(&cfg, &no_env()).ok().unwrap();
    assert_eq!(p.base_url, "http://host:1");
    assert_eq!(p.api_key, "");
    assert_eq!(trim_trailing_slashes("a/b/"), "a/b");
    assert_eq!(trim_trailing_slashes("///"), "");
}

#[test]
fn unknown_provider_error_message() {
    let cfg = ProviderConfig { provider: "nope".into(), ..Default::default() };
    match create_provider(&cfg, &no_env()) {
        Err(e) => assert_eq!(
            e.message(),
            "unknown provider 'nope'. Known: openai, openrouter, anthropic, gemini, ollama, custom"
        ),
        Ok(_) => panic!("expected an error"),
    }
}

#[test]
fn retry_delay_doubles_from_one_hundred_ms() {
    assert_eq!(retry_delay_ms(0), 100);
    assert_eq!(retry_delay_ms(1), 200);
    assert_eq!(retry_delay_ms(3), 800);
}

#[test]
fn only_transient_errors_are_retried() {
    assert!(is_retryable(&AiError::Http("boom".into())));
    assert!(!is_retryable(&AiError::Unauthorized("no".into())));
    assert!(!is_retryable(&AiError::InvalidResponse("bad".into())));
    match retry_decision(0, 3, &AiError::Http("x".into())) {
        RetryDecision::RetryAfter(ms) => assert_eq!(ms, 100),
        RetryDecision::GiveUp => panic!("expected a retry"),
    }
    assert!(matches!(retry_decision(3, 3, &AiError::Http("x".into())), RetryDecision::GiveUp));
    assert!(matches!(retry_decision(0, 3, &AiError::Unauthorized("x".into())), RetryDecision::GiveUp));
}

#[test]
fn retries_wait_100_200_then_400_ms() {
    for (attempt, expected) in [(0u32, 100u64), (1, 200), (2, 400)] {
        match retry_decision(attempt, 3, &AiError::RateLimited { retry_after: None }) {
            RetryDecision::RetryAfter(ms) => assert_eq!(ms, expected),
            RetryDecision::GiveUp => panic!("expected a retry"),
        }
    }
}

#[test]
fn statuses_map_to_errors() {
    assert!(matches!(error_for_status(401, None, "no".into()), AiError::Unauthorized(b) if b == "no"));
    assert!(matches!(error_for_status(403, None, "no".into()), AiError::Unauthorized(_)));
    assert!(matches!(
        error_for_status(429, Some("7".into()), "slow".into()),
        AiError::RateLimited { retry_after: Some(r) } if r == "7"
    ));
    assert!(matches!(
        error_for_status(500, None, "boom".into()),
        AiError::ApiError { status: 500, body } if body == "boom"
    ));
}

#[test]
fn openai_takes_the_first_choice() {
    let c = openai_completion(OpenAiResponse {
        model: "gpt-x".into(),
        choices: vec!["first".into(), "second".into()],
        usage: None,
    })
    .ok()
    .unwrap();
    assert_eq!(c.content, "first");
    assert_eq!(c.model, "gpt-x");
    assert_eq!(c.usage, TokenUsage { prompt_tokens: 0, completion_tokens: 0, total_tokens: 0 });
    let e = openai_completion(OpenAiResponse { model: "m".into(), choices: vec![], usage: None });
    assert!(matches!(e, Err(AiError::InvalidResponse(m)) if m == "no choices in response"));
}

#[test]
fn anthropic_joins_blocks_by_newlines() {
    let c = anthropic_completion(AnthropicResponse {
        model: "sonnet-x".into(),
        texts: vec!["a".into(), "b".into(), "c".into()],
        input_tokens: 10,
        output_tokens: 5,
    });
    assert_eq!(c.content, "a\nb\nc");
    assert_eq!(c.model, "sonnet-x");
    assert_eq!(c.usage.total_tokens, 15);
}

#[test]
fn gemini_joins_parts_and_falls_back_to_the_configured_model() {
    let c = gemini_completion(GeminiResponse { parts: vec!["x".into(), "y".into()], model_version: None, usage: None }, "gemini-pro");
    assert_eq!(c.content, "x\ny");
    assert_eq!(c.model, "gemini-pro");
    let c = gemini_completion(
        GeminiResponse { parts: vec![], model_version: Some("gemini-2.0".into()), usage: None },
        "gemini-pro",
    );
    assert_eq!(c.content, "");
    assert_eq!(c.model, "gemini-2.0");
    assert_eq!(join_with_newlines(&vec!["only".to_string()]), "only");
}
