use layermind::config::{default_model, default_provider, Config, EnvOverrides, ProviderConfig};

fn no_overrides() -> EnvOverrides {
    EnvOverrides {
        moonraker_url: None,
        moonraker_api_key: None,
        database_url: None,
        log_level: None,
        log_json: None,
        provider: None,
        model: None,
        provider_endpoint: None,
    }
}

#[test]
fn provider_config_defaults() {
    let cfg = ProviderConfig::default();
    assert_eq!(cfg.provider, "custom");
    assert_eq!(cfg.model, "gpt-4o");
    assert!(cfg.endpoint.is_none());
    assert!(cfg.api_key.is_none());
}

#[test]
fn default_provider_and_model_names() {
    assert_eq!(default_provider(), "custom");
    assert_eq!(default_model(), "gpt-4o");
}

#[test]
fn load_without_overrides_gives_defaults() {
    let cfg = Config::load(no_overrides());
    assert_eq!(cfg.moonraker.url, "ws://localhost:7125/websocket");
    assert!(cfg.moonraker.api_key.is_none());
    assert_eq!(cfg.moonraker.reconnect_interval_ms, 5000);
    assert_eq!(cfg.moonraker.heartbeat_interval_ms, 30000);
    assert_eq!(cfg.telemetry.buffer_size, 4096);
    assert_eq!(cfg.telemetry.flush_interval_ms, 1000);
    assert_eq!(cfg.telemetry.max_retries, 3);
    assert_eq!(cfg.database.url, "postgres://localhost:5432/layermind");
    assert_eq!(cfg.database.max_connections, 5);
    assert!(cfg.database.run_migrations);
    assert_eq!(cfg.logging.level, "info");
    assert!(!cfg.logging.json_output);
    assert_eq!(cfg.provider.provider, "custom");
}

#[test]
fn overrides_replace_their_settings_only() {
    let env = EnvOverrides {
        moonraker_url: Some("ws://printer:7125/websocket".into()),
        log_json: Some(String::new()),
        provider: Some("ollama".into()),
        model: Some("llama3.3".into()),
        provider_endpoint: Some("http://gpu:11434".into()),
        ..no_overrides()
    };
    let cfg = Config::load(env);
    assert_eq!(cfg.moonraker.url, "ws://printer:7125/websocket");
    assert!(cfg.logging.json_output);
    assert_eq!(cfg.logging.level, "info");
    assert_eq!(cfg.provider.provider, "ollama");
    assert_eq!(cfg.provider.model, "llama3.3");
    assert_eq!(cfg.provider.endpoint.as_deref(), Some("http://gpu:11434"));
    assert_eq!(cfg.database.url, "postgres://localhost:5432/layermind");
}
