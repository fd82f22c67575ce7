//! Configuration: typed settings with their defaults and the
//! environment overrides that apply on top of them. Intervals are in
//! milliseconds.

use vstd::prelude::*;
use vstd::string::*;

use crate::text::{clone_opt_string, opt_text};

verus! {

/// How to reach Moonraker.
pub struct MoonrakerConfig {
    pub url: String,
    pub api_key: Option<String>,
    pub reconnect_interval_ms: u64,
    pub heartbeat_interval_ms: u64,
}

/// How telemetry is buffered.
pub struct TelemetryConfig {
    pub buffer_size: usize,
    pub flush_interval_ms: u64,
    pub max_retries: u32,
}

/// How to reach the database.
pub struct DatabaseConfig {
    pub url: String,
    pub max_connections: u32,
    pub run_migrations: bool,
}

/// How to log.
pub struct LoggingConfig {
    pub level: String,
    pub json_output: bool,
}

/// Which AI backend to use and how to reach it.
pub struct ProviderConfig {
    /// "openai", "openrouter", "anthropic", "gemini", "ollama" or
    /// "custom".
    pub provider: String,
    /// The endpoint's base URL; overrides the provider's default.
    pub endpoint: Option<String>,
    pub model: String,
    /// Falls back to the provider's environment variable when unset.
    pub api_key: Option<String>,
}

/// All settings.
pub struct Config {
    pub moonraker: MoonrakerConfig,
    pub telemetry: TelemetryConfig,
    pub database: DatabaseConfig,
    pub logging: LoggingConfig,
    pub provider: ProviderConfig,
}

/// The provider used when none is configured.
pub fn default_provider() -> (s: String)
    ensures
        s@ == "custom"@,
{
    String::from_str("custom")
}

/// The model used when none is configured.
pub fn default_model() -> (s: String)
    ensures
        s@ == "gpt-4o"@,
{
    String::from_str("gpt-4o")
}

impl Default for ProviderConfig {
    /// The "custom" provider with model "gpt-4o", no endpoint, no key.
    fn default() -> (c: Self)
        ensures
            c.provider@ == "custom"@,
            c.model@ == "gpt-4o"@,
            c.endpoint is None,
            c.api_key is None,
    {
        ProviderConfig { provider: default_provider(), endpoint: None, model: default_model(), api_key: None }
    }
}

impl ProviderConfig {
    pub fn duplicate(&self) -> (c: Self)
        ensures
            c.provider@ == self.provider@,
            c.model@ == self.model@,
            opt_text(c.endpoint) == opt_text(self.endpoint),
            opt_text(c.api_key) == opt_text(self.api_key),
    {
        ProviderConfig {
            provider: self.provider.clone(),
            endpoint: clone_opt_string(&self.endpoint),
            model: self.model.clone(),
            api_key: clone_opt_string(&self.api_key),
        }
    }
}

/// Whether a configuration holds the defaults.
pub open spec fn is_default_config(c: Config) -> bool {
    &&& c.moonraker.url@ == "ws://localhost:7125/websocket"@
    &&& c.moonraker.api_key is None
    &&& c.moonraker.reconnect_interval_ms == 5000
    &&& c.moonraker.heartbeat_interval_ms == 30000
    &&& c.telemetry.buffer_size == 4096
    &&& c.telemetry.flush_interval_ms == 1000
    &&& c.telemetry.max_retries == 3
    &&& c.database.url@ == "postgres://localhost:5432/layermind"@
    &&& c.database.max_connections == 5
    &&& c.database.run_migrations
    &&& c.logging.level@ == "info"@
    &&& !c.logging.json_output
    &&& c.provider.provider@ == "custom"@
    &&& c.provider.model@ == "gpt-4o"@
    &&& c.provider.endpoint is None
    &&& c.provider.api_key is None
}

impl Default for Config {
    /// Moonraker on localhost, a local database, info logging, the
    /// default provider.
    fn default() -> (c: Self)
        ensures
            is_default_config(c),
    {
        Config {
            moonraker: MoonrakerConfig {
                url: String::from_str("ws://localhost:7125/websocket"),
                api_key: None,
                reconnect_interval_ms: 5000,
                heartbeat_interval_ms: 30000,
            },
            telemetry: TelemetryConfig { buffer_size: 4096, flush_interval_ms: 1000, max_retries: 3 },
            database: DatabaseConfig {
                url: String::from_str("postgres://localhost:5432/layermind"),
                max_connections: 5,
                run_migrations: true,
            },
            logging: LoggingConfig { level: String::from_str("info"), json_output: false },
            provider: ProviderConfig::default(),
        }
    }
}

/// The values of the environment variables that override settings, as
/// read (`None` when a variable is unset or not Unicode).
pub struct EnvOverrides {
    /// `LAYERMIND_MOONRAKER_URL`
    pub moonraker_url: Option<String>,
    /// `LAYERMIND_MOONRAKER_API_KEY`
    pub moonraker_api_key: Option<String>,
    /// `LAYERMIND_DATABASE_URL`
    pub database_url: Option<String>,
    /// `LAYERMIND_LOG_LEVEL`
    pub log_level: Option<String>,
    /// `LAYERMIND_LOG_JSON`
    pub log_json: Option<String>,
    /// `LAYERMIND_PROVIDER`
    pub provider: Option<String>,
    /// `LAYERMIND_MODEL`
    pub model: Option<String>,
    /// `LAYERMIND_PROVIDER_ENDPOINT`
    pub provider_endpoint: Option<String>,
}

/// A setting with an override applied.
pub open spec fn overridden(current: Seq<char>, value: Option<String>) -> Seq<char> {
    match value {
        Some(v) => v@,
        None => current,
    }
}

/// Whether `new` is `old` with the overrides applied: each variable
/// that is set replaces its setting (the API key and the endpoint
/// become set), and `LAYERMIND_LOG_JSON` being set turns JSON logging
/// on; nothing else changes.
pub open spec fn applies(old: Config, env: EnvOverrides, new: Config) -> bool {
    &&& new.moonraker.url@ == overridden(old.moonraker.url@, env.moonraker_url)
    &&& opt_text(new.moonraker.api_key) == match env.moonraker_api_key {
        Some(k) => Some(k@),
        None => opt_text(old.moonraker.api_key),
    }
    &&& new.moonraker.reconnect_interval_ms == old.moonraker.reconnect_interval_ms
    &&& new.moonraker.heartbeat_interval_ms == old.moonraker.heartbeat_interval_ms
    &&& new.telemetry == old.telemetry
    &&& new.database.url@ == overridden(old.database.url@, env.database_url)
    &&& new.database.max_connections == old.database.max_connections
    &&& new.database.run_migrations == old.database.run_migrations
    &&& new.logging.level@ == overridden(old.logging.level@, env.log_level)
    &&& new.logging.json_output == (old.logging.json_output || env.log_json is Some)
    &&& new.provider.provider@ == overridden(old.provider.provider@, env.provider)
    &&& new.provider.model@ == overridden(old.provider.model@, env.model)
    &&& opt_text(new.provider.endpoint) == match env.provider_endpoint {
        Some(e) => Some(e@),
        None => opt_text(old.provider.endpoint),
    }
    &&& opt_text(new.provider.api_key) == opt_text(old.provider.api_key)
}

impl Config {
    /// The defaults with the environment overrides applied.
    pub fn load(env: EnvOverrides) -> (c: Self)
        ensures
            exists|d: Config| is_default_config(d) && applies(d, env, c),
    {
        let d = Config::default();
        let ghost dg = d;
        let c = d.with_overrides(env);
        c
    }

    /// This configuration with the environment overrides applied.
    pub fn with_overrides(self, env: EnvOverrides) -> (c: Self)
        ensures
            applies(self, env, c),
    {
        let ghost env0 = env;
        let mut c = self;
        let EnvOverrides {
            moonraker_url,
            moonraker_api_key,
            database_url,
            log_level,
            log_json,
            provider,
            model,
            provider_endpoint,
        } = env;
        if let Some(url) = moonraker_url {
            c.moonraker.url = url;
        }
        if let Some(key) = moonraker_api_key {
            c.moonraker.api_key = Some(key);
        }
        if let Some(url) = database_url {
            c.database.url = url;
        }
        if let Some(level) = log_level {
            c.logging.level = level;
        }
        if log_json.is_some() {
            c.logging.json_output = true;
        }
        if let Some(p) = provider {
            c.provider.provider = p;
        }
        if let Some(m) = model {
            c.provider.model = m;
        }
        if let Some(e) = provider_endpoint {
            c.provider.endpoint = Some(e);
        }
        c
    }
}

} // verus!
