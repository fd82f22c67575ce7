//! AI providers: which backend a configuration selects and how it is
//! reached, when a failed request is retried, and streamed chunks.

use vstd::prelude::*;
use vstd::string::*;

use crate::config::ProviderConfig;
use crate::text::opt_text;
use vstd::arithmetic::power2::{
    lemma2_to64, lemma2_to64_rest, lemma_pow2_strictly_increases, lemma_pow2_unfold, pow2,
};

verus! {

/// The wire protocol of a backend.
#[derive(PartialEq, Eq, Structural, Clone, Copy)]
pub enum ProviderKind {
    /// Any `/v1/chat/completions` endpoint (OpenAI, OpenRouter, Ollama,
    /// custom servers).
    OpenAiCompatible,
    /// The Anthropic Messages API.
    Anthropic,
    /// The Google Gemini generateContent API.
    Gemini,
}

/// A backend ready to be instantiated.
pub struct ProviderSpec {
    pub kind: ProviderKind,
    /// The display name ("openai", "openrouter", "ollama", "custom",
    /// "anthropic", "gemini").
    pub name: String,
    /// The base URL, without trailing slashes.
    pub base_url: String,
    /// The API key (empty for none).
    pub api_key: String,
    pub model: String,
}

/// Why a provider could not be created.
pub enum ProviderCreationError {
    UnknownProvider(String),
    MissingApiKey(String),
    InvalidConfig(String),
}

/// The values of the providers' API-key environment variables, as read
/// (`None` when unset or not Unicode).
pub struct ProviderEnv {
    /// `OPENAI_API_KEY`
    pub openai_api_key: Option<String>,
    /// `OPENROUTER_API_KEY`
    pub openrouter_api_key: Option<String>,
    /// `ANTHROPIC_API_KEY`
    pub anthropic_api_key: Option<String>,
    /// `GEMINI_API_KEY`
    pub gemini_api_key: Option<String>,
}

/// `s` without its trailing slashes.
pub open spec fn trim_slashes(s: Seq<char>) -> Seq<char>
    decreases s.len(),
{
    if s.len() > 0 && s.last() == '/' {
        trim_slashes(s.drop_last())
    } else {
        s
    }
}

/// The key to use: the configured one unless it is empty, else the
/// environment's.
pub open spec fn resolved_key(config_key: Option<String>, env_key: Option<String>) -> Option<Seq<char>> {
    match config_key {
        Some(k) => if k@.len() > 0 {
            Some(k@)
        } else {
            opt_text(env_key)
        },
        None => opt_text(env_key),
    }
}

/// A created backend.
pub open spec fn spec_is(s: ProviderSpec, kind: ProviderKind, name: Seq<char>, base: Seq<char>, key: Seq<char>, model: Seq<char>) -> bool {
    s.kind == kind && s.name@ == name && s.base_url@ == trim_slashes(base) && s.api_key@ == key && s.model@ == model
}

/// The configured endpoint, or the provider's default.
pub open spec fn endpoint_or(config: ProviderConfig, default: Seq<char>) -> Seq<char> {
    match config.endpoint {
        Some(e) => e@,
        None => default,
    }
}

/// What a provider configuration creates, with the given environment.
pub open spec fn creates(config: ProviderConfig, env: ProviderEnv, res: Result<ProviderSpec, ProviderCreationError>) -> bool {
    let p = config.provider@;
    let m = config.model@;
    if p == "openai"@ {
        match resolved_key(config.api_key, env.openai_api_key) {
            Some(k) => res matches Ok(s) && spec_is(
                s,
                ProviderKind::OpenAiCompatible,
                "openai"@,
                endpoint_or(config, "https://api.openai.com"@),
                k,
                m,
            ),
            None => res matches Err(ProviderCreationError::MissingApiKey(v)) && v@ == "OPENAI_API_KEY"@,
        }
    } else if p == "openrouter"@ {
        match resolved_key(config.api_key, env.openrouter_api_key) {
            Some(k) => res matches Ok(s) && spec_is(
                s,
                ProviderKind::OpenAiCompatible,
                "openrouter"@,
                endpoint_or(config, "https://openrouter.ai/api"@),
                k,
                m,
            ),
            None => res matches Err(ProviderCreationError::MissingApiKey(v)) && v@ == "OPENROUTER_API_KEY"@,
        }
    } else if p == "ollama"@ {
        res matches Ok(s) && spec_is(
            s,
            ProviderKind::OpenAiCompatible,
            "ollama"@,
            endpoint_or(config, "http://localhost:11434"@),
            Seq::empty(),
            m,
        )
    } else if p == "custom"@ {
        match config.endpoint {
            Some(e) => res matches Ok(s) && spec_is(
                s,
                ProviderKind::OpenAiCompatible,
                "custom"@,
                e@,
                match config.api_key {
                    Some(k) => k@,
                    None => Seq::empty(),
                },
                m,
            ),
            None => res matches Err(ProviderCreationError::InvalidConfig(msg)) && msg@
                == "custom provider requires an endpoint URL"@,
        }
    } else if p == "anthropic"@ {
        match resolved_key(config.api_key, env.anthropic_api_key) {
            Some(k) => res matches Ok(s) && spec_is(
                s,
                ProviderKind::Anthropic,
                "anthropic"@,
                endpoint_or(config, "https://api.anthropic.com"@),
                k,
                m,
            ),
            None => res matches Err(ProviderCreationError::MissingApiKey(v)) && v@ == "ANTHROPIC_API_KEY"@,
        }
    } else if p == "gemini"@ {
        match resolved_key(config.api_key, env.gemini_api_key) {
            Some(k) => res matches Ok(s) && spec_is(
                s,
                ProviderKind::Gemini,
                "gemini"@,
                endpoint_or(config, "https://generativelanguage.googleapis.com"@),
                k,
                m,
            ),
            None => res matches Err(ProviderCreationError::MissingApiKey(v)) && v@ == "GEMINI_API_KEY"@,
        }
    } else {
        res matches Err(ProviderCreationError::UnknownProvider(v)) && v@ == p
    }
}

/// Removes trailing slashes, as `trim_end_matches('/')` does.
pub fn trim_trailing_slashes(s: &str) -> (r: String)
    ensures
        r@ == trim_slashes(s@),
{
    let mut n = s.unicode_len();
    proof {
        assert(s@.subrange(0, n as int) =~= s@);
    }
    while n > 0 && s.get_char(n - 1) == '/'
        invariant
            n <= s@.len(),
            trim_slashes(s@) == trim_slashes(s@.subrange(0, n as int)),
        decreases n,
    {
        proof {
            assert(s@.subrange(0, n as int).drop_last() =~= s@.subrange(0, n - 1));
        }
        n = n - 1;
    }
    String::from_str(s.substring_char(0, n))
}

fn resolve_key(config: &ProviderConfig, env_key: &Option<String>, env_var: &str) -> (r: Result<String, ProviderCreationError>)
    ensures
        match resolved_key(config.api_key, *env_key) {
            Some(k) => r matches Ok(x) && x@ == k,
            None => r matches Err(ProviderCreationError::MissingApiKey(v)) && v@ == env_var@,
        },
{
    match &config.api_key {
        Some(key) => {
            if key.unicode_len() > 0 {
                return Ok(key.clone());
            }
        },
        None => {},
    }
    match env_key {
        Some(k) => Ok(k.clone()),
        None => Err(ProviderCreationError::MissingApiKey(String::from_str(env_var))),
    }
}

fn spec_of(kind: ProviderKind, name: &str, base: &str, key: String, model: &String) -> (s: ProviderSpec)
    ensures
        spec_is(s, kind, name@, base@, key@, model@),
{
    ProviderSpec {
        kind,
        name: String::from_str(name),
        base_url: trim_trailing_slashes(base),
        api_key: key,
        model: model.clone(),
    }
}

fn endpoint_of(config: &ProviderConfig, default: &str) -> (e: String)
    ensures
        e@ == endpoint_or(*config, default@),
{
    match &config.endpoint {
        Some(e) => e.clone(),
        None => String::from_str(default),
    }
}

/// Selects and configures the backend named by the configuration:
/// "openai", "openrouter", "anthropic" and "gemini" need an API key
/// (the configured one unless empty, else the provider's environment
/// variable); "ollama" needs none; "custom" needs an endpoint. Each has
/// a default endpoint but "custom".
pub fn create_provider(config: &ProviderConfig, env: &ProviderEnv) -> (res: Result<ProviderSpec, ProviderCreationError>)
    ensures
        creates(*config, *env, res),
{
    let p = config.provider.as_str();
    if crate::text::str_eq(&config.provider, "openai") {
        let key = match resolve_key(config, &env.openai_api_key, "OPENAI_API_KEY") {
            Ok(k) => k,
            Err(e) => return Err(e),
        };
        let endpoint = endpoint_of(config, "https://api.openai.com");
        Ok(spec_of(ProviderKind::OpenAiCompatible, "openai", endpoint.as_str(), key, &config.model))
    } else if crate::text::str_eq(&config.provider, "openrouter") {
        let key = match resolve_key(config, &env.openrouter_api_key, "OPENROUTER_API_KEY") {
            Ok(k) => k,
            Err(e) => return Err(e),
        };
        let endpoint = endpoint_of(config, "https://openrouter.ai/api");
        Ok(spec_of(ProviderKind::OpenAiCompatible, "openrouter", endpoint.as_str(), key, &config.model))
    } else if crate::text::str_eq(&config.provider, "ollama") {
        let endpoint = endpoint_of(config, "http://localhost:11434");
        proof {
            reveal_strlit("");
        }
        Ok(spec_of(ProviderKind::OpenAiCompatible, "ollama", endpoint.as_str(), String::new(), &config.model))
    } else if crate::text::str_eq(&config.provider, "custom") {
        match &config.endpoint {
            Some(e) => {
                let key = match &config.api_key {
                    Some(k) => k.clone(),
                    None => String::new(),
                };
                Ok(spec_of(ProviderKind::OpenAiCompatible, "custom", e.as_str(), key, &config.model))
            },
            None => Err(
                ProviderCreationError::InvalidConfig(String::from_str("custom provider requires an endpoint URL")),
            ),
        }
    } else if crate::text::str_eq(&config.provider, "anthropic") {
        let key = match resolve_key(config, &env.anthropic_api_key, "ANTHROPIC_API_KEY") {
            Ok(k) => k,
            Err(e) => return Err(e),
        };
        let endpoint = endpoint_of(config, "https://api.anthropic.com");
        Ok(spec_of(ProviderKind::Anthropic, "anthropic", endpoint.as_str(), key, &config.model))
    } else if crate::text::str_eq(&config.provider, "gemini") {
        let key = match resolve_key(config, &env.gemini_api_key, "GEMINI_API_KEY") {
            Ok(k) => k,
            Err(e) => return Err(e),
        };
        let endpoint = endpoint_of(config, "https://generativelanguage.googleapis.com");
        Ok(spec_of(ProviderKind::Gemini, "gemini", endpoint.as_str(), key, &config.model))
    } else {
        Err(ProviderCreationError::UnknownProvider(String::from_str(p)))
    }
}

/// The request URL of a backend.
pub open spec fn request_url_spec(s: ProviderSpec) -> Seq<char> {
    match s.kind {
        ProviderKind::OpenAiCompatible => s.base_url@ + "/v1/chat/completions"@,
        ProviderKind::Anthropic => s.base_url@ + "/v1/messages"@,
        ProviderKind::Gemini => s.base_url@ + "/v1beta/models/"@ + s.model@ + ":generateContent?key="@
            + s.api_key@,
    }
}

impl ProviderSpec {
    pub fn name(&self) -> (s: &str)
        ensures
            s@ == self.name@,
    {
        self.name.as_str()
    }

    pub fn model(&self) -> (s: &str)
        ensures
            s@ == self.model@,
    {
        self.model.as_str()
    }

    /// The URL requests are sent to.
    pub fn request_url(&self) -> (u: String)
        ensures
            u@ == request_url_spec(*self),
    {
        match self.kind {
            ProviderKind::OpenAiCompatible => self.base_url.clone().concat("/v1/chat/completions"),
            ProviderKind::Anthropic => self.base_url.clone().concat("/v1/messages"),
            ProviderKind::Gemini => self.base_url.clone().concat("/v1beta/models/").concat(self.model.as_str()).concat(
                ":generateContent?key=",
            ).concat(self.api_key.as_str()),
        }
    }
}

impl ProviderCreationError {
    /// The error's message.
    pub fn message(&self) -> (s: String)
        ensures
            s@ == match self {
                ProviderCreationError::UnknownProvider(p) => "unknown provider '"@ + p@
                    + "'. Known: openai, openrouter, anthropic, gemini, ollama, custom"@,
                ProviderCreationError::MissingApiKey(p) => "provider '"@ + p@ + "' requires an API key"@,
                ProviderCreationError::InvalidConfig(m) => "invalid provider configuration: "@ + m@,
            },
    {
        match self {
            ProviderCreationError::UnknownProvider(p) => String::from_str("unknown provider '").concat(p.as_str()).concat(
                "'. Known: openai, openrouter, anthropic, gemini, ollama, custom",
            ),
            ProviderCreationError::MissingApiKey(p) => String::from_str("provider '").concat(p.as_str()).concat(
                "' requires an API key",
            ),
            ProviderCreationError::InvalidConfig(m) => String::from_str("invalid provider configuration: ").concat(
                m.as_str(),
            ),
        }
    }
}

// ---------------------------------------------------------------------
// Retries.

/// Why a request to a backend failed.
pub enum AiError {
    /// The request could not be sent or timed out.
    Http(String),
    /// The backend asked to slow down (HTTP 429).
    RateLimited { retry_after: Option<String> },
    /// The key was refused (HTTP 401 or 403).
    Unauthorized(String),
    /// Any other HTTP error.
    ApiError { status: u16, body: String },
    /// The response could not be understood.
    InvalidResponse(String),
}

/// Transport failures and rate limits are worth retrying; refused keys,
/// bad requests and unreadable responses are not.
pub open spec fn retryable(e: AiError) -> bool {
    e is Http || e is RateLimited
}

/// Whether a failure is worth retrying.
pub fn is_retryable(e: &AiError) -> (b: bool)
    ensures
        b == retryable(*e),
{
    match e {
        AiError::Http(_) | AiError::RateLimited { .. } => true,
        _ => false,
    }
}

/// The delay before retry number `attempt`: `2^attempt * 100` ms.
pub open spec fn delay_spec(attempt: nat) -> nat {
    100 * pow2(attempt)
}

/// The delay in milliseconds before retry number `attempt`.
pub fn retry_delay_ms(attempt: u32) -> (d: u64)
    requires
        attempt <= 57,
    ensures
        d == delay_spec(attempt as nat),
{
    proof {
        lemma2_to64();
        lemma2_to64_rest();
    }
    let mut d: u64 = 100;
    let mut i: u32 = 0;
    while i < attempt
        invariant
            i <= attempt <= 57,
            d == 100 * pow2(i as nat),
            pow2(57) == 0x200000000000000,
        decreases attempt - i,
    {
        proof {
            lemma_pow2_unfold((i + 1) as nat);
            if i < 56 {
                lemma_pow2_strictly_increases(i as nat, 56);
            }
            assert(pow2(56) == 0x100000000000000) by {
                lemma_pow2_unfold(57);
            }
        }
        d = d * 2;
        i = i + 1;
    }
    d
}

/// Each retry waits twice as long as the one before.
pub proof fn lemma_retry_delay_doubles(attempt: nat)
    ensures
        delay_spec(attempt + 1) == 2 * delay_spec(attempt),
{
    lemma_pow2_unfold(attempt + 1);
}

/// What to do after a failed attempt.
pub enum RetryDecision {
    /// Stop and report the failure.
    GiveUp,
    /// Wait this long, then try again.
    RetryAfter(u64),
}

/// After failed attempt number `attempt` (0 for the first), retry when
/// the failure is retryable and retries are left, after
/// `2^attempt * 100` ms (100, 200, 400 ms, ...); otherwise give up.
pub fn retry_decision(attempt: u32, max_retries: u32, error: &AiError) -> (d: RetryDecision)
    requires
        max_retries <= 57,
    ensures
        match d {
            RetryDecision::GiveUp => !retryable(*error) || attempt >= max_retries,
            RetryDecision::RetryAfter(ms) => retryable(*error) && attempt < max_retries && ms == delay_spec(
                attempt as nat,
            ),
        },
{
    if !is_retryable(error) || attempt >= max_retries {
        RetryDecision::GiveUp
    } else {
        RetryDecision::RetryAfter(retry_delay_ms(attempt))
    }
}

// ---------------------------------------------------------------------
// Responses.

/// The error a failed HTTP status stands for: 401 and 403 refuse the
/// key, 429 asks to slow down (with the `Retry-After` header's text, if
/// the backend reads it), any other status is an API error with the body.
pub open spec fn status_error(status: u16, retry_after: Option<String>, body: String) -> AiError {
    if status == 401 || status == 403 {
        AiError::Unauthorized(body)
    } else if status == 429 {
        AiError::RateLimited { retry_after }
    } else {
        AiError::ApiError { status, body }
    }
}

/// The error for a failed HTTP status.
pub fn error_for_status(status: u16, retry_after: Option<String>, body: String) -> (e: AiError)
    ensures
        e == status_error(status, retry_after, body),
{
    if status == 401 || status == 403 {
        AiError::Unauthorized(body)
    } else if status == 429 {
        AiError::RateLimited { retry_after }
    } else {
        AiError::ApiError { status, body }
    }
}

/// Token counts of one completion.
#[derive(PartialEq, Eq, Structural, Clone, Copy, Debug)]
pub struct TokenUsage {
    pub prompt_tokens: u32,
    pub completion_tokens: u32,
    pub total_tokens: u32,
}

/// No tokens counted.
pub open spec fn zero_usage() -> TokenUsage {
    TokenUsage { prompt_tokens: 0, completion_tokens: 0, total_tokens: 0 }
}

/// A backend's answer: its text, token counts and the model that wrote it.
pub struct Completion {
    pub content: String,
    pub usage: TokenUsage,
    pub model: String,
}

/// An OpenAI-compatible chat response: the model, the content of each
/// choice in order, and the token counts when the backend sent them.
pub struct OpenAiResponse {
    pub model: String,
    pub choices: Vec<String>,
    pub usage: Option<TokenUsage>,
}

/// An Anthropic messages response: the model, the text of each content
/// block in order, and the token counts.
pub struct AnthropicResponse {
    pub model: String,
    pub texts: Vec<String>,
    pub input_tokens: u32,
    pub output_tokens: u32,
}

/// A Gemini response: the text of every part of every candidate in
/// order, the model version and the token counts when sent.
pub struct GeminiResponse {
    pub parts: Vec<String>,
    pub model_version: Option<String>,
    pub usage: Option<TokenUsage>,
}

/// Texts joined with a newline between each two.
pub open spec fn join_lines(parts: Seq<Seq<char>>) -> Seq<char>
    decreases parts.len(),
{
    if parts.len() == 0 {
        Seq::empty()
    } else if parts.len() == 1 {
        parts[0]
    } else {
        join_lines(parts.drop_last()) + "\n"@ + parts.last()
    }
}

/// Joins texts with a newline between each two.
pub fn join_with_newlines(parts: &Vec<String>) -> (r: String)
    ensures
        r@ == join_lines(crate::observation::texts(parts@)),
{
    proof {
        reveal_strlit("");
        reveal_strlit("\n");
    }
    let ghost t = crate::observation::texts(parts@);
    let mut r = String::from_str("");
    let mut i: usize = 0;
    while i < parts.len()
        invariant
            i <= parts@.len(),
            t == crate::observation::texts(parts@),
            r@ == join_lines(t.subrange(0, i as int)),
        decreases parts@.len() - i,
    {
        assert(t.subrange(0, i + 1).drop_last() =~= t.subrange(0, i as int));
        if i == 0 {
            r = parts[i].clone();
            assert(t.subrange(0, 1) =~= seq![parts@[0]@]);
        } else {
            r = r.concat("\n").concat(parts[i].as_str());
        }
        i = i + 1;
    }
    assert(t.subrange(0, i as int) =~= t);
    r
}

/// The completion of an OpenAI-compatible response: the first choice,
/// the response's model, the counts or zero; an invalid response when
/// there is no choice.
pub fn openai_completion(resp: OpenAiResponse) -> (r: Result<Completion, AiError>)
    ensures
        match r {
            Ok(c) => resp.choices@.len() > 0 && c.content == resp.choices@[0] && c.model == resp.model
                && c.usage == match resp.usage {
                Some(u) => u,
                None => zero_usage(),
            },
            Err(e) => resp.choices@.len() == 0 && (e matches AiError::InvalidResponse(m) && m@
                == "no choices in response"@),
        },
{
    proof {
        reveal_strlit("no choices in response");
    }
    let mut choices = resp.choices;
    if choices.len() == 0 {
        return Err(AiError::InvalidResponse(String::from_str("no choices in response")));
    }
    let content = choices.remove(0);
    let usage = match resp.usage {
        Some(u) => u,
        None => TokenUsage { prompt_tokens: 0, completion_tokens: 0, total_tokens: 0 },
    };
    Ok(Completion { content, usage, model: resp.model })
}

/// The completion of an Anthropic response: the block texts joined by
/// newlines, the response's model, and the counts with their sum.
pub fn anthropic_completion(resp: AnthropicResponse) -> (c: Completion)
    requires
        resp.input_tokens + resp.output_tokens <= u32::MAX,
    ensures
        c.content@ == join_lines(crate::observation::texts(resp.texts@)),
        c.model == resp.model,
        c.usage == (TokenUsage {
            prompt_tokens: resp.input_tokens,
            completion_tokens: resp.output_tokens,
            total_tokens: (resp.input_tokens + resp.output_tokens) as u32,
        }),
{
    let content = join_with_newlines(&resp.texts);
    let usage = TokenUsage {
        prompt_tokens: resp.input_tokens,
        completion_tokens: resp.output_tokens,
        total_tokens: resp.input_tokens + resp.output_tokens,
    };
    Completion { content, usage, model: resp.model }
}

/// The completion of a Gemini response: the part texts joined by
/// newlines, the model version or else the configured model, and the
/// counts or zero.
pub fn gemini_completion(resp: GeminiResponse, fallback_model: &str) -> (c: Completion)
    ensures
        c.content@ == join_lines(crate::observation::texts(resp.parts@)),
        c.model@ == match resp.model_version {
            Some(m) => m@,
            None => fallback_model@,
        },
        c.usage == match resp.usage {
            Some(u) => u,
            None => zero_usage(),
        },
{
    let content = join_with_newlines(&resp.parts);
    let model = match resp.model_version {
        Some(m) => m,
        None => String::from_str(fallback_model),
    };
    let usage = match resp.usage {
        Some(u) => u,
        None => TokenUsage { prompt_tokens: 0, completion_tokens: 0, total_tokens: 0 },
    };
    Completion { content, usage, model }
}

// ---------------------------------------------------------------------
// Streaming.

/// A chunk of a streamed response.
#[derive(Clone)]
pub struct StreamChunk {
    /// The text this chunk adds.
    pub content: String,
    /// Whether this is the last chunk.
    pub done: bool,
}

impl StreamChunk {
    /// A copy of the chunk.
    pub fn duplicate(&self) -> (c: Self)
        ensures
            c.content@ == self.content@,
            c.done == self.done,
    {
        StreamChunk { content: self.content.clone(), done: self.done }
    }
}

} // verus!
