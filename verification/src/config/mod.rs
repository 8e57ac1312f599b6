//! The configuration: one TOML file with the provider's credentials and the
//! settings of every part.

use vstd::prelude::*;

use crate::conversations::FileRead;
use crate::error::{ApiError, ApiErrorKind, ApiErrorView};
use crate::fields::{read_some_str, read_uint_or};
use crate::json::{Json, JsonView};
use crate::llm::client::to_bare_url;
use crate::text::{copy_opt, empty, lower, trimmed};

pub mod laws;
pub mod sections;
pub mod template;

pub use sections::{
    AgentConfig, ContextConfig, FilesConfig, ProviderConfig, ReflectConfig, ReflectorWorkerConfig,
    SandboxConfig, SearchConfig, SearchProviderKind, WorkerConfig, WorkersConfig,
};

use sections::{
    parse_hhmm, read_section, read_strict, trim_some, ProviderView, ReflectView, ReflectorView,
    SandboxView, SearchView, Section, WorkerView, WorkersView,
};

verus! {

/// The default base URL of the provider.
pub const DEFAULT_BASE_URL: &'static str = "https://openrouter.ai/api/v1";

/// The default model.
pub const DEFAULT_MODEL: &'static str = "openai/gpt-4o-mini";

/// The default port of the web frontend.
pub const DEFAULT_PORT: u16 = 8080;

/// The default context budget in estimated tokens.
pub const DEFAULT_MAX_PROMPT_TOKENS: u64 = 16_000;

/// The default step limit of the agent loop.
pub const DEFAULT_MAX_STEPS: u32 = 8;

/// The default number of search results.
pub const DEFAULT_SEARCH_RESULTS: usize = 5;

/// The default output cap of a worker.
pub const DEFAULT_WORKER_MAX_OUTPUT_TOKENS: u32 = 600;

/// The default output cap of the reflector.
pub const DEFAULT_REFLECTOR_MAX_OUTPUT_TOKENS: u32 = 1200;

/// The default local time of the evening reflection.
pub const DEFAULT_REFLECT_TIME: &'static str = "21:00";

/// The default workspace of the sandbox.
pub const DEFAULT_SANDBOX_WORKSPACE: &'static str = "data/sandbox/workspace";

/// The default wall-clock limit of a script.
pub const DEFAULT_SANDBOX_TIMEOUT_SECS: u64 = 60;

/// The default address-space limit of a script.
pub const DEFAULT_SANDBOX_MEMORY_MB: u64 = 512;

/// The default size cap for uploads.
pub const DEFAULT_MAX_UPLOAD_MB: u64 = 50;

/// The commented file that is written where there is none.
pub const DEFAULT_CONFIG_TOML: &'static str = r##"# Kaeru configuration. This file holds your provider API key:
# keep it private (it is written with 0600 permissions and git-ignored).

# Local port the web UI binds to. The server ALWAYS binds to 127.0.0.1 only.
port = 8080

# Shared secret required as the `X-Auth-Token` header on every /api/* request.
# Leave empty for plain localhost use. Set a long random value before exposing
# the server through a tunnel (see docs/arc42-architecture.md, M2).
auth_token = ""

[provider]
# Any OpenAI-compatible Chat Completions base URL:
#   OpenRouter: https://openrouter.ai/api/v1
#   Ollama:     http://127.0.0.1:11434/v1
#   LM Studio:  http://127.0.0.1:1234/v1
base_url = "https://openrouter.ai/api/v1"

# Provider API key. Leave empty for local servers that need no auth.
# Never paste this key anywhere else; the browser never sees it.
api_key = ""

# Default model for conversations (OpenRouter-style id, or your local model).
model = "openai/gpt-4o-mini"

# Reasoning effort for models that support it. Charm Hyper/DeepSeek accept
# "low"/"high"/"xhigh"; OpenAI-style providers use "low"/"medium"/"high".
# Leave empty to use the provider's own default effort.
reasoning_effort = ""

[context]
# Deterministic context budget (ADR-018), in estimated tokens: prompts are
# assembled as [rolling summary] + recent window; when a conversation grows
# past this budget, the oldest turns are summarized (never silently truncated).
max_prompt_tokens = 16000

[agent]
# Maximum tool-calling steps per turn before the loop stops and answers (M3).
max_steps = 8

[search]
# Web search provider for the `web_search` tool (M3). One of:
#   "off"      no web search (the tool reports it is not configured)
#   "brave"    Brave Search API      (api_key required)
#   "tavily"   Tavily Search API     (api_key required)
#   "searxng"  a self-hosted SearxNG (base_url required, e.g. http://127.0.0.1:8888)
provider = "off"
api_key = ""
base_url = ""
# How many results a search returns (pages fetched for summarization are capped).
max_results = 5

# Worker models (ADR-021): concern-separated, tool-free LLM sub-calls with
# their own model. The summarizer distills fetched web pages before they reach
# the main model, so raw pages never enter the main context. An empty model
# uses the provider default.
[workers.summarizer]
model = ""
max_output_tokens = 600

# The distiller tidies memory candidates before they are saved: it produces a
# short note plus tags (M4). An empty model uses the provider default.
[workers.distiller]
model = ""
max_output_tokens = 600

# Evening reflection (M4.5, ADR-028): a daily job digests the conversations
# changed since the last run into `reflect`-tagged memory notes via the
# tool-free reflector worker. Enabling it is the standing consent; every run
# is audited. Leave disabled to avoid nightly worker token cost.
[reflect]
enabled = false
# Local time (HH:MM) for the daily run; a missed evening is caught up at boot.
time = "21:00"
# Let the reflector revise data/persona.md a little when it judges the change
# helpful. Every change is recorded as a `persona` memory note (why + how).
persona_edits = true

# The reflector writes several notes per run, so it gets more room than the
# other workers. An empty model uses the provider default.
[workers.reflector]
model = ""
max_output_tokens = 1200

[sandbox]
# The single folder the Python tool may write to ("the selected workspace").
# Uploads land here, and artifacts a script writes here are shown in the chat.
# Relative paths resolve against the process working directory.
workspace = "data/sandbox/workspace"

# Extra directories exposed to scripts read-only (e.g. a notes folder).
read_paths = []

# Wall-clock limit for one script run (also caps CPU time) and the
# address-space limit for the sandboxed process.
timeout_secs = 60
memory_mb = 512

[files]
# Size cap for uploads into the workspace (`POST /api/files`).
max_upload_mb = 50
"##;

/// The whole configuration.
#[derive(Debug, PartialEq, Eq)]
pub struct Config {
    /// The local port of the web frontend.
    pub port: u16,
    /// The shared secret as it is configured.
    pub auth_token: Option<String>,
    pub provider: ProviderConfig,
    pub context: ContextConfig,
    pub agent: AgentConfig,
    pub search: SearchConfig,
    pub workers: WorkersConfig,
    pub reflect: ReflectConfig,
    pub sandbox: SandboxConfig,
    pub files: FilesConfig,
}

/// The content of a [`Config`].
#[verifier::ext_equal]
pub struct ConfigView {
    pub port: u16,
    pub auth_token: Option<Seq<char>>,
    pub provider: ProviderView,
    pub context: ContextConfig,
    pub agent: AgentConfig,
    pub search: SearchView,
    pub workers: WorkersView,
    pub reflect: ReflectView,
    pub sandbox: SandboxView,
    pub files: FilesConfig,
}

impl View for Config {
    type V = ConfigView;

    open spec fn view(&self) -> ConfigView {
        ConfigView {
            port: self.port,
            auth_token: crate::text::opt_text(self.auth_token),
            provider: self.provider@,
            context: self.context@,
            agent: self.agent@,
            search: self.search@,
            workers: self.workers@,
            reflect: self.reflect@,
            sandbox: self.sandbox@,
            files: self.files@,
        }
    }
}

/// The configuration of an empty file.
pub open spec fn default_config() -> ConfigView {
    ConfigView {
        port: DEFAULT_PORT,
        auth_token: None,
        provider: <ProviderConfig as Section>::preset(),
        context: <ContextConfig as Section>::preset(),
        agent: <AgentConfig as Section>::preset(),
        search: <SearchConfig as Section>::preset(),
        workers: <WorkersConfig as Section>::preset(),
        reflect: <ReflectConfig as Section>::preset(),
        sandbox: <SandboxConfig as Section>::preset(),
        files: <FilesConfig as Section>::preset(),
    }
}

impl Default for Config {
    fn default() -> (r: Config)
        ensures
            r@ == default_config(),
    {
        Config {
            port: DEFAULT_PORT,
            auth_token: None,
            provider: ProviderConfig::default(),
            context: ContextConfig::default(),
            agent: AgentConfig::default(),
            search: SearchConfig::default(),
            workers: WorkersConfig::default(),
            reflect: ReflectConfig::default(),
            sandbox: SandboxConfig::default(),
            files: FilesConfig::default(),
        }
    }
}

impl Clone for Config {
    fn clone(&self) -> (r: Self)
        ensures
            r@ == self@,
    {
        Config {
            port: self.port,
            auth_token: copy_opt(&self.auth_token),
            provider: self.provider.clone(),
            context: self.context,
            agent: self.agent,
            search: self.search.clone(),
            workers: self.workers.clone(),
            reflect: self.reflect.clone(),
            sandbox: self.sandbox.clone(),
            files: self.files,
        }
    }
}

/// The names of the keys at the top of the file.
pub open spec fn top_names() -> Seq<Seq<char>> {
    seq!["port"@, "auth_token"@, "provider"@, "context"@, "agent"@, "search"@, "workers"@, "reflect"@, "sandbox"@, "files"@]
}

/// The configuration that a value stands for, before it is validated.
pub open spec fn config_of(j: JsonView) -> Option<ConfigView> {
    match sections::strict(j, top_names()) {
        None => None,
        Some(o) => match (
            crate::fields::uint_or(o, "port"@, DEFAULT_PORT as u64, u16::MAX as u64),
            crate::fields::some_str_at(o, "auth_token"@),
            sections::section_at::<ProviderConfig>(o, "provider"@),
            sections::section_at::<ContextConfig>(o, "context"@),
            sections::section_at::<AgentConfig>(o, "agent"@),
            sections::section_at::<SearchConfig>(o, "search"@),
            sections::section_at::<WorkersConfig>(o, "workers"@),
            sections::section_at::<ReflectConfig>(o, "reflect"@),
            sections::section_at::<SandboxConfig>(o, "sandbox"@),
            sections::section_at::<FilesConfig>(o, "files"@),
        ) {
            (
                Some(port),
                Some(auth_token),
                Some(provider),
                Some(context),
                Some(agent),
                Some(search),
                Some(workers),
                Some(reflect),
                Some(sandbox),
                Some(files),
            ) => Some(
                ConfigView {
                    port: port as u16,
                    auth_token: auth_token,
                    provider: provider,
                    context: context,
                    agent: agent,
                    search: search,
                    workers: workers,
                    reflect: reflect,
                    sandbox: sandbox,
                    files: files,
                },
            ),
            _ => None,
        },
    }
}

/// `n`, or `default` where it is 0.
pub open spec fn nonzero(n: u64, default: u64) -> u64 {
    if n == 0 {
        default
    } else {
        n
    }
}

/// A worker's section, tidied up.
pub open spec fn tidy_worker(w: WorkerView) -> WorkerView {
    WorkerView {
        model: crate::text::trim(w.model),
        max_output_tokens: if w.max_output_tokens == 0 {
            DEFAULT_WORKER_MAX_OUTPUT_TOKENS
        } else {
            w.max_output_tokens
        },
    }
}

/// The reflector's section, tidied up.
pub open spec fn tidy_reflector(w: ReflectorView) -> ReflectorView {
    ReflectorView {
        model: crate::text::trim(w.model),
        max_output_tokens: if w.max_output_tokens == 0 {
            DEFAULT_REFLECTOR_MAX_OUTPUT_TOKENS
        } else {
            w.max_output_tokens
        },
    }
}

/// The time of the daily run, tidied up: the default where it cannot be read.
pub open spec fn tidy_time(time: Seq<char>) -> Seq<char> {
    if sections::hhmm(crate::text::trim(time)) is Some {
        crate::text::trim(time)
    } else {
        DEFAULT_REFLECT_TIME@
    }
}

/// The name of the search service, tidied up: `off` where it is not known.
pub open spec fn tidy_search(provider: Seq<char>) -> Seq<char> {
    if sections::search_kind(provider) == SearchProviderKind::Off {
        "off"@
    } else {
        crate::text::ascii_lower(crate::text::trim(provider))
    }
}

/// The configuration tidied up: white space around values is gone, base URLs end
/// without a slash, blank optional values are unset, 0 means the default, and a
/// search service that is not known is off.
pub open spec fn tidied(c: ConfigView) -> ConfigView {
    ConfigView {
        port: c.port,
        auth_token: sections::trimmed_some(c.auth_token),
        provider: ProviderView {
            base_url: crate::llm::client::bare_url(c.provider.base_url),
            api_key: c.provider.api_key,
            model: crate::text::trim(c.provider.model),
            reasoning_effort: sections::trimmed_some(c.provider.reasoning_effort),
        },
        context: c.context,
        agent: AgentConfig {
            max_steps: if c.agent.max_steps == 0 {
                DEFAULT_MAX_STEPS
            } else {
                c.agent.max_steps
            },
        },
        search: SearchView {
            provider: tidy_search(c.search.provider),
            api_key: crate::text::trim(c.search.api_key),
            base_url: crate::llm::client::bare_url(c.search.base_url),
            max_results: if c.search.max_results == 0 {
                DEFAULT_SEARCH_RESULTS
            } else {
                c.search.max_results
            },
        },
        workers: WorkersView {
            summarizer: tidy_worker(c.workers.summarizer),
            distiller: tidy_worker(c.workers.distiller),
            reflector: tidy_reflector(c.workers.reflector),
        },
        reflect: ReflectView { time: tidy_time(c.reflect.time), ..c.reflect },
        sandbox: SandboxView {
            timeout_secs: nonzero(c.sandbox.timeout_secs, DEFAULT_SANDBOX_TIMEOUT_SECS),
            memory_mb: nonzero(c.sandbox.memory_mb, DEFAULT_SANDBOX_MEMORY_MB),
            ..c.sandbox
        },
        files: FilesConfig {
            max_upload_mb: nonzero(c.files.max_upload_mb, DEFAULT_MAX_UPLOAD_MB),
        },
    }
}

/// What validation gives: the configuration tidied up, or an error where the
/// provider has no base URL or no model.
pub open spec fn validated(c: ConfigView) -> Result<ConfigView, ApiErrorView> {
    if tidied(c).provider.base_url.len() == 0 {
        Err(
            crate::error::failure(
                ApiErrorKind::Config,
                "[provider] base_url must not be empty"@,
            ),
        )
    } else if tidied(c).provider.model.len() == 0 {
        Err(
            crate::error::failure(ApiErrorKind::Config, "[provider] model must not be empty"@),
        )
    } else {
        Ok(tidied(c))
    }
}

/// What a parse gives.
pub open spec fn config_read(r: Result<Config, ApiError>) -> Result<ConfigView, ApiErrorView> {
    match r {
        Ok(c) => Ok(c@),
        Err(e) => Err(e@),
    }
}

/// The error of a file that cannot be read as a configuration.
pub open spec fn invalid_config(cause: Seq<char>) -> ApiErrorView {
    crate::error::failure(ApiErrorKind::Config, "invalid config: "@ + cause)
}

/// What a parsed file stands for.
pub open spec fn config_from(j: JsonView) -> Result<ConfigView, ApiErrorView> {
    match config_of(j) {
        Some(c) => validated(c),
        None => Err(invalid_config("unknown key or unexpected value"@)),
    }
}

/// What a text stands for.
pub open spec fn config_parsed(text: Seq<char>) -> Result<ConfigView, ApiErrorView> {
    match crate::json::toml_parsed(text) {
        Ok(j) => config_from(j),
        Err(e) => Err(invalid_config(e)),
    }
}

/// A configuration that was validated can be used: the provider has a base URL
/// and a model, every limit is positive, the time of the daily run can be read,
/// and optional values are not blank.
pub proof fn validated_config_is_usable(c: ConfigView)
    requires
        validated(c) is Ok,
    ensures
        validated(c)->Ok_0.provider.base_url.len() > 0,
        validated(c)->Ok_0.provider.model.len() > 0,
        validated(c)->Ok_0.agent.max_steps > 0,
        validated(c)->Ok_0.search.max_results > 0,
        validated(c)->Ok_0.workers.summarizer.max_output_tokens > 0,
        validated(c)->Ok_0.workers.distiller.max_output_tokens > 0,
        validated(c)->Ok_0.workers.reflector.max_output_tokens > 0,
        validated(c)->Ok_0.sandbox.timeout_secs > 0,
        validated(c)->Ok_0.sandbox.memory_mb > 0,
        validated(c)->Ok_0.files.max_upload_mb > 0,
        sections::hhmm(validated(c)->Ok_0.reflect.time) is Some,
        validated(c)->Ok_0.auth_token matches Some(t) ==> t.len() > 0,
        validated(c)->Ok_0.provider.reasoning_effort matches Some(e) ==> e.len() > 0,
{
    lemma_default_time();
}

/// The default time can be read.
pub(crate) proof fn lemma_default_time()
    ensures
        sections::hhmm("21:00"@) == Some(1260u32),
{
    reveal_strlit("21:00");
    reveal_strlit(":");
    let v = "21:00"@;
    assert(!crate::text::is_space('2') && !crate::text::is_space('0'));
    crate::text::lemma_trim_solid(v);
    assert(v.subrange(2, 3) =~= ":"@);
    assert(v.subrange(0, 1) =~= seq!['2']);
    assert(v.subrange(1, 2) =~= seq!['1']);
    assert(v.subrange(0, 1)[0] != ":"@[0]);
    assert(v.subrange(1, 2)[0] != ":"@[0]);
    assert(crate::text::occurs_at(v, ":"@, 2));
    reveal_with_fuel(crate::text::find_from, 4);
    assert(crate::text::find_from(v, ":"@, 0) == Some(2int));
    let h = seq!['2', '1'];
    let m = seq!['0', '0'];
    assert(v.take(2) =~= h);
    assert(v.skip(3) =~= m);
    crate::text::lemma_trim_solid(h);
    crate::text::lemma_trim_solid(m);
    reveal_with_fuel(crate::text::digits_value, 3);
    assert(h.drop_last() =~= seq!['2']);
    assert(m.drop_last() =~= seq!['0']);
    assert(seq!['2'].drop_last() =~= seq![]);
    assert(seq!['0'].drop_last() =~= seq![]);
}

impl Config {
    /// The shared secret; none where it is blank.
    pub fn auth_token(&self) -> (r: Option<String>)
        ensures
            crate::text::opt_text(r) == sections::trimmed_some(self@.auth_token),
    {
        trim_some(&self.auth_token)
    }

    /// Sets the shared secret.
    pub fn with_auth_token(self, token: &str) -> (r: Config)
        ensures
            r@ == (ConfigView { auth_token: Some(token@), ..self@ }),
    {
        let mut config = self;
        config.auth_token = Some(token.to_owned());
        config
    }

    /// The configuration that a value stands for, before it is validated.
    pub fn of_json(j: &Json) -> (r: Option<Config>)
        ensures
            crate::fields::opt_view(r) == config_of(j@),
    {
        let names: Vec<&str> = vec!["port", "auth_token", "provider", "context", "agent", "search", "workers", "reflect", "sandbox", "files"];
        assert(crate::fields::names_of(names@) =~= top_names());
        let o = match read_strict(j, &names) {
            Some(o) => o,
            None => {
                return None;
            },
        };
        match (
            read_uint_or(&o, "port", DEFAULT_PORT as u64, u16::MAX as u64),
            read_some_str(&o, "auth_token"),
            read_section::<ProviderConfig>(&o, "provider"),
            read_section::<ContextConfig>(&o, "context"),
            read_section::<AgentConfig>(&o, "agent"),
            read_section::<SearchConfig>(&o, "search"),
            read_section::<WorkersConfig>(&o, "workers"),
            read_section::<ReflectConfig>(&o, "reflect"),
            read_section::<SandboxConfig>(&o, "sandbox"),
            read_section::<FilesConfig>(&o, "files"),
        ) {
            (
                Some(port),
                Some(auth_token),
                Some(provider),
                Some(context),
                Some(agent),
                Some(search),
                Some(workers),
                Some(reflect),
                Some(sandbox),
                Some(files),
            ) => Some(
                Config {
                    port: port as u16,
                    auth_token,
                    provider,
                    context,
                    agent,
                    search,
                    workers,
                    reflect,
                    sandbox,
                    files,
                },
            ),
            _ => None,
        }
    }

    /// What a parsed file stands for: read, then validated.
    pub fn from_json(j: &Json) -> (r: Result<Config, ApiError>)
        ensures
            config_read(r) == config_from(j@),
    {
        match Config::of_json(j) {
            Some(c) => c.validate(),
            None => {
                let mut message = "invalid config: ".to_owned();
                message.append("unknown key or unexpected value");
                Err(ApiError::config(message.as_str()))
            },
        }
    }

    /// Parses and validates a configuration text.
    pub fn parse(text: &str) -> (r: Result<Config, ApiError>)
        ensures
            config_read(r) == config_parsed(text@),
    {
        match Json::parse_toml(text) {
            Ok(j) => Config::from_json(&j),
            Err(e) => {
                let mut message = "invalid config: ".to_owned();
                message.append(e.as_str());
                Err(ApiError::config(message.as_str()))
            },
        }
    }

    /// Tidies the configuration up and refuses one without a base URL or a
    /// model.
    pub fn validate(self) -> (r: Result<Config, ApiError>)
        ensures
            config_read(r) == validated(self@),
    {
        let mut config = self;
        config.provider.base_url = to_bare_url(config.provider.base_url.as_str());
        config.provider.model = trimmed(config.provider.model.as_str());
        config.provider.reasoning_effort = trim_some(&config.provider.reasoning_effort);
        config.auth_token = trim_some(&config.auth_token);
        config.search.provider = if config.search.kind() == SearchProviderKind::Off {
            "off".to_owned()
        } else {
            lower(trimmed(config.search.provider.as_str()).as_str())
        };
        config.search.api_key = trimmed(config.search.api_key.as_str());
        config.search.base_url = to_bare_url(config.search.base_url.as_str());
        if config.search.max_results == 0 {
            config.search.max_results = DEFAULT_SEARCH_RESULTS;
        }
        config.workers.summarizer.model = trimmed(config.workers.summarizer.model.as_str());
        if config.workers.summarizer.max_output_tokens == 0 {
            config.workers.summarizer.max_output_tokens = DEFAULT_WORKER_MAX_OUTPUT_TOKENS;
        }
        config.workers.distiller.model = trimmed(config.workers.distiller.model.as_str());
        if config.workers.distiller.max_output_tokens == 0 {
            config.workers.distiller.max_output_tokens = DEFAULT_WORKER_MAX_OUTPUT_TOKENS;
        }
        config.workers.reflector.model = trimmed(config.workers.reflector.model.as_str());
        if config.workers.reflector.max_output_tokens == 0 {
            config.workers.reflector.max_output_tokens = DEFAULT_REFLECTOR_MAX_OUTPUT_TOKENS;
        }
        config.reflect.time = trimmed(config.reflect.time.as_str());
        if parse_hhmm(config.reflect.time.as_str()).is_none() {
            config.reflect.time = DEFAULT_REFLECT_TIME.to_owned();
        }
        if config.agent.max_steps == 0 {
            config.agent.max_steps = DEFAULT_MAX_STEPS;
        }
        if config.sandbox.timeout_secs == 0 {
            config.sandbox.timeout_secs = DEFAULT_SANDBOX_TIMEOUT_SECS;
        }
        if config.sandbox.memory_mb == 0 {
            config.sandbox.memory_mb = DEFAULT_SANDBOX_MEMORY_MB;
        }
        if config.files.max_upload_mb == 0 {
            config.files.max_upload_mb = DEFAULT_MAX_UPLOAD_MB;
        }
        assert(config@ =~= tidied(self@));
        if empty(config.provider.base_url.as_str()) {
            return Err(ApiError::config("[provider] base_url must not be empty"));
        }
        if empty(config.provider.model.as_str()) {
            return Err(ApiError::config("[provider] model must not be empty"));
        }
        Ok(config)
    }
}

/// What loading a configuration gives.
#[derive(Debug)]
pub struct ConfigLoad {
    pub config: Config,
    /// Whether there was no file, so that the template is to be written.
    pub write_template: bool,
}

/// The configuration in a file, given what reading it brought.
pub open spec fn config_loaded(path: Seq<char>, read: FileRead) -> Result<
    (ConfigView, bool),
    ApiErrorView,
> {
    match read {
        FileRead::Text(text) => match config_parsed(text@) {
            Ok(c) => Ok((c, false)),
            Err(e) => Err(e),
        },
        FileRead::Missing => Ok((default_config(), true)),
        FileRead::Failed(cause) => Err(
            crate::error::failure(
                ApiErrorKind::Config,
                "cannot read config at "@ + path + ": "@ + cause@,
            ),
        ),
    }
}

/// The content of a loaded configuration or an error.
pub open spec fn load_view(r: Result<ConfigLoad, ApiError>) -> Result<
    (ConfigView, bool),
    ApiErrorView,
> {
    match r {
        Ok(l) => Ok((l.config@, l.write_template)),
        Err(e) => Err(e@),
    }
}

impl Config {
    /// The configuration in a file, given what reading it brought: a missing
    /// file gives the defaults, and the template is to be written.
    pub fn load(path: &str, read: FileRead) -> (r: Result<ConfigLoad, ApiError>)
        ensures
            load_view(r) == config_loaded(path@, read),
    {
        match read {
            FileRead::Text(text) => match Config::parse(text.as_str()) {
                Ok(config) => Ok(ConfigLoad { config, write_template: false }),
                Err(e) => Err(e),
            },
            FileRead::Missing => Ok(
                ConfigLoad { config: Config::default(), write_template: true },
            ),
            FileRead::Failed(cause) => {
                let mut message = "cannot read config at ".to_owned();
                message.append(path);
                message.append(": ");
                message.append(cause.as_str());
                Err(ApiError::config(message.as_str()))
            },
        }
    }
}

/// Where everything mutable lives by default: one directory to copy for a
/// backup.
#[derive(Debug, PartialEq, Eq)]
pub struct Paths {
    pub config: String,
    pub cassette: String,
    pub conversations: String,
    /// The audit log.
    pub audit: String,
    /// The memory notes.
    pub memory: String,
    /// The persona of the agent.
    pub persona: String,
    /// The last run of the evening reflection.
    pub reflect_state: String,
    /// The prepared Python environments.
    pub sandbox_envs: String,
}

impl Default for Paths {
    fn default() -> (r: Paths)
        ensures
            r.config@ == "data/config.toml"@,
            r.cassette@ == "data/cassette.json"@,
            r.conversations@ == "data/conversations"@,
            r.audit@ == "data/audit.jsonl"@,
            r.memory@ == "data/memory"@,
            r.persona@ == "data/persona.md"@,
            r.reflect_state@ == "data/reflect-state.json"@,
            r.sandbox_envs@ == "data/sandbox/envs"@,
    {
        Paths {
            config: "data/config.toml".to_owned(),
            cassette: "data/cassette.json".to_owned(),
            conversations: "data/conversations".to_owned(),
            audit: "data/audit.jsonl".to_owned(),
            memory: "data/memory".to_owned(),
            persona: "data/persona.md".to_owned(),
            reflect_state: "data/reflect-state.json".to_owned(),
            sandbox_envs: "data/sandbox/envs".to_owned(),
        }
    }
}

} // verus!
