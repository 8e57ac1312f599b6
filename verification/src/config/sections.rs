//! The sections of the configuration. A key that is missing has its default, a
//! key that is not known is refused.

use vstd::prelude::*;

use crate::fields::{
    has_only_keys, read_bool_or, read_record, read_some_str, read_str_or, read_strs_or_empty,
    read_uint_or,
};
use crate::json::{Json, JsonView};
use crate::text::{copy_opt, copy_strings, lower, parse_u32, same, split_once, trimmed};

use super::{
    DEFAULT_BASE_URL, DEFAULT_MAX_PROMPT_TOKENS, DEFAULT_MAX_STEPS, DEFAULT_MAX_UPLOAD_MB,
    DEFAULT_MODEL, DEFAULT_REFLECT_TIME, DEFAULT_REFLECTOR_MAX_OUTPUT_TOKENS,
    DEFAULT_SANDBOX_MEMORY_MB, DEFAULT_SANDBOX_TIMEOUT_SECS, DEFAULT_SANDBOX_WORKSPACE,
    DEFAULT_SEARCH_RESULTS, DEFAULT_WORKER_MAX_OUTPUT_TOKENS,
};

verus! {

/// A section of the configuration.
pub trait Section: Sized + View {
    /// The section that is not there.
    spec fn preset() -> Self::V;

    /// The section that a value stands for.
    spec fn of(j: JsonView) -> Option<Self::V>;

    /// The section that is not there.
    fn make_preset() -> (r: Self)
        ensures
            r@ == Self::preset(),
    ;

    /// Reads a section.
    fn read(j: &Json) -> (r: Option<Self>)
        ensures
            crate::fields::opt_view(r) == Self::of(j@),
    ;
}

/// The section in a field, its preset where it is missing.
pub open spec fn section_at<T: Section>(j: JsonView, key: Seq<char>) -> Option<T::V> {
    match crate::fields::member(j, key) {
        None => Some(T::preset()),
        Some(x) => T::of(x),
    }
}

/// Reads the section in a field.
pub fn read_section<T: Section>(j: &Json, key: &str) -> (r: Option<T>)
    ensures
        crate::fields::opt_view(r) == section_at::<T>(j@, key@),
{
    match j.get(key) {
        None => Some(T::make_preset()),
        Some(x) => T::read(x),
    }
}

/// The record of a section: no other keys than the given ones.
pub open spec fn strict(j: JsonView, names: Seq<Seq<char>>) -> Option<JsonView> {
    match crate::fields::record(j, names, false) {
        Some(JsonView::Object(o)) => if crate::fields::only_keys(o, names) {
            Some(JsonView::Object(o))
        } else {
            None
        },
        _ => None,
    }
}

/// Reads the record of a section.
pub fn read_strict(j: &Json, names: &Vec<&str>) -> (r: Option<Json>)
    ensures
        crate::fields::opt_view(r) == strict(j@, crate::fields::names_of(names@)),
{
    match read_record(j, names, false) {
        Some(o) => if has_only_keys(&o, names) {
            Some(o)
        } else {
            None
        },
        None => None,
    }
}

/// Context budget.
#[derive(Debug, Clone, Copy, PartialEq, Eq, Structural)]
pub struct ContextConfig {
    /// Budget of a prompt in estimated tokens.
    pub max_prompt_tokens: u64,
}

impl View for ContextConfig {
    type V = ContextConfig;

    open spec fn view(&self) -> ContextConfig {
        *self
    }
}

impl Default for ContextConfig {
    fn default() -> (r: ContextConfig)
        ensures
            r@ == Self::preset(),
    {
        ContextConfig {
            max_prompt_tokens: DEFAULT_MAX_PROMPT_TOKENS,
        }
    }
}

impl Section for ContextConfig {
    open spec fn preset() -> ContextConfig {
        ContextConfig {
            max_prompt_tokens: DEFAULT_MAX_PROMPT_TOKENS,
        }
    }

    open spec fn of(j: JsonView) -> Option<ContextConfig> {
        match strict(j, seq!["max_prompt_tokens"@]) {
            None => None,
            Some(o) => match (
                crate::fields::uint_or(o, "max_prompt_tokens"@, DEFAULT_MAX_PROMPT_TOKENS as u64, u64::MAX)
            ) {
                Some(max_prompt_tokens) => Some(ContextConfig { max_prompt_tokens: max_prompt_tokens }),
                _ => None,
            },
        }
    }

    fn make_preset() -> (r: ContextConfig) {
        ContextConfig::default()
    }

    fn read(j: &Json) -> (r: Option<ContextConfig>) {
        let names: Vec<&str> = vec!["max_prompt_tokens"];
        assert(crate::fields::names_of(names@) =~= seq!["max_prompt_tokens"@]);
        let o = match read_strict(j, &names) {
            Some(o) => o,
            None => {
                return None;
            },
        };
        match (
            read_uint_or(&o, "max_prompt_tokens", DEFAULT_MAX_PROMPT_TOKENS as u64, u64::MAX)
        ) {
            Some(max_prompt_tokens) => Some(ContextConfig { max_prompt_tokens: max_prompt_tokens }),
            _ => None,
        }
    }
}

/// Agent loop.
#[derive(Debug, Clone, Copy, PartialEq, Eq, Structural)]
pub struct AgentConfig {
    /// Tool-calling steps per turn.
    pub max_steps: u32,
}

impl View for AgentConfig {
    type V = AgentConfig;

    open spec fn view(&self) -> AgentConfig {
        *self
    }
}

impl Default for AgentConfig {
    fn default() -> (r: AgentConfig)
        ensures
            r@ == Self::preset(),
    {
        AgentConfig {
            max_steps: DEFAULT_MAX_STEPS,
        }
    }
}

impl Section for AgentConfig {
    open spec fn preset() -> AgentConfig {
        AgentConfig {
            max_steps: DEFAULT_MAX_STEPS,
        }
    }

    open spec fn of(j: JsonView) -> Option<AgentConfig> {
        match strict(j, seq!["max_steps"@]) {
            None => None,
            Some(o) => match (
                crate::fields::uint_or(o, "max_steps"@, DEFAULT_MAX_STEPS as u64, u32::MAX as u64)
            ) {
                Some(max_steps) => Some(AgentConfig { max_steps: max_steps as u32 }),
                _ => None,
            },
        }
    }

    fn make_preset() -> (r: AgentConfig) {
        AgentConfig::default()
    }

    fn read(j: &Json) -> (r: Option<AgentConfig>) {
        let names: Vec<&str> = vec!["max_steps"];
        assert(crate::fields::names_of(names@) =~= seq!["max_steps"@]);
        let o = match read_strict(j, &names) {
            Some(o) => o,
            None => {
                return None;
            },
        };
        match (
            read_uint_or(&o, "max_steps", DEFAULT_MAX_STEPS as u64, u32::MAX as u64)
        ) {
            Some(max_steps) => Some(AgentConfig { max_steps: max_steps as u32 }),
            _ => None,
        }
    }
}

/// Web search.
#[derive(Debug, PartialEq, Eq)]
pub struct SearchConfig {
    /// `off`, `brave`, `tavily` or `searxng`.
    pub provider: String,
    /// Key of the search service.
    pub api_key: String,
    /// Base URL of the search service.
    pub base_url: String,
    /// How many results a search returns.
    pub max_results: usize,
}

/// The content of a [`SearchConfig`].
#[verifier::ext_equal]
pub struct SearchView {
    pub provider: Seq<char>,
    pub api_key: Seq<char>,
    pub base_url: Seq<char>,
    pub max_results: usize,
}

impl View for SearchConfig {
    type V = SearchView;

    open spec fn view(&self) -> SearchView {
        SearchView {
            provider: self.provider@,
            api_key: self.api_key@,
            base_url: self.base_url@,
            max_results: self.max_results,
        }
    }
}

impl Clone for SearchConfig {
    fn clone(&self) -> (r: Self)
        ensures
            r@ == self@,
    {
        SearchConfig {
            provider: self.provider.clone(),
            api_key: self.api_key.clone(),
            base_url: self.base_url.clone(),
            max_results: self.max_results,
        }
    }
}

impl Default for SearchConfig {
    fn default() -> (r: SearchConfig)
        ensures
            r@ == Self::preset(),
    {
        SearchConfig {
            provider: "off".to_owned(),
            api_key: "".to_owned(),
            base_url: "".to_owned(),
            max_results: DEFAULT_SEARCH_RESULTS,
        }
    }
}

impl Section for SearchConfig {
    open spec fn preset() -> SearchView {
        SearchView {
            provider: "off"@,
            api_key: ""@,
            base_url: ""@,
            max_results: DEFAULT_SEARCH_RESULTS,
        }
    }

    open spec fn of(j: JsonView) -> Option<SearchView> {
        match strict(j, seq!["provider"@, "api_key"@, "base_url"@, "max_results"@]) {
            None => None,
            Some(o) => match (
                crate::fields::str_or(o, "provider"@, ""@),
                crate::fields::str_or(o, "api_key"@, ""@),
                crate::fields::str_or(o, "base_url"@, ""@),
                crate::fields::uint_or(o, "max_results"@, DEFAULT_SEARCH_RESULTS as u64, usize::MAX as u64),
            ) {
                (Some(provider), Some(api_key), Some(base_url), Some(max_results)) => Some(SearchView { provider: provider, api_key: api_key, base_url: base_url, max_results: max_results as usize }),
                _ => None,
            },
        }
    }

    fn make_preset() -> (r: SearchConfig) {
        SearchConfig::default()
    }

    fn read(j: &Json) -> (r: Option<SearchConfig>) {
        let names: Vec<&str> = vec!["provider", "api_key", "base_url", "max_results"];
        assert(crate::fields::names_of(names@) =~= seq!["provider"@, "api_key"@, "base_url"@, "max_results"@]);
        let o = match read_strict(j, &names) {
            Some(o) => o,
            None => {
                return None;
            },
        };
        match (
            read_str_or(&o, "provider", ""),
            read_str_or(&o, "api_key", ""),
            read_str_or(&o, "base_url", ""),
            read_uint_or(&o, "max_results", DEFAULT_SEARCH_RESULTS as u64, usize::MAX as u64),
        ) {
            (Some(provider), Some(api_key), Some(base_url), Some(max_results)) => Some(SearchConfig { provider: provider, api_key: api_key, base_url: base_url, max_results: max_results as usize }),
            _ => None,
        }
    }
}

/// One worker; an empty model means the provider's.
#[derive(Debug, PartialEq, Eq)]
pub struct WorkerConfig {
    /// The model that the worker runs.
    pub model: String,
    /// Output cap in tokens.
    pub max_output_tokens: u32,
}

/// The content of a [`WorkerConfig`].
#[verifier::ext_equal]
pub struct WorkerView {
    pub model: Seq<char>,
    pub max_output_tokens: u32,
}

impl View for WorkerConfig {
    type V = WorkerView;

    open spec fn view(&self) -> WorkerView {
        WorkerView {
            model: self.model@,
            max_output_tokens: self.max_output_tokens,
        }
    }
}

impl Clone for WorkerConfig {
    fn clone(&self) -> (r: Self)
        ensures
            r@ == self@,
    {
        WorkerConfig {
            model: self.model.clone(),
            max_output_tokens: self.max_output_tokens,
        }
    }
}

impl Default for WorkerConfig {
    fn default() -> (r: WorkerConfig)
        ensures
            r@ == Self::preset(),
    {
        WorkerConfig {
            model: "".to_owned(),
            max_output_tokens: DEFAULT_WORKER_MAX_OUTPUT_TOKENS,
        }
    }
}

impl Section for WorkerConfig {
    open spec fn preset() -> WorkerView {
        WorkerView {
            model: ""@,
            max_output_tokens: DEFAULT_WORKER_MAX_OUTPUT_TOKENS,
        }
    }

    open spec fn of(j: JsonView) -> Option<WorkerView> {
        match strict(j, seq!["model"@, "max_output_tokens"@]) {
            None => None,
            Some(o) => match (
                crate::fields::str_or(o, "model"@, ""@),
                crate::fields::uint_or(o, "max_output_tokens"@, DEFAULT_WORKER_MAX_OUTPUT_TOKENS as u64, u32::MAX as u64),
            ) {
                (Some(model), Some(max_output_tokens)) => Some(WorkerView { model: model, max_output_tokens: max_output_tokens as u32 }),
                _ => None,
            },
        }
    }

    fn make_preset() -> (r: WorkerConfig) {
        WorkerConfig::default()
    }

    fn read(j: &Json) -> (r: Option<WorkerConfig>) {
        let names: Vec<&str> = vec!["model", "max_output_tokens"];
        assert(crate::fields::names_of(names@) =~= seq!["model"@, "max_output_tokens"@]);
        let o = match read_strict(j, &names) {
            Some(o) => o,
            None => {
                return None;
            },
        };
        match (
            read_str_or(&o, "model", ""),
            read_uint_or(&o, "max_output_tokens", DEFAULT_WORKER_MAX_OUTPUT_TOKENS as u64, u32::MAX as u64),
        ) {
            (Some(model), Some(max_output_tokens)) => Some(WorkerConfig { model: model, max_output_tokens: max_output_tokens as u32 }),
            _ => None,
        }
    }
}

/// The reflector, which writes several notes per run.
#[derive(Debug, PartialEq, Eq)]
pub struct ReflectorWorkerConfig {
    /// The model that the worker runs.
    pub model: String,
    /// Output cap in tokens.
    pub max_output_tokens: u32,
}

/// The content of a [`ReflectorWorkerConfig`].
#[verifier::ext_equal]
pub struct ReflectorView {
    pub model: Seq<char>,
    pub max_output_tokens: u32,
}

impl View for ReflectorWorkerConfig {
    type V = ReflectorView;

    open spec fn view(&self) -> ReflectorView {
        ReflectorView {
            model: self.model@,
            max_output_tokens: self.max_output_tokens,
        }
    }
}

impl Clone for ReflectorWorkerConfig {
    fn clone(&self) -> (r: Self)
        ensures
            r@ == self@,
    {
        ReflectorWorkerConfig {
            model: self.model.clone(),
            max_output_tokens: self.max_output_tokens,
        }
    }
}

impl Default for ReflectorWorkerConfig {
    fn default() -> (r: ReflectorWorkerConfig)
        ensures
            r@ == Self::preset(),
    {
        ReflectorWorkerConfig {
            model: "".to_owned(),
            max_output_tokens: DEFAULT_REFLECTOR_MAX_OUTPUT_TOKENS,
        }
    }
}

impl Section for ReflectorWorkerConfig {
    open spec fn preset() -> ReflectorView {
        ReflectorView {
            model: ""@,
            max_output_tokens: DEFAULT_REFLECTOR_MAX_OUTPUT_TOKENS,
        }
    }

    open spec fn of(j: JsonView) -> Option<ReflectorView> {
        match strict(j, seq!["model"@, "max_output_tokens"@]) {
            None => None,
            Some(o) => match (
                crate::fields::str_or(o, "model"@, ""@),
                crate::fields::uint_or(o, "max_output_tokens"@, DEFAULT_REFLECTOR_MAX_OUTPUT_TOKENS as u64, u32::MAX as u64),
            ) {
                (Some(model), Some(max_output_tokens)) => Some(ReflectorView { model: model, max_output_tokens: max_output_tokens as u32 }),
                _ => None,
            },
        }
    }

    fn make_preset() -> (r: ReflectorWorkerConfig) {
        ReflectorWorkerConfig::default()
    }

    fn read(j: &Json) -> (r: Option<ReflectorWorkerConfig>) {
        let names: Vec<&str> = vec!["model", "max_output_tokens"];
        assert(crate::fields::names_of(names@) =~= seq!["model"@, "max_output_tokens"@]);
        let o = match read_strict(j, &names) {
            Some(o) => o,
            None => {
                return None;
            },
        };
        match (
            read_str_or(&o, "model", ""),
            read_uint_or(&o, "max_output_tokens", DEFAULT_REFLECTOR_MAX_OUTPUT_TOKENS as u64, u32::MAX as u64),
        ) {
            (Some(model), Some(max_output_tokens)) => Some(ReflectorWorkerConfig { model: model, max_output_tokens: max_output_tokens as u32 }),
            _ => None,
        }
    }
}

/// Evening reflection.
#[derive(Debug, PartialEq, Eq)]
pub struct ReflectConfig {
    /// Whether the daily run takes place.
    pub enabled: bool,
    /// Local time of the daily run, `HH:MM`.
    pub time: String,
    /// Whether the reflector may revise the persona.
    pub persona_edits: bool,
}

/// The content of a [`ReflectConfig`].
#[verifier::ext_equal]
pub struct ReflectView {
    pub enabled: bool,
    pub time: Seq<char>,
    pub persona_edits: bool,
}

impl View for ReflectConfig {
    type V = ReflectView;

    open spec fn view(&self) -> ReflectView {
        ReflectView {
            enabled: self.enabled,
            time: self.time@,
            persona_edits: self.persona_edits,
        }
    }
}

impl Clone for ReflectConfig {
    fn clone(&self) -> (r: Self)
        ensures
            r@ == self@,
    {
        ReflectConfig {
            enabled: self.enabled,
            time: self.time.clone(),
            persona_edits: self.persona_edits,
        }
    }
}

impl Default for ReflectConfig {
    fn default() -> (r: ReflectConfig)
        ensures
            r@ == Self::preset(),
    {
        ReflectConfig {
            enabled: false,
            time: DEFAULT_REFLECT_TIME.to_owned(),
            persona_edits: true,
        }
    }
}

impl Section for ReflectConfig {
    open spec fn preset() -> ReflectView {
        ReflectView {
            enabled: false,
            time: DEFAULT_REFLECT_TIME@,
            persona_edits: true,
        }
    }

    open spec fn of(j: JsonView) -> Option<ReflectView> {
        match strict(j, seq!["enabled"@, "time"@, "persona_edits"@]) {
            None => None,
            Some(o) => match (
                crate::fields::bool_or(o, "enabled"@, false),
                crate::fields::str_or(o, "time"@, DEFAULT_REFLECT_TIME@),
                crate::fields::bool_or(o, "persona_edits"@, true),
            ) {
                (Some(enabled), Some(time), Some(persona_edits)) => Some(ReflectView { enabled: enabled, time: time, persona_edits: persona_edits }),
                _ => None,
            },
        }
    }

    fn make_preset() -> (r: ReflectConfig) {
        ReflectConfig::default()
    }

    fn read(j: &Json) -> (r: Option<ReflectConfig>) {
        let names: Vec<&str> = vec!["enabled", "time", "persona_edits"];
        assert(crate::fields::names_of(names@) =~= seq!["enabled"@, "time"@, "persona_edits"@]);
        let o = match read_strict(j, &names) {
            Some(o) => o,
            None => {
                return None;
            },
        };
        match (
            read_bool_or(&o, "enabled", false),
            read_str_or(&o, "time", DEFAULT_REFLECT_TIME),
            read_bool_or(&o, "persona_edits", true),
        ) {
            (Some(enabled), Some(time), Some(persona_edits)) => Some(ReflectConfig { enabled: enabled, time: time, persona_edits: persona_edits }),
            _ => None,
        }
    }
}

/// Python sandbox.
#[derive(Debug, PartialEq, Eq)]
pub struct SandboxConfig {
    /// The one writable folder inside the sandbox.
    pub workspace: String,
    /// Directories exposed read-only.
    pub read_paths: Vec<String>,
    /// Wall-clock limit of a run.
    pub timeout_secs: u64,
    /// Address-space limit.
    pub memory_mb: u64,
}

/// The content of a [`SandboxConfig`].
#[verifier::ext_equal]
pub struct SandboxView {
    pub workspace: Seq<char>,
    pub read_paths: Seq<Seq<char>>,
    pub timeout_secs: u64,
    pub memory_mb: u64,
}

impl View for SandboxConfig {
    type V = SandboxView;

    open spec fn view(&self) -> SandboxView {
        SandboxView {
            workspace: self.workspace@,
            read_paths: crate::text::texts(self.read_paths@),
            timeout_secs: self.timeout_secs,
            memory_mb: self.memory_mb,
        }
    }
}

impl Clone for SandboxConfig {
    fn clone(&self) -> (r: Self)
        ensures
            r@ == self@,
    {
        SandboxConfig {
            workspace: self.workspace.clone(),
            read_paths: copy_strings(&self.read_paths),
            timeout_secs: self.timeout_secs,
            memory_mb: self.memory_mb,
        }
    }
}

impl Default for SandboxConfig {
    fn default() -> (r: SandboxConfig)
        ensures
            r@ == Self::preset(),
    {
        let r = SandboxConfig {
            workspace: DEFAULT_SANDBOX_WORKSPACE.to_owned(),
            read_paths: Vec::new(),
            timeout_secs: DEFAULT_SANDBOX_TIMEOUT_SECS,
            memory_mb: DEFAULT_SANDBOX_MEMORY_MB,
        };
        assert(r@.read_paths =~= seq![]);
        r
    }
}

impl Section for SandboxConfig {
    open spec fn preset() -> SandboxView {
        SandboxView {
            workspace: DEFAULT_SANDBOX_WORKSPACE@,
            read_paths: seq![],
            timeout_secs: DEFAULT_SANDBOX_TIMEOUT_SECS,
            memory_mb: DEFAULT_SANDBOX_MEMORY_MB,
        }
    }

    open spec fn of(j: JsonView) -> Option<SandboxView> {
        match strict(j, seq!["workspace"@, "read_paths"@, "timeout_secs"@, "memory_mb"@]) {
            None => None,
            Some(o) => match (
                crate::fields::str_or(o, "workspace"@, DEFAULT_SANDBOX_WORKSPACE@),
                crate::fields::strs_or_empty_at(o, "read_paths"@),
                crate::fields::uint_or(o, "timeout_secs"@, DEFAULT_SANDBOX_TIMEOUT_SECS as u64, u64::MAX),
                crate::fields::uint_or(o, "memory_mb"@, DEFAULT_SANDBOX_MEMORY_MB as u64, u64::MAX),
            ) {
                (Some(workspace), Some(read_paths), Some(timeout_secs), Some(memory_mb)) => Some(SandboxView { workspace: workspace, read_paths: read_paths, timeout_secs: timeout_secs, memory_mb: memory_mb }),
                _ => None,
            },
        }
    }

    fn make_preset() -> (r: SandboxConfig) {
        SandboxConfig::default()
    }

    fn read(j: &Json) -> (r: Option<SandboxConfig>) {
        let names: Vec<&str> = vec!["workspace", "read_paths", "timeout_secs", "memory_mb"];
        assert(crate::fields::names_of(names@) =~= seq!["workspace"@, "read_paths"@, "timeout_secs"@, "memory_mb"@]);
        let o = match read_strict(j, &names) {
            Some(o) => o,
            None => {
                return None;
            },
        };
        match (
            read_str_or(&o, "workspace", DEFAULT_SANDBOX_WORKSPACE),
            read_strs_or_empty(&o, "read_paths"),
            read_uint_or(&o, "timeout_secs", DEFAULT_SANDBOX_TIMEOUT_SECS as u64, u64::MAX),
            read_uint_or(&o, "memory_mb", DEFAULT_SANDBOX_MEMORY_MB as u64, u64::MAX),
        ) {
            (Some(workspace), Some(read_paths), Some(timeout_secs), Some(memory_mb)) => Some(SandboxConfig { workspace: workspace, read_paths: read_paths, timeout_secs: timeout_secs, memory_mb: memory_mb }),
            _ => None,
        }
    }
}

/// Uploads.
#[derive(Debug, Clone, Copy, PartialEq, Eq, Structural)]
pub struct FilesConfig {
    /// Size cap for uploads.
    pub max_upload_mb: u64,
}

impl View for FilesConfig {
    type V = FilesConfig;

    open spec fn view(&self) -> FilesConfig {
        *self
    }
}

impl Default for FilesConfig {
    fn default() -> (r: FilesConfig)
        ensures
            r@ == Self::preset(),
    {
        FilesConfig {
            max_upload_mb: DEFAULT_MAX_UPLOAD_MB,
        }
    }
}

impl Section for FilesConfig {
    open spec fn preset() -> FilesConfig {
        FilesConfig {
            max_upload_mb: DEFAULT_MAX_UPLOAD_MB,
        }
    }

    open spec fn of(j: JsonView) -> Option<FilesConfig> {
        match strict(j, seq!["max_upload_mb"@]) {
            None => None,
            Some(o) => match (
                crate::fields::uint_or(o, "max_upload_mb"@, DEFAULT_MAX_UPLOAD_MB as u64, u64::MAX)
            ) {
                Some(max_upload_mb) => Some(FilesConfig { max_upload_mb: max_upload_mb }),
                _ => None,
            },
        }
    }

    fn make_preset() -> (r: FilesConfig) {
        FilesConfig::default()
    }

    fn read(j: &Json) -> (r: Option<FilesConfig>) {
        let names: Vec<&str> = vec!["max_upload_mb"];
        assert(crate::fields::names_of(names@) =~= seq!["max_upload_mb"@]);
        let o = match read_strict(j, &names) {
            Some(o) => o,
            None => {
                return None;
            },
        };
        match (
            read_uint_or(&o, "max_upload_mb", DEFAULT_MAX_UPLOAD_MB as u64, u64::MAX)
        ) {
            Some(max_upload_mb) => Some(FilesConfig { max_upload_mb: max_upload_mb }),
            _ => None,
        }
    }
}

/// The model provider.
#[derive(Debug, PartialEq, Eq)]
pub struct ProviderConfig {
    /// Base URL of the provider.
    pub base_url: String,
    /// The provider's key.
    pub api_key: String,
    /// The model of conversations.
    pub model: String,
    /// Reasoning effort; blank means the provider's own.
    pub reasoning_effort: Option<String>,
}

/// The content of a [`ProviderConfig`].
#[verifier::ext_equal]
pub struct ProviderView {
    pub base_url: Seq<char>,
    pub api_key: Seq<char>,
    pub model: Seq<char>,
    pub reasoning_effort: Option<Seq<char>>,
}

impl View for ProviderConfig {
    type V = ProviderView;

    open spec fn view(&self) -> ProviderView {
        ProviderView {
            base_url: self.base_url@,
            api_key: self.api_key@,
            model: self.model@,
            reasoning_effort: crate::text::opt_text(self.reasoning_effort),
        }
    }
}

impl Clone for ProviderConfig {
    fn clone(&self) -> (r: Self)
        ensures
            r@ == self@,
    {
        ProviderConfig {
            base_url: self.base_url.clone(),
            api_key: self.api_key.clone(),
            model: self.model.clone(),
            reasoning_effort: copy_opt(&self.reasoning_effort),
        }
    }
}

impl Default for ProviderConfig {
    fn default() -> (r: ProviderConfig)
        ensures
            r@ == Self::preset(),
    {
        ProviderConfig {
            base_url: DEFAULT_BASE_URL.to_owned(),
            api_key: "".to_owned(),
            model: DEFAULT_MODEL.to_owned(),
            reasoning_effort: None,
        }
    }
}

impl Section for ProviderConfig {
    open spec fn preset() -> ProviderView {
        ProviderView {
            base_url: DEFAULT_BASE_URL@,
            api_key: ""@,
            model: DEFAULT_MODEL@,
            reasoning_effort: None,
        }
    }

    open spec fn of(j: JsonView) -> Option<ProviderView> {
        match strict(j, seq!["base_url"@, "api_key"@, "model"@, "reasoning_effort"@]) {
            None => None,
            Some(o) => match (
                crate::fields::str_or(o, "base_url"@, DEFAULT_BASE_URL@),
                crate::fields::str_or(o, "api_key"@, ""@),
                crate::fields::str_or(o, "model"@, DEFAULT_MODEL@),
                crate::fields::some_str_at(o, "reasoning_effort"@),
            ) {
                (Some(base_url), Some(api_key), Some(model), Some(reasoning_effort)) => Some(ProviderView { base_url: base_url, api_key: api_key, model: model, reasoning_effort: reasoning_effort }),
                _ => None,
            },
        }
    }

    fn make_preset() -> (r: ProviderConfig) {
        ProviderConfig::default()
    }

    fn read(j: &Json) -> (r: Option<ProviderConfig>) {
        let names: Vec<&str> = vec!["base_url", "api_key", "model", "reasoning_effort"];
        assert(crate::fields::names_of(names@) =~= seq!["base_url"@, "api_key"@, "model"@, "reasoning_effort"@]);
        let o = match read_strict(j, &names) {
            Some(o) => o,
            None => {
                return None;
            },
        };
        match (
            read_str_or(&o, "base_url", DEFAULT_BASE_URL),
            read_str_or(&o, "api_key", ""),
            read_str_or(&o, "model", DEFAULT_MODEL),
            read_some_str(&o, "reasoning_effort"),
        ) {
            (Some(base_url), Some(api_key), Some(model), Some(reasoning_effort)) => Some(ProviderConfig { base_url: base_url, api_key: api_key, model: model, reasoning_effort: reasoning_effort }),
            _ => None,
        }
    }
}

/// All workers.
#[derive(Debug, PartialEq, Eq)]
pub struct WorkersConfig {
    /// Distils fetched pages.
    pub summarizer: WorkerConfig,
    /// Tidies memory candidates.
    pub distiller: WorkerConfig,
    /// Digests the day's conversations.
    pub reflector: ReflectorWorkerConfig,
}

/// The content of a [`WorkersConfig`].
#[verifier::ext_equal]
pub struct WorkersView {
    pub summarizer: WorkerView,
    pub distiller: WorkerView,
    pub reflector: ReflectorView,
}

impl View for WorkersConfig {
    type V = WorkersView;

    open spec fn view(&self) -> WorkersView {
        WorkersView {
            summarizer: self.summarizer@,
            distiller: self.distiller@,
            reflector: self.reflector@,
        }
    }
}

impl Clone for WorkersConfig {
    fn clone(&self) -> (r: Self)
        ensures
            r@ == self@,
    {
        WorkersConfig {
            summarizer: self.summarizer.clone(),
            distiller: self.distiller.clone(),
            reflector: self.reflector.clone(),
        }
    }
}

impl Default for WorkersConfig {
    fn default() -> (r: WorkersConfig)
        ensures
            r@ == Self::preset(),
    {
        WorkersConfig {
            summarizer: WorkerConfig::default(),
            distiller: WorkerConfig::default(),
            reflector: ReflectorWorkerConfig::default(),
        }
    }
}

impl Section for WorkersConfig {
    open spec fn preset() -> WorkersView {
        WorkersView {
            summarizer: <WorkerConfig as Section>::preset(),
            distiller: <WorkerConfig as Section>::preset(),
            reflector: <ReflectorWorkerConfig as Section>::preset(),
        }
    }

    open spec fn of(j: JsonView) -> Option<WorkersView> {
        match strict(j, seq!["summarizer"@, "distiller"@, "reflector"@]) {
            None => None,
            Some(o) => match (
                section_at::<WorkerConfig>(o, "summarizer"@),
                section_at::<WorkerConfig>(o, "distiller"@),
                section_at::<ReflectorWorkerConfig>(o, "reflector"@),
            ) {
                (Some(summarizer), Some(distiller), Some(reflector)) => Some(
                    WorkersView {
                        summarizer: summarizer,
                        distiller: distiller,
                        reflector: reflector,
                    },
                ),
                _ => None,
            },
        }
    }

    fn make_preset() -> (r: WorkersConfig) {
        WorkersConfig::default()
    }

    fn read(j: &Json) -> (r: Option<WorkersConfig>) {
        let names: Vec<&str> = vec!["summarizer", "distiller", "reflector"];
        assert(crate::fields::names_of(names@) =~= seq![
            "summarizer"@,
            "distiller"@,
            "reflector"@,
        ]);
        let o = match read_strict(j, &names) {
            Some(o) => o,
            None => {
                return None;
            },
        };
        match (
            read_section::<WorkerConfig>(&o, "summarizer"),
            read_section::<WorkerConfig>(&o, "distiller"),
            read_section::<ReflectorWorkerConfig>(&o, "reflector"),
        ) {
            (Some(summarizer), Some(distiller), Some(reflector)) => Some(
                WorkersConfig { summarizer, distiller, reflector },
            ),
            _ => None,
        }
    }
}

/// The web search services.
#[derive(Debug, Clone, Copy, PartialEq, Eq, Structural)]
pub enum SearchProviderKind {
    Off,
    Brave,
    Tavily,
    Searxng,
}

/// The search service that a name selects: `Off` where it is not known.
pub open spec fn search_kind(value: Seq<char>) -> SearchProviderKind {
    let name = crate::text::ascii_lower(crate::text::trim(value));
    if name == "brave"@ {
        SearchProviderKind::Brave
    } else if name == "tavily"@ {
        SearchProviderKind::Tavily
    } else if name == "searxng"@ || name == "searx"@ {
        SearchProviderKind::Searxng
    } else {
        SearchProviderKind::Off
    }
}

impl SearchProviderKind {
    /// The search service that a name selects, in any case and with white space
    /// around it.
    pub fn parse(value: &str) -> (r: SearchProviderKind)
        ensures
            r == search_kind(value@),
    {
        let name = lower(trimmed(value).as_str());
        if same(name.as_str(), "brave") {
            SearchProviderKind::Brave
        } else if same(name.as_str(), "tavily") {
            SearchProviderKind::Tavily
        } else if same(name.as_str(), "searxng") || same(name.as_str(), "searx") {
            SearchProviderKind::Searxng
        } else {
            SearchProviderKind::Off
        }
    }
}

impl SearchConfig {
    /// The search service that is configured.
    pub fn kind(&self) -> (r: SearchProviderKind)
        ensures
            r == search_kind(self.provider@),
    {
        SearchProviderKind::parse(self.provider.as_str())
    }
}

/// A text without white space around it; none where nothing is left.
pub open spec fn trimmed_some(o: Option<Seq<char>>) -> Option<Seq<char>> {
    match o {
        Some(s) => if crate::text::trim(s).len() == 0 {
            None
        } else {
            Some(crate::text::trim(s))
        },
        None => None,
    }
}

/// `o` without white space around it; none where nothing is left.
pub fn trim_some(o: &Option<String>) -> (r: Option<String>)
    ensures
        crate::text::opt_text(r) == trimmed_some(crate::text::opt_text(*o)),
{
    match o {
        Some(s) => {
            let t = trimmed(s.as_str());
            if crate::text::empty(t.as_str()) {
                None
            } else {
                Some(t)
            }
        },
        None => None,
    }
}

impl ProviderConfig {
    /// The configured reasoning effort; none where it is blank.
    pub fn reasoning_effort(&self) -> (r: Option<String>)
        ensures
            crate::text::opt_text(r) == trimmed_some(self@.reasoning_effort),
    {
        trim_some(&self.reasoning_effort)
    }
}

/// The time `HH:MM` as minutes since midnight.
pub open spec fn hhmm(value: Seq<char>) -> Option<u32> {
    let v = crate::text::trim(value);
    match crate::text::find_from(v, ":"@, 0) {
        Some(i) => match (
            crate::text::u32_value(crate::text::trim(v.take(i))),
            crate::text::u32_value(crate::text::trim(v.skip(i + 1))),
        ) {
            (Some(h), Some(m)) => if h <= 23 && m <= 59 {
                Some((h * 60 + m) as u32)
            } else {
                None
            },
            _ => None,
        },
        None => None,
    }
}

/// The time `HH:MM` as minutes since midnight.
pub fn parse_hhmm(value: &str) -> (r: Option<u32>)
    ensures
        r == hhmm(value@),
{
    proof {
        reveal_strlit(":");
    }
    match split_once(trimmed(value).as_str(), ":") {
        Some((hours, minutes)) => match (
            parse_u32(trimmed(hours.as_str()).as_str()),
            parse_u32(trimmed(minutes.as_str()).as_str()),
        ) {
            (Some(h), Some(m)) => if h <= 23 && m <= 59 {
                Some(h * 60 + m)
            } else {
                None
            },
            _ => None,
        },
        None => None,
    }
}

/// The default time of the daily run, in minutes since midnight.
pub const DEFAULT_REFLECT_MINUTES: u32 = 1260;

impl ReflectConfig {
    /// The time of the daily run as minutes since midnight; the default where
    /// the configured time cannot be read.
    pub fn scheduled_minutes(&self) -> (r: u32)
        ensures
            r == (match hhmm(self.time@) {
                Some(m) => m,
                None => DEFAULT_REFLECT_MINUTES,
            }),
            r < 1440,
    {
        match parse_hhmm(self.time.as_str()) {
            Some(m) => m,
            None => DEFAULT_REFLECT_MINUTES,
        }
    }
}

} // verus!
