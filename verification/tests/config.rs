use agent_core::config::{
    Config, Paths, DEFAULT_BASE_URL, DEFAULT_CONFIG_TOML, DEFAULT_MAX_PROMPT_TOKENS,
    DEFAULT_MAX_STEPS, DEFAULT_MAX_UPLOAD_MB, DEFAULT_MODEL, DEFAULT_PORT,
    DEFAULT_REFLECTOR_MAX_OUTPUT_TOKENS, DEFAULT_REFLECT_TIME, DEFAULT_SANDBOX_MEMORY_MB,
    DEFAULT_SANDBOX_TIMEOUT_SECS, DEFAULT_SANDBOX_WORKSPACE, DEFAULT_SEARCH_RESULTS,
    DEFAULT_WORKER_MAX_OUTPUT_TOKENS,
};
use agent_core::conversations::FileRead;
use agent_core::json::Json;
use agent_core::{ApiErrorKind, SearchProviderKind};

#[test]
fn config_parse_full_config() {
    let config = Config::parse(
        r##"
port = 9000
auth_token = "tok123"
[provider]
base_url = "http://127.0.0.1:11434/v1"
api_key = "ollama-needs-none"
model = "llama3"
"##,
    )
    .unwrap();
    assert_eq!(config.port, 9000);
    assert_eq!(config.auth_token().as_deref(), Some("tok123"));
    assert_eq!(config.provider.model, "llama3");
}

#[test]
fn tests_parse_full_config() {
    let config = Config::parse(
        r##"
port = 9000
auth_token = "tok123"
[provider]
base_url = "http://127.0.0.1:11434/v1"
api_key = "ollama-needs-none"
model = "llama3"
"##,
    )
    .unwrap();
    assert_eq!(config.port, 9000);
    assert_eq!(config.auth_token().as_deref(), Some("tok123"));
    assert_eq!(config.provider.model, "llama3");
}

#[test]
fn config_missing_fields_fall_back_to_defaults() {
    let config = Config::parse("[provider]\nmodel = \"m\"\n").unwrap();
    assert_eq!(config.port, DEFAULT_PORT);
    assert_eq!(config.provider.base_url, DEFAULT_BASE_URL);
    assert_eq!(config.provider.api_key, "");
    assert_eq!(config.provider.model, "m");
    assert_eq!(config.auth_token(), None);
}

#[test]
fn tests_missing_fields_fall_back_to_defaults() {
    let config = Config::parse("[provider]\nmodel = \"m\"\n").unwrap();
    assert_eq!(config.port, DEFAULT_PORT);
    assert_eq!(config.provider.base_url, DEFAULT_BASE_URL);
    assert_eq!(config.provider.api_key, "");
    assert_eq!(config.provider.model, "m");
    assert_eq!(config.auth_token(), None);
}

#[test]
fn config_empty_auth_token_is_disabled() {
    let config = Config::parse("auth_token = \"   \"\n").unwrap();
    assert_eq!(config.auth_token(), None);
}

#[test]
fn tests_empty_auth_token_is_disabled() {
    let config = Config::parse("auth_token = \"   \"\n").unwrap();
    assert_eq!(config.auth_token(), None);
}

#[test]
fn config_base_url_trailing_slash_is_normalized() {
    let config = Config::parse("[provider]\nbase_url = \"http://x/v1/\"\n").unwrap();
    assert_eq!(config.provider.base_url, "http://x/v1");
}

#[test]
fn tests_base_url_trailing_slash_is_normalized() {
    let config = Config::parse("[provider]\nbase_url = \"http://x/v1/\"\n").unwrap();
    assert_eq!(config.provider.base_url, "http://x/v1");
}

#[test]
fn config_unknown_fields_are_rejected() {
    let err = Config::parse("port_typo = 1\n").unwrap_err();
    assert_eq!(err.kind, ApiErrorKind::Config);
    assert!(err.message.contains("invalid config"));
}

#[test]
fn tests_unknown_fields_are_rejected() {
    let err = Config::parse("port_typo = 1\n").unwrap_err();
    assert_eq!(err.kind, ApiErrorKind::Config);
    assert!(err.message.contains("invalid config"));
}

#[test]
fn config_empty_model_is_rejected() {
    let err = Config::parse("[provider]\nmodel = \"\"\n").unwrap_err();
    assert!(err.message.contains("model"));
}

#[test]
fn tests_empty_model_is_rejected() {
    let err = Config::parse("[provider]\nmodel = \"\"\n").unwrap_err();
    assert!(err.message.contains("model"));
}

#[test]
fn config_context_budget_is_configurable_with_a_default() {
    let config = Config::parse("[provider]\nmodel = \"m\"\n").unwrap();
    assert_eq!(config.context.max_prompt_tokens, DEFAULT_MAX_PROMPT_TOKENS);
    let config =
        Config::parse("[provider]\nmodel = \"m\"\n[context]\nmax_prompt_tokens = 100\n").unwrap();
    assert_eq!(config.context.max_prompt_tokens, 100);
}

#[test]
fn tests_context_budget_is_configurable_with_a_default() {
    let config = Config::parse("[provider]\nmodel = \"m\"\n").unwrap();
    assert_eq!(config.context.max_prompt_tokens, DEFAULT_MAX_PROMPT_TOKENS);
    let config =
        Config::parse("[provider]\nmodel = \"m\"\n[context]\nmax_prompt_tokens = 100\n").unwrap();
    assert_eq!(config.context.max_prompt_tokens, 100);
}

#[test]
fn config_search_config_defaults_to_off_and_is_normalized() {
    let config = Config::parse("[provider]\nmodel = \"m\"\n").unwrap();
    assert_eq!(config.search.kind(), SearchProviderKind::Off);
    assert_eq!(config.search.max_results, DEFAULT_SEARCH_RESULTS);

    let config =
        Config::parse("[search]\nprovider = \"BRAVE\"\napi_key = \" k \"\nmax_results = 3\n")
            .unwrap();
    assert_eq!(config.search.kind(), SearchProviderKind::Brave);
    assert_eq!(config.search.api_key, "k");
    assert_eq!(config.search.max_results, 3);
}

#[test]
fn tests_search_config_defaults_to_off_and_is_normalized() {
    let config = Config::parse("[provider]\nmodel = \"m\"\n").unwrap();
    assert_eq!(config.search.kind(), SearchProviderKind::Off);
    assert_eq!(config.search.max_results, DEFAULT_SEARCH_RESULTS);

    let config =
        Config::parse("[search]\nprovider = \"BRAVE\"\napi_key = \" k \"\nmax_results = 3\n")
            .unwrap();
    assert_eq!(config.search.kind(), SearchProviderKind::Brave);
    assert_eq!(config.search.api_key, "k");
    assert_eq!(config.search.max_results, 3);
}

#[test]
fn config_agent_and_worker_config_have_defaults() {
    let config = Config::parse("[provider]\nmodel = \"m\"\n").unwrap();
    assert_eq!(config.agent.max_steps, DEFAULT_MAX_STEPS);
    assert_eq!(config.workers.summarizer.model, "");
    assert_eq!(
        config.workers.summarizer.max_output_tokens,
        DEFAULT_WORKER_MAX_OUTPUT_TOKENS
    );
    assert_eq!(config.workers.distiller.model, "");
    assert_eq!(
        config.workers.distiller.max_output_tokens,
        DEFAULT_WORKER_MAX_OUTPUT_TOKENS
    );

    let config = Config::parse(
        "[agent]\nmax_steps = 3\n[workers.summarizer]\nmodel = \"cheap/m\"\nmax_output_tokens = 128\n",
    )
    .unwrap();
    assert_eq!(config.agent.max_steps, 3);
    assert_eq!(config.workers.summarizer.model, "cheap/m");
    assert_eq!(config.workers.summarizer.max_output_tokens, 128);
}

#[test]
fn tests_agent_and_worker_config_have_defaults() {
    let config = Config::parse("[provider]\nmodel = \"m\"\n").unwrap();
    assert_eq!(config.agent.max_steps, DEFAULT_MAX_STEPS);
    assert_eq!(config.workers.summarizer.model, "");
    assert_eq!(
        config.workers.summarizer.max_output_tokens,
        DEFAULT_WORKER_MAX_OUTPUT_TOKENS
    );
    assert_eq!(config.workers.distiller.model, "");
    assert_eq!(
        config.workers.distiller.max_output_tokens,
        DEFAULT_WORKER_MAX_OUTPUT_TOKENS
    );

    let config = Config::parse(
        "[agent]\nmax_steps = 3\n[workers.summarizer]\nmodel = \"cheap/m\"\nmax_output_tokens = 128\n",
    )
    .unwrap();
    assert_eq!(config.agent.max_steps, 3);
    assert_eq!(config.workers.summarizer.model, "cheap/m");
    assert_eq!(config.workers.summarizer.max_output_tokens, 128);
}

#[test]
fn sandbox_and_files_config_have_defaults_and_are_validated() {
    let config = Config::parse("[provider]\nmodel = \"m\"\n").unwrap();
    assert_eq!(
        config.sandbox.workspace,
        DEFAULT_SANDBOX_WORKSPACE
    );
    assert!(config.sandbox.read_paths.is_empty());
    assert_eq!(config.sandbox.timeout_secs, DEFAULT_SANDBOX_TIMEOUT_SECS);
    assert_eq!(config.sandbox.memory_mb, DEFAULT_SANDBOX_MEMORY_MB);
    assert_eq!(config.files.max_upload_mb, DEFAULT_MAX_UPLOAD_MB);
    assert_eq!(
        Paths::default().sandbox_envs,
        "data/sandbox/envs"
    );

    let config = Config::parse(
        "[provider]\nmodel = \"m\"\n[sandbox]\nworkspace = \"/tmp/ws\"\nread_paths = [\"/tmp/ro\"]\ntimeout_secs = 5\nmemory_mb = 64\n[files]\nmax_upload_mb = 7\n",
    )
    .unwrap();
    assert_eq!(config.sandbox.workspace, "/tmp/ws");
    assert_eq!(config.sandbox.read_paths, vec!["/tmp/ro"]);
    assert_eq!(config.sandbox.timeout_secs, 5);
    assert_eq!(config.sandbox.memory_mb, 64);
    assert_eq!(config.files.max_upload_mb, 7);

    // Zero means "unset": normalized back to the defaults, never a
    // division-by-zero-shaped surprise at run time.
    let config = Config::parse(
        "[provider]\nmodel = \"m\"\n[sandbox]\ntimeout_secs = 0\nmemory_mb = 0\n[files]\nmax_upload_mb = 0\n",
    )
    .unwrap();
    assert_eq!(config.sandbox.timeout_secs, DEFAULT_SANDBOX_TIMEOUT_SECS);
    assert_eq!(config.sandbox.memory_mb, DEFAULT_SANDBOX_MEMORY_MB);
    assert_eq!(config.files.max_upload_mb, DEFAULT_MAX_UPLOAD_MB);
}

#[test]
fn reflect_config_defaults_off_and_normalizes_time() {
    let config = Config::parse("[provider]\nmodel = \"m\"\n").unwrap();
    assert!(!config.reflect.enabled);
    assert_eq!(config.reflect.time, DEFAULT_REFLECT_TIME);
    assert_eq!(config.reflect.scheduled_minutes(), 21 * 60);
    assert!(config.reflect.persona_edits);
    assert_eq!(
        config.workers.reflector.max_output_tokens,
        DEFAULT_REFLECTOR_MAX_OUTPUT_TOKENS
    );

    let config = Config::parse(
        "[reflect]\nenabled = true\ntime = \" 07:05 \"\npersona_edits = false\n[workers.reflector]\nmodel = \"r/m\"\n",
    )
    .unwrap();
    assert!(config.reflect.enabled);
    assert_eq!(config.reflect.time, "07:05");
    assert_eq!(config.reflect.scheduled_minutes(), 7 * 60 + 5);
    assert!(!config.reflect.persona_edits);
    assert_eq!(config.workers.reflector.model, "r/m");
    assert_eq!(
        config.workers.reflector.max_output_tokens,
        DEFAULT_REFLECTOR_MAX_OUTPUT_TOKENS
    );

    let config = Config::parse("[reflect]\ntime = \"bogus\"\n").unwrap();
    assert_eq!(config.reflect.time, DEFAULT_REFLECT_TIME);
}

#[test]
fn load_creates_default_file_with_tight_permissions() {
    let loaded = Config::load("data/config.toml", FileRead::Missing).unwrap();
    assert!(loaded.write_template);
    let config = loaded.config;
    assert_eq!(config.provider.base_url, DEFAULT_BASE_URL);
    let reloaded =
        Config::load("data/config.toml", FileRead::Text(DEFAULT_CONFIG_TOML.to_string())).unwrap();
    assert!(!reloaded.write_template);
    assert_eq!(reloaded.config, config);
}

#[test]
fn load_reports_broken_config_with_path() {
    let broken = FileRead::Text("port = \"not-a-number\"\n".to_string());
    let err = Config::load("config.toml", broken).unwrap_err();
    assert!(err.message.contains("invalid config"));
}

#[test]
fn an_unreadable_config_file_is_an_error() {
    let err = Config::load("c.toml", FileRead::Failed("denied".to_string())).unwrap_err();
    assert_eq!(err.kind, ApiErrorKind::Config);
    assert_eq!(err.message, "cannot read config at c.toml: denied");
}

#[test]
fn the_template_is_the_default_configuration() {
    assert_eq!(Config::parse(DEFAULT_CONFIG_TOML).unwrap(), Config::default());
    assert_eq!(Config::parse("").unwrap(), Config::default());
}

#[test]
fn a_configured_token_is_trimmed() {
    let config = Config::default().with_auth_token("  secret ");
    assert_eq!(config.auth_token().as_deref(), Some("secret"));
    assert_eq!(Config::default().auth_token(), None);
}

#[test]
fn reasoning_effort_is_none_where_it_is_blank() {
    let config = Config::parse("[provider]\nreasoning_effort = \" high \"\n").unwrap();
    assert_eq!(config.provider.reasoning_effort().as_deref(), Some("high"));
    let config = Config::parse("[provider]\nreasoning_effort = \"  \"\n").unwrap();
    assert_eq!(config.provider.reasoning_effort(), None);
}

#[test]
fn search_services_are_found_by_name() {
    assert_eq!(SearchProviderKind::parse(" Tavily "), SearchProviderKind::Tavily);
    assert_eq!(SearchProviderKind::parse("searxng"), SearchProviderKind::Searxng);
    assert_eq!(SearchProviderKind::parse("bing"), SearchProviderKind::Off);
}

#[test]
fn a_number_that_does_not_fit_is_rejected() {
    assert!(Config::parse("port = 65536\n").is_err());
    assert!(Config::parse("port = -1\n").is_err());
    assert_eq!(Config::parse("port = 65535\n").unwrap().port, 65535);
}

#[test]
fn a_text_that_is_no_toml_is_rejected() {
    let err = Config::parse("port = \n").unwrap_err();
    assert_eq!(err.kind, ApiErrorKind::Config);
    assert!(err.message.contains("invalid config"));
}

#[test]
fn default_paths_share_one_directory() {
    let paths = Paths::default();
    assert_eq!(paths.config, "data/config.toml");
    assert_eq!(paths.audit, "data/audit.jsonl");
    assert_eq!(paths.memory, "data/memory");
    assert_eq!(DEFAULT_MODEL, Config::default().provider.model);
}

#[test]
fn the_template_is_read_as_the_table_it_spells_out() {
    let tree = Json::parse_toml(DEFAULT_CONFIG_TOML).unwrap();
    assert_eq!(
        tree.to_text(),
        [
            r#"{"agent":{"max_steps":8},"auth_token":"","context":{"max_prompt_tokens":16000},"#,
            r#""files":{"max_upload_mb":50},"port":8080,"provider":{"api_key":"","#,
            r#""base_url":"https://openrouter.ai/api/v1","model":"openai/gpt-4o-mini","#,
            r#""reasoning_effort":""},"reflect":{"enabled":false,"persona_edits":true,"#,
            r#""time":"21:00"},"sandbox":{"memory_mb":512,"read_paths":[],"timeout_secs":60,"#,
            r#""workspace":"data/sandbox/workspace"},"search":{"api_key":"","base_url":"","#,
            r#""max_results":5,"provider":"off"},"workers":{"distiller":"#,
            r#"{"max_output_tokens":600,"model":""},"reflector":{"max_output_tokens":1200,"#,
            r#""model":""},"summarizer":{"max_output_tokens":600,"model":""}}}"#,
        ]
        .concat()
    );
}

#[test]
fn an_unknown_search_provider_is_off() {
    for (given, kept) in [
        ("duckduckgo", "off"),
        ("", "off"),
        (" OFF ", "off"),
        (" Brave", "brave"),
        ("Searx", "searx"),
        ("searxng", "searxng"),
        ("TAVILY", "tavily"),
    ] {
        let text = format!("[search]\nprovider = \"{given}\"\n");
        assert_eq!(Config::parse(&text).unwrap().search.provider, kept, "{given:?}");
    }
}
