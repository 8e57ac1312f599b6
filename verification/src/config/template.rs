//! The template of the configuration, read as a configuration.

use vstd::prelude::*;

use crate::conversations::FileRead;
use crate::error::ApiErrorView;
use crate::json::{FieldView, JsonView};

use super::sections::{self, Section};
use super::{
    AgentConfig, ConfigView, ContextConfig, FilesConfig, ProviderConfig, ReflectConfig,
    ReflectorWorkerConfig, SandboxConfig, SearchConfig, WorkerConfig, WorkersConfig,
    DEFAULT_CONFIG_TOML,
};

verus! {

/// The section `[agent]` of the template.
pub open spec fn agent_table() -> Seq<FieldView> {
    seq![
        crate::json::entry("max_steps"@, JsonView::U64(8)),
    ]
}

/// The section `[context]` of the template.
pub open spec fn context_table() -> Seq<FieldView> {
    seq![
        crate::json::entry("max_prompt_tokens"@, JsonView::U64(16000)),
    ]
}

/// The section `[files]` of the template.
pub open spec fn files_table() -> Seq<FieldView> {
    seq![
        crate::json::entry("max_upload_mb"@, JsonView::U64(50)),
    ]
}

/// The section `[provider]` of the template.
pub open spec fn provider_table() -> Seq<FieldView> {
    seq![
        crate::json::entry("api_key"@, JsonView::Str(""@)),
        crate::json::entry("base_url"@, JsonView::Str("https://openrouter.ai/api/v1"@)),
        crate::json::entry("model"@, JsonView::Str("openai/gpt-4o-mini"@)),
        crate::json::entry("reasoning_effort"@, JsonView::Str(""@)),
    ]
}

/// The section `[reflect]` of the template.
pub open spec fn reflect_table() -> Seq<FieldView> {
    seq![
        crate::json::entry("enabled"@, JsonView::Bool(false)),
        crate::json::entry("persona_edits"@, JsonView::Bool(true)),
        crate::json::entry("time"@, JsonView::Str("21:00"@)),
    ]
}

/// The section `[sandbox]` of the template.
pub open spec fn sandbox_table() -> Seq<FieldView> {
    seq![
        crate::json::entry("memory_mb"@, JsonView::U64(512)),
        crate::json::entry("read_paths"@, JsonView::Array(seq![])),
        crate::json::entry("timeout_secs"@, JsonView::U64(60)),
        crate::json::entry("workspace"@, JsonView::Str("data/sandbox/workspace"@)),
    ]
}

/// The section `[search]` of the template.
pub open spec fn search_table() -> Seq<FieldView> {
    seq![
        crate::json::entry("api_key"@, JsonView::Str(""@)),
        crate::json::entry("base_url"@, JsonView::Str(""@)),
        crate::json::entry("max_results"@, JsonView::U64(5)),
        crate::json::entry("provider"@, JsonView::Str("off"@)),
    ]
}

/// The sections `[workers.summarizer]` and `[workers.distiller]` of the template.
pub open spec fn worker_table() -> Seq<FieldView> {
    seq![
        crate::json::entry("max_output_tokens"@, JsonView::U64(600)),
        crate::json::entry("model"@, JsonView::Str(""@)),
    ]
}

/// The section `[workers.reflector]` of the template.
pub open spec fn reflector_table() -> Seq<FieldView> {
    seq![
        crate::json::entry("max_output_tokens"@, JsonView::U64(1200)),
        crate::json::entry("model"@, JsonView::Str(""@)),
    ]
}

/// The section `[workers]` of the template.
pub open spec fn workers_table() -> Seq<FieldView> {
    seq![
        crate::json::entry("distiller"@, JsonView::Object(worker_table())),
        crate::json::entry("reflector"@, JsonView::Object(reflector_table())),
        crate::json::entry("summarizer"@, JsonView::Object(worker_table())),
    ]
}

/// What the template says, key by key.
pub open spec fn template_table() -> Seq<FieldView> {
    seq![
        crate::json::entry("agent"@, JsonView::Object(agent_table())),
        crate::json::entry("auth_token"@, JsonView::Str(""@)),
        crate::json::entry("context"@, JsonView::Object(context_table())),
        crate::json::entry("files"@, JsonView::Object(files_table())),
        crate::json::entry("port"@, JsonView::U64(8080)),
        crate::json::entry("provider"@, JsonView::Object(provider_table())),
        crate::json::entry("reflect"@, JsonView::Object(reflect_table())),
        crate::json::entry("sandbox"@, JsonView::Object(sandbox_table())),
        crate::json::entry("search"@, JsonView::Object(search_table())),
        crate::json::entry("workers"@, JsonView::Object(workers_table())),
    ]
}

/// A field of a table whose keys differ is found, and its key is one of `names`.
proof fn lemma_holds(o: Seq<FieldView>, i: int, names: Seq<Seq<char>>, k: int)
    requires
        0 <= i < o.len(),
        0 <= k < names.len(),
        crate::json::distinct_keys(o),
        names[k] == o[i].key,
    ensures
        crate::json::get(o, o[i].key) == Some(o[i].value),
        names.contains(o[i].key),
{
    crate::json::lemma_get_here(o, o[i].key, i);
}

proof fn lemma_agent()
    ensures
        <AgentConfig as Section>::of(JsonView::Object(agent_table())) == Some(
            <AgentConfig as Section>::preset(),
        ),
{
    reveal_strlit("max_steps");
    assert("max_steps"@.len() == 9);
    let o = agent_table();
    let names = seq!["max_steps"@];
    assert(crate::json::distinct_keys(o));
    lemma_holds(o, 0, names, 0);
    assert(crate::fields::only_keys(o, names));
    assert(sections::strict(JsonView::Object(o), names) == Some(JsonView::Object(o)));
}

proof fn lemma_context()
    ensures
        <ContextConfig as Section>::of(JsonView::Object(context_table())) == Some(
            <ContextConfig as Section>::preset(),
        ),
{
    reveal_strlit("max_prompt_tokens");
    assert("max_prompt_tokens"@.len() == 17);
    let o = context_table();
    let names = seq!["max_prompt_tokens"@];
    assert(crate::json::distinct_keys(o));
    lemma_holds(o, 0, names, 0);
    assert(crate::fields::only_keys(o, names));
    assert(sections::strict(JsonView::Object(o), names) == Some(JsonView::Object(o)));
}

proof fn lemma_files()
    ensures
        <FilesConfig as Section>::of(JsonView::Object(files_table())) == Some(
            <FilesConfig as Section>::preset(),
        ),
{
    reveal_strlit("max_upload_mb");
    assert("max_upload_mb"@.len() == 13);
    let o = files_table();
    let names = seq!["max_upload_mb"@];
    assert(crate::json::distinct_keys(o));
    lemma_holds(o, 0, names, 0);
    assert(crate::fields::only_keys(o, names));
    assert(sections::strict(JsonView::Object(o), names) == Some(JsonView::Object(o)));
}

proof fn lemma_provider()
    ensures
        <ProviderConfig as Section>::of(JsonView::Object(provider_table())) == Some(
            sections::ProviderView {
                reasoning_effort: Some(""@),
                ..<ProviderConfig as Section>::preset()
            },
        ),
{
    reveal_strlit("api_key");
    reveal_strlit("base_url");
    reveal_strlit("model");
    reveal_strlit("reasoning_effort");
    assert("api_key"@.len() == 7);
    assert("base_url"@.len() == 8);
    assert("model"@.len() == 5);
    assert("reasoning_effort"@.len() == 16);
    let o = provider_table();
    let names = seq!["base_url"@, "api_key"@, "model"@, "reasoning_effort"@];
    assert(crate::json::distinct_keys(o));
    lemma_holds(o, 0, names, 1);
    lemma_holds(o, 1, names, 0);
    lemma_holds(o, 2, names, 2);
    lemma_holds(o, 3, names, 3);
    assert(crate::fields::only_keys(o, names));
    assert(sections::strict(JsonView::Object(o), names) == Some(JsonView::Object(o)));
}

proof fn lemma_reflect()
    ensures
        <ReflectConfig as Section>::of(JsonView::Object(reflect_table())) == Some(
            <ReflectConfig as Section>::preset(),
        ),
{
    reveal_strlit("enabled");
    reveal_strlit("persona_edits");
    reveal_strlit("time");
    assert("enabled"@.len() == 7);
    assert("persona_edits"@.len() == 13);
    assert("time"@.len() == 4);
    let o = reflect_table();
    let names = seq!["enabled"@, "time"@, "persona_edits"@];
    assert(crate::json::distinct_keys(o));
    lemma_holds(o, 0, names, 0);
    lemma_holds(o, 1, names, 2);
    lemma_holds(o, 2, names, 1);
    assert(crate::fields::only_keys(o, names));
    assert(sections::strict(JsonView::Object(o), names) == Some(JsonView::Object(o)));
}

proof fn lemma_sandbox()
    ensures
        <SandboxConfig as Section>::of(JsonView::Object(sandbox_table())) == Some(
            <SandboxConfig as Section>::preset(),
        ),
{
    reveal_strlit("memory_mb");
    reveal_strlit("read_paths");
    reveal_strlit("timeout_secs");
    reveal_strlit("workspace");
    assert("memory_mb"@.len() == 9);
    assert("read_paths"@.len() == 10);
    assert("timeout_secs"@.len() == 12);
    assert("workspace"@.len() == 9);
    assert("memory_mb"@[0] != "workspace"@[0]);
    let o = sandbox_table();
    let names = seq!["workspace"@, "read_paths"@, "timeout_secs"@, "memory_mb"@];
    assert(crate::json::distinct_keys(o));
    lemma_holds(o, 0, names, 3);
    lemma_holds(o, 1, names, 1);
    lemma_holds(o, 2, names, 2);
    lemma_holds(o, 3, names, 0);
    assert(crate::fields::only_keys(o, names));
    assert(sections::strict(JsonView::Object(o), names) == Some(JsonView::Object(o)));
    assert(crate::fields::all_strs(seq![]) == Some(Seq::<Seq<char>>::empty()));
}

proof fn lemma_search()
    ensures
        <SearchConfig as Section>::of(JsonView::Object(search_table())) == Some(
            <SearchConfig as Section>::preset(),
        ),
{
    reveal_strlit("api_key");
    reveal_strlit("base_url");
    reveal_strlit("max_results");
    reveal_strlit("provider");
    assert("api_key"@.len() == 7);
    assert("base_url"@.len() == 8);
    assert("max_results"@.len() == 11);
    assert("provider"@.len() == 8);
    assert("base_url"@[0] != "provider"@[0]);
    let o = search_table();
    let names = seq!["provider"@, "api_key"@, "base_url"@, "max_results"@];
    assert(crate::json::distinct_keys(o));
    lemma_holds(o, 0, names, 1);
    lemma_holds(o, 1, names, 2);
    lemma_holds(o, 2, names, 3);
    lemma_holds(o, 3, names, 0);
    assert(crate::fields::only_keys(o, names));
    assert(sections::strict(JsonView::Object(o), names) == Some(JsonView::Object(o)));
}

proof fn lemma_worker()
    ensures
        <WorkerConfig as Section>::of(JsonView::Object(worker_table())) == Some(
            <WorkerConfig as Section>::preset(),
        ),
{
    reveal_strlit("max_output_tokens");
    reveal_strlit("model");
    assert("max_output_tokens"@.len() == 17);
    assert("model"@.len() == 5);
    let o = worker_table();
    let names = seq!["model"@, "max_output_tokens"@];
    assert(crate::json::distinct_keys(o));
    lemma_holds(o, 0, names, 1);
    lemma_holds(o, 1, names, 0);
    assert(crate::fields::only_keys(o, names));
    assert(sections::strict(JsonView::Object(o), names) == Some(JsonView::Object(o)));
}

proof fn lemma_reflector()
    ensures
        <ReflectorWorkerConfig as Section>::of(JsonView::Object(reflector_table())) == Some(
            <ReflectorWorkerConfig as Section>::preset(),
        ),
{
    reveal_strlit("max_output_tokens");
    reveal_strlit("model");
    assert("max_output_tokens"@.len() == 17);
    assert("model"@.len() == 5);
    let o = reflector_table();
    let names = seq!["model"@, "max_output_tokens"@];
    assert(crate::json::distinct_keys(o));
    lemma_holds(o, 0, names, 1);
    lemma_holds(o, 1, names, 0);
    assert(crate::fields::only_keys(o, names));
    assert(sections::strict(JsonView::Object(o), names) == Some(JsonView::Object(o)));
}

proof fn lemma_workers()
    ensures
        <WorkersConfig as Section>::of(JsonView::Object(workers_table())) == Some(
            <WorkersConfig as Section>::preset(),
        ),
{
    lemma_worker();
    lemma_reflector();
    reveal_strlit("distiller");
    reveal_strlit("reflector");
    reveal_strlit("summarizer");
    assert("distiller"@.len() == 9);
    assert("reflector"@.len() == 9);
    assert("summarizer"@.len() == 10);
    assert("distiller"@[0] != "reflector"@[0]);
    let o = workers_table();
    let names = seq!["summarizer"@, "distiller"@, "reflector"@];
    assert(crate::json::distinct_keys(o));
    lemma_holds(o, 0, names, 1);
    lemma_holds(o, 1, names, 2);
    lemma_holds(o, 2, names, 0);
    assert(crate::fields::only_keys(o, names));
    assert(sections::strict(JsonView::Object(o), names) == Some(JsonView::Object(o)));
}

/// The template's table, read and validated, is the default configuration.
proof fn lemma_template()
    ensures
        super::config_from(JsonView::Object(template_table())) == Ok::<ConfigView, ApiErrorView>(
            super::default_config(),
        ),
{
    lemma_agent();
    lemma_context();
    lemma_files();
    lemma_provider();
    lemma_reflect();
    lemma_sandbox();
    lemma_search();
    lemma_workers();
    reveal_strlit("agent");
    reveal_strlit("auth_token");
    reveal_strlit("context");
    reveal_strlit("files");
    reveal_strlit("port");
    reveal_strlit("provider");
    reveal_strlit("reflect");
    reveal_strlit("sandbox");
    reveal_strlit("search");
    reveal_strlit("workers");
    assert("agent"@.len() == 5);
    assert("auth_token"@.len() == 10);
    assert("context"@.len() == 7);
    assert("files"@.len() == 5);
    assert("port"@.len() == 4);
    assert("provider"@.len() == 8);
    assert("reflect"@.len() == 7);
    assert("sandbox"@.len() == 7);
    assert("search"@.len() == 6);
    assert("workers"@.len() == 7);
    assert("agent"@[0] != "files"@[0]);
    assert("context"@[0] != "reflect"@[0]);
    assert("context"@[0] != "sandbox"@[0]);
    assert("context"@[0] != "workers"@[0]);
    assert("reflect"@[0] != "sandbox"@[0]);
    assert("reflect"@[0] != "workers"@[0]);
    assert("sandbox"@[0] != "workers"@[0]);
    let o = template_table();
    let names = super::top_names();
    assert(crate::json::distinct_keys(o));
    lemma_holds(o, 0, names, 4);
    lemma_holds(o, 1, names, 1);
    lemma_holds(o, 2, names, 3);
    lemma_holds(o, 3, names, 9);
    lemma_holds(o, 4, names, 0);
    lemma_holds(o, 5, names, 2);
    lemma_holds(o, 6, names, 7);
    lemma_holds(o, 7, names, 8);
    lemma_holds(o, 8, names, 5);
    lemma_holds(o, 9, names, 6);
    assert(crate::fields::only_keys(o, names));
    assert(sections::strict(JsonView::Object(o), names) == Some(JsonView::Object(o)));
    let read = ConfigView {
        auth_token: Some(""@),
        provider: sections::ProviderView {
            reasoning_effort: Some(""@),
            ..<ProviderConfig as Section>::preset()
        },
        ..super::default_config()
    };
    assert(super::config_of(JsonView::Object(o)) == Some(read));
    lemma_tidied(read);
}

/// Validation makes the template the default configuration.
proof fn lemma_tidied(read: ConfigView)
    requires
        read == (ConfigView {
            auth_token: Some(""@),
            provider: sections::ProviderView {
                reasoning_effort: Some(""@),
                ..<ProviderConfig as Section>::preset()
            },
            ..super::default_config()
        }),
    ensures
        super::validated(read) == Ok::<ConfigView, ApiErrorView>(super::default_config()),
{
    let url = "https://openrouter.ai/api/v1"@;
    let model = "openai/gpt-4o-mini"@;
    reveal_strlit("");
    reveal_strlit("https://openrouter.ai/api/v1");
    reveal_strlit("openai/gpt-4o-mini");
    assert(url.len() == 28 && url[0] == 'h' && url[27] == '1');
    assert(model.len() == 18 && model[0] == 'o' && model[17] == 'i');
    crate::text::lemma_trim_solid(url);
    crate::text::lemma_trim_solid(model);
    crate::text::lemma_trim_solid(""@);
    reveal_strlit("off");
    reveal_strlit("brave");
    reveal_strlit("tavily");
    reveal_strlit("searxng");
    reveal_strlit("searx");
    assert("off"@.len() == 3 && "off"@[0] == 'o' && "off"@[2] == 'f');
    crate::text::lemma_trim_solid("off"@);
    assert("brave"@.len() == 5 && "tavily"@.len() == 6);
    assert("searxng"@.len() == 7 && "searx"@.len() == 5);
    assert(crate::text::ascii_lower("off"@).len() == 3);
    assert(sections::search_kind("off"@) == sections::SearchProviderKind::Off);
    super::lemma_default_time();
    reveal_strlit("21:00");
    assert("21:00"@.len() == 5 && "21:00"@[0] == '2' && "21:00"@[4] == '0');
    crate::text::lemma_trim_solid("21:00"@);
    assert(crate::llm::client::bare_url(url) == url);
    assert(crate::llm::client::bare_url(""@) == ""@);
    assert(super::tidied(read) =~= super::default_config());
}

/// A first run and the next one have the same configuration. Without a file, the
/// defaults are used and the template is written; the template is then read as
/// the defaults, given that the TOML parser finds in it the table that it spells
/// out.
pub proof fn first_run_is_read_back(path: Seq<char>, next: FileRead)
    requires
        next matches FileRead::Text(text) && text@ == DEFAULT_CONFIG_TOML@,
    ensures
        super::config_loaded(path, FileRead::Missing) == Ok::<(ConfigView, bool), ApiErrorView>(
            (super::default_config(), true),
        ),
        crate::json::toml_parsed(DEFAULT_CONFIG_TOML@) == crate::json::tree_ok(
            JsonView::Object(template_table()),
        ) ==> super::config_loaded(path, next) == Ok::<(ConfigView, bool), ApiErrorView>(
            (super::default_config(), false),
        ),
{
    lemma_template();
}

} // verus!
