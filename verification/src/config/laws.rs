//! What holds of every configuration: what the owner set is what is used, what is
//! missing or blank has its default, and what cannot be used is refused.

use vstd::prelude::*;

use crate::config::sections::{hhmm, search_kind, trimmed_some};
use crate::config::{
    config_loaded, config_of, default_config, tidied, tidy_search, tidy_time, validated, ConfigView,
};
use crate::conversations::FileRead;
use crate::json::{FieldView, JsonView};
use crate::text::{digits_value, find_from, is_space, occurs_at, trim};
use crate::time::two;

verus! {

/// Every number that was set is used, and so is everything that validation has
/// nothing to say about.
pub proof fn set_values_are_used(c: ConfigView)
    ensures
        ({
            let t = tidied(c);
            &&& t.port == c.port
            &&& t.context == c.context
            &&& t.provider.api_key == c.provider.api_key
            &&& c.agent.max_steps > 0 ==> t.agent.max_steps == c.agent.max_steps
            &&& c.search.max_results > 0 ==> t.search.max_results == c.search.max_results
            &&& c.workers.summarizer.max_output_tokens > 0 ==> t.workers.summarizer.max_output_tokens
                == c.workers.summarizer.max_output_tokens
            &&& c.workers.distiller.max_output_tokens > 0 ==> t.workers.distiller.max_output_tokens
                == c.workers.distiller.max_output_tokens
            &&& c.workers.reflector.max_output_tokens > 0 ==> t.workers.reflector.max_output_tokens
                == c.workers.reflector.max_output_tokens
            &&& c.sandbox.timeout_secs > 0 ==> t.sandbox.timeout_secs == c.sandbox.timeout_secs
            &&& c.sandbox.memory_mb > 0 ==> t.sandbox.memory_mb == c.sandbox.memory_mb
            &&& t.sandbox.read_paths == c.sandbox.read_paths
            &&& t.sandbox.workspace == c.sandbox.workspace
            &&& c.files.max_upload_mb > 0 ==> t.files.max_upload_mb == c.files.max_upload_mb
            &&& t.reflect.enabled == c.reflect.enabled
            &&& t.reflect.persona_edits == c.reflect.persona_edits
        }),
{
}

/// A number that was left at 0 has the default of a configuration that says
/// nothing.
pub proof fn missing_values_have_their_defaults(c: ConfigView)
    ensures
        ({
            let t = tidied(c);
            let d = default_config();
            &&& c.agent.max_steps == 0 ==> t.agent.max_steps == d.agent.max_steps
            &&& c.search.max_results == 0 ==> t.search.max_results == d.search.max_results
            &&& c.workers.summarizer.max_output_tokens == 0
                ==> t.workers.summarizer.max_output_tokens
                == d.workers.summarizer.max_output_tokens
            &&& c.workers.distiller.max_output_tokens == 0
                ==> t.workers.distiller.max_output_tokens == d.workers.distiller.max_output_tokens
            &&& c.workers.reflector.max_output_tokens == 0
                ==> t.workers.reflector.max_output_tokens == d.workers.reflector.max_output_tokens
            &&& c.sandbox.timeout_secs == 0 ==> t.sandbox.timeout_secs == d.sandbox.timeout_secs
            &&& c.sandbox.memory_mb == 0 ==> t.sandbox.memory_mb == d.sandbox.memory_mb
            &&& c.files.max_upload_mb == 0 ==> t.files.max_upload_mb == d.files.max_upload_mb
        }),
{
}

/// Whether a text neither begins nor ends with white space.
pub open spec fn clean(s: Seq<char>) -> bool {
    s.len() > 0 ==> !is_space(s[0]) && !is_space(s.last())
}

/// A text that is clean already is used as it was written.
pub proof fn clean_values_are_used(c: ConfigView)
    ensures
        ({
            let t = tidied(c);
            &&& clean(c.provider.model) ==> t.provider.model == c.provider.model
            &&& clean(c.search.api_key) ==> t.search.api_key == c.search.api_key
            &&& clean(c.workers.summarizer.model) ==> t.workers.summarizer.model
                == c.workers.summarizer.model
            &&& clean(c.workers.distiller.model) ==> t.workers.distiller.model
                == c.workers.distiller.model
            &&& clean(c.workers.reflector.model) ==> t.workers.reflector.model
                == c.workers.reflector.model
            &&& clean(c.provider.base_url) && c.provider.base_url.len() > 0
                && c.provider.base_url.last() != '/' ==> t.provider.base_url == c.provider.base_url
            &&& clean(c.search.base_url) && c.search.base_url.len() > 0
                && c.search.base_url.last() != '/' ==> t.search.base_url == c.search.base_url
            &&& match c.auth_token {
                Some(k) => clean(k) && k.len() > 0 ==> t.auth_token == Some(k),
                None => t.auth_token is None,
            }
            &&& match c.provider.reasoning_effort {
                Some(e) => clean(e) && e.len() > 0 ==> t.provider.reasoning_effort == Some(e),
                None => t.provider.reasoning_effort is None,
            }
        }),
{
    lemma_clean(c.provider.model);
    lemma_clean(c.search.api_key);
    lemma_clean(c.workers.summarizer.model);
    lemma_clean(c.workers.distiller.model);
    lemma_clean(c.workers.reflector.model);
    lemma_clean(c.provider.base_url);
    lemma_clean(c.search.base_url);
    if let Some(k) = c.auth_token {
        lemma_clean(k);
    }
    if let Some(e) = c.provider.reasoning_effort {
        lemma_clean(e);
    }
}

/// A clean text is not trimmed.
proof fn lemma_clean(s: Seq<char>)
    ensures
        clean(s) ==> trim(s) == s,
{
    if clean(s) {
        crate::text::lemma_trim_solid(s);
    }
}

/// A text with something in it is not blank.
proof fn lemma_not_blank(s: Seq<char>, k: int)
    requires
        0 <= k < s.len(),
        !is_space(s[k]),
    ensures
        trim(s).contains(s[k]),
{
    crate::text_laws::only_white_space_is_trimmed(s);
    let t = trim(s);
    let i = choose|i: int| #[trigger] crate::text_laws::stands_alone(s, t, i);
    assert(crate::text_laws::stands_alone(s, t, i));
    if k < i {
        assert(s.take(i)[k] == s[k]);
    } else if k >= i + t.len() {
        assert(s.skip(i + t.len())[k - i - t.len()] == s[k]);
    } else {
        assert(s.subrange(i, i + t.len())[k - i] == s[k]);
        assert(t[k - i] == s[k]);
    }
}

/// A text of white space is blank.
proof fn lemma_blank(s: Seq<char>)
    requires
        forall|k: int| 0 <= k < s.len() ==> is_space(#[trigger] s[k]),
    ensures
        trim(s).len() == 0,
{
    crate::text_laws::only_white_space_is_trimmed(s);
    let t = trim(s);
    let i = choose|i: int| #[trigger] crate::text_laws::stands_alone(s, t, i);
    if t.len() > 0 {
        assert(s.subrange(i, i + t.len())[0] == s[i]);
        assert(is_space(s[i]));
    }
}

/// A provider that has an address and a model is accepted.
pub proof fn named_provider_is_accepted(c: ConfigView, i: int, k: int)
    requires
        0 <= i < c.provider.model.len(),
        !is_space(c.provider.model[i]),
        0 <= k < c.provider.base_url.len(),
        !is_space(c.provider.base_url[k]),
        c.provider.base_url[k] != '/',
    ensures
        validated(c) == Ok::<ConfigView, crate::error::ApiErrorView>(tidied(c)),
{
    lemma_not_blank(c.provider.model, i);
    lemma_not_blank(c.provider.base_url, k);
    let url = trim(c.provider.base_url);
    let n = choose|n: int| 0 <= n < url.len() && url[n] == c.provider.base_url[k];
    lemma_keeps(url, n);
}

/// What is no slash stays.
proof fn lemma_keeps(s: Seq<char>, n: int)
    requires
        0 <= n < s.len(),
        s[n] != '/',
    ensures
        crate::text::trim_end_char(s, '/').len() > 0,
    decreases s.len(),
{
    if s.last() == '/' {
        lemma_keeps(s.drop_last(), n);
    } else {
        assert(!seq!['/'].contains(s.last())) by {
            if seq!['/'].contains(s.last()) {
                let q = choose|q: int| 0 <= q < seq!['/'].len() && seq!['/'][q] == s.last();
            }
        }
    }
}

/// A provider without a model, or without an address, is refused.
pub proof fn nameless_provider_is_refused(c: ConfigView)
    ensures
        (forall|k: int|
            0 <= k < c.provider.model.len() ==> is_space(#[trigger] c.provider.model[k]))
            ==> validated(c) is Err,
        (forall|k: int|
            0 <= k < c.provider.base_url.len() ==> is_space(#[trigger] c.provider.base_url[k]))
            ==> validated(c) is Err,
{
    if forall|k: int|
        0 <= k < c.provider.model.len() ==> is_space(#[trigger] c.provider.model[k]) {
        lemma_blank(c.provider.model);
    }
    if forall|k: int|
        0 <= k < c.provider.base_url.len() ==> is_space(#[trigger] c.provider.base_url[k]) {
        lemma_blank(c.provider.base_url);
    }
}

/// A blank token or effort counts as none.
pub proof fn blank_value_is_none(s: Seq<char>)
    ensures
        (forall|k: int| 0 <= k < s.len() ==> is_space(#[trigger] s[k])) <==> trimmed_some(
            Some(s),
        ) is None,
{
    if forall|k: int| 0 <= k < s.len() ==> is_space(#[trigger] s[k]) {
        lemma_blank(s);
    } else {
        let k = choose|k: int| 0 <= k < s.len() && !is_space(#[trigger] s[k]);
        lemma_not_blank(s, k);
    }
}

/// A time of the day reads as its minutes: every hour and every minute, written
/// with two digits each.
pub proof fn time_of_day_is_read(h: int, m: int)
    requires
        0 <= h <= 23,
        0 <= m <= 59,
    ensures
        hhmm(two(h) + ":"@ + two(m)) == Some((h * 60 + m) as u32),
{
    reveal_strlit(":");
    crate::text_laws::lemma_two(h);
    crate::text_laws::lemma_two(m);
    let v = two(h) + ":"@ + two(m);
    lemma_digits_solid(two(h));
    lemma_digits_solid(two(m));
    assert(v[0] == two(h)[0] && v.last() == two(m).last());
    crate::text::lemma_trim_solid(v);
    crate::text::lemma_find_from(v, ":"@, 0);
    assert(v.subrange(2, 3) =~= ":"@);
    assert(occurs_at(v, ":"@, 2));
    assert(find_from(v, ":"@, 0) == Some(2int)) by {
        let p = find_from(v, ":"@, 0)->Some_0;
        if p < 2 {
            assert(v.subrange(p, p + 1)[0] == two(h)[p]);
            assert(crate::text::is_digit(two(h)[p]));
        }
    }
    assert(v.take(2) =~= two(h));
    assert(v.skip(3) =~= two(m));
}

/// Digits are not trimmed and have no sign.
proof fn lemma_digits_solid(s: Seq<char>)
    requires
        s.len() > 0,
        crate::text::all_digits(s),
    ensures
        trim(s) == s,
        !is_space(s[0]),
        !is_space(s.last()),
        crate::text::unsigned_digits(s) == s,
        digits_value(s) <= u32::MAX ==> crate::text::u32_value(s) == Some(digits_value(s) as u32),
{
    assert(crate::text::is_digit(s[0]));
    assert(crate::text::is_digit(s[s.len() - 1]));
    crate::text::lemma_trim_solid(s);
}

/// A daily run takes place at the time that was set; at nine in the evening where
/// that is no time.
pub proof fn daily_run_is_at_the_set_time(time: Seq<char>)
    ensures
        hhmm(time) is Some ==> hhmm(tidy_time(time)) == hhmm(time),
        hhmm(time) is None ==> hhmm(tidy_time(time)) == Some(1260u32),
{
    crate::memory::laws::lemma_trim_ends(time);
    crate::text::lemma_trim_solid(trim(time));
    crate::config::lemma_default_time();
}

/// Tidying up never changes which search service is used.
pub proof fn search_service_stays(provider: Seq<char>)
    ensures
        search_kind(tidy_search(provider)) == search_kind(provider),
{
    reveal_strlit("off");
    reveal_strlit("brave");
    reveal_strlit("tavily");
    reveal_strlit("searxng");
    reveal_strlit("searx");
    let t = trim(provider);
    let name = crate::text::ascii_lower(t);
    crate::memory::laws::lemma_trim_ends(provider);
    let off = "off"@;
    crate::text::lemma_trim_solid(off);
    assert(crate::text::ascii_lower(off).len() == 3);
    if t.len() > 0 {
        crate::text_laws::only_capitals_are_lowered(t, 0);
        crate::text_laws::only_capitals_are_lowered(t, t.len() - 1);
        crate::text::lemma_trim_solid(name);
    } else {
        crate::text::lemma_trim_solid(name);
        assert(crate::text::ascii_lower(name) =~= name);
    }
}

/// Only a missing file means the defaults: one that cannot be read, and one that
/// cannot be used, is an error, and the template is written for none of them.
pub proof fn only_a_missing_file_means_the_defaults(path: Seq<char>, read: FileRead)
    ensures
        read is Missing ==> config_loaded(path, read) == Ok::<
            (ConfigView, bool),
            crate::error::ApiErrorView,
        >((default_config(), true)),
        read is Failed ==> config_loaded(path, read) is Err,
        match config_loaded(path, read) {
            Ok((c, template)) => template == (read is Missing),
            Err(_) => !(read is Missing),
        },
{
}

/// What a file says under a key of a section.
pub open spec fn told(o: Seq<FieldView>, section: Seq<char>, key: Seq<char>) -> Option<JsonView> {
    match crate::json::get(o, section) {
        Some(JsonView::Object(s)) => crate::json::get(s, key),
        _ => None,
    }
}

/// What a file says under a key of a worker's section.
pub open spec fn told_worker(o: Seq<FieldView>, worker: Seq<char>, key: Seq<char>) -> Option<
    JsonView,
> {
    match crate::json::get(o, "workers"@) {
        Some(JsonView::Object(s)) => told(s, worker, key),
        _ => None,
    }
}

/// What a file says is what is configured: every value under the name that it
/// stands under.
pub proof fn file_says_what_is_configured(o: Seq<FieldView>, c: ConfigView)
    requires
        config_of(JsonView::Object(o)) == Some(c),
    ensures
        match crate::json::get(o, "port"@) {
            Some(JsonView::U64(x)) => c.port == x,
            _ => true,
        },
        match crate::json::get(o, "auth_token"@) {
            Some(JsonView::Str(x)) => c.auth_token == Some(x),
            None => c.auth_token is None,
            _ => true,
        },
        match told(o, "provider"@, "base_url"@) {
            Some(JsonView::Str(x)) => c.provider.base_url == x,
            _ => true,
        },
        match told(o, "provider"@, "api_key"@) {
            Some(JsonView::Str(x)) => c.provider.api_key == x,
            _ => true,
        },
        match told(o, "provider"@, "model"@) {
            Some(JsonView::Str(x)) => c.provider.model == x,
            _ => true,
        },
        match told(o, "provider"@, "reasoning_effort"@) {
            Some(JsonView::Str(x)) => c.provider.reasoning_effort == Some(x),
            _ => true,
        },
        match told(o, "context"@, "max_prompt_tokens"@) {
            Some(JsonView::U64(x)) => c.context.max_prompt_tokens == x,
            _ => true,
        },
        match told(o, "agent"@, "max_steps"@) {
            Some(JsonView::U64(x)) => c.agent.max_steps == x,
            _ => true,
        },
        match told(o, "search"@, "provider"@) {
            Some(JsonView::Str(x)) => c.search.provider == x,
            _ => true,
        },
        match told(o, "search"@, "api_key"@) {
            Some(JsonView::Str(x)) => c.search.api_key == x,
            _ => true,
        },
        match told(o, "search"@, "base_url"@) {
            Some(JsonView::Str(x)) => c.search.base_url == x,
            _ => true,
        },
        match told(o, "search"@, "max_results"@) {
            Some(JsonView::U64(x)) => c.search.max_results == x,
            _ => true,
        },
        match told(o, "reflect"@, "enabled"@) {
            Some(JsonView::Bool(x)) => c.reflect.enabled == x,
            _ => true,
        },
        match told(o, "reflect"@, "time"@) {
            Some(JsonView::Str(x)) => c.reflect.time == x,
            _ => true,
        },
        match told(o, "reflect"@, "persona_edits"@) {
            Some(JsonView::Bool(x)) => c.reflect.persona_edits == x,
            _ => true,
        },
        match told(o, "sandbox"@, "workspace"@) {
            Some(JsonView::Str(x)) => c.sandbox.workspace == x,
            _ => true,
        },
        match told(o, "sandbox"@, "timeout_secs"@) {
            Some(JsonView::U64(x)) => c.sandbox.timeout_secs == x,
            _ => true,
        },
        match told(o, "sandbox"@, "memory_mb"@) {
            Some(JsonView::U64(x)) => c.sandbox.memory_mb == x,
            _ => true,
        },
        match told(o, "files"@, "max_upload_mb"@) {
            Some(JsonView::U64(x)) => c.files.max_upload_mb == x,
            _ => true,
        },
{
}

/// What a file says of a worker is what is configured for it.
pub proof fn file_says_how_workers_are_configured(o: Seq<FieldView>, c: ConfigView)
    requires
        config_of(JsonView::Object(o)) == Some(c),
    ensures
        match told_worker(o, "summarizer"@, "model"@) {
            Some(JsonView::Str(x)) => c.workers.summarizer.model == x,
            _ => true,
        },
        match told_worker(o, "summarizer"@, "max_output_tokens"@) {
            Some(JsonView::U64(x)) => c.workers.summarizer.max_output_tokens == x,
            _ => true,
        },
        match told_worker(o, "distiller"@, "model"@) {
            Some(JsonView::Str(x)) => c.workers.distiller.model == x,
            _ => true,
        },
        match told_worker(o, "distiller"@, "max_output_tokens"@) {
            Some(JsonView::U64(x)) => c.workers.distiller.max_output_tokens == x,
            _ => true,
        },
        match told_worker(o, "reflector"@, "model"@) {
            Some(JsonView::Str(x)) => c.workers.reflector.model == x,
            _ => true,
        },
        match told_worker(o, "reflector"@, "max_output_tokens"@) {
            Some(JsonView::U64(x)) => c.workers.reflector.max_output_tokens == x,
            _ => true,
        },
{
}

/// A file that says nothing gives the defaults.
pub proof fn empty_file_gives_the_defaults()
    ensures
        config_of(JsonView::Object(seq![])) == Some(default_config()),
{
}

/// A key that nobody knows is an error, not a setting that is passed over.
pub proof fn unknown_key_is_refused(o: Seq<FieldView>, i: int)
    requires
        0 <= i < o.len(),
        !crate::config::top_names().contains(o[i].key),
    ensures
        config_of(JsonView::Object(o)) is None,
{
}

} // verus!
