//! What holds of every exchange with a provider: what is sent is what was asked,
//! and what arrives is what the provider said.

use vstd::prelude::*;

use crate::error::ApiErrorKind;
use crate::events::CoreEventView;
use crate::fields::FromJson;
use crate::json::{FieldView, JsonView};
use crate::llm::client::{
    arguments_of, choices_events, chunk_read, closing_events, completion_events, fallback_events,
    named_call_events, no_call, out_of_range, payload_events, status_kind,
    status_message, with_fragment, with_fragments, StreamView,
};
use crate::llm::sse::{
    after_chunk, after_line, chunk_payloads, data_value, end_payloads,
    line_payload, lossy, SseView,
};
use crate::llm::types::{ChatMessageView, ChatRequestView, Role, ToolCallView};
use crate::llm::wire::{
    call_json, error_detail, message_json, model_entries, request_json, usage_from, CompletionView,
    DeltaView, FragmentView, MessageCallView, WireCompletion, WireDelta, WireDeltaFunction,
    WireDeltaToolCall, WireModelView, WireUsage,
};

verus! {

/// The names of the fields of a request differ.
proof fn lemma_request_names()
    ensures
        "model"@.len() == 5,
        "messages"@.len() == 8,
        "stream"@.len() == 6,
        "stream_options"@.len() == 14,
        "reasoning_effort"@.len() == 16,
        "tools"@.len() == 5,
        "max_tokens"@.len() == 10,
        "model"@ != "tools"@,
{
    reveal_strlit("model");
    reveal_strlit("messages");
    reveal_strlit("stream");
    reveal_strlit("stream_options");
    reveal_strlit("reasoning_effort");
    reveal_strlit("tools");
    reveal_strlit("max_tokens");
    assert("model"@[0] != "tools"@[0]);
}

/// The body of a request says all that is asked: the model, every message in its
/// order, the tools, the effort and the cap where they are set, and that the
/// answer is to be streamed with its usage.
pub proof fn request_says_what_is_asked(r: ChatRequestView)
    ensures
        ({
            let j = request_json(r);
            &&& crate::fields::str_at(j, "model"@) == Some(r.model)
            &&& crate::fields::bool_at(j, "stream"@) == Some(true)
            &&& crate::fields::member(j, "stream_options"@) matches Some(o)
                && crate::fields::bool_at(o, "include_usage"@) == Some(true)
            &&& crate::fields::member(j, "messages"@) matches Some(JsonView::Array(a)) && a.len()
                == r.messages.len() && forall|i: int|
                0 <= i < a.len() ==> #[trigger] a[i] == message_json(r.messages[i])
            &&& match r.reasoning_effort {
                Some(e) => crate::fields::str_at(j, "reasoning_effort"@) == Some(e),
                None => crate::fields::member(j, "reasoning_effort"@) is None,
            }
            &&& if r.tools.len() > 0 {
                crate::fields::member(j, "tools"@) == Some(JsonView::Array(r.tools))
            } else {
                crate::fields::member(j, "tools"@) is None
            }
            &&& match r.max_tokens {
                Some(n) => crate::fields::u64_at(j, "max_tokens"@) == Some(n as u64),
                None => crate::fields::member(j, "max_tokens"@) is None,
            }
        }),
{
    lemma_request_names();
    let all = crate::llm::wire::request_fields(r);
    let a = if r.reasoning_effort is Some {
        1int
    } else {
        0int
    };
    let b = if r.tools.len() > 0 {
        1int
    } else {
        0int
    };
    crate::json::lemma_collect_has(all, 0);
    crate::json::lemma_collect_has(all, 1);
    crate::json::lemma_collect_has(all, 2);
    crate::json::lemma_collect_has(all, 3);
    crate::json::lemma_collect_has(
        seq![crate::json::entry("include_usage"@, JsonView::Bool(true))],
        0,
    );
    if r.reasoning_effort is Some {
        crate::json::lemma_collect_has(all, 4);
    } else {
        crate::json::lemma_collect_lacks(all, "reasoning_effort"@);
    }
    if r.tools.len() > 0 {
        crate::json::lemma_collect_has(all, 4 + a);
    } else {
        crate::json::lemma_collect_lacks(all, "tools"@);
    }
    if r.max_tokens is Some {
        crate::json::lemma_collect_has(all, 4 + a + b);
    } else {
        crate::json::lemma_collect_lacks(all, "max_tokens"@);
    }
}

/// The wire form of a message says its role and its content, the calls it makes
/// and the call it answers; only a message that just calls tools has no content.
pub proof fn message_says_what_is_said(m: ChatMessageView)
    ensures
        ({
            let j = message_json(m);
            &&& crate::fields::str_at(j, "role"@) == Some(match m.role {
                Role::System => "system"@,
                Role::User => "user"@,
                Role::Assistant => "assistant"@,
                Role::Tool => "tool"@,
            })
            &&& m.content.len() > 0 || m.tool_calls is None ==> crate::fields::str_at(
                j,
                "content"@,
            ) == Some(m.content)
            &&& m.content.len() == 0 && m.tool_calls is Some ==> crate::fields::member(
                j,
                "content"@,
            ) == Some(JsonView::Null)
            &&& match m.tool_calls {
                Some(calls) => crate::fields::member(j, "tool_calls"@) matches Some(
                    JsonView::Array(a),
                ) && a.len() == calls.len() && forall|i: int|
                    0 <= i < a.len() ==> #[trigger] a[i] == call_json(calls[i]),
                None => crate::fields::member(j, "tool_calls"@) is None,
            }
            &&& match m.tool_call_id {
                Some(id) => crate::fields::str_at(j, "tool_call_id"@) == Some(id),
                None => crate::fields::member(j, "tool_call_id"@) is None,
            }
        }),
{
    reveal_strlit("role");
    reveal_strlit("content");
    reveal_strlit("tool_calls");
    reveal_strlit("tool_call_id");
    assert("role"@.len() == 4 && "content"@.len() == 7);
    assert("tool_calls"@.len() == 10 && "tool_call_id"@.len() == 12);
    let all = crate::llm::wire::message_fields(m);
    let a = if m.tool_calls is Some {
        1int
    } else {
        0int
    };
    crate::json::lemma_collect_has(all, 0);
    crate::json::lemma_collect_has(all, 1);
    if m.tool_calls is Some {
        crate::json::lemma_collect_has(all, 2);
    } else {
        crate::json::lemma_collect_lacks(all, "tool_calls"@);
    }
    if m.tool_call_id is Some {
        crate::json::lemma_collect_has(all, 2 + a);
    } else {
        crate::json::lemma_collect_lacks(all, "tool_call_id"@);
    }
}

/// The wire form of a tool call says its id, its name and its arguments as text.
pub proof fn call_says_what_is_called(c: ToolCallView)
    ensures
        ({
            let j = call_json(c);
            &&& crate::fields::str_at(j, "id"@) == Some(c.id)
            &&& crate::fields::str_at(j, "type"@) == Some("function"@)
            &&& crate::fields::member(j, "function"@) matches Some(f) && crate::fields::str_at(
                f,
                "name"@,
            ) == Some(c.name) && crate::fields::str_at(f, "arguments"@) == Some(
                crate::json::tree_text(crate::json::settle(c.arguments)),
            )
        }),
{
    reveal_strlit("id");
    reveal_strlit("type");
    reveal_strlit("function");
    reveal_strlit("name");
    reveal_strlit("arguments");
    assert("id"@.len() == 2 && "type"@.len() == 4 && "function"@.len() == 8);
    assert("name"@.len() == 4 && "arguments"@.len() == 9);
    let inner = seq![
        crate::json::entry("name"@, JsonView::Str(c.name)),
        crate::json::entry(
            "arguments"@,
            JsonView::Str(crate::json::tree_text(crate::json::settle(c.arguments))),
        ),
    ];
    let outer = seq![
        crate::json::entry("id"@, JsonView::Str(c.id)),
        crate::json::entry("type"@, JsonView::Str("function"@)),
        crate::json::entry("function"@, crate::json::object(inner)),
    ];
    crate::json::lemma_collect_has(inner, 0);
    crate::json::lemma_collect_has(inner, 1);
    crate::json::lemma_collect_has(outer, 0);
    crate::json::lemma_collect_has(outer, 1);
    crate::json::lemma_collect_has(outer, 2);
}

/// A `data` line of a stream: its value follows the colon, without one space
/// behind it; a line of another kind has none.
pub proof fn data_lines_carry_values(v: Seq<u8>, line: Seq<u8>)
    ensures
        data_value(seq![100u8, 97u8, 116u8, 97u8, 58u8, 32u8] + v) == Some(v),
        v.len() == 0 || v[0] != 32u8 ==> data_value(seq![100u8, 97u8, 116u8, 97u8, 58u8] + v)
            == Some(v),
        line.len() > 0 && line[0] != 100u8 ==> data_value(line) is None,
{
    let a = seq![100u8, 97u8, 116u8, 97u8, 58u8, 32u8] + v;
    let b = seq![100u8, 97u8, 116u8, 97u8, 58u8] + v;
    let name = seq![100u8, 97u8, 116u8, 97u8];
    assert(a.take(4) =~= name);
    assert(b.take(4) =~= name);
    assert(a.skip(6) =~= v);
    assert(b.skip(5) =~= v);
    if v.len() > 0 {
        assert(b[5] == v[0]);
    }
    if line.len() > 4 {
        assert(line.take(4)[0] == line[0]);
    }
}

/// The lines of an event are collected until an empty line ends it: then its
/// values, one per line, are one payload. Lines of another kind change nothing.
pub proof fn empty_line_ends_an_event(data: Seq<Seq<char>>, line: Seq<u8>)
    ensures
        after_line(data, seq![]).len() == 0,
        data.len() == 0 ==> line_payload(data, seq![]).len() == 0,
        data.len() > 0 ==> line_payload(data, seq![]) == seq![crate::text::join(data, "\n"@)],
        line.len() > 0 ==> line_payload(data, line).len() == 0,
        line.len() > 0 ==> match data_value(line) {
            Some(v) => after_line(data, line) == data.push(lossy(v)),
            None => after_line(data, line) == data,
        },
{
}

/// Whether bytes hold no line feed.
pub open spec fn no_feed(bytes: Seq<u8>) -> bool {
    forall|i: int| 0 <= i < bytes.len() ==> #[trigger] bytes[i] != 10u8
}

/// The bytes of a line are collected until its line feed, with or without a
/// carriage return before it; then the line counts, and the next one begins.
pub proof fn line_is_collected(s: SseView, line: Seq<u8>, carriage: bool)
    requires
        s.started,
        s.pending.len() == 0,
        no_feed(line),
        line.len() > 0 ==> line.last() != 13u8,
    ensures
        ({
            let bytes = if carriage {
                line.push(13u8).push(10u8)
            } else {
                line.push(10u8)
            };
            &&& after_chunk(s, bytes) == (SseView { data: after_line(s.data, line), ..s })
            &&& chunk_payloads(s, bytes) == line_payload(s.data, line)
        }),
{
    lemma_pending(s, line);
    let whole = if carriage {
        line.push(13u8)
    } else {
        line
    };
    if carriage {
        assert(whole.drop_last() =~= line);
        assert(chunk_payloads(s, whole) =~= seq![]);
        assert(after_chunk(s, whole) =~= (SseView { pending: whole, ..s }));
    }
    let bytes = whole.push(10u8);
    assert(bytes.drop_last() =~= whole);
    assert(crate::llm::sse::bare_line(whole) =~= line);
    assert(after_chunk(s, bytes) =~= (SseView { data: after_line(s.data, line), ..s }));
    assert(chunk_payloads(s, bytes) =~= line_payload(s.data, line));
}

/// Bytes without a line feed wait for it.
proof fn lemma_pending(s: SseView, line: Seq<u8>)
    requires
        s.started,
        s.pending.len() == 0,
        no_feed(line),
    ensures
        after_chunk(s, line) == (SseView { pending: line, ..s }),
        chunk_payloads(s, line).len() == 0,
    decreases line.len(),
{
    if line.len() == 0 {
        assert(after_chunk(s, line) =~= (SseView { pending: line, ..s }));
    } else {
        let less = line.drop_last();
        assert forall|i: int| 0 <= i < less.len() implies #[trigger] less[i] != 10u8 by {
            assert(less[i] == line[i]);
        }
        lemma_pending(s, less);
        assert(line[line.len() - 1] != 10u8);
        assert(less.push(line.last()) =~= line);
        assert(after_chunk(s, line) =~= (SseView { pending: line, ..s }));
    }
}

/// The end of a stream releases what is complete but for its ending: a last line
/// without a line feed, and an event without its empty line.
pub proof fn end_releases_what_is_left(s: SseView, v: Seq<u8>)
    requires
        s.pending.len() == 0,
    ensures
        s.data.len() == 0 ==> end_payloads(s).len() == 0,
        s.data.len() > 0 ==> end_payloads(s) == seq![crate::text::join(s.data, "\n"@)],
        ({
            let t = SseView { pending: seq![100u8, 97u8, 116u8, 97u8, 58u8, 32u8] + v, ..s };
            end_payloads(t) == seq![crate::text::join(s.data.push(lossy(v)), "\n"@)]
        }),
{
    data_lines_carry_values(v, seq![]);
    let t = SseView { pending: seq![100u8, 97u8, 116u8, 97u8, 58u8, 32u8] + v, ..s };
    assert(end_payloads(t) =~= seq![crate::text::join(s.data.push(lossy(v)), "\n"@)]);
}

/// What a chunk says becomes events in its order: those of two lists of choices
/// are the one after the other, and a choice gives what it thinks, then what it
/// says, without empty texts.
pub proof fn choices_are_passed_on(a: Seq<DeltaView>, b: Seq<DeltaView>)
    ensures
        choices_events(a + b) == choices_events(a) + choices_events(b),
        a.len() == 0 ==> choices_events(a).len() == 0,
        a.len() == 1 ==> choices_events(a) == thinking_first(
            a[0].reasoning_content,
            a[0].reasoning,
            a[0].content,
        ),
    decreases b.len(),
{
    if b.len() == 0 {
        assert(a + b =~= a);
        assert(choices_events(a) + choices_events(b) =~= choices_events(a));
    } else {
        assert((a + b).drop_last() =~= a + b.drop_last());
        assert((a + b).last() == b.last());
        choices_are_passed_on(a, b.drop_last());
        assert(choices_events(a + b) =~= choices_events(a) + choices_events(b));
    }
    if a.len() == 1 {
        reveal_with_fuel(choices_events, 2);
        assert(a.drop_last() =~= seq![]);
        assert(choices_events(a) =~= thinking_first(
            a[0].reasoning_content,
            a[0].reasoning,
            a[0].content,
        ));
    }
}

/// Thinking, where there is any under its first name or else its second, then the
/// text, where there is any.
pub open spec fn thinking_first(
    first: Option<Seq<char>>,
    second: Option<Seq<char>>,
    text: Option<Seq<char>>,
) -> Seq<CoreEventView> {
    let thinking = match first {
        Some(t) => t,
        None => match second {
            Some(t) => t,
            None => Seq::empty(),
        },
    };
    let said = match text {
        Some(t) => t,
        None => Seq::empty(),
    };
    (if thinking.len() > 0 {
        seq![CoreEventView::Reasoning { text: thinking }]
    } else {
        seq![]
    }) + (if said.len() > 0 {
        seq![CoreEventView::Delta { text: said }]
    } else {
        seq![]
    })
}

/// The arguments that fragments bring for the call with an index: one piece after
/// the other.
pub open spec fn arguments_for(fs: Seq<FragmentView>, k: int) -> Seq<char>
    decreases fs.len(),
{
    if fs.len() == 0 {
        Seq::empty()
    } else {
        arguments_for(fs.drop_last(), k) + (if fs.last().index == k {
            match fs.last().function {
                Some(f) => match f.arguments {
                    Some(a) => a,
                    None => Seq::empty(),
                },
                None => Seq::empty(),
            }
        } else {
            Seq::empty()
        })
    }
}

/// The name that fragments bring for the call with an index.
pub open spec fn name_for(fs: Seq<FragmentView>, k: int) -> Seq<char>
    decreases fs.len(),
{
    if fs.len() == 0 {
        Seq::empty()
    } else {
        name_for(fs.drop_last(), k) + (if fs.last().index == k {
            match fs.last().function {
                Some(f) => match f.name {
                    Some(a) => a,
                    None => Seq::empty(),
                },
                None => Seq::empty(),
            }
        } else {
            Seq::empty()
        })
    }
}

/// The id that fragments bring for the call with an index: the last one.
pub open spec fn id_for(fs: Seq<FragmentView>, k: int) -> Seq<char>
    decreases fs.len(),
{
    if fs.len() == 0 {
        Seq::empty()
    } else if fs.last().index == k && fs.last().id is Some {
        fs.last().id->0
    } else {
        id_for(fs.drop_last(), k)
    }
}

/// A streamed tool call is put together from the fragments with its index, in the
/// order in which they came: the pieces of its name and of its arguments follow
/// each other, and the last id counts. Fragments of other calls do not touch it.
pub proof fn calls_are_put_together(fs: Seq<FragmentView>, k: int)
    requires
        0 <= k,
        forall|i: int| 0 <= i < fs.len() ==> !out_of_range((#[trigger] fs[i]).index),
    ensures
        ({
            let calls = with_fragments(seq![], fs);
            &&& k < calls.len() <==> exists|i: int|
                0 <= i < fs.len() && k <= (#[trigger] fs[i]).index
            &&& k < calls.len() ==> calls[k].arguments == arguments_for(fs, k) && calls[k].name
                == name_for(fs, k) && calls[k].id == id_for(fs, k)
            &&& k >= calls.len() ==> arguments_for(fs, k).len() == 0 && name_for(fs, k).len() == 0
                && id_for(fs, k).len() == 0
        }),
    decreases fs.len(),
{
    if fs.len() > 0 {
        let less = fs.drop_last();
        let f = fs.last();
        let n = f.index as int;
        assert forall|i: int| 0 <= i < less.len() implies !out_of_range(
            (#[trigger] less[i]).index,
        ) by {
            assert(less[i] == fs[i]);
        }
        assert(!out_of_range(fs[fs.len() - 1].index));
        calls_are_put_together(less, k);
        let before = with_fragments(seq![], less);
        let calls = with_fragments(seq![], fs);
        let all = crate::llm::client::filled(before, n + 1);
        assert(calls == with_fragment(before, f));
        assert(calls.len() == all.len());
        assert(k < before.len() ==> all[k] == before[k]);
        assert(before.len() <= k < all.len() ==> all[k] == no_call());
        if k < calls.len() {
            if k < before.len() {
                let i = choose|i: int| 0 <= i < less.len() && k <= (#[trigger] less[i]).index;
                assert(fs[i] == less[i]);
            } else {
                assert(fs[fs.len() - 1].index >= k);
            }
        }
        if exists|i: int| 0 <= i < fs.len() && k <= (#[trigger] fs[i]).index {
            let i = choose|i: int| 0 <= i < fs.len() && k <= (#[trigger] fs[i]).index;
            if i < less.len() {
                assert(less[i] == fs[i]);
            }
        }
        if k < calls.len() {
            let was = all[k];
            assert(was.arguments =~= arguments_for(less, k));
            assert(was.name =~= name_for(less, k));
            assert(was.id =~= id_for(less, k));
            assert(calls[k].arguments =~= arguments_for(fs, k));
            assert(calls[k].name =~= name_for(fs, k));
            assert(calls[k].id =~= id_for(fs, k));
        }
    } else {
        assert(with_fragments(seq![], fs) =~= seq![]);
    }
}

/// The calls that have a name become events in their order, with their arguments
/// read; those of two lists are the one after the other.
pub proof fn calls_become_events(a: Seq<MessageCallView>, b: Seq<MessageCallView>)
    ensures
        named_call_events(a + b) == named_call_events(a) + named_call_events(b),
        a.len() == 0 ==> named_call_events(a).len() == 0,
        a.len() == 1 ==> named_call_events(a) == (if a[0].name.len() == 0 {
            Seq::<CoreEventView>::empty()
        } else {
            seq![
                CoreEventView::ToolCall {
                    id: a[0].id,
                    name: a[0].name,
                    input: arguments_of(a[0].arguments),
                },
            ]
        }),
    decreases b.len(),
{
    if b.len() == 0 {
        assert(a + b =~= a);
        assert(named_call_events(a) + named_call_events(b) =~= named_call_events(a));
    } else {
        assert((a + b).drop_last() =~= a + b.drop_last());
        assert((a + b).last() == b.last());
        calls_become_events(a, b.drop_last());
        assert(named_call_events(a + b) =~= named_call_events(a) + named_call_events(b));
    }
    if a.len() == 1 {
        reveal_with_fuel(named_call_events, 2);
        assert(a.drop_last() =~= seq![]);
        assert(named_call_events(a) =~= (if a[0].name.len() == 0 {
            Seq::<CoreEventView>::empty()
        } else {
            seq![
                CoreEventView::ToolCall {
                    id: a[0].id,
                    name: a[0].name,
                    input: arguments_of(a[0].arguments),
                },
            ]
        }));
    }
}

/// Arguments are what their text stands for; what cannot be read is null.
pub proof fn arguments_are_read(text: Seq<char>)
    ensures
        crate::json::parsed(text) matches Ok(j) ==> arguments_of(text) == j,
        crate::json::parsed(text) is Err ==> arguments_of(text) is Null,
{
}

/// A payload brings what it says; `[DONE]` brings the tool calls and the end of
/// the turn with the usage that was reported; one that cannot be read brings
/// nothing, and nothing follows the end.
pub proof fn payload_brings_what_it_says(s: StreamView, p: Seq<char>)
    ensures
        s.done ==> payload_events(s, p).len() == 0 && crate::llm::client::after_payload(s, p) == s,
        !s.done && p == "[DONE]"@ ==> payload_events(s, p) == named_call_events(s.calls).push(
            CoreEventView::TurnDone { usage: s.usage },
        ) && crate::llm::client::after_payload(s, p).done,
        !s.done && p != "[DONE]"@ ==> match chunk_read(p) {
            Some(c) => payload_events(s, p) == choices_events(c.choices) && (c.usage matches Some(u)
                ==> crate::llm::client::after_payload(s, p).usage == Some(usage_from(u))) && (
            c.usage is None ==> crate::llm::client::after_payload(s, p).usage == s.usage)
                && !crate::llm::client::after_payload(s, p).done,
            None => payload_events(s, p).len() == 0 && crate::llm::client::after_payload(s, p) == s,
        },
        closing_events(s) == named_call_events(s.calls).push(
            CoreEventView::TurnDone { usage: s.usage },
        ),
{
}

/// A completion that is not streamed brings what its first choice thinks and says
/// and the tools it calls, in their order, then the end with the usage.
pub proof fn completion_brings_its_first_choice(c: CompletionView)
    ensures
        ({
            let es = completion_events(c);
            let usage = match c.usage {
                Some(u) => Some(usage_from(u)),
                None => None,
            };
            &&& es.len() > 0
            &&& es.last() == (CoreEventView::TurnDone { usage: usage })
            &&& c.choices.len() == 0 ==> es.len() == 1
            &&& c.choices.len() > 0 ==> ({
                let a = c.choices[0];
                let head = thinking_first(a.reasoning_content, a.reasoning, a.content);
                &&& es.len() == head.len() + a.tool_calls.len() + 1
                &&& es.take(head.len() as int) == head
                &&& forall|i: int|
                    0 <= i < a.tool_calls.len() ==> #[trigger] es[head.len() + i] == (
                    CoreEventView::ToolCall {
                        id: a.tool_calls[i].id,
                        name: a.tool_calls[i].name,
                        input: arguments_of(a.tool_calls[i].arguments),
                    })
            })
        }),
{
    let es = completion_events(c);
    if c.choices.len() > 0 {
        let a = c.choices[0];
        let head = thinking_first(a.reasoning_content, a.reasoning, a.content);
        assert(es.take(head.len() as int) =~= head);
    }
}

/// An answer that is no stream is read as a completion; one that is none is an
/// error of the protocol.
pub proof fn answer_is_read_as_a_completion(body: Seq<char>)
    ensures
        match crate::json::parsed(body) {
            Ok(j) => match <WireCompletion as FromJson>::of(j) {
                Some(c) => fallback_events(body) == completion_events(c),
                None => fallback_events(body).len() == 1 && (fallback_events(body)[0] matches
                    CoreEventView::Error { kind, .. } && kind == ApiErrorKind::Protocol),
            },
            Err(_) => fallback_events(body).len() == 1 && (fallback_events(body)[0] matches
                CoreEventView::Error { kind, .. } && kind == ApiErrorKind::Protocol),
        },
{
}

/// The text of a field that is there.
pub open spec fn text_at(o: Seq<FieldView>, key: Seq<char>) -> Option<Seq<char>> {
    match crate::json::get(o, key) {
        Some(JsonView::Str(t)) => Some(t),
        _ => None,
    }
}

/// What a chunk says is read from its own fields: the texts of a delta, the parts
/// of a call, and the counts of a report.
pub proof fn deltas_are_read_from_their_fields(o: Seq<FieldView>)
    ensures
        <WireDelta as FromJson>::of(JsonView::Object(o)) matches Some(d) ==> d.content == text_at(
            o,
            "content"@,
        ) && d.reasoning == text_at(o, "reasoning"@) && d.reasoning_content == text_at(
            o,
            "reasoning_content"@,
        ),
        <WireDeltaFunction as FromJson>::of(JsonView::Object(o)) matches Some(f) ==> f.name
            == text_at(o, "name"@) && f.arguments == text_at(o, "arguments"@),
        <WireDeltaToolCall as FromJson>::of(JsonView::Object(o)) matches Some(c) ==> c.id
            == text_at(o, "id"@) && (crate::json::get(o, "index"@) matches Some(JsonView::U64(n))
            ==> c.index == n) && (crate::json::get(o, "index"@) is None ==> c.index == 0),
        <WireUsage as FromJson>::of(JsonView::Object(o)) matches Some(u) ==> u.prompt_tokens
            == crate::fields::u64_at(JsonView::Object(o), "prompt_tokens"@) && u.completion_tokens
            == crate::fields::u64_at(JsonView::Object(o), "completion_tokens"@) && u.total_tokens
            == crate::fields::u64_at(JsonView::Object(o), "total_tokens"@),
{
}

/// A report is taken over; a total that is missing is the sum of both parts.
pub proof fn report_is_taken_over(u: WireUsage)
    ensures
        usage_from(u).input_tokens == u.prompt_tokens,
        usage_from(u).output_tokens == u.completion_tokens,
        u.total_tokens is Some ==> usage_from(u).total_tokens == u.total_tokens,
        u.total_tokens is None ==> (u.prompt_tokens matches Some(a) ==> (u.completion_tokens matches
            Some(b) ==> a + b <= u64::MAX ==> usage_from(u).total_tokens == Some((a + b) as u64))),
        u.total_tokens is None && (u.prompt_tokens is None || u.completion_tokens is None)
            ==> usage_from(u).total_tokens is None,
{
}

/// A failure status says what kind of failure it is, and the provider's own words
/// are passed on; without any, the start of its body is.
pub proof fn failure_status_is_told(status: u16, body: Seq<char>, detail: Seq<char>)
    ensures
        status_kind(401) == ApiErrorKind::Unauthorized,
        status_kind(403) == ApiErrorKind::Unauthorized,
        status_kind(404) == ApiErrorKind::NotFound,
        status_kind(429) == ApiErrorKind::RateLimited,
        status != 401 && status != 403 && status != 404 && status != 429 ==> status_kind(status)
            == ApiErrorKind::Provider,
        detail.len() > 0 ==> status_message(status, body, detail) == "provider returned HTTP "@
            + crate::text::decimal(status as nat) + ": "@ + detail,
        detail.len() == 0 && body.len() <= 300 ==> status_message(status, body, detail)
            == "provider returned HTTP "@ + crate::text::decimal(status as nat) + ": "@ + body,
{
}

/// The provider's own words stand under `error.message`.
pub proof fn own_words_are_found(o: Seq<FieldView>, e: Seq<FieldView>, words: Seq<char>)
    requires
        crate::json::get(o, "error"@) == Some(JsonView::Object(e)),
        crate::json::get(e, "message"@) == Some(JsonView::Str(words)),
    ensures
        error_detail(JsonView::Object(o)) == words,
{
}

/// Every model of a provider's list that has an id is listed, in its order: those
/// of two lists are the one after the other, and a model has its id, its effort
/// levels and its default.
pub proof fn every_model_is_listed(a: Seq<WireModelView>, b: Seq<WireModelView>)
    ensures
        model_entries(a + b) == model_entries(a) + model_entries(b),
        a.len() == 0 ==> model_entries(a).len() == 0,
        a.len() == 1 && a[0].id is None ==> model_entries(a).len() == 0,
        a.len() == 1 ==> (a[0].id matches Some(id) ==> model_entries(a).len() == 1 && model_entries(
            a,
        )[0].id == id && (a[0].reasoning is None ==> model_entries(
            a,
        )[0].reasoning_effort_levels.len() == 0 && model_entries(a)[0].default_reasoning_effort
            is None) && (a[0].reasoning matches Some(r) ==> model_entries(
            a,
        )[0].reasoning_effort_levels == crate::llm::wire::level_values(r.effort_levels))),
    decreases b.len(),
{
    if b.len() == 0 {
        assert(a + b =~= a);
        assert(model_entries(a) + model_entries(b) =~= model_entries(a));
    } else {
        assert((a + b).drop_last() =~= a + b.drop_last());
        assert((a + b).last() == b.last());
        every_model_is_listed(a, b.drop_last());
        assert(model_entries(a + b) =~= model_entries(a) + model_entries(b));
    }
    if a.len() == 1 {
        reveal_with_fuel(model_entries, 2);
        assert(a.drop_last() =~= seq![]);
    }
}

} // verus!
