//! The provider protocol as seen by the rest of the library: a provider's
//! answer, streamed or not, becomes events. Tolerant on purpose: payloads that
//! cannot be read are skipped, the `[DONE]` sentinel and a plain end of the
//! stream both complete the turn, and an answer that is not a stream is read as
//! a full completion.

use vstd::prelude::*;

use crate::error::{ApiError, ApiErrorKind, ApiErrorView};
use crate::events::{CoreEvent, CoreEventView, Usage};
use crate::fields::FromJson;
use crate::json::{Json, JsonView};
use crate::llm::sse::SseParser;
use crate::llm::types::{ModelInfo, ModelInfoView};
use crate::llm::wire::{
    read_error_detail, read_models, reasoning_text, AnswerView, ChunkView, CompletionView,
    DeltaView, FragmentView, MessageCallView, WireChunk, WireCompletion, WireDeltaToolCall,
};
use crate::text::{char_count, clip, contains, decimal_of, lower, same, trimmed, trimmed_end_char};

verus! {

/// How much of a provider's error body stands in a message.
pub const ERROR_BODY_CHARS: usize = 300;

/// Where a provider is reached, and with which key.
pub struct HttpClient {
    base_url: String,
    api_key: String,
}

/// A base URL without white space around it and without slashes at its end.
pub open spec fn bare_url(url: Seq<char>) -> Seq<char> {
    crate::text::trim_end_char(crate::text::trim(url), '/')
}

/// `url` without white space around it and without slashes at its end.
pub fn to_bare_url(url: &str) -> (r: String)
    ensures
        r@ == bare_url(url@),
{
    trimmed_end_char(trimmed(url).as_str(), '/')
}

impl HttpClient {
    /// The base URL that paths are appended to.
    pub closed spec fn base(&self) -> Seq<char> {
        self.base_url@
    }

    /// The key.
    pub closed spec fn key(&self) -> Seq<char> {
        self.api_key@
    }

    /// A client for a base URL, which must not be blank.
    pub fn new(base_url: &str, api_key: &str) -> (r: Result<HttpClient, ApiError>)
        ensures
            r is Err <==> crate::text::trim(base_url@).len() == 0,
            r matches Err(e) ==> e@ == crate::error::failure(
                ApiErrorKind::Config,
                "provider base_url must not be empty"@,
            ),
            r matches Ok(c) ==> c.base() == bare_url(base_url@) && c.key() == api_key@,
    {
        if crate::text::blank(base_url) {
            return Err(ApiError::config("provider base_url must not be empty"));
        }
        Ok(HttpClient { base_url: to_bare_url(base_url), api_key: api_key.to_owned() })
    }

    /// The URL of a path.
    pub fn endpoint(&self, path: &str) -> (r: String)
        ensures
            r@ == self.base() + path@,
    {
        let mut out = self.base_url.clone();
        out.append(path);
        out
    }

    /// The key to send; an empty one is not sent.
    pub fn bearer(&self) -> (r: Option<String>)
        ensures
            r is None <==> self.key().len() == 0,
            r matches Some(k) ==> k@ == self.key(),
    {
        if char_count(self.api_key.as_str()) == 0 {
            None
        } else {
            Some(self.api_key.clone())
        }
    }

    /// The failure of a request that got no answer.
    pub fn unreachable_error(url: &str, cause: &str) -> (r: ApiError)
        ensures
            r@ == crate::error::failure(
                ApiErrorKind::Network,
                "cannot reach provider "@ + url@ + ": "@ + cause@,
            ),
    {
        let mut out = "cannot reach provider ".to_owned();
        out.append(url);
        out.append(": ");
        out.append(cause);
        ApiError::new(ApiErrorKind::Network, out.as_str())
    }
}

/// Whether a content type announces a stream of events.
pub fn is_event_stream(content_type: &Option<String>) -> (r: bool)
    ensures
        r == (content_type matches Some(t) && crate::text::has(
            crate::text::ascii_lower(t@),
            "text/event-stream"@,
        )),
{
    match content_type {
        Some(t) => contains(lower(t.as_str()).as_str(), "text/event-stream"),
        None => false,
    }
}

/// A tool call that is still being streamed.
#[derive(Debug)]
pub struct PartialToolCall {
    pub id: String,
    pub name: String,
    pub arguments: String,
}

impl View for PartialToolCall {
    type V = MessageCallView;

    open spec fn view(&self) -> MessageCallView {
        MessageCallView { id: self.id@, name: self.name@, arguments: self.arguments@ }
    }
}

/// A tool call of which nothing has arrived.
pub open spec fn no_call() -> MessageCallView {
    MessageCallView { id: seq![], name: seq![], arguments: seq![] }
}

/// `calls` filled up to `n` calls.
pub open spec fn filled(calls: Seq<MessageCallView>, n: int) -> Seq<MessageCallView> {
    if n <= calls.len() {
        calls
    } else {
        calls + Seq::new((n - calls.len()) as nat, |i: int| no_call())
    }
}

/// A call with a fragment added: the id replaces, name and arguments append.
pub open spec fn call_with(c: MessageCallView, f: FragmentView) -> MessageCallView {
    MessageCallView {
        id: match f.id {
            Some(id) => id,
            None => c.id,
        },
        name: match f.function {
            Some(p) => match p.name {
                Some(name) => c.name + name,
                None => c.name,
            },
            None => c.name,
        },
        arguments: match f.function {
            Some(p) => match p.arguments {
                Some(arguments) => c.arguments + arguments,
                None => c.arguments,
            },
            None => c.arguments,
        },
    }
}

/// Whether an index is out of range: no list can be long enough to have it.
pub open spec fn out_of_range(index: usize) -> bool {
    index >= isize::MAX
}

/// The calls after one fragment. One with an index that is out of range is
/// dropped.
pub open spec fn with_fragment(calls: Seq<MessageCallView>, f: FragmentView) -> Seq<MessageCallView> {
    if out_of_range(f.index) {
        calls
    } else {
        let all = filled(calls, f.index + 1);
        all.update(f.index as int, call_with(all[f.index as int], f))
    }
}

/// The calls after a list of fragments.
pub open spec fn with_fragments(calls: Seq<MessageCallView>, fs: Seq<FragmentView>) -> Seq<
    MessageCallView,
>
    decreases fs.len(),
{
    if fs.len() == 0 {
        calls
    } else {
        with_fragment(with_fragments(calls, fs.drop_last()), fs.last())
    }
}

/// The arguments that a text stands for; `null` where it cannot be read.
pub open spec fn arguments_of(text: Seq<char>) -> JsonView {
    match crate::json::parsed(text) {
        Ok(j) => j,
        Err(_) => JsonView::Null,
    }
}

/// The event of a complete call.
pub open spec fn call_event(c: MessageCallView) -> CoreEventView {
    CoreEventView::ToolCall { id: c.id, name: c.name, input: arguments_of(c.arguments) }
}

/// The events of the calls that have a name.
pub open spec fn named_call_events(calls: Seq<MessageCallView>) -> Seq<CoreEventView>
    decreases calls.len(),
{
    if calls.len() == 0 {
        seq![]
    } else if calls.last().name.len() == 0 {
        named_call_events(calls.drop_last())
    } else {
        named_call_events(calls.drop_last()).push(call_event(calls.last()))
    }
}

/// The events of all calls.
pub open spec fn all_call_events(calls: Seq<MessageCallView>) -> Seq<CoreEventView> {
    calls.map_values(|c: MessageCallView| call_event(c))
}

/// Reads the arguments of a call.
fn read_arguments(text: &str) -> (r: Json)
    ensures
        r@ == arguments_of(text@),
{
    match Json::parse(text) {
        Ok(j) => j,
        Err(_) => Json::Null,
    }
}

/// A tool call at its place among the calls of an answer.
#[derive(Debug)]
struct Slot {
    index: usize,
    call: PartialToolCall,
}

/// How many calls there are up to the last one of which something arrived.
spec fn span(slots: Seq<Slot>) -> int
    decreases slots.len(),
{
    if slots.len() == 0 {
        0
    } else if span(slots.drop_last()) > slots.last().index {
        span(slots.drop_last())
    } else {
        slots.last().index + 1
    }
}

/// What arrived of the call at `i`.
spec fn held(slots: Seq<Slot>, i: int) -> MessageCallView
    decreases slots.len(),
{
    if slots.len() == 0 {
        no_call()
    } else if slots.last().index == i {
        slots.last().call@
    } else {
        held(slots.drop_last(), i)
    }
}

/// The calls, one after the other.
spec fn spread(slots: Seq<Slot>) -> Seq<MessageCallView> {
    Seq::new(span(slots) as nat, |i: int| held(slots, i))
}

/// Whether no two slots have the same index.
spec fn separate(slots: Seq<Slot>) -> bool {
    forall|i: int, k: int|
        0 <= i < k < slots.len() ==> (#[trigger] slots[i]).index != (#[trigger] slots[k]).index
}

/// Every slot lies within the span, which ends with one.
proof fn lemma_span(slots: Seq<Slot>)
    ensures
        0 <= span(slots),
        forall|k: int| 0 <= k < slots.len() ==> (#[trigger] slots[k]).index < span(slots),
        span(slots) > 0 ==> exists|k: int|
            0 <= k < slots.len() && (#[trigger] slots[k]).index == span(slots) - 1,
    decreases slots.len(),
{
    if slots.len() > 0 {
        let less = slots.drop_last();
        lemma_span(less);
        assert forall|k: int| 0 <= k < slots.len() implies (#[trigger] slots[k]).index < span(
            slots,
        ) by {
            if k < less.len() {
                assert(less[k] == slots[k]);
            }
        }
        if span(less) > slots.last().index {
            let k = choose|k: int|
                0 <= k < less.len() && (#[trigger] less[k]).index == span(less) - 1;
            assert(slots[k].index == span(slots) - 1);
        } else {
            assert(slots[slots.len() - 1].index == span(slots) - 1);
        }
    }
}

/// What a slot holds.
proof fn lemma_held(slots: Seq<Slot>, i: int)
    requires
        separate(slots),
    ensures
        forall|k: int|
            0 <= k < slots.len() && (#[trigger] slots[k]).index == i ==> held(slots, i)
                == slots[k].call@,
        (forall|k: int| 0 <= k < slots.len() ==> (#[trigger] slots[k]).index != i) ==> held(
            slots,
            i,
        ) == no_call(),
    decreases slots.len(),
{
    if slots.len() > 0 {
        let less = slots.drop_last();
        assert forall|a: int, b: int| 0 <= a < b < less.len() implies (#[trigger] less[a]).index
            != (#[trigger] less[b]).index by {
            assert(less[a] == slots[a] && less[b] == slots[b]);
        }
        lemma_held(less, i);
        let n = slots.len() - 1;
        assert(slots.last() == slots[n]);
        assert forall|k: int| 0 <= k < less.len() implies #[trigger] less[k] == slots[k] by {}
        assert forall|k: int|
            0 <= k < slots.len() && (#[trigger] slots[k]).index == i implies held(slots, i)
            == slots[k].call@ by {
            if k < n {
                assert(slots[k].index != slots[n].index);
                assert(less[k] == slots[k]);
            }
        }
        if forall|k: int| 0 <= k < slots.len() ==> (#[trigger] slots[k]).index != i {
            assert(slots[n].index != i);
            assert forall|k: int| 0 <= k < less.len() implies (#[trigger] less[k]).index != i by {
                assert(slots[k].index != i);
            }
        }
    }
}

/// What the slots say after the call at `place`, which is new where it was not
/// there before, got a fragment.
proof fn lemma_slot_added(
    before: Seq<Slot>,
    grown: Seq<Slot>,
    after: Seq<Slot>,
    place: int,
    f: FragmentView,
)
    requires
        separate(before),
        !out_of_range(f.index),
        0 <= place < grown.len(),
        grown[place].index == f.index,
        grown == before || (grown == before.push(grown[place]) && grown[place].call@ == no_call()
            && place == before.len() && forall|k: int|
            0 <= k < before.len() ==> (#[trigger] before[k]).index != f.index),
        after.len() == grown.len(),
        forall|k: int| 0 <= k < after.len() && k != place ==> after[k] == grown[k],
        after[place].index == f.index,
        after[place].call@ == call_with(grown[place].call@, f),
    ensures
        separate(after),
        spread(after) == with_fragment(spread(before), f),
{
    let n = f.index as int;
    let all = filled(spread(before), n + 1);
    let want = with_fragment(spread(before), f);
    assert forall|a: int, b: int| 0 <= a < b < after.len() implies (#[trigger] after[a]).index
        != (#[trigger] after[b]).index by {
        if b < before.len() {
            assert(before[a].index != before[b].index);
        } else {
            assert(before[a].index != f.index);
        }
    }
    lemma_span(before);
    lemma_span(after);
    if grown == before {
        assert(before[place].index < span(before));
    } else {
        assert(after[place].index < span(after));
    }
    assert(span(after) == all.len()) by {
        if span(after) > 0 {
            let k = choose|k: int|
                0 <= k < after.len() && (#[trigger] after[k]).index == span(after) - 1;
            if k != place {
                assert(before[k].index < span(before));
            }
        }
        if span(before) > 0 {
            let k = choose|k: int|
                0 <= k < before.len() && (#[trigger] before[k]).index == span(before) - 1;
            assert(after[k].index == before[k].index);
            assert(after[k].index < span(after));
        }
        assert(after[place].index < span(after));
    }
    assert forall|i: int| 0 <= i < span(after) implies spread(after)[i] == want[i] by {
        lemma_held(before, i);
        lemma_held(after, i);
        if i == n {
            assert(after[place].index == i);
            if grown == before {
                assert(before[place].index == i);
            }
        } else if exists|k: int| 0 <= k < before.len() && (#[trigger] before[k]).index == i {
            let k = choose|k: int| 0 <= k < before.len() && (#[trigger] before[k]).index == i;
            assert(after[k].index == i);
        } else {
            assert forall|k: int| 0 <= k < after.len() implies (#[trigger] after[k]).index != i by {
                if k != place {
                    assert(before[k].index != i);
                }
            }
        }
    }
    assert(spread(after) =~= want);
}

/// Calls without a name bring no event.
proof fn lemma_gap(calls: Seq<MessageCallView>, from: int, to: int)
    requires
        0 <= from <= to <= calls.len(),
        forall|i: int| from <= i < to ==> (#[trigger] calls[i]).name.len() == 0,
    ensures
        named_call_events(calls.take(to)) == named_call_events(calls.take(from)),
    decreases to - from,
{
    if from < to {
        assert(calls.take(to).drop_last() =~= calls.take(to - 1));
        assert(calls.take(to).last() == calls[to - 1]);
        lemma_gap(calls, from, to - 1);
    }
}

/// Collects the fragments of streamed tool calls. Only calls of which something
/// arrived take room.
#[derive(Debug)]
pub struct ToolCallAccumulator {
    slots: Vec<Slot>,
}

impl View for ToolCallAccumulator {
    type V = Seq<MessageCallView>;

    closed spec fn view(&self) -> Seq<MessageCallView> {
        spread(self.slots@)
    }
}

/// Where the slot of an index stands.
fn find_slot(slots: &Vec<Slot>, index: usize) -> (r: Option<usize>)
    ensures
        match r {
            Some(p) => p < slots@.len() && slots@[p as int].index == index,
            None => forall|k: int| 0 <= k < slots@.len() ==> (#[trigger] slots@[k]).index != index,
        },
{
    let mut i: usize = 0;
    while i < slots.len()
        invariant
            i <= slots@.len(),
            forall|k: int| 0 <= k < i ==> (#[trigger] slots@[k]).index != index,
        decreases slots@.len() - i,
    {
        if slots[i].index == index {
            return Some(i);
        }
        i = i + 1;
    }
    None
}

/// Where the slot with the least index from `from` on stands.
fn next_slot(slots: &Vec<Slot>, from: usize) -> (r: Option<usize>)
    ensures
        match r {
            Some(p) => p < slots@.len() && from <= slots@[p as int].index && forall|k: int|
                0 <= k < slots@.len() && from <= (#[trigger] slots@[k]).index
                    ==> slots@[p as int].index <= slots@[k].index,
            None => forall|k: int| 0 <= k < slots@.len() ==> (#[trigger] slots@[k]).index < from,
        },
{
    let mut best: Option<usize> = None;
    let mut i: usize = 0;
    while i < slots.len()
        invariant
            i <= slots@.len(),
            match best {
                Some(p) => p < i && from <= slots@[p as int].index && forall|k: int|
                    0 <= k < i && from <= (#[trigger] slots@[k]).index ==> slots@[p as int].index
                        <= slots@[k].index,
                None => forall|k: int| 0 <= k < i ==> (#[trigger] slots@[k]).index < from,
            },
        decreases slots@.len() - i,
    {
        let better: bool = from <= slots[i].index && match best {
            Some(p) => slots[i].index < slots[p].index,
            None => true,
        };
        if better {
            best = Some(i);
        }
        i = i + 1;
    }
    best
}

/// A call with a fragment added.
fn add_fragment(call: &PartialToolCall, f: &WireDeltaToolCall) -> (r: PartialToolCall)
    ensures
        r@ == call_with(call@, f@),
{
    let id = match &f.id {
        Some(id) => id.clone(),
        None => call.id.clone(),
    };
    let mut name = call.name.clone();
    let mut arguments = call.arguments.clone();
    if let Some(function) = &f.function {
        if let Some(more) = &function.name {
            name.append(more.as_str());
        }
        if let Some(more) = &function.arguments {
            arguments.append(more.as_str());
        }
    }
    let r = PartialToolCall { id, name, arguments };
    assert(r@ =~= call_with(call@, f@));
    r
}

impl ToolCallAccumulator {
    /// Every index has one slot, and none is out of range.
    #[verifier::type_invariant]
    spec fn inv(self) -> bool {
        &&& separate(self.slots@)
        &&& forall|k: int|
            0 <= k < self.slots@.len() ==> !out_of_range((#[trigger] self.slots@[k]).index)
    }

    /// An accumulator without calls.
    pub fn new() -> (r: ToolCallAccumulator)
        ensures
            r@ == Seq::<MessageCallView>::empty(),
    {
        let r = ToolCallAccumulator { slots: Vec::new() };
        assert(r@ =~= Seq::<MessageCallView>::empty());
        r
    }

    /// Whether no call has begun.
    pub fn is_empty(&self) -> (r: bool)
        ensures
            r == (self@.len() == 0),
    {
        proof {
            lemma_span(self.slots@);
            if self.slots@.len() > 0 {
                assert(self.slots@[0].index < span(self.slots@));
            }
        }
        self.slots.len() == 0
    }

    /// Adds one fragment.
    fn push_one(&mut self, f: &WireDeltaToolCall)
        ensures
            final(self)@ == with_fragment(old(self)@, f@),
    {
        proof {
            use_type_invariant(&*self);
        }
        let index = f.index;
        if index >= isize::MAX as usize {
            return ;
        }
        let mut slots: Vec<Slot> = Vec::new();
        std::mem::swap(&mut slots, &mut self.slots);
        let ghost before = slots@;
        let place: usize = match find_slot(&slots, index) {
            Some(p) => p,
            None => {
                let empty = PartialToolCall {
                    id: String::new(),
                    name: String::new(),
                    arguments: String::new(),
                };
                assert(empty@ =~= no_call());
                slots.push(Slot { index, call: empty });
                slots.len() - 1
            },
        };
        let ghost grown = slots@;
        let call = add_fragment(&slots[place].call, f);
        slots.set(place, Slot { index, call });
        proof {
            lemma_slot_added(before, grown, slots@, place as int, f@);
        }
        self.slots = slots;
    }

    /// Adds fragments, one after the other.
    pub fn push(&mut self, fragments: &Vec<WireDeltaToolCall>)
        ensures
            final(self)@ == with_fragments(old(self)@, crate::fields::views_of(fragments@)),
    {
        let ghost all = crate::fields::views_of(fragments@);
        let mut i: usize = 0;
        assert(all.take(0) =~= seq![]);
        while i < fragments.len()
            invariant
                i <= fragments.len(),
                all == crate::fields::views_of(fragments@),
                self@ == with_fragments(old(self)@, all.take(i as int)),
            decreases fragments.len() - i,
        {
            assert(all.take(i + 1).drop_last() =~= all.take(i as int));
            self.push_one(&fragments[i]);
            i = i + 1;
        }
        assert(all.take(i as int) =~= all);
    }

    /// Takes the calls out as events. A call without a name is left out;
    /// arguments that cannot be read become `null`.
    pub fn take_events(&mut self) -> (r: Vec<CoreEvent>)
        ensures
            final(self)@ == Seq::<MessageCallView>::empty(),
            crate::events::event_views(r@) == named_call_events(old(self)@),
    {
        proof {
            use_type_invariant(&*self);
            lemma_span(self.slots@);
        }
        let mut slots: Vec<Slot> = Vec::new();
        std::mem::swap(&mut slots, &mut self.slots);
        let ghost all = spread(slots@);
        let mut out: Vec<CoreEvent> = Vec::new();
        let mut from: usize = 0;
        assert(all.take(0) =~= seq![]);
        assert(crate::events::event_views(out@) =~= seq![]);
        loop
            invariant
                separate(slots@),
                forall|k: int|
                    0 <= k < slots@.len() ==> !out_of_range((#[trigger] slots@[k]).index),
                forall|k: int|
                    0 <= k < slots@.len() ==> (#[trigger] slots@[k]).index < span(slots@),
                all == spread(slots@),
                from <= all.len(),
                crate::events::event_views(out@) == named_call_events(all.take(from as int)),
            ensures
                forall|k: int| 0 <= k < slots@.len() ==> (#[trigger] slots@[k]).index < from,
            decreases all.len() - from,
        {
            let p: usize = match next_slot(&slots, from) {
                Some(p) => p,
                None => {
                    break;
                },
            };
            let index = slots[p].index;
            let call = &slots[p].call;
            proof {
                lemma_held(slots@, index as int);
                assert forall|i: int| from <= i < index implies (#[trigger] all[i]).name.len()
                    == 0 by {
                    lemma_held(slots@, i);
                    assert forall|k: int| 0 <= k < slots@.len() implies (#[trigger] slots@[k]).index
                        != i by {}
                }
                lemma_gap(all, from as int, index as int);
                assert(all.take(index + 1).drop_last() =~= all.take(index as int));
                assert(all.take(index + 1).last() == call@);
            }
            let ghost before = crate::events::event_views(out@);
            if char_count(call.name.as_str()) > 0 {
                let event = CoreEvent::ToolCall {
                    id: call.id.clone(),
                    name: call.name.clone(),
                    input: read_arguments(call.arguments.as_str()),
                };
                assert(event@ == call_event(call@));
                out.push(event);
                assert(crate::events::event_views(out@) =~= before.push(event@));
            }
            from = index + 1;
        }
        proof {
            lemma_span(slots@);
            assert(all.len() == from);
            assert(all.take(from as int) =~= all);
        }
        assert(self@ =~= Seq::<MessageCallView>::empty());
        out
    }
}

/// The event of a text, none for an empty one.
pub open spec fn thinking_event(text: Option<Seq<char>>) -> Seq<CoreEventView> {
    match text {
        Some(t) => if t.len() > 0 {
            seq![CoreEventView::Reasoning { text: t }]
        } else {
            seq![]
        },
        None => seq![],
    }
}

/// The event of a text, none for an empty one.
pub open spec fn answer_event(text: Option<Seq<char>>) -> Seq<CoreEventView> {
    match text {
        Some(t) => if t.len() > 0 {
            seq![CoreEventView::Delta { text: t }]
        } else {
            seq![]
        },
        None => seq![],
    }
}

/// The events of one choice: thinking before text.
pub open spec fn delta_events(d: DeltaView) -> Seq<CoreEventView> {
    thinking_event(crate::llm::wire::first_of(d.reasoning_content, d.reasoning)) + answer_event(
        d.content,
    )
}

/// The events of the choices of a chunk.
pub open spec fn choices_events(choices: Seq<DeltaView>) -> Seq<CoreEventView>
    decreases choices.len(),
{
    if choices.len() == 0 {
        seq![]
    } else {
        choices_events(choices.drop_last()) + delta_events(choices.last())
    }
}

/// The tool calls after the choices of a chunk.
pub open spec fn choices_calls(calls: Seq<MessageCallView>, choices: Seq<DeltaView>) -> Seq<
    MessageCallView,
>
    decreases choices.len(),
{
    if choices.len() == 0 {
        calls
    } else {
        with_fragments(choices_calls(calls, choices.drop_last()), choices.last().tool_calls)
    }
}

/// The usage after a chunk: a report replaces what was there.
pub open spec fn chunk_usage(usage: Option<Usage>, c: ChunkView) -> Option<Usage> {
    match c.usage {
        Some(u) => Some(crate::llm::wire::usage_from(u)),
        None => usage,
    }
}

/// The chunk that a payload stands for.
pub open spec fn chunk_read(payload: Seq<char>) -> Option<ChunkView> {
    match crate::json::parsed(payload) {
        Ok(j) => <WireChunk as FromJson>::of(j),
        Err(_) => None,
    }
}

/// Takes a chunk: its texts become events, its usage replaces what was
/// reported before, its tool call fragments are collected.
pub fn apply_chunk(
    chunk: &WireChunk,
    usage: &mut Option<Usage>,
    tool_calls: &mut ToolCallAccumulator,
) -> (r: Vec<CoreEvent>)
    ensures
        crate::events::event_views(r@) == choices_events(chunk@.choices),
        *final(usage) == chunk_usage(*old(usage), chunk@),
        final(tool_calls)@ == choices_calls(old(tool_calls)@, chunk@.choices),
{
    if let Some(u) = chunk.usage {
        *usage = Some(u.into_usage());
    }
    let mut out: Vec<CoreEvent> = Vec::new();
    let mut i: usize = 0;
    let ghost all = chunk@.choices;
    assert(all.take(0) =~= seq![]);
    assert(crate::events::event_views(out@) =~= seq![]);
    while i < chunk.choices.len()
        invariant
            i <= chunk.choices.len(),
            all == crate::fields::views_of(chunk.choices@),
            crate::events::event_views(out@) == choices_events(all.take(i as int)),
            tool_calls@ == choices_calls(old(tool_calls)@, all.take(i as int)),
        decreases chunk.choices.len() - i,
    {
        assert(all.take(i + 1).drop_last() =~= all.take(i as int));
        let choice = &chunk.choices[i];
        assert(all.take(i + 1).last() == choice@);
        let ghost before = crate::events::event_views(out@);
        let thinking = reasoning_text(&choice.delta.reasoning_content, &choice.delta.reasoning);
        let ghost first = thinking_event(crate::text::opt_text(thinking));
        if let Some(text) = thinking {
            if char_count(text.as_str()) > 0 {
                out.push(CoreEvent::Reasoning { text });
            }
        }
        assert(crate::events::event_views(out@) =~= before + first);
        if let Some(text) = &choice.delta.content {
            if char_count(text.as_str()) > 0 {
                let text = text.clone();
                out.push(CoreEvent::Delta { text });
            }
        }
        assert(crate::events::event_views(out@) =~= before + delta_events(choice@));
        tool_calls.push(&choice.delta.tool_calls);
        i = i + 1;
    }
    assert(all.take(i as int) =~= all);
    out
}

/// Reads one payload of a stream. One that cannot be read changes nothing.
pub fn events_from_payload(
    payload: &str,
    usage: &mut Option<Usage>,
    tool_calls: &mut ToolCallAccumulator,
) -> (r: Vec<CoreEvent>)
    ensures
        match chunk_read(payload@) {
            Some(c) => crate::events::event_views(r@) == choices_events(c.choices) && *final(usage)
                == chunk_usage(*old(usage), c) && final(tool_calls)@ == choices_calls(
                old(tool_calls)@,
                c.choices,
            ),
            None => r@.len() == 0 && *final(usage) == *old(usage) && final(tool_calls)@ == old(
                tool_calls,
            )@,
        },
{
    match Json::parse(payload) {
        Ok(j) => match WireChunk::from_json(&j) {
            Some(chunk) => apply_chunk(&chunk, usage, tool_calls),
            None => Vec::new(),
        },
        Err(_) => Vec::new(),
    }
}

/// What a stream has brought so far.
#[verifier::ext_equal]
pub struct StreamView {
    pub usage: Option<Usage>,
    pub calls: Seq<MessageCallView>,
    pub done: bool,
}

/// The events that complete a turn: its tool calls, then the terminal event.
pub open spec fn closing_events(s: StreamView) -> Seq<CoreEventView> {
    named_call_events(s.calls).push(CoreEventView::TurnDone { usage: s.usage })
}

/// The state of a completed turn.
pub open spec fn completed() -> StreamView {
    StreamView { usage: None, calls: seq![], done: true }
}

/// The state after one payload. Nothing counts after the end.
pub open spec fn after_payload(s: StreamView, p: Seq<char>) -> StreamView {
    if s.done {
        s
    } else if p == "[DONE]"@ {
        completed()
    } else {
        match chunk_read(p) {
            Some(c) => StreamView {
                usage: chunk_usage(s.usage, c),
                calls: choices_calls(s.calls, c.choices),
                done: false,
            },
            None => s,
        }
    }
}

/// The events of one payload.
pub open spec fn payload_events(s: StreamView, p: Seq<char>) -> Seq<CoreEventView> {
    if s.done {
        seq![]
    } else if p == "[DONE]"@ {
        closing_events(s)
    } else {
        match chunk_read(p) {
            Some(c) => choices_events(c.choices),
            None => seq![],
        }
    }
}

/// The state after a list of payloads.
pub open spec fn after_payloads(s: StreamView, ps: Seq<Seq<char>>) -> StreamView
    decreases ps.len(),
{
    if ps.len() == 0 {
        s
    } else {
        after_payload(after_payloads(s, ps.drop_last()), ps.last())
    }
}

/// The events of a list of payloads.
pub open spec fn payloads_events(s: StreamView, ps: Seq<Seq<char>>) -> Seq<CoreEventView>
    decreases ps.len(),
{
    if ps.len() == 0 {
        seq![]
    } else {
        payloads_events(s, ps.drop_last()) + payload_events(
            after_payloads(s, ps.drop_last()),
            ps.last(),
        )
    }
}

/// The events that the end of a stream adds.
pub open spec fn ending_events(s: StreamView) -> Seq<CoreEventView> {
    if s.done {
        seq![]
    } else {
        closing_events(s)
    }
}

/// Whether no event of `es` is terminal.
pub open spec fn no_terminal(es: Seq<CoreEventView>) -> bool {
    forall|i: int| 0 <= i < es.len() ==> !crate::events::is_terminal(#[trigger] es[i])
}

/// Whether the last event of `es` is terminal and no other.
pub open spec fn ends_once(es: Seq<CoreEventView>) -> bool {
    es.len() > 0 && crate::events::is_terminal(es.last()) && no_terminal(es.drop_last())
}

/// Tool call events are not terminal.
proof fn lemma_calls_not_terminal(calls: Seq<MessageCallView>)
    ensures
        no_terminal(named_call_events(calls)),
    decreases calls.len(),
{
    if calls.len() > 0 {
        lemma_calls_not_terminal(calls.drop_last());
    }
}

/// The events of choices are not terminal.
proof fn lemma_choices_not_terminal(choices: Seq<DeltaView>)
    ensures
        no_terminal(choices_events(choices)),
    decreases choices.len(),
{
    if choices.len() > 0 {
        lemma_choices_not_terminal(choices.drop_last());
    }
}

/// The closing events end once.
proof fn lemma_closing_ends_once(s: StreamView)
    ensures
        ends_once(closing_events(s)),
{
    lemma_calls_not_terminal(s.calls);
    assert(closing_events(s).drop_last() =~= named_call_events(s.calls));
}

/// Appending to events without a terminal one.
pub proof fn lemma_append_ends(a: Seq<CoreEventView>, b: Seq<CoreEventView>)
    requires
        no_terminal(a),
    ensures
        no_terminal(b) ==> no_terminal(a + b),
        ends_once(b) ==> ends_once(a + b),
{
    if ends_once(b) {
        assert((a + b).drop_last() =~= a + b.drop_last());
        assert((a + b).last() == b.last());
    }
}

/// Payloads bring a terminal event exactly when they complete the turn, and
/// then it is the last one.
proof fn lemma_payloads_end(s: StreamView, ps: Seq<Seq<char>>)
    requires
        !s.done,
    ensures
        after_payloads(s, ps).done ==> ends_once(payloads_events(s, ps)),
        !after_payloads(s, ps).done ==> no_terminal(payloads_events(s, ps)),
    decreases ps.len(),
{
    if ps.len() > 0 {
        lemma_payloads_end(s, ps.drop_last());
        let mid = after_payloads(s, ps.drop_last());
        let a = payloads_events(s, ps.drop_last());
        let b = payload_events(mid, ps.last());
        if mid.done {
            assert(a + b =~= a);
        } else {
            lemma_closing_ends_once(mid);
            if let Some(c) = chunk_read(ps.last()) {
                lemma_choices_not_terminal(c.choices);
            }
            lemma_append_ends(a, b);
        }
    }
}

/// Whatever payloads a provider sends, a stream that is read to its end brings
/// exactly one terminal event, and nothing after it.
pub proof fn stream_ends_once(s: StreamView, ps: Seq<Seq<char>>)
    requires
        !s.done,
    ensures
        ends_once(payloads_events(s, ps) + ending_events(after_payloads(s, ps))),
{
    lemma_payloads_end(s, ps);
    let end = after_payloads(s, ps);
    let a = payloads_events(s, ps);
    if end.done {
        assert(a + ending_events(end) =~= a);
    } else {
        lemma_closing_ends_once(end);
        lemma_append_ends(a, ending_events(end));
    }
}

/// Reads a stream of events from a provider.
#[derive(Debug)]
pub struct StreamReader {
    parser: SseParser,
    usage: Option<Usage>,
    tool_calls: ToolCallAccumulator,
    done: bool,
}

impl StreamReader {
    /// The state of the parser.
    pub closed spec fn parser(&self) -> crate::llm::sse::SseView {
        self.parser@
    }

    /// What the stream has brought so far.
    pub closed spec fn state(&self) -> StreamView {
        StreamView { usage: self.usage, calls: self.tool_calls@, done: self.done }
    }

    /// A reader at the start of a stream.
    pub fn new() -> (r: StreamReader)
        ensures
            r.parser() == crate::llm::sse::fresh(),
            r.state() == (StreamView { usage: None, calls: seq![], done: false }),
    {
        StreamReader {
            parser: SseParser::new(),
            usage: None,
            tool_calls: ToolCallAccumulator::new(),
            done: false,
        }
    }

    /// Whether the turn is complete: nothing more is read.
    pub fn is_done(&self) -> (r: bool)
        ensures
            r == self.state().done,
    {
        self.done
    }

    /// Completes the turn.
    fn close(&mut self) -> (r: Vec<CoreEvent>)
        requires
            !old(self).state().done,
        ensures
            final(self).parser() == old(self).parser(),
            final(self).state() == completed(),
            crate::events::event_views(r@) == closing_events(old(self).state()),
    {
        let mut out = self.tool_calls.take_events();
        let ghost before = crate::events::event_views(out@);
        let event = CoreEvent::TurnDone { usage: self.usage };
        out.push(event);
        assert(crate::events::event_views(out@) =~= before.push(event@));
        self.usage = None;
        self.done = true;
        out
    }

    /// Takes one payload.
    pub fn forward_payload(&mut self, payload: &str) -> (r: Vec<CoreEvent>)
        ensures
            final(self).parser() == old(self).parser(),
            final(self).state() == after_payload(old(self).state(), payload@),
            crate::events::event_views(r@) == payload_events(old(self).state(), payload@),
    {
        if self.done {
            let none: Vec<CoreEvent> = Vec::new();
            assert(crate::events::event_views(none@) =~= seq![]);
            return none;
        }
        if same(payload, "[DONE]") {
            return self.close();
        }
        let r = events_from_payload(payload, &mut self.usage, &mut self.tool_calls);
        assert(r@.len() == 0 ==> crate::events::event_views(r@) =~= seq![]);
        r
    }

    /// Takes a list of payloads.
    fn forward_all(&mut self, payloads: &Vec<String>) -> (r: Vec<CoreEvent>)
        ensures
            final(self).parser() == old(self).parser(),
            final(self).state() == after_payloads(
                old(self).state(),
                crate::text::texts(payloads@),
            ),
            crate::events::event_views(r@) == payloads_events(
                old(self).state(),
                crate::text::texts(payloads@),
            ),
    {
        let mut out: Vec<CoreEvent> = Vec::new();
        let ghost all = crate::text::texts(payloads@);
        let mut i: usize = 0;
        assert(all.take(0) =~= seq![]);
        assert(crate::events::event_views(out@) =~= seq![]);
        while i < payloads.len()
            invariant
                i <= payloads.len(),
                all == crate::text::texts(payloads@),
                self.parser() == old(self).parser(),
                self.state() == after_payloads(old(self).state(), all.take(i as int)),
                crate::events::event_views(out@) == payloads_events(
                    old(self).state(),
                    all.take(i as int),
                ),
            decreases payloads.len() - i,
        {
            assert(all.take(i + 1).drop_last() =~= all.take(i as int));
            let ghost before = crate::events::event_views(out@);
            let mut more = self.forward_payload(payloads[i].as_str());
            let ghost added = crate::events::event_views(more@);
            out.append(&mut more);
            assert(crate::events::event_views(out@) =~= before + added);
            i = i + 1;
        }
        assert(all.take(i as int) =~= all);
        out
    }

    /// Takes a chunk of bytes.
    pub fn push(&mut self, bytes: &[u8]) -> (r: Vec<CoreEvent>)
        ensures
            final(self).parser() == crate::llm::sse::after_chunk(old(self).parser(), bytes@),
            final(self).state() == after_payloads(
                old(self).state(),
                crate::llm::sse::chunk_payloads(old(self).parser(), bytes@),
            ),
            crate::events::event_views(r@) == payloads_events(
                old(self).state(),
                crate::llm::sse::chunk_payloads(old(self).parser(), bytes@),
            ),
    {
        let payloads = self.parser.push(bytes);
        self.forward_all(&payloads)
    }

    /// Ends the stream. A provider may close it without `[DONE]`, or end it with
    /// a payload that lacks its empty line.
    pub fn finish(&mut self) -> (r: Vec<CoreEvent>)
        ensures
            final(self).state().done,
            crate::events::event_views(r@) == payloads_events(
                old(self).state(),
                crate::llm::sse::end_payloads(old(self).parser()),
            ) + ending_events(
                after_payloads(
                    old(self).state(),
                    crate::llm::sse::end_payloads(old(self).parser()),
                ),
            ),
    {
        let payloads = self.parser.finish();
        let mut out = self.forward_all(&payloads);
        let ghost before = crate::events::event_views(out@);
        if !self.done {
            let mut more = self.close();
            let ghost added = crate::events::event_views(more@);
            out.append(&mut more);
            assert(crate::events::event_views(out@) =~= before + added);
        } else {
            assert(before + seq![] =~= before);
        }
        out
    }

    /// The failure event of a stream that could not be read on.
    pub fn read_failed(cause: &str) -> (r: CoreEvent)
        ensures
            r@ == crate::events::error_event(
                ApiErrorKind::Network,
                "provider stream read failed: "@ + cause@,
            ),
    {
        let mut out = "provider stream read failed: ".to_owned();
        out.append(cause);
        CoreEvent::error(ApiErrorKind::Network, out.as_str())
    }
}

/// The answer of a completion: its first choice.
pub open spec fn first_answer(c: CompletionView) -> AnswerView {
    if c.choices.len() > 0 {
        c.choices[0]
    } else {
        crate::llm::wire::empty_answer()
    }
}

/// The events of a completion: thinking, text and tool calls of its first
/// choice, then the terminal event.
pub open spec fn completion_events(c: CompletionView) -> Seq<CoreEventView> {
    let a = first_answer(c);
    (thinking_event(crate::llm::wire::first_of(a.reasoning_content, a.reasoning)) + answer_event(
        a.content,
    ) + all_call_events(a.tool_calls)).push(
        CoreEventView::TurnDone {
            usage: match c.usage {
                Some(u) => Some(crate::llm::wire::usage_from(u)),
                None => None,
            },
        },
    )
}

/// The message for a JSON value that is not of the expected shape.
pub open spec fn shape_message() -> Seq<char> {
    "unexpected shape"@
}

/// The events of an answer that is not a stream.
pub open spec fn fallback_events(body: Seq<char>) -> Seq<CoreEventView> {
    match crate::json::parsed(body) {
        Ok(j) => match <WireCompletion as FromJson>::of(j) {
            Some(c) => completion_events(c),
            None => seq![not_understood(shape_message())],
        },
        Err(e) => seq![not_understood(e)],
    }
}

/// The failure event of an answer that cannot be read.
pub open spec fn not_understood(cause: Seq<char>) -> CoreEventView {
    crate::events::error_event(
        ApiErrorKind::Protocol,
        "provider response is neither SSE nor a valid completion: "@ + cause,
    )
}

/// An answer that is not a stream brings exactly one terminal event, its last.
pub proof fn fallback_ends_once(body: Seq<char>)
    ensures
        ends_once(fallback_events(body)),
{
    let es = fallback_events(body);
    if let Ok(j) = crate::json::parsed(body) {
        if let Some(c) = <WireCompletion as FromJson>::of(j) {
            let a = first_answer(c);
            let calls = all_call_events(a.tool_calls);
            assert(es.drop_last() =~= thinking_event(
                crate::llm::wire::first_of(a.reasoning_content, a.reasoning),
            ) + answer_event(a.content) + calls);
        }
    }
}

/// The failure event of an answer that cannot be read.
fn not_understood_event(cause: &str) -> (r: Vec<CoreEvent>)
    ensures
        crate::events::event_views(r@) == seq![not_understood(cause@)],
{
    let mut message = "provider response is neither SSE nor a valid completion: ".to_owned();
    message.append(cause);
    let event = CoreEvent::error(ApiErrorKind::Protocol, message.as_str());
    let r = vec![event];
    assert(crate::events::event_views(r@) =~= seq![event@]);
    r
}

/// The events of a completion.
pub fn events_from_completion(c: &WireCompletion) -> (r: Vec<CoreEvent>)
    ensures
        crate::events::event_views(r@) == completion_events(c@),
{
    let mut out: Vec<CoreEvent> = Vec::new();
    let ghost a = first_answer(c@);
    let ghost one = thinking_event(crate::llm::wire::first_of(a.reasoning_content, a.reasoning));
    let ghost two = answer_event(a.content);
    let ghost three = all_call_events(a.tool_calls);
    if c.choices.len() > 0 {
        let choice = &c.choices[0];
        assert(choice@ == a);
        let thinking = reasoning_text(&choice.reasoning_content, &choice.reasoning);
        if let Some(text) = thinking {
            if char_count(text.as_str()) > 0 {
                out.push(CoreEvent::Reasoning { text });
            }
        }
        assert(crate::events::event_views(out@) =~= one);
        if let Some(text) = &choice.content {
            if char_count(text.as_str()) > 0 {
                let text = text.clone();
                out.push(CoreEvent::Delta { text });
            }
        }
        assert(crate::events::event_views(out@) =~= one + two);
        let mut i: usize = 0;
        assert(three.take(0) =~= seq![]);
        assert(one + two + seq![] =~= one + two);
        while i < choice.tool_calls.len()
            invariant
                i <= choice.tool_calls.len(),
                a == choice@,
                three == all_call_events(a.tool_calls),
                crate::events::event_views(out@) == one + two + three.take(i as int),
            decreases choice.tool_calls.len() - i,
        {
            let call = &choice.tool_calls[i];
            let ghost before = crate::events::event_views(out@);
            let event = CoreEvent::ToolCall {
                id: call.id.clone(),
                name: call.name.clone(),
                input: read_arguments(call.arguments.as_str()),
            };
            assert(event@ == call_event(call@));
            assert(a.tool_calls[i as int] == call@);
            out.push(event);
            assert(crate::events::event_views(out@) =~= before.push(event@));
            assert(three.take(i + 1) =~= three.take(i as int).push(event@));
            assert(before.push(event@) =~= one + two + three.take(i + 1));
            i = i + 1;
        }
        assert(three.take(i as int) =~= three);
    } else {
        assert(crate::events::event_views(out@) =~= one + two + three);
    }
    let usage: Option<Usage> = match c.usage {
        Some(u) => Some(u.into_usage()),
        None => None,
    };
    let event = CoreEvent::TurnDone { usage };
    let ghost before = crate::events::event_views(out@);
    out.push(event);
    assert(crate::events::event_views(out@) =~= before.push(event@));
    out
}

/// Reads an answer that is not a stream, for providers that answer JSON all the
/// same.
pub fn json_fallback(body: &str) -> (r: Vec<CoreEvent>)
    ensures
        crate::events::event_views(r@) == fallback_events(body@),
{
    match Json::parse(body) {
        Ok(j) => match WireCompletion::from_json(&j) {
            Some(c) => events_from_completion(&c),
            None => not_understood_event("unexpected shape"),
        },
        Err(e) => not_understood_event(e.as_str()),
    }
}

/// The failure event of an answer whose body could not be read.
pub fn body_unreadable(cause: &str) -> (r: CoreEvent)
    ensures
        r@ == crate::events::error_event(
            ApiErrorKind::Network,
            "failed reading provider response: "@ + cause@,
        ),
{
    let mut out = "failed reading provider response: ".to_owned();
    out.append(cause);
    CoreEvent::error(ApiErrorKind::Network, out.as_str())
}

/// The category of a failure status.
pub open spec fn status_kind(status: u16) -> ApiErrorKind {
    if status == 401 || status == 403 {
        ApiErrorKind::Unauthorized
    } else if status == 404 {
        ApiErrorKind::NotFound
    } else if status == 429 {
        ApiErrorKind::RateLimited
    } else {
        ApiErrorKind::Provider
    }
}

/// The provider's own words in an error body, empty where there are none.
pub open spec fn body_detail(body: Seq<char>) -> Seq<char> {
    match crate::json::parsed(body) {
        Ok(j) => crate::llm::wire::error_detail(j),
        Err(_) => seq![],
    }
}

/// The message for a failure status: the provider's own words, or the start of
/// the body.
pub open spec fn status_message(status: u16, body: Seq<char>, detail: Seq<char>) -> Seq<char> {
    "provider returned HTTP "@ + crate::text::decimal(status as nat) + ": "@ + (
    if detail.len() == 0 {
        crate::text::clip_text(body, ERROR_BODY_CHARS as int)
    } else {
        detail
    })
}

/// The failure that a status, a body and the provider's own words stand for.
pub fn status_error(status: u16, body: &str, detail: &str) -> (r: ApiError)
    ensures
        r@ == crate::error::failure(status_kind(status), status_message(status, body@, detail@)),
{
    let kind = if status == 401 || status == 403 {
        ApiErrorKind::Unauthorized
    } else if status == 404 {
        ApiErrorKind::NotFound
    } else if status == 429 {
        ApiErrorKind::RateLimited
    } else {
        ApiErrorKind::Provider
    };
    let mut message = "provider returned HTTP ".to_owned();
    message.append(decimal_of(status as u64).as_str());
    message.append(": ");
    if char_count(detail) == 0 {
        message.append(clip(body, ERROR_BODY_CHARS).as_str());
    } else {
        message.append(detail);
    }
    ApiError::new(kind, message.as_str())
}

/// The failure that a provider's answer with an error status stands for.
pub fn provider_error(status: u16, body: &str) -> (r: ApiError)
    ensures
        r@ == crate::error::failure(
            status_kind(status),
            status_message(status, body@, body_detail(body@)),
        ),
{
    let detail: String = match Json::parse(body) {
        Ok(j) => read_error_detail(&j),
        Err(_) => {
            let s = String::new();
            assert(s@ =~= seq![]);
            s
        },
    };
    status_error(status, body, detail.as_str())
}

/// The failure event of a provider's answer with an error status.
pub fn provider_error_event(status: u16, body: &str) -> (r: CoreEvent)
    ensures
        r@ == crate::events::error_event(
            status_kind(status),
            status_message(status, body@, body_detail(body@)),
        ),
{
    let e = provider_error(status, body);
    CoreEvent::Error { kind: e.kind, message: e.message }
}

/// The failure of a model list that cannot be read.
pub open spec fn list_not_understood(cause: Seq<char>) -> ApiErrorView {
    crate::error::failure(
        ApiErrorKind::Protocol,
        "provider model list is not understood: "@ + cause,
    )
}

/// What the answer to a request for the model list stands for.
pub open spec fn models_read(body: Seq<char>) -> Result<Seq<ModelInfoView>, ApiErrorView> {
    match crate::json::parsed(body) {
        Ok(j) => match crate::llm::wire::models_of(j) {
            Some(models) => Ok(models),
            None => Err(list_not_understood(shape_message())),
        },
        Err(e) => Err(list_not_understood(e)),
    }
}

/// The failure of a model list that cannot be read.
fn list_error(cause: &str) -> (r: ApiError)
    ensures
        r@ == list_not_understood(cause@),
{
    let mut out = "provider model list is not understood: ".to_owned();
    out.append(cause);
    ApiError::new(ApiErrorKind::Protocol, out.as_str())
}

/// The models in a provider's answer: its entries with an id, in their order,
/// each with the effort levels that have a value.
pub fn list_models(status: u16, success: bool, body: &str) -> (r: Result<Vec<ModelInfo>, ApiError>)
    ensures
        !success ==> (r matches Err(e) && e@ == crate::error::failure(
            status_kind(status),
            status_message(status, body@, body_detail(body@)),
        )),
        success ==> match r {
            Ok(models) => models_read(body@) is Ok && models_read(body@)->Ok_0
                == crate::llm::types::model_views(models@),
            Err(e) => models_read(body@) is Err && models_read(body@)->Err_0 == e@,
        },
{
    if !success {
        return Err(provider_error(status, body));
    }
    match Json::parse(body) {
        Ok(j) => match read_models(&j) {
            Some(models) => Ok(models),
            None => Err(list_error("unexpected shape")),
        },
        Err(e) => Err(list_error(e.as_str())),
    }
}

} // verus!
