//! A provider that replays recordings, and the recorder: both work offline.

use vstd::prelude::*;

use crate::error::{ApiError, ApiErrorKind};
use crate::events::{Artifact, CoreEvent, CoreEventView, Usage};
use crate::llm::cassette::{
    Cassette, CassetteView, Interaction, InteractionView,
};
use crate::llm::types::{
    ChatMessage, ChatMessageView, ChatRequest, ChatRequestView, ModelInfo, ModelInfoView, ToolCall,
    ToolCallView,
};
use crate::text::{decimal_of, same};

verus! {

/// The pause between replayed events that makes streaming visible, in
/// milliseconds.
pub const FAKE_UI_DELAY_MS: u64 = 20;

/// How the provider is reached.
#[derive(Debug, PartialEq, Eq)]
pub enum ClientMode {
    /// The configured provider.
    Live,
    /// The recording in a file, or canned answers.
    Fake { cassette: String },
    /// The configured provider, recorded into a file.
    Record { cassette: String },
}

impl ClientMode {
    /// Whether answers are made up.
    pub fn is_fake(&self) -> (r: bool)
        ensures
            r == (self is Fake),
    {
        match self {
            ClientMode::Fake { .. } => true,
            _ => false,
        }
    }
}

/// Whether two tool calls are equal.
pub open spec fn same_call(a: ToolCallView, b: ToolCallView) -> bool {
    a.id == b.id && a.name == b.name && crate::json::alike(a.arguments, b.arguments)
}

/// Whether two lists of tool calls are equal.
pub open spec fn same_calls(a: Option<Seq<ToolCallView>>, b: Option<Seq<ToolCallView>>) -> bool {
    match (a, b) {
        (None, None) => true,
        (Some(x), Some(y)) => x.len() == y.len() && forall|i: int|
            0 <= i < x.len() ==> same_call(#[trigger] x[i], y[i]),
        _ => false,
    }
}

/// Whether two messages are equal.
pub open spec fn same_message(a: ChatMessageView, b: ChatMessageView) -> bool {
    &&& a.role == b.role
    &&& a.content == b.content
    &&& a.reasoning == b.reasoning
    &&& same_calls(a.tool_calls, b.tool_calls)
    &&& a.tool_call_id == b.tool_call_id
    &&& a.artifacts == b.artifacts
}

/// Whether a recorded request answers another: model and messages are equal.
pub open spec fn same_prompt(a: ChatRequestView, b: ChatRequestView) -> bool {
    &&& a.model == b.model
    &&& a.messages.len() == b.messages.len()
    &&& forall|i: int|
        0 <= i < a.messages.len() ==> same_message(#[trigger] a.messages[i], b.messages[i])
}

/// A request matches itself.
pub proof fn request_matches_itself(r: ChatRequestView)
    ensures
        same_prompt(r, r),
{
    assert forall|i: int| 0 <= i < r.messages.len() implies same_message(
        #[trigger] r.messages[i],
        r.messages[i],
    ) by {
        if let Some(calls) = r.messages[i].tool_calls {
            assert forall|k: int| 0 <= k < calls.len() implies same_call(
                #[trigger] calls[k],
                calls[k],
            ) by {
                crate::json::lemma_alike_self(calls[k].arguments);
            }
        }
    }
}

/// Whether two optional strings are equal.
fn same_opt(a: &Option<String>, b: &Option<String>) -> (r: bool)
    ensures
        r == (crate::text::opt_text(*a) == crate::text::opt_text(*b)),
{
    match (a, b) {
        (None, None) => true,
        (Some(x), Some(y)) => same(x.as_str(), y.as_str()),
        _ => false,
    }
}

/// Whether two lists of files are equal.
fn equal_files(a: &Vec<Artifact>, b: &Vec<Artifact>) -> (r: bool)
    ensures
        r == (crate::events::artifact_views(a@) == crate::events::artifact_views(b@)),
{
    let ghost x = crate::events::artifact_views(a@);
    let ghost y = crate::events::artifact_views(b@);
    if a.len() != b.len() {
        assert(x.len() != y.len());
        return false;
    }
    let mut i: usize = 0;
    while i < a.len()
        invariant
            i <= a@.len() == b@.len(),
            x == crate::events::artifact_views(a@),
            y == crate::events::artifact_views(b@),
            forall|k: int| 0 <= k < i ==> x[k] == y[k],
        decreases a.len() - i,
    {
        assert(x[i as int] == a@[i as int]@);
        assert(y[i as int] == b@[i as int]@);
        if !same(a[i].path.as_str(), b[i].path.as_str()) || !same_opt(
            &a[i].mime_hint,
            &b[i].mime_hint,
        ) {
            return false;
        }
        i = i + 1;
    }
    assert(x =~= y);
    true
}

/// Whether two lists of tool calls are equal.
fn equal_calls(a: &Option<Vec<ToolCall>>, b: &Option<Vec<ToolCall>>) -> (r: bool)
    ensures
        r == same_calls(
            crate::llm::types::opt_call_views(*a),
            crate::llm::types::opt_call_views(*b),
        ),
{
    match (a, b) {
        (None, None) => true,
        (Some(x), Some(y)) => {
            let ghost p = crate::llm::types::call_views(x@);
            let ghost q = crate::llm::types::call_views(y@);
            if x.len() != y.len() {
                assert(p.len() != q.len());
                return false;
            }
            let mut i: usize = 0;
            while i < x.len()
                invariant
                    i <= x@.len() == y@.len(),
                    p == crate::llm::types::call_views(x@),
                    q == crate::llm::types::call_views(y@),
                    crate::llm::types::opt_call_views(*a) == Some(p),
                    crate::llm::types::opt_call_views(*b) == Some(q),
                    forall|k: int| 0 <= k < i ==> same_call(#[trigger] p[k], q[k]),
                decreases x.len() - i,
            {
                assert(p[i as int] == x@[i as int]@);
                assert(q[i as int] == y@[i as int]@);
                if !same(x[i].id.as_str(), y[i].id.as_str()) || !same(
                    x[i].name.as_str(),
                    y[i].name.as_str(),
                ) || !x[i].arguments.same_as(&y[i].arguments) {
                    assert(!same_call(p[i as int], q[i as int]));
                    return false;
                }
                i = i + 1;
            }
            true
        },
        _ => false,
    }
}

/// Whether two messages are equal.
fn equal_message(a: &ChatMessage, b: &ChatMessage) -> (r: bool)
    ensures
        r == same_message(a@, b@),
{
    a.role == b.role && same(a.content.as_str(), b.content.as_str()) && same_opt(
        &a.reasoning,
        &b.reasoning,
    ) && equal_calls(&a.tool_calls, &b.tool_calls) && same_opt(
        &a.tool_call_id,
        &b.tool_call_id,
    ) && equal_files(&a.artifacts, &b.artifacts)
}

/// Whether a recorded request answers another.
pub fn equal_prompt(a: &ChatRequest, b: &ChatRequest) -> (r: bool)
    ensures
        r == same_prompt(a@, b@),
{
    let ghost x = a@.messages;
    let ghost y = b@.messages;
    assert(x.len() == a.messages@.len());
    assert(y.len() == b.messages@.len());
    if !same(a.model.as_str(), b.model.as_str()) || a.messages.len() != b.messages.len() {
        return false;
    }
    let mut i: usize = 0;
    while i < a.messages.len()
        invariant
            i <= a.messages@.len() == b.messages@.len(),
            x == a@.messages,
            y == b@.messages,
            forall|k: int| 0 <= k < i ==> same_message(#[trigger] x[k], y[k]),
        decreases a.messages.len() - i,
    {
        assert(x[i as int] == a.messages@[i as int]@);
        assert(y[i as int] == b.messages@[i as int]@);
        if !equal_message(&a.messages[i], &b.messages[i]) {
            assert(!same_message(x[i as int], y[i as int]));
            return false;
        }
        i = i + 1;
    }
    true
}

/// A recorded interaction, and whether it was played.
#[derive(Debug)]
struct Reusable {
    interaction: Interaction,
    played: bool,
}

/// The content of a recorded interaction that can be played.
#[verifier::ext_equal]
pub struct ReusableView {
    pub interaction: InteractionView,
    pub played: bool,
}

impl View for Reusable {
    type V = ReusableView;

    closed spec fn view(&self) -> ReusableView {
        ReusableView { interaction: self.interaction@, played: self.played }
    }
}

/// The place of the first interaction that matches, from a place on; only one
/// that was not played where `fresh` says so.
pub open spec fn first_match(
    s: Seq<ReusableView>,
    request: ChatRequestView,
    fresh: bool,
    from: int,
) -> int
    decreases s.len() - from,
{
    if from < 0 || from >= s.len() {
        s.len() as int
    } else if same_prompt(s[from].interaction.request, request) && !(fresh && s[from].played) {
        from
    } else {
        first_match(s, request, fresh, from + 1)
    }
}

/// The interaction that is played for a request: the first that matches and was
/// not played, else the first that matches.
pub open spec fn pick(s: Seq<ReusableView>, request: ChatRequestView) -> Option<int> {
    if first_match(s, request, true, 0) < s.len() {
        Some(first_match(s, request, true, 0))
    } else if first_match(s, request, false, 0) < s.len() {
        Some(first_match(s, request, false, 0))
    } else {
        None
    }
}

/// The interactions once one of them was played.
pub open spec fn after_playing(s: Seq<ReusableView>, i: int) -> Seq<ReusableView> {
    s.update(i, ReusableView { interaction: s[i].interaction, played: true })
}

/// The event of a request that matches nothing.
pub open spec fn no_match_event(request: ChatRequestView) -> CoreEventView {
    crate::events::error_event(
        ApiErrorKind::Internal,
        "fake provider: no cassette interaction matches this request (model "@ + request.model
            + ", "@ + crate::text::decimal(request.messages.len())
            + " messages); re-record with --record"@,
    )
}

/// The canned answer.
pub open spec fn canned() -> Seq<CoreEventView> {
    seq![
        CoreEventView::Reasoning {
            text: "The user wants to see the fake provider speak. I will explain what it is and how to switch to a real model."@,
        },
        CoreEventView::Delta { text: "This is Kaeru's fake provider, running keyless "@ },
        CoreEventView::Delta { text: "for development. "@ },
        CoreEventView::Delta {
            text: "Put a real [provider] api_key into data/config.toml, or run without --fake, to talk to an actual model."@,
        },
        CoreEventView::TurnDone {
            usage: Some(
                Usage {
                    input_tokens: Some(21),
                    output_tokens: Some(42),
                    total_tokens: Some(63),
                },
            ),
        },
    ]
}

/// The models of the canned provider.
pub open spec fn canned_models() -> Seq<ModelInfoView> {
    seq![
        crate::llm::types::plain_model("openai/gpt-4o-mini"@),
        crate::llm::types::plain_model("openai/gpt-4o"@),
        ModelInfoView {
            id: "deepseek-v4.1-flash"@,
            reasoning_effort_levels: seq!["low"@, "high"@, "xhigh"@],
            default_reasoning_effort: Some("high"@),
        },
        crate::llm::types::plain_model("meta-llama/llama-3.3-70b-instruct"@),
        crate::llm::types::plain_model("mistralai/mistral-small"@),
    ]
}

/// A provider that replays a recording.
#[derive(Debug)]
pub struct FakeProvider {
    interactions: Vec<Reusable>,
    models: Vec<ModelInfo>,
    fallback: Option<Vec<CoreEvent>>,
}

/// The content of a [`FakeProvider`].
#[verifier::ext_equal]
pub struct FakeView {
    pub interactions: Seq<ReusableView>,
    pub models: Seq<ModelInfoView>,
    /// The answer to what matches nothing; none makes it an error.
    pub fallback: Option<Seq<CoreEventView>>,
}

impl View for FakeProvider {
    type V = FakeView;

    closed spec fn view(&self) -> FakeView {
        FakeView {
            interactions: crate::fields::views_of(self.interactions@),
            models: crate::llm::types::model_views(self.models@),
            fallback: match self.fallback {
                Some(v) => Some(crate::events::event_views(v@)),
                None => None,
            },
        }
    }
}

/// The provider of a recording.
pub open spec fn replaying(c: CassetteView) -> FakeView {
    FakeView {
        interactions: c.interactions.map_values(
            |i: InteractionView| ReusableView { interaction: i, played: false },
        ),
        models: c.models,
        fallback: None,
    }
}

/// What a request is answered, and the provider after it.
pub open spec fn answered(f: FakeView, request: ChatRequestView) -> (
    Seq<CoreEventView>,
    FakeView,
) {
    match pick(f.interactions, request) {
        Some(i) => (
            f.interactions[i].interaction.events,
            FakeView { interactions: after_playing(f.interactions, i), ..f },
        ),
        None => (
            match f.fallback {
                Some(events) => events,
                None => seq![no_match_event(request)],
            },
            f,
        ),
    }
}

/// A copy of events.
fn copy_events(v: &Vec<CoreEvent>) -> (r: Vec<CoreEvent>)
    ensures
        crate::events::event_views(r@) == crate::events::event_views(v@),
{
    let mut out: Vec<CoreEvent> = Vec::new();
    let mut i: usize = 0;
    while i < v.len()
        invariant
            i <= v.len(),
            out@.len() == i,
            forall|k: int| 0 <= k < i ==> (#[trigger] out@[k])@ == v@[k]@,
        decreases v.len() - i,
    {
        out.push(v[i].clone());
        i = i + 1;
    }
    assert(crate::events::event_views(out@) =~= crate::events::event_views(v@));
    out
}

/// The canned answer.
fn canned_events() -> (r: Vec<CoreEvent>)
    ensures
        crate::events::event_views(r@) == canned(),
{
    let r = vec![
        CoreEvent::Reasoning {
            text: "The user wants to see the fake provider speak. I will explain what it is and how to switch to a real model.".to_owned(),
        },
        CoreEvent::Delta { text: "This is Kaeru's fake provider, running keyless ".to_owned() },
        CoreEvent::Delta { text: "for development. ".to_owned() },
        CoreEvent::Delta {
            text: "Put a real [provider] api_key into data/config.toml, or run without --fake, to talk to an actual model.".to_owned(),
        },
        CoreEvent::TurnDone {
            usage: Some(
                Usage {
                    input_tokens: Some(21),
                    output_tokens: Some(42),
                    total_tokens: Some(63),
                },
            ),
        },
    ];
    assert(crate::events::event_views(r@) =~= canned());
    r
}

impl FakeProvider {
    /// A provider that replays a recording; what matches nothing is an error.
    pub fn from_cassette(cassette: Cassette) -> (r: FakeProvider)
        ensures
            r@ == replaying(cassette@),
    {
        let ghost all = cassette@.interactions;
        let mut interactions: Vec<Reusable> = Vec::new();
        let mut rest = cassette.interactions;
        let ghost whole = rest@;
        let ghost mut n: int = 0;
        assert(whole.skip(0) =~= whole);
        while rest.len() > 0
            invariant
                0 <= n <= whole.len(),
                rest@ == whole.skip(n),
                interactions@.len() == n,
                forall|k: int|
                    0 <= k < n ==> (#[trigger] interactions@[k]).interaction == whole[k]
                        && !interactions@[k].played,
            decreases rest@.len(),
        {
            let interaction = rest.remove(0);
            assert(rest@ =~= whole.skip(n + 1));
            interactions.push(Reusable { interaction, played: false });
            proof {
                n = n + 1;
            }
        }
        let r = FakeProvider { interactions, models: cassette.models, fallback: None };
        assert(r@.interactions =~= replaying(cassette@).interactions);
        r
    }

    /// A provider without a recording: one canned answer to every request, and a
    /// list of models.
    pub fn builtin() -> (r: FakeProvider)
        ensures
            r@ == (FakeView {
                interactions: seq![],
                models: canned_models(),
                fallback: Some(canned()),
            }),
    {
        let mut thinker = ModelInfo::new("deepseek-v4.1-flash");
        thinker.reasoning_effort_levels = vec![
            "low".to_owned(),
            "high".to_owned(),
            "xhigh".to_owned(),
        ];
        thinker.default_reasoning_effort = Some("high".to_owned());
        assert(thinker@.reasoning_effort_levels =~= seq!["low"@, "high"@, "xhigh"@]);
        let models = vec![
            ModelInfo::new("openai/gpt-4o-mini"),
            ModelInfo::new("openai/gpt-4o"),
            thinker,
            ModelInfo::new("meta-llama/llama-3.3-70b-instruct"),
            ModelInfo::new("mistralai/mistral-small"),
        ];
        assert(crate::llm::types::model_views(models@) =~= canned_models());
        let r = FakeProvider {
            interactions: Vec::new(),
            models,
            fallback: Some(canned_events()),
        };
        assert(r@.interactions =~= seq![]);
        r
    }

    /// The provider of a recording, with the canned answer to what matches
    /// nothing; the canned provider where there is no usable recording.
    pub fn load_or_builtin(loaded: Result<Cassette, ApiError>) -> (r: FakeProvider)
        ensures
            r@ == match loaded {
                Ok(c) => FakeView { fallback: Some(canned()), ..replaying(c@) },
                Err(_) => FakeView {
                    interactions: seq![],
                    models: canned_models(),
                    fallback: Some(canned()),
                },
            },
    {
        match loaded {
            Ok(c) => FakeProvider::from_cassette(c).with_fallback_builtin(),
            Err(_) => FakeProvider::builtin(),
        }
    }

    /// Answers what matches nothing with the canned answer.
    pub fn with_fallback_builtin(self) -> (r: FakeProvider)
        ensures
            r@ == (FakeView { fallback: Some(canned()), ..self@ }),
    {
        let mut provider = self;
        provider.fallback = Some(canned_events());
        provider
    }

    /// The place of the first interaction that matches.
    fn find(&self, request: &ChatRequest, fresh: bool) -> (r: usize)
        ensures
            r == first_match(self@.interactions, request@, fresh, 0),
            r <= self.interactions@.len(),
    {
        let ghost all = self@.interactions;
        let mut i: usize = 0;
        while i < self.interactions.len()
            invariant
                i <= self.interactions@.len(),
                all == crate::fields::views_of(self.interactions@),
                first_match(all, request@, fresh, 0) == first_match(all, request@, fresh, i as int),
            decreases self.interactions.len() - i,
        {
            assert(all[i as int] == self.interactions@[i as int]@);
            if equal_prompt(&self.interactions[i].interaction.request, request) && !(fresh
                && self.interactions[i].played) {
                return i;
            }
            i = i + 1;
        }
        i
    }

    /// What a request is answered.
    pub fn chat(&mut self, request: &ChatRequest) -> (r: Vec<CoreEvent>)
        ensures
            (crate::events::event_views(r@), final(self)@) == answered(old(self)@, request@),
    {
        let ghost all = self@.interactions;
        assert(all.len() == self.interactions@.len());
        let mut i = self.find(request, true);
        if i == self.interactions.len() {
            i = self.find(request, false);
        }
        if i < self.interactions.len() {
            assert(all[i as int] == self.interactions@[i as int]@);
            let events = copy_events(&self.interactions[i].interaction.events);
            let old_one = &self.interactions[i];
            let interaction = Interaction {
                request: copy_request(&old_one.interaction.request),
                events: copy_events(&old_one.interaction.events),
            };
            let played = Reusable { interaction, played: true };
            self.interactions.set(i, played);
            assert(self@.interactions =~= after_playing(all, i as int));
            return events;
        }
        match &self.fallback {
            Some(events) => copy_events(events),
            None => {
                let mut message =
                    "fake provider: no cassette interaction matches this request (model ".to_owned();
                message.append(request.model.as_str());
                message.append(", ");
                message.append(decimal_of(request.messages.len() as u64).as_str());
                message.append(" messages); re-record with --record");
                assert(request@.messages.len() == request.messages@.len());
                let r = vec![CoreEvent::error(ApiErrorKind::Internal, message.as_str())];
                assert(crate::events::event_views(r@) =~= seq![no_match_event(request@)]);
                r
            },
        }
    }

    /// The models of the recording.
    pub fn list_models(&self) -> (r: Vec<ModelInfo>)
        ensures
            crate::llm::types::model_views(r@) == self@.models,
    {
        copy_models(&self.models)
    }
}

/// A copy of models.
fn copy_models(v: &Vec<ModelInfo>) -> (r: Vec<ModelInfo>)
    ensures
        crate::llm::types::model_views(r@) == crate::llm::types::model_views(v@),
{
    let mut out: Vec<ModelInfo> = Vec::new();
    let mut i: usize = 0;
    while i < v.len()
        invariant
            i <= v.len(),
            out@.len() == i,
            forall|k: int| 0 <= k < i ==> (#[trigger] out@[k])@ == v@[k]@,
        decreases v.len() - i,
    {
        out.push(v[i].clone());
        i = i + 1;
    }
    assert(crate::llm::types::model_views(out@) =~= crate::llm::types::model_views(v@));
    out
}

/// A copy of a request.
pub fn copy_request(r: &ChatRequest) -> (c: ChatRequest)
    ensures
        c@ == r@,
{
    let mut tools: Vec<crate::json::Json> = Vec::new();
    let mut i: usize = 0;
    while i < r.tools.len()
        invariant
            i <= r.tools.len(),
            tools@.len() == i,
            forall|k: int| 0 <= k < i ==> (#[trigger] tools@[k])@ == r.tools@[k]@,
        decreases r.tools.len() - i,
    {
        tools.push(r.tools[i].copy());
        i = i + 1;
    }
    assert(crate::json::views(tools@) =~= crate::json::views(r.tools@));
    ChatRequest {
        model: r.model.clone(),
        messages: crate::llm::types::copy_messages(&r.messages),
        reasoning_effort: crate::text::copy_opt(&r.reasoning_effort),
        tools,
        max_tokens: r.max_tokens,
    }
}

/// The recording that a new interaction is added to.
pub open spec fn recording(loaded: Result<CassetteView, crate::error::ApiErrorView>, now: Option<
    u64,
>) -> CassetteView {
    match loaded {
        Ok(c) => c,
        Err(_) => CassetteView {
            recorded_at_unix: now,
            ..crate::llm::cassette::empty_cassette()
        },
    }
}

/// A recording with one more interaction.
pub open spec fn with_interaction(
    c: CassetteView,
    request: ChatRequestView,
    events: Seq<CoreEventView>,
) -> CassetteView {
    CassetteView {
        interactions: c.interactions.push(InteractionView { request: request, events: events }),
        ..c
    }
}

/// The content of a cassette that may be there.
pub open spec fn opt_cassette(o: Option<Cassette>) -> Option<CassetteView> {
    match o {
        Some(c) => Some(c@),
        None => None,
    }
}

/// The recording to be written after an interaction, given the one that was
/// there; none where nothing was heard. An interaction that broke off is kept
/// too.
pub fn record_interaction(
    loaded: Result<Cassette, ApiError>,
    now: Option<u64>,
    request: ChatRequest,
    events: Vec<CoreEvent>,
) -> (r: Option<Cassette>)
    ensures
        opt_cassette(r) == if events@.len() == 0 {
            None
        } else {
            Some(
                with_interaction(
                    recording(crate::llm::cassette::cassette_view(loaded), now),
                    request@,
                    crate::events::event_views(events@),
                ),
            )
        },
{
    if events.len() == 0 {
        return None;
    }
    let mut cassette: Cassette = match loaded {
        Ok(c) => c,
        Err(_) => {
            let mut c = Cassette::new();
            c.recorded_at_unix = now;
            c
        },
    };
    let ghost before = cassette@;
    let interaction = Interaction { request, events };
    cassette.interactions.push(interaction);
    assert(cassette@.interactions =~= before.interactions.push(interaction@));
    Some(cassette)
}

/// Whether two lists of models are equal.
fn equal_models(a: &Vec<ModelInfo>, b: &Vec<ModelInfo>) -> (r: bool)
    ensures
        r == (crate::llm::types::model_views(a@) == crate::llm::types::model_views(b@)),
{
    let ghost x = crate::llm::types::model_views(a@);
    let ghost y = crate::llm::types::model_views(b@);
    if a.len() != b.len() {
        assert(x.len() != y.len());
        return false;
    }
    let mut i: usize = 0;
    while i < a.len()
        invariant
            i <= a@.len() == b@.len(),
            x == crate::llm::types::model_views(a@),
            y == crate::llm::types::model_views(b@),
            forall|k: int| 0 <= k < i ==> x[k] == y[k],
        decreases a.len() - i,
    {
        assert(x[i as int] == a@[i as int]@);
        assert(y[i as int] == b@[i as int]@);
        if !same(a[i].id.as_str(), b[i].id.as_str()) || !equal_texts(
            &a[i].reasoning_effort_levels,
            &b[i].reasoning_effort_levels,
        ) || !same_opt(&a[i].default_reasoning_effort, &b[i].default_reasoning_effort) {
            return false;
        }
        i = i + 1;
    }
    assert(x =~= y);
    true
}

/// Whether two lists of texts are equal.
fn equal_texts(a: &Vec<String>, b: &Vec<String>) -> (r: bool)
    ensures
        r == (crate::text::texts(a@) == crate::text::texts(b@)),
{
    let ghost x = crate::text::texts(a@);
    let ghost y = crate::text::texts(b@);
    if a.len() != b.len() {
        assert(x.len() != y.len());
        return false;
    }
    let mut i: usize = 0;
    while i < a.len()
        invariant
            i <= a@.len() == b@.len(),
            x == crate::text::texts(a@),
            y == crate::text::texts(b@),
            forall|k: int| 0 <= k < i ==> x[k] == y[k],
        decreases a.len() - i,
    {
        assert(x[i as int] == a@[i as int]@);
        assert(y[i as int] == b@[i as int]@);
        if !same(a[i].as_str(), b[i].as_str()) {
            return false;
        }
        i = i + 1;
    }
    assert(x =~= y);
    true
}

/// The recording to be written after a list of models came; none where nothing
/// changes.
pub open spec fn models_recorded(
    loaded: Result<CassetteView, crate::error::ApiErrorView>,
    models: Seq<ModelInfoView>,
    base_url: Option<Seq<char>>,
) -> Option<CassetteView> {
    let c = recording(loaded, None);
    if c.models == models && (base_url is None || c.base_url == base_url) {
        None
    } else {
        Some(
            CassetteView {
                models: models,
                base_url: if base_url is Some {
                    base_url
                } else {
                    c.base_url
                },
                ..c
            },
        )
    }
}

/// The recording to be written after a list of models came: a list that is out
/// of date is replaced.
pub fn record_models(
    loaded: Result<Cassette, ApiError>,
    models: &Vec<ModelInfo>,
    base_url: Option<String>,
) -> (r: Option<Cassette>)
    ensures
        opt_cassette(r) == models_recorded(
            crate::llm::cassette::cassette_view(loaded),
            crate::llm::types::model_views(models@),
            crate::text::opt_text(base_url),
        ),
{
    let mut cassette: Cassette = match loaded {
        Ok(c) => c,
        Err(_) => Cassette::new(),
    };
    if equal_models(&cassette.models, models) && (base_url.is_none() || same_opt(
        &cassette.base_url,
        &base_url,
    )) {
        return None;
    }
    cassette.models = copy_models(models);
    if base_url.is_some() {
        cassette.base_url = base_url;
    }
    Some(cassette)
}

/// Where the first match stands.
proof fn lemma_first_match(s: Seq<ReusableView>, request: ChatRequestView, fresh: bool, from: int)
    requires
        0 <= from <= s.len(),
    ensures
        from <= first_match(s, request, fresh, from) <= s.len(),
        first_match(s, request, fresh, from) < s.len() ==> same_prompt(
            s[first_match(s, request, fresh, from)].interaction.request,
            request,
        ) && !(fresh && s[first_match(s, request, fresh, from)].played),
        forall|k: int|
            from <= k < first_match(s, request, fresh, from) ==> !same_prompt(
                (#[trigger] s[k]).interaction.request,
                request,
            ) || (fresh && s[k].played),
    decreases s.len() - from,
{
    if from < s.len() && !(same_prompt(s[from].interaction.request, request) && !(fresh
        && s[from].played)) {
        lemma_first_match(s, request, fresh, from + 1);
    }
}

/// A request that was recorded is always answered from the recording: with
/// interactions that match it, in their order, and over again once all were
/// played.
pub proof fn recorded_request_is_replayed(f: FakeView, request: ChatRequestView, i: int)
    requires
        0 <= i < f.interactions.len(),
        same_prompt(f.interactions[i].interaction.request, request),
    ensures
        pick(f.interactions, request) is Some,
        ({
            let p = pick(f.interactions, request)->Some_0;
            &&& 0 <= p < f.interactions.len()
            &&& same_prompt(f.interactions[p].interaction.request, request)
            &&& !f.interactions[i].played ==> !f.interactions[p].played && p <= i
            &&& answered(f, request).0 == f.interactions[p].interaction.events
        }),
{
    lemma_first_match(f.interactions, request, true, 0);
    lemma_first_match(f.interactions, request, false, 0);
}

/// Only the model and the messages of a request count: the tools, the reasoning
/// effort and the output cap change nothing in what is replayed.
pub proof fn settings_do_not_matter(f: FakeView, a: ChatRequestView, b: ChatRequestView)
    requires
        a.model == b.model,
        a.messages == b.messages,
    ensures
        answered(f, a) == answered(f, b),
{
    lemma_settings(f.interactions, a, b, true, 0);
    lemma_settings(f.interactions, a, b, false, 0);
}

/// Requests with the same model and messages find the same interaction.
proof fn lemma_settings(
    s: Seq<ReusableView>,
    a: ChatRequestView,
    b: ChatRequestView,
    fresh: bool,
    from: int,
)
    requires
        a.model == b.model,
        a.messages == b.messages,
    ensures
        first_match(s, a, fresh, from) == first_match(s, b, fresh, from),
    decreases s.len() - from,
{
    if 0 <= from < s.len() {
        lemma_settings(s, a, b, fresh, from + 1);
    }
}

/// The only interaction that matches a request answers it every time.
pub proof fn sole_match_is_replayed(f: FakeView, request: ChatRequestView, i: int)
    requires
        0 <= i < f.interactions.len(),
        same_prompt(f.interactions[i].interaction.request, request),
        forall|k: int|
            0 <= k < f.interactions.len() && k != i ==> !same_prompt(
                (#[trigger] f.interactions[k]).interaction.request,
                request,
            ),
    ensures
        answered(f, request).0 == f.interactions[i].interaction.events,
        answered(answered(f, request).1, request).0 == f.interactions[i].interaction.events,
{
    recorded_request_is_replayed(f, request, i);
    let g = answered(f, request).1;
    assert(pick(f.interactions, request) == Some(i));
    assert(same_prompt(g.interactions[i].interaction.request, request));
    assert forall|k: int| 0 <= k < g.interactions.len() && k != i implies !same_prompt(
        (#[trigger] g.interactions[k]).interaction.request,
        request,
    ) by {
        assert(g.interactions[k] == f.interactions[k]);
    }
    recorded_request_is_replayed(g, request, i);
}

/// What was just recorded is what a replay of the recording answers, unless an
/// earlier interaction matches too.
pub proof fn recording_is_replayed(
    c: CassetteView,
    request: ChatRequestView,
    events: Seq<CoreEventView>,
)
    requires
        forall|k: int|
            0 <= k < c.interactions.len() ==> !same_prompt(
                (#[trigger] c.interactions[k]).request,
                request,
            ),
    ensures
        answered(replaying(with_interaction(c, request, events)), request).0 == events,
{
    let f = replaying(with_interaction(c, request, events));
    let n = c.interactions.len() as int;
    request_matches_itself(request);
    assert(f.interactions[n].interaction.request == request);
    assert forall|k: int| 0 <= k < f.interactions.len() && k != n implies !same_prompt(
        (#[trigger] f.interactions[k]).interaction.request,
        request,
    ) by {
        assert(f.interactions[k].interaction == c.interactions[k]);
    }
    sole_match_is_replayed(f, request, n);
}

/// A recorded request answers no other: one for another model, with another
/// number of messages, or with a message of another role or content is not
/// matched.
pub proof fn other_request_is_not_matched(a: ChatRequestView, b: ChatRequestView, i: int)
    ensures
        a.model != b.model ==> !same_prompt(a, b),
        a.messages.len() != b.messages.len() ==> !same_prompt(a, b),
        0 <= i < a.messages.len() && i < b.messages.len() && (a.messages[i].role
            != b.messages[i].role || a.messages[i].content != b.messages[i].content) ==> !same_prompt(
            a,
            b,
        ),
{
    if 0 <= i < a.messages.len() && same_prompt(a, b) {
        assert(same_message(a.messages[i], b.messages[i]));
    }
}

/// A request that matches nothing is answered with the fallback, or with the
/// error where there is none, and nothing counts as played.
pub proof fn unknown_request_is_not_played(f: FakeView, request: ChatRequestView)
    requires
        forall|k: int|
            0 <= k < f.interactions.len() ==> !same_prompt(
                (#[trigger] f.interactions[k]).interaction.request,
                request,
            ),
    ensures
        answered(f, request).1 == f,
        match f.fallback {
            Some(events) => answered(f, request).0 == events,
            None => answered(f, request).0 == seq![no_match_event(request)],
        },
{
    lemma_first_match(f.interactions, request, true, 0);
    lemma_first_match(f.interactions, request, false, 0);
}

/// Playing changes nothing of a recording but that one interaction counts as
/// played: the one that was played.
pub proof fn playing_changes_one_mark(f: FakeView, request: ChatRequestView, k: int)
    requires
        0 <= k < f.interactions.len(),
    ensures
        ({
            let g = answered(f, request).1;
            &&& g.models == f.models
            &&& g.fallback == f.fallback
            &&& g.interactions.len() == f.interactions.len()
            &&& g.interactions[k].interaction == f.interactions[k].interaction
            &&& f.interactions[k].played ==> g.interactions[k].played
            &&& g.interactions[k].played && !f.interactions[k].played ==> answered(f, request).0
                == f.interactions[k].interaction.events && same_prompt(
                f.interactions[k].interaction.request,
                request,
            )
        }),
{
    lemma_first_match(f.interactions, request, true, 0);
    lemma_first_match(f.interactions, request, false, 0);
}

/// Two interactions for one request are played one after the other.
pub proof fn next_take_is_played_next(f: FakeView, request: ChatRequestView, i: int, j: int)
    requires
        0 <= i < j < f.interactions.len(),
        !f.interactions[i].played,
        !f.interactions[j].played,
        forall|k: int|
            0 <= k < f.interactions.len() ==> (same_prompt(
                (#[trigger] f.interactions[k]).interaction.request,
                request,
            ) <==> k == i || k == j),
    ensures
        answered(f, request).0 == f.interactions[i].interaction.events,
        answered(answered(f, request).1, request).0 == f.interactions[j].interaction.events,
{
    assert(same_prompt(f.interactions[i].interaction.request, request));
    recorded_request_is_replayed(f, request, i);
    let g = answered(f, request).1;
    assert(pick(f.interactions, request) == Some(i));
    assert(same_prompt(f.interactions[j].interaction.request, request));
    assert(g.interactions[j] == f.interactions[j]);
    recorded_request_is_replayed(g, request, j);
    let p = pick(g.interactions, request)->Some_0;
    assert(g.interactions[p].interaction == f.interactions[p].interaction);
}

/// A recording grows at its end: what was recorded before stays, and the rest of
/// it is not touched.
pub proof fn recording_grows_at_its_end(
    c: CassetteView,
    request: ChatRequestView,
    events: Seq<CoreEventView>,
)
    ensures
        ({
            let w = with_interaction(c, request, events);
            &&& w.interactions.drop_last() == c.interactions
            &&& w.interactions.last().request == request
            &&& w.interactions.last().events == events
            &&& w.models == c.models
            &&& w.base_url == c.base_url
            &&& w.cassette_version == c.cassette_version
            &&& w.recorded_at_unix == c.recorded_at_unix
        }),
{
    let w = with_interaction(c, request, events);
    assert(w.interactions.drop_last() =~= c.interactions);
}

/// A list of models is recorded as it was told, the address with it, and no
/// interaction is lost; nothing is written only where nothing changed.
pub proof fn models_are_recorded_as_told(
    c: CassetteView,
    models: Seq<ModelInfoView>,
    base_url: Option<Seq<char>>,
)
    ensures
        match models_recorded(Ok(c), models, base_url) {
            Some(w) => {
                &&& w.models == models
                &&& base_url is Some ==> w.base_url == base_url
                &&& base_url is None ==> w.base_url == c.base_url
                &&& w.interactions == c.interactions
            },
            None => c.models == models && (base_url is Some ==> c.base_url == base_url),
        },
{
}

} // verus!
