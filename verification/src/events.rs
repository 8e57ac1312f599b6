//! The events of a turn: the vocabulary that every frontend translates.

use std::collections::VecDeque;

use vstd::prelude::*;

use crate::error::ApiErrorKind;
use crate::json::{Json, JsonView};
use crate::text::{copy_opt, copy_strings};

verus! {

/// A workspace file attached to a message: an upload of the user or what a
/// tool produced. For display only.
#[derive(Debug, PartialEq, Eq)]
pub struct Artifact {
    /// Workspace-relative path with `/` separators.
    pub path: String,
    /// MIME hint from the extension, when known.
    pub mime_hint: Option<String>,
}

/// The content of an [`Artifact`].
#[verifier::ext_equal]
pub struct ArtifactView {
    pub path: Seq<char>,
    pub mime_hint: Option<Seq<char>>,
}

impl View for Artifact {
    type V = ArtifactView;

    open spec fn view(&self) -> ArtifactView {
        ArtifactView { path: self.path@, mime_hint: crate::text::opt_text(self.mime_hint) }
    }
}

impl Clone for Artifact {
    fn clone(&self) -> (r: Self)
        ensures
            r@ == self@,
    {
        Artifact { path: self.path.clone(), mime_hint: copy_opt(&self.mime_hint) }
    }
}

impl Artifact {
    /// The file at `path`.
    pub fn new(path: &str, mime_hint: Option<&str>) -> (r: Artifact)
        ensures
            r.path@ == path@,
            r.mime_hint is Some <==> mime_hint is Some,
            r.mime_hint matches Some(m) ==> m@ == mime_hint->0@,
    {
        let hint: Option<String> = match mime_hint {
            Some(m) => Some(m.to_owned()),
            None => None,
        };
        Artifact { path: path.to_owned(), mime_hint: hint }
    }
}

/// The contents of a list of artifacts.
pub open spec fn artifact_views(v: Seq<Artifact>) -> Seq<ArtifactView> {
    v.map_values(|a: Artifact| a@)
}

/// A copy of a list of artifacts.
pub fn copy_artifacts(v: &Vec<Artifact>) -> (r: Vec<Artifact>)
    ensures
        artifact_views(r@) == artifact_views(v@),
{
    let mut out: Vec<Artifact> = Vec::new();
    let mut i: usize = 0;
    while i < v.len()
        invariant
            i <= v.len(),
            out@.len() == i,
            forall|k: int| 0 <= k < i ==> (#[trigger] out@[k])@ == v@[k]@,
        decreases v.len() - i,
    {
        out.push(v[i].clone());
        i = i + 1;
    }
    assert(artifact_views(out@) =~= artifact_views(v@));
    out
}

/// What a consent card asks for.
#[derive(Debug, PartialEq, Eq)]
pub enum ApprovalKind {
    /// Persist a memory entry.
    MemoryWrite { path: String },
    /// Install Python packages from the configured index.
    PackageInstall { packages: Vec<String> },
    /// Grant network access inside the sandbox.
    NetworkAccess { reason: String },
}

/// The content of an [`ApprovalKind`].
#[verifier::ext_equal]
pub enum ApprovalKindView {
    MemoryWrite { path: Seq<char> },
    PackageInstall { packages: Seq<Seq<char>> },
    NetworkAccess { reason: Seq<char> },
}

impl View for ApprovalKind {
    type V = ApprovalKindView;

    open spec fn view(&self) -> ApprovalKindView {
        match self {
            ApprovalKind::MemoryWrite { path } => ApprovalKindView::MemoryWrite { path: path@ },
            ApprovalKind::PackageInstall { packages } => ApprovalKindView::PackageInstall {
                packages: crate::text::texts(packages@),
            },
            ApprovalKind::NetworkAccess { reason } => ApprovalKindView::NetworkAccess {
                reason: reason@,
            },
        }
    }
}

impl Clone for ApprovalKind {
    fn clone(&self) -> (r: Self)
        ensures
            r@ == self@,
    {
        match self {
            ApprovalKind::MemoryWrite { path } => ApprovalKind::MemoryWrite { path: path.clone() },
            ApprovalKind::PackageInstall { packages } => ApprovalKind::PackageInstall {
                packages: copy_strings(packages),
            },
            ApprovalKind::NetworkAccess { reason } => ApprovalKind::NetworkAccess {
                reason: reason.clone(),
            },
        }
    }
}

/// A decision of the user on an approval request.
#[derive(Debug, Clone, Copy, PartialEq, Eq, Structural)]
pub enum Decision {
    Allow,
    Deny,
}

/// The risk of a tool call; a risky one carries what the consent card asks for.
#[derive(Debug, PartialEq, Eq)]
pub enum Risk {
    Safe,
    NeedsApproval(ApprovalKind),
}

/// The content of a [`Risk`].
#[verifier::ext_equal]
pub enum RiskView {
    Safe,
    NeedsApproval(ApprovalKindView),
}

impl View for Risk {
    type V = RiskView;

    open spec fn view(&self) -> RiskView {
        match self {
            Risk::Safe => RiskView::Safe,
            Risk::NeedsApproval(kind) => RiskView::NeedsApproval(kind@),
        }
    }
}

/// Decides on approval requests.
pub trait ApprovalSink {
    /// Asks for consent.
    fn request(&self, kind: ApprovalKind, summary: String) -> Decision;
}

/// A sink that approves nothing.
pub struct DenyAll;

impl ApprovalSink for DenyAll {
    fn request(&self, _kind: ApprovalKind, _summary: String) -> (r: Decision)
        ensures
            r == Decision::Deny,
    {
        Decision::Deny
    }
}

/// Token usage as reported by the provider.
#[derive(Debug, Clone, Copy, PartialEq, Eq, Structural)]
pub struct Usage {
    pub input_tokens: Option<u64>,
    pub output_tokens: Option<u64>,
    pub total_tokens: Option<u64>,
}

impl Default for Usage {
    fn default() -> (r: Usage)
        ensures
            r == no_usage(),
    {
        Usage { input_tokens: None, output_tokens: None, total_tokens: None }
    }
}

/// A usage report without any field.
pub open spec fn no_usage() -> Usage {
    Usage { input_tokens: None, output_tokens: None, total_tokens: None }
}

/// The count of a field, 0 where it is missing.
pub open spec fn count_of(o: Option<u64>) -> u64 {
    match o {
        Some(n) => n,
        None => 0,
    }
}

/// The sum of two counts in 64 bits; what does not fit wraps around.
pub open spec fn count_sum(a: Option<u64>, b: Option<u64>) -> u64 {
    let sum = count_of(a) + count_of(b);
    if sum > u64::MAX {
        (sum - 0x1_0000_0000_0000_0000) as u64
    } else {
        sum as u64
    }
}

/// Two reports added field by field.
pub open spec fn usage_sum(a: Usage, b: Usage) -> Usage {
    Usage {
        input_tokens: Some(count_sum(a.input_tokens, b.input_tokens)),
        output_tokens: Some(count_sum(a.output_tokens, b.output_tokens)),
        total_tokens: Some(count_sum(a.total_tokens, b.total_tokens)),
    }
}

fn count(o: Option<u64>) -> (r: u64)
    ensures
        r == count_of(o),
{
    match o {
        Some(n) => n,
        None => 0,
    }
}

impl Usage {
    /// Accumulates another report into this one. A field that a provider omits
    /// counts as 0: a missing report does not erase what was accumulated.
    pub fn add(&mut self, other: &Usage)
        ensures
            *final(self) == usage_sum(*old(self), *other),
    {
        self.input_tokens = Some(count(self.input_tokens).wrapping_add(count(other.input_tokens)));
        self.output_tokens = Some(
            count(self.output_tokens).wrapping_add(count(other.output_tokens)),
        );
        self.total_tokens = Some(count(self.total_tokens).wrapping_add(count(other.total_tokens)));
    }
}

/// A report that omits every field changes no total, and sums that fit in 64
/// bits are exact.
pub proof fn missing_usage_keeps_totals(a: Usage, b: Usage)
    ensures
        count_of(usage_sum(a, no_usage()).input_tokens) == count_of(a.input_tokens),
        count_of(usage_sum(a, no_usage()).output_tokens) == count_of(a.output_tokens),
        count_of(usage_sum(a, no_usage()).total_tokens) == count_of(a.total_tokens),
        count_of(a.total_tokens) + count_of(b.total_tokens) <= u64::MAX ==> count_of(
            usage_sum(a, b).total_tokens,
        ) == count_of(a.total_tokens) + count_of(b.total_tokens),
        count_of(a.input_tokens) + count_of(b.input_tokens) <= u64::MAX ==> count_of(
            usage_sum(a, b).input_tokens,
        ) == count_of(a.input_tokens) + count_of(b.input_tokens),
        count_of(a.output_tokens) + count_of(b.output_tokens) <= u64::MAX ==> count_of(
            usage_sum(a, b).output_tokens,
        ) == count_of(a.output_tokens) + count_of(b.output_tokens),
{
}

/// Normalized events of a turn.
#[allow(inconsistent_fields)]
#[derive(Debug, PartialEq, Eq)]
pub enum CoreEvent {
    /// One incremental chunk of assistant text.
    Delta { text: String },
    /// One incremental chunk of model thinking.
    Reasoning { text: String },
    /// The model requested a tool call.
    ToolCall { id: String, name: String, input: Json },
    /// A tool finished; `output` is the fenced result the model will see.
    ToolResult { id: String, name: String, output: String, is_error: bool },
    /// A workspace file surfaced for display or download.
    Artifact { path: String, mime_hint: Option<String> },
    /// A risky action needs an explicit decision.
    ApprovalRequest { id: String, kind: ApprovalKind, summary: String },
    /// Terminal success event of a turn.
    TurnDone { usage: Option<Usage> },
    /// Terminal failure event of a turn.
    Error { kind: ApiErrorKind, message: String },
}

/// The content of a [`CoreEvent`].
#[allow(inconsistent_fields)]
#[verifier::ext_equal]
pub enum CoreEventView {
    Delta { text: Seq<char> },
    Reasoning { text: Seq<char> },
    ToolCall { id: Seq<char>, name: Seq<char>, input: JsonView },
    ToolResult { id: Seq<char>, name: Seq<char>, output: Seq<char>, is_error: bool },
    Artifact { path: Seq<char>, mime_hint: Option<Seq<char>> },
    ApprovalRequest { id: Seq<char>, kind: ApprovalKindView, summary: Seq<char> },
    TurnDone { usage: Option<Usage> },
    Error { kind: ApiErrorKind, message: Seq<char> },
}

impl View for CoreEvent {
    type V = CoreEventView;

    open spec fn view(&self) -> CoreEventView {
        match self {
            CoreEvent::Delta { text } => CoreEventView::Delta { text: text@ },
            CoreEvent::Reasoning { text } => CoreEventView::Reasoning { text: text@ },
            CoreEvent::ToolCall { id, name, input } => CoreEventView::ToolCall {
                id: id@,
                name: name@,
                input: input@,
            },
            CoreEvent::ToolResult { id, name, output, is_error } => CoreEventView::ToolResult {
                id: id@,
                name: name@,
                output: output@,
                is_error: *is_error,
            },
            CoreEvent::Artifact { path, mime_hint } => CoreEventView::Artifact {
                path: path@,
                mime_hint: crate::text::opt_text(*mime_hint),
            },
            CoreEvent::ApprovalRequest { id, kind, summary } => CoreEventView::ApprovalRequest {
                id: id@,
                kind: kind@,
                summary: summary@,
            },
            CoreEvent::TurnDone { usage } => CoreEventView::TurnDone { usage: *usage },
            CoreEvent::Error { kind, message } => CoreEventView::Error {
                kind: *kind,
                message: message@,
            },
        }
    }
}

impl Clone for CoreEvent {
    fn clone(&self) -> (r: Self)
        ensures
            r@ == self@,
    {
        match self {
            CoreEvent::Delta { text } => CoreEvent::Delta { text: text.clone() },
            CoreEvent::Reasoning { text } => CoreEvent::Reasoning { text: text.clone() },
            CoreEvent::ToolCall { id, name, input } => CoreEvent::ToolCall {
                id: id.clone(),
                name: name.clone(),
                input: input.copy(),
            },
            CoreEvent::ToolResult { id, name, output, is_error } => CoreEvent::ToolResult {
                id: id.clone(),
                name: name.clone(),
                output: output.clone(),
                is_error: *is_error,
            },
            CoreEvent::Artifact { path, mime_hint } => CoreEvent::Artifact {
                path: path.clone(),
                mime_hint: copy_opt(mime_hint),
            },
            CoreEvent::ApprovalRequest { id, kind, summary } => CoreEvent::ApprovalRequest {
                id: id.clone(),
                kind: kind.clone(),
                summary: summary.clone(),
            },
            CoreEvent::TurnDone { usage } => CoreEvent::TurnDone { usage: *usage },
            CoreEvent::Error { kind, message } => CoreEvent::Error {
                kind: *kind,
                message: message.clone(),
            },
        }
    }
}

/// The name of an event on the wire.
pub open spec fn name_of_event(e: CoreEventView) -> Seq<char> {
    match e {
        CoreEventView::Delta { .. } => "delta"@,
        CoreEventView::Reasoning { .. } => "reasoning"@,
        CoreEventView::ToolCall { .. } => "tool_call"@,
        CoreEventView::ToolResult { .. } => "tool_result"@,
        CoreEventView::Artifact { .. } => "artifact"@,
        CoreEventView::ApprovalRequest { .. } => "approval_request"@,
        CoreEventView::TurnDone { .. } => "turn_done"@,
        CoreEventView::Error { .. } => "error"@,
    }
}

/// Whether an event ends its turn.
pub open spec fn is_terminal(e: CoreEventView) -> bool {
    e is TurnDone || e is Error
}

/// The contents of a list of events.
pub open spec fn event_views(v: Seq<CoreEvent>) -> Seq<CoreEventView> {
    v.map_values(|e: CoreEvent| e@)
}

/// The failure event of a category with a message.
pub open spec fn error_event(kind: ApiErrorKind, message: Seq<char>) -> CoreEventView {
    CoreEventView::Error { kind: kind, message: message }
}

impl CoreEvent {
    /// Event name used on the wire.
    pub fn event_name(&self) -> (r: &'static str)
        ensures
            r@ == name_of_event(self@),
    {
        match self {
            CoreEvent::Delta { .. } => "delta",
            CoreEvent::Reasoning { .. } => "reasoning",
            CoreEvent::ToolCall { .. } => "tool_call",
            CoreEvent::ToolResult { .. } => "tool_result",
            CoreEvent::Artifact { .. } => "artifact",
            CoreEvent::ApprovalRequest { .. } => "approval_request",
            CoreEvent::TurnDone { .. } => "turn_done",
            CoreEvent::Error { .. } => "error",
        }
    }

    /// The failure event of a category with a message.
    pub fn error(kind: ApiErrorKind, message: &str) -> (r: CoreEvent)
        ensures
            r@ == error_event(kind, message@),
    {
        CoreEvent::Error { kind, message: message.to_owned() }
    }

    /// The event form of an [`Artifact`].
    pub fn artifact(artifact: &Artifact) -> (r: CoreEvent)
        ensures
            r@ == (CoreEventView::Artifact {
                path: artifact@.path,
                mime_hint: artifact@.mime_hint,
            }),
    {
        CoreEvent::Artifact {
            path: artifact.path.clone(),
            mime_hint: copy_opt(&artifact.mime_hint),
        }
    }
}

/// How many events of an active turn are kept for replay.
pub const TURN_BUFFER_CAPACITY: usize = 4096;

/// The last `n` elements of `s`.
pub open spec fn newest<T>(s: Seq<T>, n: int) -> Seq<T> {
    if s.len() <= n {
        s
    } else {
        s.skip(s.len() - n)
    }
}

/// The events of the active turn that a reconnecting subscriber gets first.
#[derive(Debug)]
pub struct TurnBuffer {
    events: VecDeque<CoreEvent>,
}

impl View for TurnBuffer {
    type V = Seq<CoreEventView>;

    closed spec fn view(&self) -> Seq<CoreEventView> {
        event_views(self.events@)
    }
}

/// What a buffer holds after the events `more`, one after the other.
pub open spec fn buffered(start: Seq<CoreEventView>, more: Seq<CoreEventView>) -> Seq<CoreEventView>
    decreases more.len(),
{
    if more.len() == 0 {
        start
    } else {
        newest(buffered(start, more.drop_last()).push(more.last()), TURN_BUFFER_CAPACITY as int)
    }
}

/// A turn's buffer holds the newest events of the turn, in their order, and
/// never more than its capacity.
pub proof fn buffer_keeps_the_newest(more: Seq<CoreEventView>)
    ensures
        buffered(Seq::empty(), more) == newest(more, TURN_BUFFER_CAPACITY as int),
        buffered(Seq::empty(), more).len() <= TURN_BUFFER_CAPACITY,
    decreases more.len(),
{
    if more.len() > 0 {
        buffer_keeps_the_newest(more.drop_last());
        assert(newest(
            newest(more.drop_last(), TURN_BUFFER_CAPACITY as int).push(more.last()),
            TURN_BUFFER_CAPACITY as int,
        ) =~= newest(more, TURN_BUFFER_CAPACITY as int));
    }
}

impl TurnBuffer {
    /// An empty buffer.
    pub fn new() -> (r: TurnBuffer)
        ensures
            r@ == Seq::<CoreEventView>::empty(),
    {
        let r = TurnBuffer { events: VecDeque::new() };
        assert(r@ =~= Seq::<CoreEventView>::empty());
        r
    }

    /// Adds an event; the oldest ones beyond the capacity leave.
    pub fn push(&mut self, event: CoreEvent)
        ensures
            final(self)@ == newest(old(self)@.push(event@), TURN_BUFFER_CAPACITY as int),
    {
        let ghost all = old(self)@.push(event@);
        self.events.push_back(event);
        assert(self@ =~= all);
        assert(all.skip(0) == all);
        while self.events.len() > TURN_BUFFER_CAPACITY
            invariant
                self@.len() <= all.len(),
                self@ == all.skip(all.len() - self@.len()),
                self@.len() < all.len() ==> self@.len() >= TURN_BUFFER_CAPACITY,
                self@.len() == self.events@.len(),
            decreases self.events@.len(),
        {
            let ghost before = self@;
            let _ = self.events.pop_front();
            assert(self@ =~= before.skip(1));
            assert(before.skip(1) =~= all.skip(all.len() - self@.len()));
        }
    }

    /// The buffered events, oldest first.
    pub fn snapshot(&self) -> (r: Vec<CoreEvent>)
        ensures
            event_views(r@) == self@,
    {
        let mut out: Vec<CoreEvent> = Vec::new();
        let mut i: usize = 0;
        while i < self.events.len()
            invariant
                i <= self.events@.len(),
                out@.len() == i,
                forall|k: int| 0 <= k < i ==> (#[trigger] out@[k])@ == self.events@[k]@,
            decreases self.events@.len() - i,
        {
            out.push(self.events[i].clone());
            i = i + 1;
        }
        assert(event_views(out@) =~= self@);
        out
    }
}

/// What the live half of a subscription yields.
#[derive(Debug)]
pub enum LiveItem {
    /// The next event.
    Event(CoreEvent),
    /// Events were lost before the subscriber asked for them.
    Lagged(u64),
    /// The turn has ended.
    Closed,
    /// Nothing yet.
    Pending,
}

/// What a subscriber gets from one poll.
#[derive(Debug)]
pub enum Polled {
    /// The next event.
    Event(CoreEvent),
    /// The stream has ended.
    Ended,
    /// Nothing yet.
    Pending,
}

/// Why a subscriber receives no event.
#[derive(Debug, Clone, Copy, PartialEq, Eq, Structural)]
pub enum RecvError {
    /// Events were lost; the subscriber may go on.
    Lagged(u64),
    /// The stream has ended.
    Closed,
}

/// A subscription with bounded replay: the buffered events of the active turn
/// first, then the live ones. Without a live source and without a buffer it is
/// already closed.
#[derive(Debug)]
pub struct EventStream {
    replay: VecDeque<CoreEvent>,
    live: bool,
}

impl EventStream {
    /// The events still to be replayed.
    pub closed spec fn pending(&self) -> Seq<CoreEventView> {
        event_views(self.replay@)
    }

    /// Whether a live source follows the replay.
    pub closed spec fn follows(&self) -> bool {
        self.live
    }

    /// A stream that replays `replay` first, then follows the live source.
    pub fn replay(replay: Vec<CoreEvent>) -> (r: EventStream)
        ensures
            r.pending() == event_views(replay@),
            r.follows(),
    {
        let ghost all = replay@;
        let mut queue: VecDeque<CoreEvent> = VecDeque::new();
        let mut rest = replay;
        while rest.len() > 0
            invariant
                rest@.len() + queue@.len() == all.len(),
                forall|k: int| 0 <= k < rest@.len() ==> rest@[k] == all[k],
                forall|k: int| 0 <= k < queue@.len() ==> queue@[k] == all[k + rest@.len()],
            decreases rest@.len(),
        {
            let event = rest.pop().unwrap();
            queue.push_front(event);
        }
        let r = EventStream { replay: queue, live: true };
        assert(r.pending() =~= event_views(all));
        r
    }

    /// A stream without replay.
    pub fn live() -> (r: EventStream)
        ensures
            r.pending() == Seq::<CoreEventView>::empty(),
            r.follows(),
    {
        let r = EventStream { replay: VecDeque::new(), live: true };
        assert(r.pending() =~= Seq::<CoreEventView>::empty());
        r
    }

    /// A stream that has already ended.
    pub fn closed() -> (r: EventStream)
        ensures
            r.pending() == Seq::<CoreEventView>::empty(),
            !r.follows(),
    {
        let r = EventStream { replay: VecDeque::new(), live: false };
        assert(r.pending() =~= Seq::<CoreEventView>::empty());
        r
    }

    /// The next event of the replay.
    pub fn next_replayed(&mut self) -> (r: Option<CoreEvent>)
        ensures
            final(self).follows() == old(self).follows(),
            r is None <==> old(self).pending().len() == 0,
            r is None ==> final(self).pending() == old(self).pending(),
            r matches Some(e) ==> e@ == old(self).pending()[0] && final(self).pending() == old(
                self,
            ).pending().skip(1),
    {
        let r = self.replay.pop_front();
        proof {
            if r is Some {
                assert(self.pending() =~= old(self).pending().skip(1));
            } else {
                assert(self.pending() =~= old(self).pending());
            }
        }
        r
    }

    /// Whether the live source is to be asked.
    pub fn is_live(&self) -> (r: bool)
        ensures
            r == self.follows(),
    {
        self.live
    }

    /// What a subscriber polls once the replay is over, given what the live
    /// source yields. One that lagged may have missed any event, so the stream
    /// ends and a new subscription replays the buffer.
    pub fn poll_live(&mut self, item: LiveItem) -> (r: Polled)
        ensures
            final(self).pending() == old(self).pending(),
            final(self).follows() == (old(self).follows() && !(item is Lagged)),
            !old(self).follows() ==> r is Ended,
            old(self).follows() ==> match item {
                LiveItem::Event(e) => r matches Polled::Event(x) && x == e,
                LiveItem::Lagged(_) => r is Ended,
                LiveItem::Closed => r is Ended,
                LiveItem::Pending => r is Pending,
            },
    {
        let was = self.live;
        match item {
            LiveItem::Event(e) => if was {
                Polled::Event(e)
            } else {
                Polled::Ended
            },
            LiveItem::Lagged(_) => {
                self.live = false;
                Polled::Ended
            },
            LiveItem::Closed => Polled::Ended,
            LiveItem::Pending => if was {
                Polled::Pending
            } else {
                Polled::Ended
            },
        }
    }

    /// What a subscriber receives once the replay is over, given what the live
    /// source yields; `None` while it yields nothing.
    pub fn receive_live(&self, item: LiveItem) -> (r: Option<Result<CoreEvent, RecvError>>)
        ensures
            !self.follows() ==> (r matches Some(Err(e)) && e == RecvError::Closed),
            self.follows() ==> match item {
                LiveItem::Event(x) => r matches Some(Ok(y)) && y == x,
                LiveItem::Lagged(n) => r matches Some(Err(e)) && e == RecvError::Lagged(n),
                LiveItem::Closed => r matches Some(Err(e)) && e == RecvError::Closed,
                LiveItem::Pending => r is None,
            },
    {
        if !self.live {
            return Some(Err(RecvError::Closed));
        }
        match item {
            LiveItem::Event(e) => Some(Ok(e)),
            LiveItem::Lagged(n) => Some(Err(RecvError::Lagged(n))),
            LiveItem::Closed => Some(Err(RecvError::Closed)),
            LiveItem::Pending => None,
        }
    }
}

/// A subscriber who comes late misses nothing of a turn that fits, and of a
/// longer one only the oldest events: what is kept is the end of the turn.
pub proof fn end_of_the_turn_is_replayed(more: Seq<CoreEventView>)
    ensures
        ({
            let kept = buffered(Seq::empty(), more);
            &&& kept.len() == if more.len() <= TURN_BUFFER_CAPACITY {
                more.len() as int
            } else {
                TURN_BUFFER_CAPACITY as int
            }
            &&& more.skip(more.len() - kept.len()) == kept
        }),
{
    buffer_keeps_the_newest(more);
    assert(more.skip(0) =~= more);
}

} // verus!
