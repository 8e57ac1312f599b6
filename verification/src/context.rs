//! The context budget: a fixed pipeline assembles every prompt. What does not
//! fit leaves the window from its oldest end and is folded into a rolling
//! summary; the turn always goes through.

use vstd::prelude::*;

use crate::events::{CoreEvent, CoreEventView, Usage};
use crate::llm::collect::{read_reply, ReplyEnd, ReplyEndView};
use crate::llm::types::{ChatMessage, ChatMessageView, ChatRequest, ChatRequestView, Role};
use crate::text::{byte_count, empty, trimmed, truncate_chars};

verus! {

/// Bytes that count as one token.
pub const CHARS_PER_TOKEN: u64 = 4;

/// Upper bound for stored summaries.
pub const SUMMARY_MAX_CHARS: usize = 4000;

/// Upper bound for the excerpt that stands in for a summary.
pub const FALLBACK_EXCERPT_CHARS: usize = 2000;

/// Budget for the assembled prompt, in estimated tokens.
#[derive(Debug, Clone, Copy, PartialEq, Eq, Structural)]
pub struct ContextPolicy {
    pub max_prompt_tokens: u64,
}

/// The estimated token count of a text.
pub open spec fn estimate(text: Seq<char>) -> nat {
    (crate::text::byte_len(text) + 3) / 4
}

/// The estimated token count of an optional text; an empty one costs nothing.
pub open spec fn opt_estimate(text: Option<Seq<char>>) -> nat {
    match text {
        Some(t) => estimate(t),
        None => 0,
    }
}

impl ContextPolicy {
    /// Rough token count of a text: a quarter of its bytes, rounded up.
    pub fn estimate_tokens(text: &str) -> (r: u64)
        ensures
            r == estimate(text@),
    {
        let n: u64 = byte_count(text) as u64;
        if n % CHARS_PER_TOKEN == 0 {
            n / CHARS_PER_TOKEN
        } else {
            n / CHARS_PER_TOKEN + 1
        }
    }
}

/// The cost of the messages from `k` on.
pub open spec fn tail_cost(h: Seq<ChatMessageView>, k: int) -> nat
    decreases h.len() - k,
{
    if k < 0 || k >= h.len() {
        0
    } else {
        estimate(h[k].content) + tail_cost(h, k + 1)
    }
}

/// How far the window reaches back from `k`: as long as all of it fits. The
/// last message always belongs to it.
pub open spec fn reach(h: Seq<ChatMessageView>, budget: nat, k: int) -> int
    decreases k,
{
    if k <= 0 {
        0
    } else if k < h.len() && tail_cost(h, k - 1) > budget {
        k
    } else {
        reach(h, budget, k - 1)
    }
}

/// The first user message from `k` on; the last message where there is none.
pub open spec fn user_from(h: Seq<ChatMessageView>, k: int) -> int
    decreases h.len() - k,
{
    if k >= h.len() {
        if h.len() > 0 {
            h.len() - 1
        } else {
            0
        }
    } else if k < 0 || h[k].role == Role::User {
        k
    } else {
        user_from(h, k + 1)
    }
}

/// What is left of the budget for the window.
pub open spec fn window_budget(policy: ContextPolicy, summary: Option<Seq<char>>, injected: u64) -> nat {
    let left = policy.max_prompt_tokens - opt_estimate(summary) - injected;
    if left > 0 {
        left as nat
    } else {
        0
    }
}

/// Where the window starts.
pub open spec fn window_start(h: Seq<ChatMessageView>, budget: nat) -> int {
    user_from(h, reach(h, budget, h.len() as int))
}

/// Everything from the reach on fits, unless it is the last message alone.
proof fn lemma_reach(h: Seq<ChatMessageView>, budget: nat, k: int)
    requires
        0 <= k <= h.len(),
        k == h.len() || k == h.len() - 1 || tail_cost(h, k) <= budget,
    ensures
        0 <= reach(h, budget, k) <= k,
        h.len() > 0 ==> reach(h, budget, k) < h.len(),
        tail_cost(h, reach(h, budget, k)) <= budget || reach(h, budget, k) >= h.len() - 1,
        reach(h, budget, k) > 0 ==> tail_cost(h, reach(h, budget, k) - 1) > budget,
    decreases k,
{
    if k > 0 && !(k < h.len() && tail_cost(h, k - 1) > budget) {
        lemma_reach(h, budget, k - 1);
    }
}

/// A shorter tail costs no more.
proof fn lemma_tail_shrinks(h: Seq<ChatMessageView>, i: int, k: int)
    requires
        0 <= i <= k,
    ensures
        tail_cost(h, k) <= tail_cost(h, i),
    decreases k - i,
{
    if i < k && i < h.len() {
        lemma_tail_shrinks(h, i + 1, k);
    }
}

/// Where alignment to a user message ends.
proof fn lemma_user_from(h: Seq<ChatMessageView>, k: int)
    requires
        0 <= k <= h.len(),
    ensures
        h.len() > 0 ==> 0 <= user_from(h, k) < h.len(),
        h.len() == 0 ==> user_from(h, k) == 0,
        h.len() > 0 ==> h[user_from(h, k)].role == Role::User || user_from(h, k) == h.len() - 1,
        k < h.len() ==> k <= user_from(h, k),
    decreases h.len() - k,
{
    if k < h.len() && h[k].role != Role::User {
        lemma_user_from(h, k + 1);
    }
}

/// What the split of a history guarantees: the window is never empty, it ends
/// with the newest message, it starts at a user message unless only the newest
/// message is left, and it fits the budget unless it is one message alone.
pub proof fn window_is_sound(h: Seq<ChatMessageView>, budget: nat)
    requires
        h.len() > 0,
    ensures
        0 <= window_start(h, budget) < h.len(),
        h.take(window_start(h, budget)) + h.skip(window_start(h, budget)) == h,
        h.skip(window_start(h, budget)).last() == h.last(),
        h.skip(window_start(h, budget))[0].role == Role::User || h.skip(
            window_start(h, budget),
        ).len() == 1,
        tail_cost(h, window_start(h, budget)) <= budget || h.skip(
            window_start(h, budget),
        ).len() == 1,
{
    let k = reach(h, budget, h.len() as int);
    lemma_reach(h, budget, h.len() as int);
    lemma_user_from(h, k);
    let w = window_start(h, budget);
    lemma_tail_shrinks(h, k, w);
    assert(h.take(w) + h.skip(w) =~= h);
}

/// A history that fits the budget and starts at a user message is kept whole.
pub proof fn fitting_history_is_kept(h: Seq<ChatMessageView>, budget: nat)
    requires
        h.len() > 0,
        h[0].role == Role::User,
        tail_cost(h, 0) <= budget,
    ensures
        window_start(h, budget) == 0,
{
    lemma_reach(h, budget, h.len() as int);
    let k = reach(h, budget, h.len() as int);
    if k > 0 {
        lemma_tail_shrinks(h, 0, k - 1);
    }
}

/// The messages `v[from..to]`.
fn copy_range(v: &Vec<ChatMessage>, from: usize, to: usize) -> (r: Vec<ChatMessage>)
    requires
        from <= to <= v@.len(),
    ensures
        crate::llm::types::message_views(r@) == crate::llm::types::message_views(v@).subrange(
            from as int,
            to as int,
        ),
{
    let mut out: Vec<ChatMessage> = Vec::new();
    let mut i: usize = from;
    while i < to
        invariant
            from <= i <= to <= v@.len(),
            out@.len() == i - from,
            forall|k: int| 0 <= k < out@.len() ==> (#[trigger] out@[k])@ == v@[k + from]@,
        decreases to - i,
    {
        out.push(v[i].clone());
        i = i + 1;
    }
    assert(crate::llm::types::message_views(out@) =~= crate::llm::types::message_views(
        v@,
    ).subrange(from as int, to as int));
    out
}

/// Splits a history into the window and what is dropped, under the budget that
/// the summary and the fixed blocks leave.
pub fn split_window(
    policy: ContextPolicy,
    summary: Option<&str>,
    injected_tokens: u64,
    history: &Vec<ChatMessage>,
) -> (r: (Vec<ChatMessage>, Vec<ChatMessage>))
    ensures
        ({
            let h = crate::llm::types::message_views(history@);
            let w = window_start(h, window_budget(policy, opt_str(summary), injected_tokens));
            &&& crate::llm::types::message_views(r.0@) == h.skip(w)
            &&& crate::llm::types::message_views(r.1@) == h.take(w)
        }),
{
    let ghost h = crate::llm::types::message_views(history@);
    let summary_tokens: u64 = match summary {
        Some(s) => ContextPolicy::estimate_tokens(s),
        None => 0,
    };
    let fixed: u64 = summary_tokens.saturating_add(injected_tokens);
    let budget: u64 = policy.max_prompt_tokens.saturating_sub(fixed);
    let ghost b = window_budget(policy, opt_str(summary), injected_tokens);
    assert(budget == b);
    let n: usize = history.len();
    let mut start: usize = n;
    let mut used: u64 = 0;
    let mut over: bool = false;
    let mut stop: bool = false;
    while start > 0 && !stop
        invariant
            n == history.len(),
            start <= n,
            h == crate::llm::types::message_views(history@),
            budget == b,
            over ==> start == n - 1 && tail_cost(h, start as int) > budget,
            !over ==> used == tail_cost(h, start as int) && used <= budget,
            stop ==> reach(h, b, start as int) == start,
            reach(h, b, n as int) == reach(h, b, start as int),
        decreases start + (if stop { 0int } else { 1int }),
    {
        let cost: u64 = ContextPolicy::estimate_tokens(history[start - 1].content.as_str());
        assert(h[start - 1].content == history@[start - 1].content@);
        assert(tail_cost(h, start - 1) == cost + tail_cost(h, start as int));
        let fits: bool = !over && cost <= budget && used <= budget - cost;
        if start < n && !fits {
            stop = true;
        } else {
            if fits {
                used = used + cost;
            } else {
                over = true;
            }
            start = start - 1;
        }
    }
    assert(reach(h, b, n as int) == start);
    let mut w: usize = start;
    while w < n && history[w].role != Role::User
        invariant
            n == history.len(),
            start <= w <= n,
            h == crate::llm::types::message_views(history@),
            user_from(h, start as int) == user_from(h, w as int),
        decreases n - w,
    {
        assert(h[w as int].role == history@[w as int].role);
        w = w + 1;
    }
    if w >= n && n > 0 {
        w = n - 1;
    }
    assert(w < n ==> h[w as int].role == history@[w as int].role);
    assert(w == window_start(h, b));
    let window = copy_range(history, w, n);
    let dropped = copy_range(history, 0, w);
    assert(h.subrange(w as int, n as int) =~= h.skip(w as int));
    assert(h.subrange(0, w as int) =~= h.take(w as int));
    (window, dropped)
}

/// The text of an optional string slice; an empty one counts as none.
pub open spec fn opt_str(o: Option<&str>) -> Option<Seq<char>> {
    match o {
        Some(s) => if s@.len() == 0 {
            None
        } else {
            Some(s@)
        },
        None => None,
    }
}

/// A system message for a text that is there.
pub open spec fn system_block(prefix: Seq<char>, o: Option<Seq<char>>) -> Seq<ChatMessageView> {
    match o {
        Some(s) => seq![crate::llm::types::message(Role::System, prefix + s)],
        None => seq![],
    }
}

/// What stands before the summary in a prompt.
pub open spec fn summary_intro() -> Seq<char> {
    "Summary of the earlier part of this conversation (older turns were compacted):\n"@
}

/// The messages of a prompt: system prompt, memory, summary, window.
pub open spec fn prompt(
    system: Option<Seq<char>>,
    memory: Option<Seq<char>>,
    summary: Option<Seq<char>>,
    window: Seq<ChatMessageView>,
) -> Seq<ChatMessageView> {
    system_block(seq![], system) + system_block(seq![], memory) + system_block(
        summary_intro(),
        summary,
    ) + window
}

/// Assembles the messages of a prompt in their fixed order; empty pieces are
/// left out.
pub fn assemble(
    system: Option<&str>,
    memory: Option<&str>,
    summary: Option<&str>,
    window: &Vec<ChatMessage>,
) -> (r: Vec<ChatMessage>)
    ensures
        crate::llm::types::message_views(r@) == prompt(
            opt_str(system),
            opt_str(memory),
            opt_str(summary),
            crate::llm::types::message_views(window@),
        ),
{
    let mut out: Vec<ChatMessage> = Vec::new();
    let ghost one = system_block(seq![], opt_str(system));
    let ghost two = system_block(seq![], opt_str(memory));
    let ghost three = system_block(summary_intro(), opt_str(summary));
    if let Some(s) = system {
        if !empty(s) {
            out.push(ChatMessage::system(s));
            assert(Seq::<char>::empty() + s@ =~= s@);
        }
    }
    assert(crate::llm::types::message_views(out@) =~= one);
    if let Some(s) = memory {
        if !empty(s) {
            out.push(ChatMessage::system(s));
            assert(Seq::<char>::empty() + s@ =~= s@);
        }
    }
    assert(crate::llm::types::message_views(out@) =~= one + two);
    if let Some(s) = summary {
        if !empty(s) {
            let mut text =
                "Summary of the earlier part of this conversation (older turns were compacted):\n".to_owned();
            text.append(s);
            out.push(ChatMessage::system(text.as_str()));
        }
    }
    assert(crate::llm::types::message_views(out@) =~= one + two + three);
    let ghost before = crate::llm::types::message_views(out@);
    let mut rest = copy_range(window, 0, window.len());
    assert(crate::llm::types::message_views(window@).subrange(0, window@.len() as int)
        =~= crate::llm::types::message_views(window@));
    let ghost added = crate::llm::types::message_views(rest@);
    out.append(&mut rest);
    assert(crate::llm::types::message_views(out@) =~= before + added);
    out
}

/// One line per message: its role and its content.
pub open spec fn transcript(messages: Seq<ChatMessageView>) -> Seq<char>
    decreases messages.len(),
{
    if messages.len() == 0 {
        seq![]
    } else {
        transcript(messages.drop_last()) + ("\n["@ + crate::llm::types::role_name(
            messages.last().role,
        ) + "] "@ + messages.last().content)
    }
}

/// One line per message.
fn write_transcript(messages: &Vec<ChatMessage>) -> (r: String)
    ensures
        r@ == transcript(crate::llm::types::message_views(messages@)),
{
    let ghost all = crate::llm::types::message_views(messages@);
    let mut out = String::new();
    let mut i: usize = 0;
    assert(all.take(0) =~= seq![]);
    assert(out@ =~= seq![]);
    while i < messages.len()
        invariant
            i <= messages.len(),
            all == crate::llm::types::message_views(messages@),
            out@ == transcript(all.take(i as int)),
        decreases messages.len() - i,
    {
        assert(all.take(i + 1).drop_last() =~= all.take(i as int));
        let ghost before = out@;
        let m = &messages[i];
        out.append("\n[");
        out.append(m.role.wire_name());
        out.append("] ");
        out.append(m.content.as_str());
        assert(out@ =~= before + ("\n["@ + crate::llm::types::role_name(m.role) + "] "@
            + m.content@));
        i = i + 1;
    }
    assert(all.take(i as int) =~= all);
    out
}

/// The instructions of the summary call.
pub open spec fn summary_instructions() -> Seq<char> {
    "You maintain the rolling memory of a personal assistant conversation. Summarize the given older conversation turns in at most 150 words. Keep facts, decisions, names and open questions; drop pleasantries. If a previous summary is given, merge it into one continuous summary. Output only the summary text, no preamble."@
}

/// What the summary call is asked.
pub open spec fn summary_question(
    previous: Option<Seq<char>>,
    dropped: Seq<ChatMessageView>,
) -> Seq<char> {
    (match previous {
        Some(p) => "Previous summary:\n"@ + p + "\n\n"@,
        None => seq![],
    }) + "Older conversation turns to fold into the summary:"@ + transcript(dropped)
}

/// The request of the summary call: no tools.
pub open spec fn summary_call(
    model: Seq<char>,
    previous: Option<Seq<char>>,
    dropped: Seq<ChatMessageView>,
) -> ChatRequestView {
    crate::llm::types::request(
        model,
        seq![
            crate::llm::types::message(Role::System, summary_instructions()),
            crate::llm::types::message(Role::User, summary_question(previous, dropped)),
        ],
    )
}

/// The request that folds dropped messages, and the previous summary, into a
/// new summary.
pub fn summary_request(model: &str, previous: Option<&str>, dropped: &Vec<ChatMessage>) -> (r:
    ChatRequest)
    ensures
        r@ == summary_call(
            model@,
            opt_str(previous),
            crate::llm::types::message_views(dropped@),
        ),
{
    let mut content = String::new();
    assert(content@ =~= seq![]);
    if let Some(p) = previous {
        if !empty(p) {
            content.append("Previous summary:\n");
            content.append(p);
            content.append("\n\n");
            assert(content@ =~= "Previous summary:\n"@ + p@ + "\n\n"@);
        }
    }
    content.append("Older conversation turns to fold into the summary:");
    content.append(write_transcript(dropped).as_str());
    let messages = vec![
        ChatMessage::system(
            "You maintain the rolling memory of a personal assistant conversation. Summarize the given older conversation turns in at most 150 words. Keep facts, decisions, names and open questions; drop pleasantries. If a previous summary is given, merge it into one continuous summary. Output only the summary text, no preamble.",
        ),
        ChatMessage::user(content.as_str()),
    ];
    assert(crate::llm::types::message_views(messages@) =~= seq![
        crate::llm::types::message(Role::System, summary_instructions()),
        crate::llm::types::message(
            Role::User,
            summary_question(opt_str(previous), crate::llm::types::message_views(dropped@)),
        ),
    ]);
    ChatRequest::new(model, messages)
}

/// The excerpt that stands in for a summary.
pub open spec fn excerpt(previous: Option<Seq<char>>, dropped: Seq<ChatMessageView>) -> Seq<char> {
    crate::text::cut_text(
        "[older turns compacted; summary unavailable, excerpt follows]"@ + (match previous {
            Some(p) => "\n\nPrevious summary:\n"@ + p,
            None => seq![],
        }) + "\n\n"@ + crate::text::cut_text(transcript(dropped), FALLBACK_EXCERPT_CHARS as int),
        SUMMARY_MAX_CHARS as int,
    )
}

/// The excerpt that stands in for a summary: labelled, and bounded.
pub fn fallback_summary(previous: Option<&str>, dropped: &Vec<ChatMessage>) -> (r: String)
    ensures
        r@ == excerpt(opt_str(previous), crate::llm::types::message_views(dropped@)),
{
    let mut text = "[older turns compacted; summary unavailable, excerpt follows]".to_owned();
    let ghost head = text@;
    let ghost mid = match opt_str(previous) {
        Some(p) => "\n\nPrevious summary:\n"@ + p,
        None => seq![],
    };
    if let Some(p) = previous {
        if !empty(p) {
            text.append("\n\nPrevious summary:\n");
            text.append(p);
        }
    }
    assert(text@ =~= head + mid);
    text.append("\n\n");
    text.append(
        truncate_chars(write_transcript(dropped).as_str(), FALLBACK_EXCERPT_CHARS).as_str(),
    );
    truncate_chars(text.as_str(), SUMMARY_MAX_CHARS)
}

/// The summary that a reply gives: its text, bounded, or the excerpt where the
/// call failed or gave no text. `None` stands for a call that got no reply.
pub open spec fn summary_from(
    previous: Option<Seq<char>>,
    dropped: Seq<ChatMessageView>,
    reply: Option<Seq<CoreEventView>>,
) -> Seq<char> {
    match reply {
        Some(es) => {
            let text = crate::text::trim(crate::llm::collect::reply_text(es));
            if crate::llm::collect::reply_end(es) is Failed || text.len() == 0 {
                excerpt(previous, dropped)
            } else {
                crate::text::cut_text(text, SUMMARY_MAX_CHARS as int)
            }
        },
        None => excerpt(previous, dropped),
    }
}

/// The usage after a summary call: what its terminal event reports is added.
pub open spec fn summary_usage(usage: Usage, reply: Option<Seq<CoreEventView>>) -> Usage {
    match reply {
        Some(es) => match crate::llm::collect::reply_end(es) {
            ReplyEndView::Done(Some(u)) => crate::events::usage_sum(usage, u),
            ReplyEndView::Done(None) => crate::events::usage_sum(usage, crate::events::no_usage()),
            _ => usage,
        },
        None => usage,
    }
}

/// The content of an optional list of events.
pub open spec fn opt_events(o: Option<Vec<CoreEvent>>) -> Option<Seq<CoreEventView>> {
    match o {
        Some(v) => Some(crate::events::event_views(v@)),
        None => None,
    }
}

/// The summary that a reply to [`summary_request`] gives. Never fails.
pub fn summarize(
    previous: Option<&str>,
    dropped: &Vec<ChatMessage>,
    reply: &Option<Vec<CoreEvent>>,
    usage_out: &mut Usage,
) -> (r: String)
    ensures
        r@ == summary_from(
            opt_str(previous),
            crate::llm::types::message_views(dropped@),
            opt_events(*reply),
        ),
        *final(usage_out) == summary_usage(*old(usage_out), opt_events(*reply)),
{
    let events = match reply {
        Some(events) => events,
        None => {
            return fallback_summary(previous, dropped);
        },
    };
    let (text, end) = read_reply(events);
    match end {
        ReplyEnd::Failed { .. } => {
            return fallback_summary(previous, dropped);
        },
        ReplyEnd::Done(usage) => {
            let report: Usage = match usage {
                Some(u) => u,
                None => Usage { input_tokens: None, output_tokens: None, total_tokens: None },
            };
            usage_out.add(&report);
        },
        ReplyEnd::Closed => {},
    }
    let text = trimmed(text.as_str());
    if empty(text.as_str()) {
        fallback_summary(previous, dropped)
    } else {
        truncate_chars(text.as_str(), SUMMARY_MAX_CHARS)
    }
}

/// A summary never outgrows its bound, whatever the call brings.
pub proof fn summary_is_bounded(
    previous: Option<Seq<char>>,
    dropped: Seq<ChatMessageView>,
    reply: Option<Seq<CoreEventView>>,
)
    ensures
        summary_from(previous, dropped, reply).len() <= SUMMARY_MAX_CHARS,
{
}

/// A token is four bytes, and a part of one counts as one.
pub proof fn estimate_rounds_up(text: Seq<char>)
    ensures
        crate::text::byte_len(text) <= 4 * estimate(text),
        4 * estimate(text) < crate::text::byte_len(text) + 4,
{
}

/// The cost of messages: what each of them costs, added up.
pub open spec fn cost(messages: Seq<ChatMessageView>) -> nat
    decreases messages.len(),
{
    if messages.len() == 0 {
        0
    } else {
        estimate(messages[0].content) + cost(messages.skip(1))
    }
}

/// The cost of the rest of a history.
proof fn lemma_cost(h: Seq<ChatMessageView>, k: int)
    requires
        0 <= k <= h.len(),
    ensures
        cost(h.skip(k)) == tail_cost(h, k),
    decreases h.len() - k,
{
    if k < h.len() {
        assert(h.skip(k)[0] == h[k]);
        assert(h.skip(k).skip(1) =~= h.skip(k + 1));
        lemma_cost(h, k + 1);
    }
}

/// No user message between `k` and where the alignment ends is passed over.
proof fn lemma_user_is_first(h: Seq<ChatMessageView>, k: int, i: int)
    requires
        0 <= k <= i < user_from(h, k),
        user_from(h, k) <= h.len(),
    ensures
        h[i].role != Role::User,
    decreases h.len() - k,
{
    if k < h.len() && h[k].role != Role::User && k < i {
        lemma_user_is_first(h, k + 1, i);
    }
}

/// The window is as long as it can be: from every user message before it, the
/// messages up to the end cost more than the budget.
pub proof fn window_is_maximal(h: Seq<ChatMessageView>, budget: nat, i: int)
    requires
        0 <= i < window_start(h, budget),
        h[i].role == Role::User,
    ensures
        cost(h.skip(i)) > budget,
{
    let k = reach(h, budget, h.len() as int);
    lemma_reach(h, budget, h.len() as int);
    lemma_user_from(h, k);
    if i >= k {
        lemma_user_is_first(h, k, i);
    } else {
        lemma_tail_shrinks(h, i, k - 1);
        lemma_cost(h, i);
    }
}

/// What the split of a history gives is its newest part, in its order and with
/// nothing lost: what is dropped, followed by the window, is the history. The
/// window fits the budget and starts at a user message, unless it is the newest
/// message alone.
pub proof fn window_is_the_newest_part(h: Seq<ChatMessageView>, budget: nat)
    ensures
        h.take(window_start(h, budget)) + h.skip(window_start(h, budget)) == h,
        h.len() > 0 ==> 0 <= window_start(h, budget) < h.len(),
        window_start(h, budget) < h.len() - 1 ==> cost(h.skip(window_start(h, budget))) <= budget
            && h[window_start(h, budget)].role == Role::User,
{
    if h.len() > 0 {
        window_is_sound(h, budget);
        lemma_cost(h, window_start(h, budget));
    } else {
        lemma_reach(h, budget, 0);
        lemma_user_from(h, reach(h, budget, 0));
        assert(h.take(0) + h.skip(0) =~= h);
    }
}

/// The window has what the summary and the fixed blocks leave of the prompt, and
/// nothing where they leave nothing.
pub proof fn window_has_what_is_left(
    policy: ContextPolicy,
    summary: Option<Seq<char>>,
    injected: u64,
)
    ensures
        ({
            let fixed = injected + match summary {
                Some(t) => estimate(t),
                None => 0,
            };
            let budget = window_budget(policy, summary, injected);
            if fixed <= policy.max_prompt_tokens {
                budget + fixed == policy.max_prompt_tokens
            } else {
                budget == 0
            }
        }),
{
}

/// A prompt begins with what is fixed and ends with the whole window.
pub proof fn prompt_ends_with_the_window(
    system: Option<Seq<char>>,
    memory: Option<Seq<char>>,
    summary: Option<Seq<char>>,
    window: Seq<ChatMessageView>,
)
    ensures
        ({
            let p = prompt(system, memory, summary, window);
            let a = if system is Some {
                1int
            } else {
                0int
            };
            let b = if memory is Some {
                1int
            } else {
                0int
            };
            let c = if summary is Some {
                1int
            } else {
                0int
            };
            &&& p.len() == a + b + c + window.len()
            &&& p.skip(a + b + c) == window
            &&& system matches Some(t) ==> p[0].role == Role::System && p[0].content == t
            &&& memory matches Some(t) ==> p[a].role == Role::System && p[a].content == t
            &&& summary matches Some(t) ==> p[a + b].role == Role::System && p[a + b].content
                == "Summary of the earlier part of this conversation (older turns were compacted):\n"@
                + t
        }),
{
    let p = prompt(system, memory, summary, window);
    let n = p.len() - window.len();
    assert(p.skip(n) =~= window);
    if let Some(t) = system {
        assert(Seq::<char>::empty() + t =~= t);
    }
    if let Some(t) = memory {
        assert(Seq::<char>::empty() + t =~= t);
    }
}

/// A transcript says what every message says, in order: that of two parts of a
/// conversation is the one after the other, and one message is its role and its
/// content.
pub proof fn transcript_is_complete(a: Seq<ChatMessageView>, b: Seq<ChatMessageView>)
    ensures
        transcript(a + b) == transcript(a) + transcript(b),
        a.len() == 0 ==> transcript(a).len() == 0,
        a.len() == 1 ==> transcript(a) == "\n["@ + crate::llm::types::role_name(a[0].role) + "] "@
            + a[0].content,
    decreases b.len(),
{
    if b.len() == 0 {
        assert(a + b =~= a);
        assert(transcript(a) + transcript(b) =~= transcript(a));
    } else {
        assert((a + b).drop_last() =~= a + b.drop_last());
        assert((a + b).last() == b.last());
        transcript_is_complete(a, b.drop_last());
        let line = "\n["@ + crate::llm::types::role_name(b.last().role) + "] "@ + b.last().content;
        assert(transcript(a) + transcript(b.drop_last()) + line =~= transcript(a) + (transcript(
            b.drop_last(),
        ) + line));
    }
    if a.len() == 1 {
        assert(a.drop_last() =~= seq![]);
        let line = "\n["@ + crate::llm::types::role_name(a[0].role) + "] "@ + a[0].content;
        reveal_with_fuel(transcript, 2);
        assert(transcript(a) =~= line);
    }
}

/// The summary call is asked with everything it is to fold: the previous summary
/// before, and the transcript of all dropped messages at the end. It gets no
/// tools and the model that was chosen.
pub proof fn summary_call_carries_what_is_dropped(
    model: Seq<char>,
    previous: Option<Seq<char>>,
    dropped: Seq<ChatMessageView>,
)
    ensures
        ({
            let r = summary_call(model, previous, dropped);
            &&& r.model == model
            &&& r.tools.len() == 0
            &&& r.messages.len() == 2
            &&& r.messages[0].role == Role::System
            &&& r.messages[1].role == Role::User
            &&& r.messages[1].content.len() >= transcript(dropped).len()
            &&& r.messages[1].content.skip(
                r.messages[1].content.len() - transcript(dropped).len(),
            ) == transcript(dropped)
            &&& previous matches Some(p) ==> crate::text::begins(
                r.messages[1].content,
                "Previous summary:\n"@ + p + "\n\n"@,
            )
        }),
{
    let q = summary_question(previous, dropped);
    let t = transcript(dropped);
    assert(q.skip(q.len() - t.len()) =~= t);
    if let Some(p) = previous {
        let head = "Previous summary:\n"@ + p + "\n\n"@;
        assert(q.subrange(0, head.len() as int) =~= head);
    }
}

/// A summary that the model gave is taken over as it is, without white space
/// around it, cut at the bound only.
pub proof fn given_summary_is_taken(
    previous: Option<Seq<char>>,
    dropped: Seq<ChatMessageView>,
    es: Seq<CoreEventView>,
)
    requires
        !(crate::llm::collect::reply_end(es) is Failed),
        crate::text::trim(crate::llm::collect::reply_text(es)).len() > 0,
    ensures
        ({
            let text = crate::text::trim(crate::llm::collect::reply_text(es));
            let r = summary_from(previous, dropped, Some(es));
            &&& text.len() <= SUMMARY_MAX_CHARS ==> r == text
            &&& text.len() > SUMMARY_MAX_CHARS ==> r.len() == SUMMARY_MAX_CHARS && r.drop_last()
                == text.take(SUMMARY_MAX_CHARS - 1)
        }),
{
    let text = crate::text::trim(crate::llm::collect::reply_text(es));
    if text.len() > SUMMARY_MAX_CHARS {
        assert(summary_from(previous, dropped, Some(es)).drop_last() =~= text.take(
            SUMMARY_MAX_CHARS - 1,
        ));
    }
}

/// A summary call that fails loses nothing at once: what stands in for the
/// summary says so, keeps the previous summary and the beginning of what was
/// dropped, all of it where it is short.
pub proof fn failed_summary_keeps_an_excerpt(
    previous: Option<Seq<char>>,
    dropped: Seq<ChatMessageView>,
    reply: Option<Seq<CoreEventView>>,
)
    requires
        reply matches Some(es) ==> crate::llm::collect::reply_end(es) is Failed
            || crate::text::trim(crate::llm::collect::reply_text(es)).len() == 0,
    ensures
        ({
            let r = summary_from(previous, dropped, reply);
            let head = "[older turns compacted; summary unavailable, excerpt follows]"@ + (
            match previous {
                Some(p) => "\n\nPrevious summary:\n"@ + p,
                None => seq![],
            }) + "\n\n"@;
            transcript(dropped).len() <= FALLBACK_EXCERPT_CHARS && head.len() + transcript(
                dropped,
            ).len() <= SUMMARY_MAX_CHARS ==> r == head + transcript(dropped)
        }),
{
}

/// What a split returns is the history, parted once, and the window is as long as
/// it can be: with any earlier user message at its start, it would cost more than
/// what the summary and the fixed blocks leave of the budget.
pub proof fn split_gives_the_longest_window(
    policy: ContextPolicy,
    summary: Option<&str>,
    injected_tokens: u64,
    history: &Vec<ChatMessage>,
    r: (Vec<ChatMessage>, Vec<ChatMessage>),
    i: int,
)
    requires
        call_ensures(split_window, (policy, summary, injected_tokens, history), r),
    ensures
        ({
            let h = crate::llm::types::message_views(history@);
            let window = crate::llm::types::message_views(r.0@);
            let dropped = crate::llm::types::message_views(r.1@);
            let spent = injected_tokens + match summary {
                Some(s) => estimate(s@) as int,
                None => 0,
            };
            &&& dropped + window == h
            &&& h.len() > 0 ==> window.len() > 0
            &&& 0 <= i < dropped.len() && h[i].role == Role::User && spent
                <= policy.max_prompt_tokens ==> cost(h.skip(i)) > policy.max_prompt_tokens - spent
        }),
{
    let h = crate::llm::types::message_views(history@);
    let b = window_budget(policy, opt_str(summary), injected_tokens);
    window_is_the_newest_part(h, b);
    let dropped = crate::llm::types::message_views(r.1@);
    assert(h.take(window_start(h, b)) + h.skip(window_start(h, b)) =~= h);
    if 0 <= i < dropped.len() && h[i].role == Role::User {
        window_is_maximal(h, b, i);
    }
}

} // verus!
