use agent_core::config::DEFAULT_MODEL;
use agent_core::context::{
    assemble, fallback_summary, split_window, summarize, summary_request, ContextPolicy,
    SUMMARY_MAX_CHARS,
};
use agent_core::text::truncate_chars;
use agent_core::{
    ApiErrorKind, Cassette, ChatMessage, CoreEvent, FakeProvider, Interaction, Role, Usage,
};

fn policy(max_prompt_tokens: u64) -> ContextPolicy {
    ContextPolicy { max_prompt_tokens }
}

fn turn(user: &str, assistant: &str) -> Vec<ChatMessage> {
    vec![ChatMessage::user(user), ChatMessage::assistant(assistant)]
}

#[test]
fn estimate_is_four_chars_per_token() {
    assert_eq!(ContextPolicy::estimate_tokens(""), 0);
    assert_eq!(ContextPolicy::estimate_tokens("abcd"), 1);
    assert_eq!(ContextPolicy::estimate_tokens("abcde"), 2);
}

#[test]
fn short_history_fits_entirely() {
    let history = turn("hello", "Hello!");
    let (window, dropped) = split_window(policy(100), None, 0, &history);
    assert_eq!(window, history);
    assert!(dropped.is_empty());
}

#[test]
fn overflow_drops_oldest_turns_and_keeps_the_current_message() {
    let mut history = Vec::new();
    for i in 0..10 {
        history.extend(turn(&format!("question {i} "), "a fairly long answer "));
    }
    history.push(ChatMessage::user("the new question"));
    let (window, dropped) = split_window(policy(20), None, 0, &history);
    assert!(
        !dropped.is_empty(),
        "a history this size must overflow a 20-token budget"
    );
    assert_eq!(window.last(), Some(&ChatMessage::user("the new question")));
    assert_eq!(window[0].role, Role::User, "window starts at a user turn");
    assert_eq!(dropped.len() + window.len(), history.len());
    assert_eq!(dropped.last().map(|m| m.role), Some(Role::Assistant));
}

#[test]
fn a_single_huge_message_still_goes_through() {
    let history = vec![ChatMessage::user("a huge message far over any tiny budget")];
    let (window, dropped) = split_window(policy(1), None, 0, &history);
    assert_eq!(window, history);
    assert!(dropped.is_empty());
}

#[test]
fn an_existing_summary_spends_budget() {
    let history = vec![
        ChatMessage::user("hello"),
        ChatMessage::assistant("Hello!"),
        ChatMessage::user("again"),
    ];
    let (window, dropped) = split_window(policy(1), Some("summary text"), 0, &history);
    // The summary alone exceeds the budget: only the trailing turn survives.
    assert_eq!(window, vec![ChatMessage::user("again")]);
    assert_eq!(dropped.len(), 2);
}

#[test]
fn injected_memory_spends_budget_like_the_summary() {
    let history = vec![
        ChatMessage::user("hello"),
        ChatMessage::assistant("Hello!"),
        ChatMessage::user("again"),
    ];
    // 2 tokens of memory is enough to push the first turn out.
    let (window, dropped) = split_window(policy(4), None, 2, &history);
    assert_eq!(window, vec![ChatMessage::user("again")]);
    assert_eq!(dropped.len(), 2);
}

#[test]
fn assemble_places_system_then_memory_then_summary_then_window() {
    let window = vec![ChatMessage::user("hi")];
    let messages = assemble(
        Some("be helpful"),
        Some("Durable memory notes:\n- [2026-09-10] a fact"),
        Some("so far: greetings"),
        &window,
    );
    assert_eq!(
        messages,
        vec![
            ChatMessage::system("be helpful"),
            ChatMessage::system("Durable memory notes:\n- [2026-09-10] a fact"),
            ChatMessage::system(
                "Summary of the earlier part of this conversation (older turns were compacted):\nso far: greetings"
            ),
            ChatMessage::user("hi"),
        ]
    );
}

#[test]
fn assemble_places_system_then_summary_then_window() {
    let window = vec![ChatMessage::user("hi")];
    let messages = assemble(Some("be helpful"), None, Some("so far: greetings"), &window);
    assert_eq!(
        messages,
        vec![
            ChatMessage::system("be helpful"),
            ChatMessage::system(
                "Summary of the earlier part of this conversation (older turns were compacted):\nso far: greetings"
            ),
            ChatMessage::user("hi"),
        ]
    );
}

#[test]
fn assemble_skips_empty_pieces() {
    let messages = assemble(None, None, None, &vec![]);
    assert!(messages.is_empty());
    let messages = assemble(Some(""), Some(""), Some(""), &vec![]);
    assert!(messages.is_empty());
}

#[test]
fn summarize_collects_model_text_and_usage() {
    let dropped = vec![ChatMessage::user("hello")];
    let request = summary_request(DEFAULT_MODEL, None, &dropped);
    let cassette = Cassette {
        interactions: vec![Interaction {
            request: summary_request(DEFAULT_MODEL, None, &dropped),
            events: vec![
                CoreEvent::Delta {
                    text: "User greeted.".into(),
                },
                CoreEvent::TurnDone {
                    usage: Some(Usage {
                        input_tokens: Some(7),
                        output_tokens: Some(3),
                        total_tokens: Some(10),
                    }),
                },
            ],
        }],
        ..Cassette::new()
    };
    let mut fake = FakeProvider::from_cassette(cassette);
    let mut usage = Usage::default();
    let reply = fake.chat(&request);
    let summary = summarize(None, &dropped, &Some(reply), &mut usage);
    assert_eq!(summary, "User greeted.");
    assert_eq!(usage.input_tokens, Some(7));
    assert_eq!(usage.output_tokens, Some(3));
}

#[test]
fn summarize_falls_back_to_an_excerpt_on_provider_error() {
    let dropped = vec![ChatMessage::user("hi")];
    let reply = vec![CoreEvent::error(ApiErrorKind::Provider, "boom")];
    let mut usage = Usage::default();
    let summary = summarize(None, &dropped, &Some(reply), &mut usage);
    assert!(summary.contains("summary unavailable"));
    assert!(summary.contains("[user] hi"));
    assert_eq!(usage, Usage::default());
    // A call that got no reply, and a reply without text.
    assert_eq!(summarize(None, &dropped, &None, &mut usage), summary);
    let blank = vec![CoreEvent::Delta { text: " \n".into() }];
    assert_eq!(summarize(None, &dropped, &Some(blank), &mut usage), summary);
}

#[test]
fn a_summary_is_bounded() {
    let dropped = vec![ChatMessage::user(&"long ".repeat(5000))];
    let mut usage = Usage::default();
    let reply = vec![CoreEvent::Delta { text: "y".repeat(20_000) }];
    let summary = summarize(None, &dropped, &Some(reply), &mut usage);
    assert_eq!(summary.chars().count(), SUMMARY_MAX_CHARS);
    assert!(summary.ends_with('…'));
    assert!(fallback_summary(Some("before"), &dropped).chars().count() <= SUMMARY_MAX_CHARS);
}

#[test]
fn truncate_respects_char_boundaries() {
    assert_eq!(truncate_chars("abc", 10), "abc");
    let truncated = truncate_chars("héllo wörld", 5);
    assert!(truncated.starts_with("h"));
    assert!(truncated.ends_with('…'));
    assert!(truncated.chars().count() <= 6);
    assert_eq!(truncated, "héll…");
}
