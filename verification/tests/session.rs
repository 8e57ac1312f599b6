use std::collections::VecDeque;
use std::rc::Rc;

use agent_core::agent::persona::persona;
use agent_core::agent::tool_call::{CallAction, ToolRun};
use agent_core::agent::turn_loop::{LoopAction, LoopInput};
use agent_core::config::DEFAULT_MODEL;
use agent_core::context::{assemble, summary_request};
use agent_core::conversations::{FileRead, Loaded};
use agent_core::events::RecvError;
use agent_core::events::LiveItem;
use agent_core::json::Json;
use agent_core::memory::inject::MEMORY_BLOCK_BUDGET_TOKENS;
use agent_core::search::{FakeSearch, SearchProvider, SearchResult};
use agent_core::session::approvals::SessionApprovals;
use agent_core::session::derive_title;
use agent_core::session::registry::{new_thread_id, ConversationRegistry, ThreadSummary};
use agent_core::session::turn::TurnTask;
use agent_core::fields::FromJson;
use agent_core::{
    memory_block, ApiError, ApiErrorKind, ApprovalKind, Artifact, AuditEntry, AuditLog, Cassette,
    ChatMessage, ChatRequest, ChatSession, Config, ConversationStore, CoreEvent, Decision,
    FakeProvider, Interaction, MemoryNote, Risk, Role, ToolCall, Usage, Workers,
};

const NOW: &str = "2026-01-01T00:00:00Z";

fn delta(text: &str) -> CoreEvent {
    CoreEvent::Delta { text: text.into() }
}

fn done() -> CoreEvent {
    CoreEvent::TurnDone { usage: None }
}

fn json(text: &str) -> Json {
    Json::parse(text).unwrap()
}

/// A tool with a fixed risk and output.
struct StubTool {
    name: &'static str,
    consent: bool,
    output: &'static str,
    artifact: Option<&'static str>,
}

/// What stands around a session: the model, the tools, the user, the files.
struct World {
    config: Config,
    fake: Option<FakeProvider>,
    script: VecDeque<Vec<CoreEvent>>,
    requests: Vec<ChatRequest>,
    tools: Vec<StubTool>,
    runs: usize,
    decision: Option<Decision>,
    persona: Option<String>,
    notes: Vec<MemoryNote>,
    audit: AuditLog,
    audit_text: String,
    search: Option<FakeSearch>,
}

impl World {
    fn scripted(script: Vec<Vec<CoreEvent>>) -> World {
        World {
            config: Config::default(),
            fake: None,
            script: script.into(),
            requests: Vec::new(),
            tools: Vec::new(),
            runs: 0,
            decision: None,
            persona: None,
            notes: Vec::new(),
            audit: AuditLog::new("audit.jsonl"),
            audit_text: String::new(),
            search: None,
        }
    }

    fn replaying(interactions: Vec<(ChatRequest, Vec<CoreEvent>)>) -> World {
        let mut world = World::scripted(vec![]);
        let cassette = Cassette {
            interactions: interactions
                .into_iter()
                .map(|(request, events)| Interaction { request, events })
                .collect(),
            ..Cassette::new()
        };
        world.fake = Some(FakeProvider::from_cassette(cassette));
        world
    }

    fn ask(&mut self, request: ChatRequest) -> Vec<CoreEvent> {
        let events = match &mut self.fake {
            Some(fake) => fake.chat(&request),
            None => self.script.pop_front().unwrap_or_else(|| vec![done()]),
        };
        self.requests.push(request);
        events
    }

    fn note_audit(&mut self, entry: &AuditEntry) {
        if let Some((_, line)) = self.audit.append(entry) {
            self.audit_text.push_str(&line);
            self.audit_text.push('\n');
        }
    }

    fn run_tool(
        &mut self,
        session: &mut ChatSession,
        turn_id: u64,
        call: ToolCall,
        events: &mut Vec<CoreEvent>,
    ) -> ChatMessage {
        let tool = self.tools.iter().find(|t| t.name == call.name);
        let risk = tool.map(|t| {
            if t.consent {
                Risk::NeedsApproval(ApprovalKind::MemoryWrite { path: "p".into() })
            } else {
                Risk::Safe
            }
        });
        let output = tool.map(|t| t.output).unwrap_or("").to_string();
        let artifact = tool.and_then(|t| t.artifact);
        let query = call.name == "web_search";
        let (mut run, announced, mut action) = ToolRun::begin(call, risk);
        session.record(turn_id, &announced);
        events.push(announced);
        if let CallAction::Ask(kind) = action {
            let (id, event) = session.request_approval(turn_id, kind, "may I?").unwrap();
            events.push(event);
            if let Some(decision) = self.decision {
                session.approve(&id, decision).unwrap();
            }
            let decision = session.settle_approval(turn_id, &id);
            action = run.decide(decision);
        }
        let reply: Result<String, ApiError> = match action {
            CallAction::Execute => {
                self.runs += 1;
                if let Some(path) = artifact {
                    let file = Artifact::new(path, Some("image/png"));
                    events.push(session.record_artifact(turn_id, file).unwrap());
                }
                if query {
                    Ok(self.distil(turn_id))
                } else {
                    Ok(output)
                }
            }
            _ => Ok(String::new()),
        };
        let finished = run.settle(turn_id, reply, 3);
        session.record(turn_id, &finished.event);
        events.push(finished.event);
        self.note_audit(&finished.audit);
        finished.message
    }

    /// Searches, and lets the summarizer read the pages.
    fn distil(&mut self, turn_id: u64) -> String {
        let search = self.search.as_ref().unwrap();
        let hits = search.search("frogs", 5).unwrap();
        let page = search.fetch(&hits[0].url).unwrap();
        let content = agent_core::agent::fence(&hits[0].url, &page);
        let workers = Workers::from_config(DEFAULT_MODEL, &self.config.workers);
        let worker = workers.run("summarizer").unwrap().clone();
        let reply = self.ask(worker.request(&content));
        let (result, entry) = worker.finish(&content, Ok(reply), turn_id, 1);
        self.note_audit(&entry);
        result.unwrap().text
    }

    /// Runs a turn to its end.
    fn drive(&mut self, session: &mut ChatSession, task: TurnTask) -> Vec<CoreEvent> {
        let id = task.turn_id;
        let memory = memory_block(&self.notes, &task.query());
        let mut plan = task.plan(self.persona.clone(), memory);
        if let Some(request) = plan.summary_request() {
            let reply = self.ask(request);
            assert!(plan.fold(session, &Some(reply)));
        }
        let tools = self
            .tools
            .iter()
            .map(|t| json(&format!("{{\"type\":\"function\",\"name\":\"{}\"}}", t.name)))
            .collect();
        let mut turn = plan.start(tools, self.config.agent.max_steps);
        let mut events = Vec::new();
        let mut stream: VecDeque<CoreEvent> = VecDeque::new();
        let mut input = LoopInput::Proceed { cancelled: false };
        loop {
            let out = turn.step(input);
            for event in out.emit {
                session.record(id, &event);
                events.push(event);
            }
            input = match out.action {
                LoopAction::Again => LoopInput::Proceed { cancelled: false },
                LoopAction::Ask(request) => {
                    stream = self.ask(request).into();
                    next(&mut stream)
                }
                LoopAction::Listen => next(&mut stream),
                LoopAction::RunTool(call) => {
                    LoopInput::ToolDone(self.run_tool(session, id, call, &mut events))
                }
                LoopAction::Finish(result) => {
                    assert!(session.finalize_turn(id, result));
                    return events;
                }
                LoopAction::Idle => panic!("the turn has nothing to do"),
            };
        }
    }

    fn send(&mut self, session: &mut ChatSession, message: &str) -> Vec<CoreEvent> {
        let task = session.send(message, &self.config).unwrap();
        self.drive(session, task)
    }
}

fn next(stream: &mut VecDeque<CoreEvent>) -> LoopInput {
    match stream.pop_front() {
        Some(event) => LoopInput::Event { event, cancelled: false },
        None => LoopInput::Closed,
    }
}

fn hello_request() -> ChatRequest {
    ChatRequest::new(DEFAULT_MODEL, vec![ChatMessage::user("hello")])
}

fn session() -> ChatSession {
    ChatSession::new("test", NOW)
}

#[test]
fn happy_path_streams_and_records_history() {
    let usage = Some(Usage { input_tokens: Some(1), output_tokens: Some(2), total_tokens: None });
    let mut world = World::replaying(vec![(
        hello_request(),
        vec![delta("Hel"), delta("lo"), CoreEvent::TurnDone { usage }],
    )]);
    let mut session = session();
    let events = world.send(&mut session, "hello");
    assert_eq!(events, vec![delta("Hel"), delta("lo"), CoreEvent::TurnDone { usage }]);

    let history = session.history();
    assert_eq!(history.len(), 2);
    assert_eq!(history[0], ChatMessage::user("hello"));
    assert_eq!(history[1], ChatMessage::assistant("Hello"));
    assert!(!session.is_active());
    // The request the provider saw must contain exactly this history.
    assert_eq!(world.requests[0].messages.len(), 1);
}

#[test]
fn second_turn_request_carries_conversation_history() {
    let second = ChatRequest::new(
        DEFAULT_MODEL,
        vec![
            ChatMessage::user("hello"),
            ChatMessage::assistant("Hello"),
            ChatMessage::user("again"),
        ],
    );
    let mut world = World::replaying(vec![
        (hello_request(), vec![delta("Hello"), done()]),
        (second, vec![delta("Again"), done()]),
    ]);
    let mut session = session();
    world.send(&mut session, "hello");
    let events = world.send(&mut session, "again");
    assert_eq!(events, vec![delta("Again"), done()]);
    assert_eq!(session.history().len(), 4);
}

#[test]
fn busy_turn_is_rejected() {
    let mut world = World::replaying(vec![(hello_request(), vec![delta("s"), done()])]);
    let mut session = session();
    let task = session.send("hello", &world.config).unwrap();
    let before = session.history();
    let err = session.send("hello", &world.config).unwrap_err();
    assert_eq!(err.kind, ApiErrorKind::Busy);
    assert_eq!(session.regenerate(&world.config).unwrap_err().kind, ApiErrorKind::Busy);
    assert_eq!(session.history(), before);
    world.drive(&mut session, task);
    assert!(!session.is_active());
}

#[test]
fn abort_stops_the_turn_and_keeps_partial_text() {
    let world = World::scripted(vec![]);
    let mut session = session();
    let task = session.send("hello", &world.config).unwrap();
    for i in 0..3 {
        assert!(session.record(task.turn_id, &delta(&format!("chunk{i} "))));
    }
    let last = session.abort().unwrap();
    assert_eq!(last, CoreEvent::error(ApiErrorKind::Aborted, "turn aborted"));
    let history = session.history();
    assert_eq!(history[0], ChatMessage::user("hello"));
    assert_eq!(history[1].content, "chunk0 chunk1 chunk2 ");
    assert!(!session.is_active());
    // The task's own end comes too late and changes nothing.
    assert!(!session.record(task.turn_id, &delta("late")));
    let result = agent_core::agent::turn_loop::LoopResult {
        outcome: agent_core::TurnOutcome::Completed,
        new_messages: vec![ChatMessage::assistant("late")],
        usage: None,
    };
    assert!(!session.finalize_turn(task.turn_id, result));
    assert_eq!(session.history(), history);
}

#[test]
fn provider_failure_with_no_output_pops_the_user_message_for_a_clean_retry() {
    let mut world = World::replaying(vec![(
        hello_request(),
        vec![CoreEvent::error(ApiErrorKind::Unauthorized, "bad key")],
    )]);
    let mut session = session();
    let received = world.send(&mut session, "hello");
    assert!(matches!(
        received[0],
        CoreEvent::Error { kind: ApiErrorKind::Unauthorized, .. }
    ));
    assert!(
        session.history().is_empty(),
        "failed turn with no output must leave history clean"
    );
}

#[test]
fn provider_failure_after_partial_output_keeps_the_partial() {
    let mut world = World::replaying(vec![(
        hello_request(),
        vec![
            delta("partial answer"),
            CoreEvent::error(ApiErrorKind::Provider, "provider exploded mid-stream"),
        ],
    )]);
    let mut session = session();
    world.send(&mut session, "hello");
    let history = session.history();
    assert_eq!(history.len(), 2);
    assert_eq!(history[1], ChatMessage::assistant("partial answer"));
}

#[test]
fn subscribe_replays_the_turn_buffer_for_a_reconnect() {
    let world = World::scripted(vec![]);
    let mut session = session();
    let task = session.send("hello", &world.config).unwrap();
    session.record(task.turn_id, &delta("d0 "));
    session.record(task.turn_id, &delta("d1 "));
    let mut reconnected = session.subscribe();
    // The replay starts from the beginning of the turn, not the reconnect.
    assert_eq!(reconnected.next_replayed(), Some(delta("d0 ")));
    assert_eq!(reconnected.next_replayed(), Some(delta("d1 ")));
    assert_eq!(reconnected.next_replayed(), None);
    assert!(reconnected.is_live());
}

#[test]
fn subscribe_taps_the_active_turn_and_closes_after_it_ends() {
    let mut world = World::replaying(vec![(hello_request(), vec![delta("x"), done()])]);
    let mut session = session();
    let task = session.send("hello", &world.config).unwrap();
    let tap = session.subscribe();
    assert!(matches!(tap.receive_live(LiveItem::Event(delta("x"))), Some(Ok(_))));
    world.drive(&mut session, task);

    let idle = session.subscribe();
    assert_eq!(idle.receive_live(LiveItem::Pending), Some(Err(RecvError::Closed)));
}

#[test]
fn model_override_reaches_the_provider_request() {
    let request = ChatRequest::new("custom/model", vec![ChatMessage::user("hello")]);
    let mut world = World::replaying(vec![(request, vec![done()])]);
    let mut session = session();
    session.set_model(Some("custom/model".into()));
    assert_eq!(session.current_model(&world.config), "custom/model");
    assert_eq!(world.send(&mut session, "hello"), vec![done()]);
    session.set_model(None);
    assert_eq!(session.current_model(&world.config), DEFAULT_MODEL);
}

#[test]
fn reasoning_streams_through_and_is_kept_out_of_the_answer() {
    let thought = CoreEvent::Reasoning { text: "let me think".into() };
    let events = vec![thought.clone(), delta("answer"), done()];
    let mut world = World::replaying(vec![(hello_request(), events)]);
    let mut session = session();
    let events = world.send(&mut session, "hello");
    assert_eq!(events, vec![thought, delta("answer"), done()]);

    // Thinking is stored alongside the assistant message (for display on
    // reload) but is never folded into its content.
    let history = session.history();
    assert_eq!(history[0].reasoning, None);
    assert_eq!(history[1].content, "answer");
    assert_eq!(history[1].reasoning.as_deref(), Some("let me think"));
}

#[test]
fn reasoning_effort_override_reaches_the_provider_request() {
    let request = hello_request().with_reasoning_effort(Some("high".into()));
    let mut world = World::replaying(vec![(request, vec![done()])]);
    let mut session = session();
    session.set_reasoning_effort(Some("high".into()));
    assert_eq!(session.current_reasoning_effort(&world.config), Some("high".into()));
    let events = world.send(&mut session, "hello");
    assert_eq!(events, vec![done()]);
    assert_eq!(world.requests.len(), 1);
    assert_eq!(world.requests[0].reasoning_effort.as_deref(), Some("high"));
    session.set_reasoning_effort(None);
    assert_eq!(session.current_reasoning_effort(&world.config), None);
}

#[test]
fn every_request_carries_the_effort_of_its_turn() {
    let call = CoreEvent::ToolCall {
        id: "c".into(),
        name: "nope".into(),
        input: json("{}"),
    };
    let mut world = World::scripted(vec![
        vec![done()],
        vec![call, done()],
        vec![done()],
        vec![done()],
    ]);
    world.config.provider.reasoning_effort = Some("low".into());
    let mut session = session();
    world.send(&mut session, "one");
    session.set_reasoning_effort(Some("high".into()));
    world.send(&mut session, "two");
    session.set_reasoning_effort(None);
    world.send(&mut session, "three");
    let efforts: Vec<Option<&str>> =
        world.requests.iter().map(|r| r.reasoning_effort.as_deref()).collect();
    assert_eq!(efforts, vec![Some("low"), Some("high"), Some("high"), Some("low")]);
}

#[test]
fn session_empty_message_is_rejected() {
    let mut session = ChatSession::new("test", NOW);
    let err = session.send("   ", &Config::default()).unwrap_err();
    assert_eq!(err.kind, ApiErrorKind::Config);
}

#[test]
fn session_turn_handle_abort_is_id_guarded() {
    let mut session = ChatSession::new("test", "1970-01-01T00:00:00Z");
    // Idle session: aborting a stale handle is a no-op.
    assert!(session.abort_turn(Some(99)).is_none());
    assert!(session.abort().is_none());
    let task = session.send("hello", &Config::default()).unwrap();
    assert!(session.abort_turn(Some(task.turn_id + 98)).is_none());
    assert!(session.is_active());
    assert!(session.abort_turn(Some(task.turn_id)).is_some());
    assert!(!session.is_active());
}

#[test]
fn session_titles_come_from_the_first_user_message() {
    assert_eq!(derive_title("hello"), "hello");
    assert_eq!(derive_title("first line\nsecond line"), "first line");
    let long = "x".repeat(100);
    let title = derive_title(&long);
    assert_eq!(title.chars().count(), 61);
    assert!(title.ends_with('…'));
    assert_eq!(derive_title("   "), "untitled");
}

#[test]
fn mod_empty_message_is_rejected() {
    let mut session = ChatSession::new("test", NOW);
    let err = session.send("   ", &Config::default()).unwrap_err();
    assert_eq!(err.kind, ApiErrorKind::Config);
}

#[test]
fn mod_turn_handle_abort_is_id_guarded() {
    let mut session = ChatSession::new("test", "1970-01-01T00:00:00Z");
    // Idle session: aborting a stale handle is a no-op.
    assert!(session.abort_turn(Some(99)).is_none());
    assert!(session.abort().is_none());
    let task = session.send("hello", &Config::default()).unwrap();
    assert!(session.abort_turn(Some(task.turn_id + 98)).is_none());
    assert!(session.is_active());
    assert!(session.abort_turn(Some(task.turn_id)).is_some());
    assert!(!session.is_active());
}

#[test]
fn mod_titles_come_from_the_first_user_message() {
    assert_eq!(derive_title("hello"), "hello");
    assert_eq!(derive_title("first line\nsecond line"), "first line");
    let long = "x".repeat(100);
    let title = derive_title(&long);
    assert_eq!(title.chars().count(), 61);
    assert!(title.ends_with('…'));
    assert_eq!(derive_title("   "), "untitled");
}

#[test]
fn approving_an_unknown_request_is_not_found() {
    let mut session = session();
    let err = session.approve("appr_1", Decision::Allow).unwrap_err();
    assert_eq!(err.kind, ApiErrorKind::NotFound);
    assert_eq!(err.message, "no turn is awaiting approval");
    session.send("hello", &Config::default()).unwrap();
    let err = session.approve("appr_1", Decision::Allow).unwrap_err();
    assert_eq!(err.message, "no pending approval with id \"appr_1\"");
}

#[test]
fn over_budget_turn_compacts_oldest_turns_into_a_summary_and_answers() {
    // Budget 4 estimated tokens: the ("hello", "Hello!") pair falls out of
    // the window together (user-boundary alignment); only the new
    // message stays and the pair is folded into the rolling summary.
    let dropped = vec![ChatMessage::user("hello"), ChatMessage::assistant("Hello!")];
    let second_window = vec![ChatMessage::user("again")];
    let second_request = ChatRequest::new(
        DEFAULT_MODEL,
        assemble(None, None, Some("compact summary"), &second_window),
    );
    let usage = |input, output| {
        Some(Usage { input_tokens: Some(input), output_tokens: Some(output), total_tokens: None })
    };
    let mut world = World::replaying(vec![
        (hello_request(), vec![delta("Hello!"), CoreEvent::TurnDone { usage: usage(1, 2) }]),
        (
            summary_request(DEFAULT_MODEL, None, &dropped),
            vec![delta("compact summary"), CoreEvent::TurnDone { usage: usage(10, 5) }],
        ),
        (second_request, vec![delta("Answer 2"), CoreEvent::TurnDone { usage: usage(3, 4) }]),
    ]);
    world.config.context.max_prompt_tokens = 4;
    let mut session = session();

    assert_eq!(session.summary(), None);
    let received = world.send(&mut session, "hello");
    assert!(matches!(received.last(), Some(CoreEvent::TurnDone { .. })));
    assert_eq!(session.total_usage().input_tokens, Some(1));

    let received = world.send(&mut session, "again");
    // The over-budget turn still answers.
    assert!(received.contains(&delta("Answer 2")));
    assert!(received.iter().any(|e| matches!(e, CoreEvent::TurnDone { .. })));

    // Drop-oldest + summary: history is truncated, summary is stored.
    assert_eq!(session.summary(), Some("compact summary".into()));
    assert_eq!(
        session.history(),
        vec![ChatMessage::user("again"), ChatMessage::assistant("Answer 2")]
    );
    // Usage accounting covers the main turns and the summary sub-call.
    assert_eq!(session.total_usage().input_tokens, Some(1 + 10 + 3));
    assert_eq!(session.total_usage().output_tokens, Some(2 + 5 + 4));
}

fn reopen(store: &ConversationStore, id: &str, text: String) -> ChatSession {
    let loaded = store.load(id, FileRead::Text(text));
    ChatSession::with_store(id, store.clone(), loaded, NOW)
}

#[test]
fn persisted_conversation_reloads_after_restart() {
    let store = ConversationStore::new("data/conversations");
    let question = "a longer first question, good for a title";
    let request = ChatRequest::new(DEFAULT_MODEL, vec![ChatMessage::user(question)]);
    let usage =
        Some(Usage { input_tokens: Some(4), output_tokens: Some(6), total_tokens: Some(10) });
    let mut world =
        World::replaying(vec![(request, vec![delta("Hello!"), CoreEvent::TurnDone { usage }])]);

    // "Process 1": chat, then shut down.
    let mut session =
        ChatSession::with_store("default", store.clone(), Ok(Loaded::Absent), NOW);
    assert!(session.history().is_empty());
    world.send(&mut session, question);
    assert_eq!(session.history().len(), 2);
    let (path, text) = session.persist("2026-01-02T00:00:00Z").unwrap().unwrap();
    assert_eq!(path, "data/conversations/default.json");

    // "Process 2": same data dir — reload restores history, usage, title.
    let session = reopen(&store, "default", text.clone());
    assert_eq!(
        session.conversation_id(),
        "default",
        "conversation id must survive restarts"
    );
    let history = session.history();
    assert_eq!(history.len(), 2);
    assert_eq!(history[0], ChatMessage::user(question));
    assert_eq!(history[1], ChatMessage::assistant("Hello!"));
    assert_eq!(session.title().as_deref(), Some(question));
    assert_eq!(session.total_usage().input_tokens, Some(4));
    assert_eq!(session.total_usage().output_tokens, Some(6));

    let file = json(&text);
    assert_eq!(file.get("schema"), Some(&Json::of_u64(3)));
    assert_eq!(file.get("updatedAt"), Some(&Json::of_str("2026-01-02T00:00:00Z")));
    assert_eq!(file.get("usage").unwrap().get("total_tokens"), Some(&Json::of_u64(10)));
    // A session without a store is not kept.
    assert!(ChatSession::new("x", NOW).persist(NOW).is_none());
}

#[test]
fn attachments_and_artifacts_persist_with_their_messages() {
    let store = ConversationStore::new("c");
    let mut world = World::scripted(vec![
        vec![
            CoreEvent::ToolCall { id: "c1".into(), name: "echo".into(), input: json("{}") },
            done(),
        ],
        vec![delta("rotated it"), done()],
    ]);
    world.tools.push(StubTool {
        name: "echo",
        consent: false,
        output: "OK",
        artifact: Some("rotated.png"),
    });
    let mut session =
        ChatSession::with_store("default", store.clone(), Ok(Loaded::Absent), NOW);
    let task = session
        .send_with_attachments(
            "rotate this",
            vec![Artifact::new("photo.png", Some("image/png"))],
            &world.config,
        )
        .unwrap();
    let events = world.drive(&mut session, task);
    assert!(events.iter().any(
        |event| matches!(event, CoreEvent::Artifact { path, .. } if path == "rotated.png")
    ));

    // The upload rides on the user message; the tool output lands on the
    // final answer (the intermediate message only carries the tool call).
    let history = session.history();
    assert_eq!(
        history[0].artifacts,
        vec![Artifact::new("photo.png", Some("image/png"))]
    );
    assert_eq!(
        history.last().unwrap().artifacts,
        vec![Artifact::new("rotated.png", Some("image/png"))]
    );
    assert!(history[1].artifacts.is_empty(), "tool-call turn: no artifacts");

    // Reload from disk: both survive, schema v3.
    let (_, text) = session.persist(NOW).unwrap().unwrap();
    let reloaded = reopen(&store, "default", text.clone());
    let history = reloaded.history();
    assert_eq!(history[0].artifacts[0].path, "photo.png");
    assert_eq!(history.last().unwrap().artifacts[0].path, "rotated.png");
    assert_eq!(json(&text).get("schema"), Some(&Json::of_u64(3)));
    assert!(text.contains("\"mimeHint\": \"image/png\""));
}

#[test]
fn regenerate_resends_the_original_attachments() {
    let mut world =
        World::scripted(vec![vec![delta("first"), done()], vec![delta("second"), done()]]);
    let mut session = session();
    let task = session
        .send_with_attachments("look", vec![Artifact::new("photo.png", None)], &world.config)
        .unwrap();
    world.drive(&mut session, task);
    let task = session.regenerate(&world.config).unwrap();
    world.drive(&mut session, task);
    let history = session.history();
    assert_eq!(history.len(), 2);
    assert_eq!(history[0].artifacts[0].path, "photo.png");
    assert_eq!(history[1].content, "second");
}

#[test]
fn an_unreadable_conversation_file_starts_empty_not_broken() {
    let store = ConversationStore::new("c");
    let session = reopen(&store, "default", "}{ broken".to_string());
    assert!(session.history().is_empty());
    assert_eq!(session.conversation_id(), "default");
}

#[test]
fn tool_calls_run_and_their_result_is_fenced() {
    let mut world = World::scripted(vec![
        vec![
            CoreEvent::ToolCall { id: "c1".into(), name: "echo".into(), input: json(r#"{"x": 1}"#) },
            done(),
        ],
        vec![delta("final answer"), done()],
    ]);
    world.tools.push(StubTool {
        name: "echo",
        consent: false,
        output: "TOOL-OUTPUT",
        artifact: None,
    });
    let mut session = session();
    let events = world.send(&mut session, "hello");

    assert!(events
        .iter()
        .any(|e| matches!(e, CoreEvent::ToolCall { name, .. } if name == "echo")));
    let tool_result = events
        .iter()
        .find_map(|e| match e {
            CoreEvent::ToolResult { output, is_error, .. } => Some((output.clone(), *is_error)),
            _ => None,
        })
        .expect("a ToolResult was emitted");
    assert!(!tool_result.1);
    assert!(tool_result.0.contains("TOOL-OUTPUT"));
    assert!(tool_result.0.contains("untrusted-data"));
    assert!(tool_result.0.contains("not instructions"));
    assert!(events.contains(&delta("final answer")));
    assert!(matches!(events.last(), Some(CoreEvent::TurnDone { .. })));

    // History: user, assistant(tool_calls), tool(result), assistant(answer).
    let history = session.history();
    assert_eq!(history.len(), 4);
    assert_eq!(history[1].role, Role::Assistant);
    assert_eq!(history[1].tool_calls.as_ref().unwrap()[0].name, "echo");
    assert_eq!(history[2].role, Role::Tool);
    assert!(history[2].content.contains("TOOL-OUTPUT"));
    assert_eq!(history[3], ChatMessage::assistant("final answer"));

    // The tool ran once; the second main-model request carried the fenced
    // result and still advertised the tools.
    assert_eq!(world.runs, 1);
    assert_eq!(world.requests.len(), 2);
    assert!(!world.requests[1].tools.is_empty());
    assert!(world.requests[1]
        .messages
        .iter()
        .any(|m| m.role == Role::Tool && m.content.contains("TOOL-OUTPUT")));
}

fn consent_world() -> World {
    let mut world = World::scripted(vec![
        vec![
            CoreEvent::ToolCall {
                id: "c1".into(),
                name: "memory_write".into(),
                input: json(r#"{"content": "remember frogs"}"#),
            },
            done(),
        ],
        vec![delta("saved"), done()],
    ]);
    world.tools.push(StubTool {
        name: "memory_write",
        consent: true,
        output: "written",
        artifact: None,
    });
    world
}

#[test]
fn consent_gated_tool_waits_then_persists_when_allowed() {
    let mut world = consent_world();
    world.decision = Some(Decision::Allow);
    let mut session = session();
    let events = world.send(&mut session, "remember frogs");
    // A consent card was shown, and the tool ran afterwards.
    assert!(events.iter().any(|e| matches!(e, CoreEvent::ApprovalRequest { .. })));
    assert!(events
        .iter()
        .any(|e| matches!(e, CoreEvent::ToolResult { is_error, .. } if !is_error)));
    assert_eq!(world.runs, 1);
    // Audit recorded the allow decision.
    assert!(world.audit_text.contains("\"decision\":\"allow\""));
    assert!(world.audit_text.contains("memory_write"));
}

#[test]
fn denied_consent_writes_nothing_and_is_audited() {
    let mut world = consent_world();
    world.decision = Some(Decision::Deny);
    let mut session = session();
    let events = world.send(&mut session, "write something");
    // The tool result is a structured denial; nothing was run.
    assert!(events.iter().any(|e| matches!(
        e,
        CoreEvent::ToolResult { output, is_error, .. } if *is_error && output.contains("denied")
    )));
    assert_eq!(world.runs, 0);
    assert!(world.audit_text.contains("\"decision\":\"deny\""));
    assert!(world.audit_text.contains("\"status\":\"denied\""));
}

#[test]
fn consent_that_nobody_gives_is_denied() {
    let mut world = consent_world();
    let mut session = session();
    world.send(&mut session, "write something");
    assert_eq!(world.runs, 0);
    assert!(world.audit_text.contains("\"status\":\"denied\""));
}

#[test]
fn an_unknown_tool_is_a_structured_error() {
    let mut world = World::scripted(vec![
        vec![
            CoreEvent::ToolCall { id: "c1".into(), name: "nope".into(), input: json("{}") },
            done(),
        ],
        vec![delta("sorry"), done()],
    ]);
    let mut session = session();
    let events = world.send(&mut session, "hello");
    assert!(events.iter().any(|e| matches!(
        e,
        CoreEvent::ToolResult { output, is_error, .. }
            if *is_error && output.contains("Unknown tool \"nope\"")
    )));
    assert!(world.audit_text.contains("unknown_tool"));
}

#[test]
fn raw_fetched_pages_never_reach_the_main_model() {
    // The worker reads the raw page; only its distillation is fenced back.
    let mut world = World::scripted(vec![
        // Main model asks for a search.
        vec![
            CoreEvent::ToolCall {
                id: "c1".into(),
                name: "web_search".into(),
                input: json(r#"{"query": "frogs"}"#),
            },
            done(),
        ],
        // Summarizer worker returns the distillation.
        vec![delta("DISTILLED-SUMMARY"), done()],
        // Main model answers.
        vec![delta("grounded answer"), done()],
    ]);
    world.search = Some(FakeSearch::from_results(vec![SearchResult {
        title: "Frogs".into(),
        url: "https://example.test/frogs".into(),
        snippet: "RAW-PAGE-MARKER".into(),
    }]));
    world.tools.push(StubTool { name: "web_search", consent: false, output: "", artifact: None });
    let mut session = session();
    let events = world.send(&mut session, "search frogs");
    assert!(events.contains(&delta("grounded answer")));

    // The worker saw the raw page text (fenced)...
    assert!(world
        .requests
        .iter()
        .any(|r| r.messages.iter().any(|m| m.content.contains("RAW-PAGE-MARKER"))));
    // ...but no main-model request (the ones with tools) ever did.
    assert!(world
        .requests
        .iter()
        .filter(|r| !r.tools.is_empty())
        .all(|r| r.messages.iter().all(|m| !m.content.contains("RAW-PAGE-MARKER"))));
    assert!(world.audit_text.contains("worker:summarizer"));
}

#[test]
fn regenerate_reruns_the_last_user_message() {
    let mut world = World::scripted(vec![vec![delta("one"), done()], vec![delta("two"), done()]]);
    let mut session = session();
    world.send(&mut session, "hello");
    assert_eq!(session.history()[1], ChatMessage::assistant("one"));

    let task = session.regenerate(&world.config).unwrap();
    world.drive(&mut session, task);
    let history = session.history();
    assert_eq!(history.len(), 2, "the old answer is replaced, not appended");
    assert_eq!(history[0], ChatMessage::user("hello"));
    assert_eq!(history[1], ChatMessage::assistant("two"));
    assert_eq!(world.requests.len(), 2);
}

#[test]
fn there_may_be_nothing_to_regenerate() {
    let mut session = session();
    let err = session.regenerate(&Config::default()).unwrap_err();
    assert_eq!(err.message, "nothing to regenerate");
    session.send("hello", &Config::default()).unwrap();
    session.abort();
    let err = session.regenerate(&Config::default()).unwrap_err();
    assert_eq!(err.kind, ApiErrorKind::Config);
    assert_eq!(session.history().len(), 1);
}

#[test]
fn memory_is_injected_into_the_next_turn_within_budget() {
    let mut world = World::scripted(vec![vec![delta("ok"), done()]]);
    world.notes = vec![MemoryNote {
        path: "p".into(),
        day: "2026-09-10".into(),
        slug: "s".into(),
        tags: vec!["pets".into()],
        created: None,
        content: "The user's pet frog is named Kaeru".into(),
        modified_unix: 1,
    }];
    let mut session = session();
    world.send(&mut session, "what is my frog called?");
    assert_eq!(world.requests.len(), 1);
    let messages = &world.requests[0].messages;
    // The memory block is a system message before the user turn.
    let memory_index = messages
        .iter()
        .position(|m| m.content.contains("pet frog is named Kaeru"))
        .expect("the durable note was injected");
    let user_index = messages
        .iter()
        .position(|m| m.content.contains("what is my frog called?"))
        .unwrap();
    assert!(memory_index < user_index);
    assert!(messages[memory_index].content.contains("(pets)"));
    // The block is bounded, so it can never crowd out the window.
    assert!(
        messages[memory_index].content.chars().count()
            <= (MEMORY_BLOCK_BUDGET_TOKENS as usize) * 4
    );
}

#[test]
fn persona_becomes_the_system_prompt_and_reloads_per_turn() {
    let mut world = World::scripted(vec![vec![delta("ok"), done()], vec![delta("ok"), done()]]);
    let mut session = session();
    world.persona = persona(FileRead::Text("You are a small pond frog. Be terse.\n".into()));
    world.send(&mut session, "hello");
    // The file is edited; the next turn must pick it up with no restart.
    world.persona = persona(FileRead::Text("You are a grumpy toad now.\n".into()));
    world.send(&mut session, "again");
    let requests = &world.requests;
    assert_eq!(requests[0].messages[0].role, Role::System);
    assert!(requests[0].messages[0].content.contains("small pond frog"));
    assert_eq!(requests[1].messages[0].role, Role::System);
    assert!(requests[1].messages[0].content.contains("grumpy toad"));
}

#[test]
fn a_missing_persona_file_adds_no_system_message() {
    let mut world = World::scripted(vec![vec![delta("ok"), done()]]);
    let mut session = session();
    world.persona = persona(FileRead::Missing);
    world.send(&mut session, "hello");
    assert!(world.requests[0]
        .messages
        .iter()
        .all(|message| message.role != Role::System));
    assert_eq!(persona(FileRead::Text("  \n".into())), None);
    assert_eq!(persona(FileRead::Failed("denied".into())), None);
}

#[test]
fn the_step_limit_ends_a_turn_with_a_notice() {
    let call =
        || CoreEvent::ToolCall { id: "c".into(), name: "echo".into(), input: json("{}") };
    let mut world = World::scripted(vec![vec![call(), done()], vec![call(), done()]]);
    world.tools.push(StubTool { name: "echo", consent: false, output: "x", artifact: None });
    world.config.agent.max_steps = 2;
    let mut session = session();
    let events = world.send(&mut session, "hello");
    let notice = "I reached my tool-call step limit (2) without finishing. Here is what I gathered so far; ask me to continue if you want more.";
    assert!(events.contains(&delta(notice)));
    assert_eq!(events.last(), Some(&done()));
    assert_eq!(session.history().last(), Some(&ChatMessage::assistant(notice)));
    assert_eq!(world.requests.len(), 2);
    assert_eq!(world.runs, 2);
}

#[test]
fn usage_of_several_steps_adds_up_and_unknown_stays_unknown() {
    let usage = |n| Some(Usage { input_tokens: Some(n), output_tokens: None, total_tokens: None });
    let mut world = World::scripted(vec![
        vec![
            CoreEvent::ToolCall { id: "c".into(), name: "echo".into(), input: json("{}") },
            CoreEvent::TurnDone { usage: usage(1) },
        ],
        vec![delta("x"), CoreEvent::TurnDone { usage: usage(2) }],
    ]);
    world.tools.push(StubTool { name: "echo", consent: false, output: "x", artifact: None });
    let mut session = session();
    let events = world.send(&mut session, "hello");
    assert_eq!(events.last(), Some(&CoreEvent::TurnDone { usage: usage(3) }));
    assert_eq!(session.total_usage().input_tokens, Some(3));
    assert_eq!(session.total_usage().output_tokens, Some(0));
}

#[test]
fn turn_ids_increase() {
    let mut session = session();
    let first = session.send("a", &Config::default()).unwrap().turn_id;
    session.abort();
    let second = session.send("b", &Config::default()).unwrap().turn_id;
    assert!(second > first);
    assert!(session.is_turn(second));
    assert!(!session.is_turn(first));
}

#[test]
fn approvals_are_answered_once() {
    let mut approvals = SessionApprovals::new();
    let kind = || ApprovalKind::NetworkAccess { reason: "x".into() };
    let (first, event) = approvals.request(kind(), "may I?");
    assert_eq!(first, "appr1");
    assert!(matches!(event, CoreEvent::ApprovalRequest { .. }));
    let (second, _) = approvals.request(kind(), "and this?");
    assert_eq!(second, "appr2");
    assert!(approvals.resolve(&first, Decision::Allow));
    assert!(!approvals.resolve(&first, Decision::Deny));
    assert_eq!(approvals.settle(&first), Decision::Allow);
    assert_eq!(approvals.settle(&second), Decision::Deny);
    assert!(!approvals.resolve(&second, Decision::Allow));
    assert!(!approvals.resolve("nope", Decision::Allow));
}

/* ---------- threads ---------- */

/// A registry and the texts of its files.
struct Threads {
    registry: ConversationRegistry<Rc<ChatSession>>,
    files: Vec<(String, String)>,
    counter: u64,
}

impl Threads {
    fn new() -> Threads {
        Threads {
            registry: ConversationRegistry::new(ConversationStore::new("c")),
            files: Vec::new(),
            counter: 0,
        }
    }

    fn create(&mut self, title: Option<String>, now: &str) -> Rc<ChatSession> {
        let id = new_thread_id(0x1234, self.counter);
        self.counter += 1;
        let session = Rc::new(self.registry.create(&id, title, now));
        let (_, text) = session.persist(now).unwrap().unwrap();
        self.files.push((id.clone(), text));
        self.registry.insert(&id, session.clone());
        session
    }

    fn read(&self, id: &str) -> FileRead {
        match self.files.iter().find(|(name, _)| name == id) {
            Some((_, text)) => FileRead::Text(text.clone()),
            None => FileRead::Missing,
        }
    }

    fn get(&mut self, id: &str) -> Result<Rc<ChatSession>, ApiError> {
        if let Some(session) = self.registry.get(id) {
            return Ok(session.clone());
        }
        let loaded = self.registry.store().load(id, self.read(id));
        let session = Rc::new(self.registry.open(id, loaded, NOW)?);
        self.registry.keep(id, session.clone());
        Ok(session)
    }

    fn conversations(&self) -> Vec<agent_core::Conversation> {
        let store = self.registry.store();
        self.files
            .iter()
            .filter_map(|(id, text)| {
                match store.load(id, FileRead::Text(text.clone())).unwrap() {
                    Loaded::Found(c) => Some(c),
                    _ => None,
                }
            })
            .collect()
    }

    fn delete(&mut self, id: &str) {
        self.registry.remove(id);
        self.files.retain(|(name, _)| name != id);
    }
}

#[test]
fn registry_create_persists_an_empty_thread_and_lists_it() {
    let mut threads = Threads::new();
    let session = threads.create(None, NOW);
    let id = session.conversation_id();
    assert_eq!(id, "t12340");

    let listed = threads.registry.list(threads.conversations());
    assert_eq!(listed.len(), 1);
    assert_eq!(listed[0].id, id);
    assert_eq!(listed[0].message_count, 0);
    assert!(listed[0].title.is_none());

    // A named thread keeps its explicit title.
    let named = threads.create(Some("My thread".into()), NOW);
    assert_eq!(named.title().as_deref(), Some("My thread"));
}

#[test]
fn registry_get_is_cached_and_unknown_ids_are_not_found() {
    let mut threads = Threads::new();
    let created = threads.create(None, NOW);
    let id = created.conversation_id();

    let fetched = threads.get(&id).unwrap();
    assert!(Rc::ptr_eq(&created, &fetched), "session must be cached");

    let err = threads.get("does-not-exist").err().unwrap();
    assert_eq!(err.kind, ApiErrorKind::NotFound);
    assert_eq!(err.message, "no thread with id \"does-not-exist\"");
    // A thread that is not live is opened from its file, once.
    threads.registry.remove(&id);
    let opened = threads.get(&id).unwrap();
    assert!(!Rc::ptr_eq(&created, &opened));
    assert!(Rc::ptr_eq(&opened, &threads.get(&id).unwrap()));
}

#[test]
fn registry_delete_drops_the_session_and_the_file() {
    let mut threads = Threads::new();
    let id = threads.create(None, NOW).conversation_id();
    threads.delete(&id);
    assert!(threads.get(&id).is_err());
    assert!(threads.registry.list(threads.conversations()).is_empty());
}

#[test]
fn registry_picks_the_newest_thread_and_falls_back_after_delete() {
    let mut threads = Threads::new();
    assert!(threads.registry.latest(threads.conversations()).is_none());
    let older = threads.create(None, "2020-01-01T00:00:00Z").conversation_id();
    let newer = threads.create(None, "2024-01-01T00:00:00Z").conversation_id();
    assert_eq!(threads.registry.latest(threads.conversations()), Some(newer.clone()));
    threads.delete(&newer);
    assert_eq!(threads.registry.latest(threads.conversations()), Some(older));
}

#[test]
fn threads_keep_independent_histories() {
    let registry: ConversationRegistry<Rc<ChatSession>> =
        ConversationRegistry::new(ConversationStore::new("c"));
    let mut a = registry.create("a", None, NOW);
    let b = registry.create("b", None, NOW);
    let mut world = World::scripted(vec![]);
    world.fake = Some(FakeProvider::builtin());
    world.send(&mut a, "only in a");
    assert_eq!(a.history().len(), 2);
    assert!(b.history().is_empty());
}

#[test]
fn thread_rows_round_trip() {
    let row = ThreadSummary {
        id: "t1".into(),
        title: None,
        created_at: "c".into(),
        updated_at: "u".into(),
        message_count: 3,
        usage: Usage::default(),
    };
    assert_eq!(
        row.to_json().to_text(),
        r#"{"id":"t1","createdAt":"c","updatedAt":"u","messageCount":3,"usage":{}}"#
    );
    assert_eq!(ThreadSummary::from_json(&row.to_json()), Some(row));
}

#[test]
fn thread_ids_are_hexadecimal() {
    assert_eq!(new_thread_id(255, 16), "tff10");
    assert_eq!(new_thread_id(0, 0), "t00");
    assert_eq!(new_thread_id(u128::MAX, u64::MAX).len(), 49);
}
