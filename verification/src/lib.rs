//! An agent library: configuration, access to language models, chat sessions,
//! the tool-calling loop, memory, web search and a sandbox for scripts.
//!
//! The library decides and computes; it does no input or output of its own. A
//! frontend reads files, talks to the network and keeps the clock, and hands
//! what came back to the functions here.

use vstd::prelude::*;

pub mod agent;
pub mod audit;
pub mod config;
pub mod context;
pub mod conversations;
pub mod error;
pub mod events;
pub mod events_json;
pub mod fields;
pub mod json;
pub mod llm;
pub mod memory;
pub mod order;
pub mod paths;
pub mod results;
pub mod sandbox;
pub mod search;
pub mod session;
pub mod text;
pub mod text_laws;
pub mod time;
pub mod turn_results;

pub use agent::reflect::digest::REFLECT_TAG;
pub use agent::reflect::{ReflectOutcome, ReflectStatus, Reflector};
pub use agent::turn_loop::TurnOutcome;
pub use agent::workers::{WorkerSpec, Workers};
pub use audit::{AuditEntry, AuditLog};
pub use config::sections::{
    AgentConfig, ContextConfig, FilesConfig, ProviderConfig, ReflectConfig, ReflectorWorkerConfig,
    SandboxConfig, SearchConfig, SearchProviderKind, WorkerConfig, WorkersConfig,
};
pub use config::{
    Config, Paths, DEFAULT_BASE_URL, DEFAULT_MAX_PROMPT_TOKENS, DEFAULT_MODEL, DEFAULT_PORT,
};
pub use context::ContextPolicy;
pub use conversations::{
    Conversation, ConversationStore, StoredMessage, CONVERSATION_SCHEMA_VERSION,
};
pub use error::{ApiError, ApiErrorKind};
pub use events::{
    ApprovalKind, ApprovalSink, Artifact, CoreEvent, Decision, DenyAll, EventStream, Risk, Usage,
};
pub use llm::cassette::{Cassette, Interaction, CASSETTE_VERSION};
pub use llm::client::HttpClient;
pub use llm::fake::{ClientMode, FakeProvider};
pub use llm::types::{ChatMessage, ChatRequest, ModelInfo, Role, ToolCall};
pub use memory::inject::memory_block;
pub use memory::store::{MemoryNote, MemoryStore};
pub use sandbox::Sandbox;
pub use search::{DisabledSearch, FakeSearch, SearchProvider, SearchResult};
pub use session::registry::{ConversationRegistry, ThreadSummary};
pub use session::ChatSession;

verus! {

} // verus!
