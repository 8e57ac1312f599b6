//! The execution of one requested tool call: consent first, then the tool, then
//! the fenced result for the model and the line for the audit log.

use vstd::prelude::*;

use crate::audit::{AuditEntry, AuditEntryView};
use crate::error::{ApiError, ApiErrorView};
use crate::events::{ApprovalKind, ApprovalKindView, CoreEvent, CoreEventView, Decision, Risk, RiskView};
use crate::llm::types::{ChatMessage, ChatMessageView, Role, ToolCall, ToolCallView};
use crate::text::quote;

verus! {

/// Where a call stands.
#[derive(Debug, Clone, Copy, PartialEq, Eq, Structural)]
pub enum Clearance {
    /// No tool has the requested name.
    Unknown,
    /// The tool needs no consent.
    Safe,
    /// Consent has been asked for and not been given.
    Asked,
    /// The user allowed the call.
    Allowed,
    /// The user denied the call.
    Denied,
}

/// What is to be done next.
#[derive(Debug)]
pub enum CallAction {
    /// Run the tool.
    Execute,
    /// Ask the user.
    Ask(ApprovalKind),
    /// Nothing is run: the call is settled as it stands.
    Settle,
}

/// The content of a [`CallAction`].
#[verifier::ext_equal]
pub enum CallActionView {
    Execute,
    Ask(ApprovalKindView),
    Settle,
}

impl View for CallAction {
    type V = CallActionView;

    open spec fn view(&self) -> CallActionView {
        match self {
            CallAction::Execute => CallActionView::Execute,
            CallAction::Ask(kind) => CallActionView::Ask(kind@),
            CallAction::Settle => CallActionView::Settle,
        }
    }
}

/// A tool call that is being executed.
#[derive(Debug)]
pub struct ToolRun {
    call: ToolCall,
    clearance: Clearance,
}

/// The clearance that a risk gives; `None` stands for an unknown tool.
pub open spec fn clearance_of(risk: Option<RiskView>) -> Clearance {
    match risk {
        None => Clearance::Unknown,
        Some(RiskView::Safe) => Clearance::Safe,
        Some(RiskView::NeedsApproval(_)) => Clearance::Asked,
    }
}

/// What a risk asks for.
pub open spec fn first_action(risk: Option<RiskView>) -> CallActionView {
    match risk {
        None => CallActionView::Settle,
        Some(RiskView::Safe) => CallActionView::Execute,
        Some(RiskView::NeedsApproval(kind)) => CallActionView::Ask(kind),
    }
}

/// The event that announces a call.
pub open spec fn announcement(c: ToolCallView) -> CoreEventView {
    CoreEventView::ToolCall { id: c.id, name: c.name, input: c.arguments }
}

/// Whether the tool runs.
pub open spec fn may_run(c: Clearance) -> bool {
    c == Clearance::Safe || c == Clearance::Allowed
}

/// What a tool gave.
pub open spec fn reply_view(r: Result<String, ApiError>) -> Result<Seq<char>, ApiErrorView> {
    match r {
        Ok(s) => Ok(s@),
        Err(e) => Err(e@),
    }
}

/// The output of a call, before it is fenced. What the tool gave counts only
/// where it may run.
pub open spec fn call_output(
    c: Clearance,
    name: Seq<char>,
    reply: Result<Seq<char>, ApiErrorView>,
) -> Seq<char> {
    if c == Clearance::Unknown {
        "Unknown tool "@ + crate::text::quoted(name)
            + "; available tools: none matching. Do not retry it."@
    } else if !may_run(c) {
        "The user denied this action. Do not retry it without asking again."@
    } else {
        match reply {
            Ok(text) => text,
            Err(e) => "Tool "@ + crate::text::quoted(name) + " failed: "@ + e.message,
        }
    }
}

/// Whether a call counts as failed.
pub open spec fn call_failed(c: Clearance, reply: Result<Seq<char>, ApiErrorView>) -> bool {
    !may_run(c) || reply is Err
}

/// The outcome word of a call.
pub open spec fn call_status(c: Clearance, reply: Result<Seq<char>, ApiErrorView>) -> Seq<char> {
    if c == Clearance::Unknown {
        "unknown_tool"@
    } else if !may_run(c) {
        "denied"@
    } else {
        match reply {
            Ok(_) => "ok"@,
            Err(e) => "error:"@ + crate::error::kind_name(e.kind),
        }
    }
}

/// The decision as the audit log records it; none where nobody was asked.
pub open spec fn call_decision(c: Clearance) -> Option<Seq<char>> {
    match c {
        Clearance::Allowed => Some("allow"@),
        Clearance::Denied => Some("deny"@),
        Clearance::Asked => Some("deny"@),
        _ => None,
    }
}

/// The output of a call as the model sees it.
pub open spec fn call_fenced(
    c: Clearance,
    name: Seq<char>,
    reply: Result<Seq<char>, ApiErrorView>,
) -> Seq<char> {
    crate::agent::fenced("tool:"@ + name, call_output(c, name, reply))
}

/// A call that is over: its event, its audit line and its message.
#[derive(Debug)]
pub struct FinishedCall {
    pub event: CoreEvent,
    pub audit: AuditEntry,
    pub message: ChatMessage,
}

/// The event of a finished call.
pub open spec fn result_event(
    call: ToolCallView,
    c: Clearance,
    reply: Result<Seq<char>, ApiErrorView>,
) -> CoreEventView {
    CoreEventView::ToolResult {
        id: call.id,
        name: call.name,
        output: call_fenced(c, call.name, reply),
        is_error: call_failed(c, reply),
    }
}

/// The message of a finished call.
pub open spec fn result_message(
    call: ToolCallView,
    c: Clearance,
    reply: Result<Seq<char>, ApiErrorView>,
) -> ChatMessageView {
    ChatMessageView {
        tool_call_id: Some(call.id),
        ..crate::llm::types::message(Role::Tool, call_fenced(c, call.name, reply))
    }
}

/// The audit line of a finished call.
pub open spec fn result_audit(
    turn_id: u64,
    call: ToolCallView,
    c: Clearance,
    reply: Result<Seq<char>, ApiErrorView>,
    duration_ms: u64,
) -> AuditEntryView {
    AuditEntryView {
        turn_id: turn_id,
        tool: call.name,
        input: call.arguments,
        decision: call_decision(c),
        model: None,
        status: call_status(c, reply),
        duration_ms: duration_ms,
    }
}

/// The content of an optional risk.
pub open spec fn opt_risk(o: Option<Risk>) -> Option<RiskView> {
    match o {
        Some(r) => Some(r@),
        None => None,
    }
}

impl ToolRun {
    /// The call.
    pub closed spec fn call(&self) -> ToolCallView {
        self.call@
    }

    /// Where it stands.
    pub closed spec fn clearance(&self) -> Clearance {
        self.clearance
    }

    /// Begins a call with the risk that its tool sees in it; `None` where no
    /// tool has its name. The event announces the call.
    pub fn begin(call: ToolCall, risk: Option<Risk>) -> (r: (ToolRun, CoreEvent, CallAction))
        ensures
            r.0.call() == call@,
            r.0.clearance() == clearance_of(opt_risk(risk)),
            r.1@ == announcement(call@),
            r.2@ == first_action(opt_risk(risk)),
    {
        let event = CoreEvent::ToolCall {
            id: call.id.clone(),
            name: call.name.clone(),
            input: call.arguments.copy(),
        };
        let (clearance, action) = match risk {
            None => (Clearance::Unknown, CallAction::Settle),
            Some(Risk::Safe) => (Clearance::Safe, CallAction::Execute),
            Some(Risk::NeedsApproval(kind)) => (Clearance::Asked, CallAction::Ask(kind)),
        };
        (ToolRun { call, clearance }, event, action)
    }

    /// Takes the user's decision. A denied call is never run.
    pub fn decide(&mut self, decision: Decision) -> (r: CallAction)
        requires
            old(self).clearance() == Clearance::Asked,
        ensures
            final(self).call() == old(self).call(),
            decision == Decision::Allow ==> final(self).clearance() == Clearance::Allowed && r
                is Execute,
            decision == Decision::Deny ==> final(self).clearance() == Clearance::Denied && r
                is Settle,
    {
        match decision {
            Decision::Allow => {
                self.clearance = Clearance::Allowed;
                CallAction::Execute
            },
            Decision::Deny => {
                self.clearance = Clearance::Denied;
                CallAction::Settle
            },
        }
    }

    /// Settles the call with what its tool gave. A call that was not cleared is
    /// settled as refused, whatever `reply` is.
    pub fn settle(self, turn_id: u64, reply: Result<String, ApiError>, duration_ms: u64) -> (r:
        FinishedCall)
        ensures
            r.event@ == result_event(self.call(), self.clearance(), reply_view(reply)),
            r.message@ == result_message(self.call(), self.clearance(), reply_view(reply)),
            r.audit@ == result_audit(
                turn_id,
                self.call(),
                self.clearance(),
                reply_view(reply),
                duration_ms,
            ),
    {
        let runs = match self.clearance {
            Clearance::Safe => true,
            Clearance::Allowed => true,
            _ => false,
        };
        let unknown = match self.clearance {
            Clearance::Unknown => true,
            _ => false,
        };
        let (output, is_error, status): (String, bool, String) = if unknown {
            let mut out = "Unknown tool ".to_owned();
            out.append(quote(self.call.name.as_str()).as_str());
            out.append("; available tools: none matching. Do not retry it.");
            (out, true, "unknown_tool".to_owned())
        } else if !runs {
            (
                "The user denied this action. Do not retry it without asking again.".to_owned(),
                true,
                "denied".to_owned(),
            )
        } else {
            match reply {
                Ok(text) => (text, false, "ok".to_owned()),
                Err(e) => {
                    let mut out = "Tool ".to_owned();
                    out.append(quote(self.call.name.as_str()).as_str());
                    out.append(" failed: ");
                    out.append(e.message.as_str());
                    let mut status = "error:".to_owned();
                    status.append(e.kind.as_str());
                    (out, true, status)
                },
            }
        };
        let mut source = "tool:".to_owned();
        source.append(self.call.name.as_str());
        let fenced = crate::agent::fence(source.as_str(), output.as_str());
        let decision: Option<String> = match self.clearance {
            Clearance::Allowed => Some("allow".to_owned()),
            Clearance::Denied => Some("deny".to_owned()),
            Clearance::Asked => Some("deny".to_owned()),
            _ => None,
        };
        let event = CoreEvent::ToolResult {
            id: self.call.id.clone(),
            name: self.call.name.clone(),
            output: fenced.clone(),
            is_error,
        };
        let message = ChatMessage::tool(self.call.id.as_str(), fenced.as_str());
        let audit = AuditEntry {
            turn_id,
            tool: self.call.name.clone(),
            input: self.call.arguments.copy(),
            decision,
            model: None,
            status,
            duration_ms,
        };
        FinishedCall { event, audit, message }
    }
}

/// A call that nobody allowed has no effect on what the model sees beyond the
/// refusal: two replies of the tool cannot be told apart.
pub proof fn refused_call_hides_the_tool(
    call: ToolCallView,
    c: Clearance,
    a: Result<Seq<char>, ApiErrorView>,
    b: Result<Seq<char>, ApiErrorView>,
)
    requires
        !may_run(c),
    ensures
        result_event(call, c, a) == result_event(call, c, b),
        result_message(call, c, a) == result_message(call, c, b),
        call_failed(c, a),
{
}

} // verus!
