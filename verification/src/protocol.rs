//! The Op/Event protocol: messages between a front end and the session core.
//!
//! An `Op` travels from a front end into the core; an `Event` travels from
//! the core to every attached front end.  Both are closed sum types so that
//! every consumer matches exhaustively.

use vstd::prelude::*;

verus! {

/// One item of a user input: plain text or a reference to a local image.
#[derive(Clone, Debug, PartialEq, Eq)]
pub enum InputItem {
    Text { text: String },
    LocalImage { path: String },
}

/// A user's decision on a pending approval request.
#[derive(Clone, Copy, Debug, PartialEq, Eq, Structural)]
pub enum ReviewDecision {
    Approve,
    ApproveForSession,
    Deny,
}

/// One requested change to a file, as carried by a patch proposal.
#[derive(Clone, Debug, PartialEq, Eq)]
pub enum FileChange {
    Add { path: String },
    Delete { path: String },
    Update { path: String },
}

/// A front-end-to-core request.  Ownership transfers to the core on send.
#[derive(Clone, Debug, PartialEq, Eq)]
pub enum Op {
    /// An ordered sequence of content items typed by the user.
    UserInput { items: Vec<InputItem> },
    /// A decision correlating to the pending request with the same id.
    ApprovalDecision { id: u64, decision: ReviewDecision },
    /// Ask the session to tear down.
    Shutdown,
}

/// The payload of a core-to-front-end notification.
#[derive(Clone, Debug, PartialEq, Eq)]
pub enum EventMsg {
    /// Emitted once at session start; carries session metadata.
    SessionConfigured { model: String },
    /// Model output, informational.
    AgentMessage { message: String },
    /// Model reasoning, informational.
    AgentReasoning { text: String },
    /// Opens one unit of agent work.
    TaskStarted,
    /// Closes one unit of agent work.
    TaskComplete,
    /// Task-level failure; terminal for the task, non-fatal to the session.
    Error { message: String },
    /// A pending command-execution decision, keyed by the event's id.
    ExecApprovalRequest { command: Vec<String>, cwd: String, reason: String },
    /// A pending patch-application decision, keyed by the event's id.
    ApplyPatchApprovalRequest {
        changes: Vec<FileChange>,
        reason: String,
        grant_root: Option<String>,
    },
    /// A command execution has begun under `call_id`.
    ExecCommandBegin { call_id: u64, command: Vec<String> },
    /// The command execution under `call_id` has finished.
    ExecCommandEnd { call_id: u64, exit_code: i32, stdout: String, stderr: String },
    /// A patch application has begun; `auto_approved` says whether it
    /// bypassed the approval gate.
    PatchApplyBegin { call_id: u64, auto_approved: bool, changes: Vec<FileChange> },
    /// The patch application under `call_id` has finished.
    PatchApplyEnd { call_id: u64, success: bool },
    /// An external tool invocation has begun under `call_id`.
    McpToolCallBegin { call_id: u64, server: String, tool: String, arguments: String },
    /// The tool invocation under `call_id` has finished.
    McpToolCallEnd { call_id: u64, success: bool, result: String },
    /// A session-level notice that front ends may treat as opaque.
    BackgroundEvent { message: String },
    /// The session's final event after a shutdown.
    ShutdownComplete,
}

/// A core-to-front-end notification: a correlation id (shared with the `Op`
/// that caused it, or `None` for session-level events) and a payload.
#[derive(Clone, Debug, PartialEq, Eq)]
pub struct Event {
    pub id: Option<u64>,
    pub msg: EventMsg,
}

/// Whether `m` opens a correlated call (exec, patch or tool).
#[verifier::opaque]
pub open spec fn is_begin(m: EventMsg) -> bool {
    ||| m is ExecCommandBegin
    ||| m is PatchApplyBegin
    ||| m is McpToolCallBegin
}

/// Whether `m` closes a correlated call (exec, patch or tool).
#[verifier::opaque]
pub open spec fn is_end(m: EventMsg) -> bool {
    ||| m is ExecCommandEnd
    ||| m is PatchApplyEnd
    ||| m is McpToolCallEnd
}

/// The correlation key of a begin or end event.
#[verifier::opaque]
pub open spec fn call_id_of(m: EventMsg) -> u64
    recommends
        is_begin(m) || is_end(m),
{
    match m {
        EventMsg::ExecCommandBegin { call_id, .. } => call_id,
        EventMsg::ExecCommandEnd { call_id, .. } => call_id,
        EventMsg::PatchApplyBegin { call_id, .. } => call_id,
        EventMsg::PatchApplyEnd { call_id, .. } => call_id,
        EventMsg::McpToolCallBegin { call_id, .. } => call_id,
        EventMsg::McpToolCallEnd { call_id, .. } => call_id,
        _ => 0,
    }
}

/// Whether `m` terminates one unit of agent work.
pub open spec fn is_task_terminal(m: EventMsg) -> bool {
    m is TaskComplete || m is Error
}

} // verus!
