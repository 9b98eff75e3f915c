//! Notification relay: translates each agent-originated streaming update
//! into at most one event for the external observer, tagged with the
//! session id and the currently active logical request id.
//!
//! Update kinds not yet surfaced (thought chunks, plan updates,
//! available-command updates) are accepted and dropped on purpose, as
//! forward compatibility with protocol additions; dropping them is not
//! an error.

use vstd::prelude::*;

use crate::permission::FrontendPermissionRequest;

verus! {

/// A location a tool call touches.
#[derive(Debug, Clone)]
pub struct ToolLocation {
    pub path: String,
    pub line: Option<u32>,
}

/// Why a prompt turn stopped, as the adapter reported it.
#[derive(Debug, Clone, PartialEq, Eq, Structural)]
pub enum StopReason {
    EndTurn,
    MaxTokens,
    MaxTurnRequests,
    Refusal,
    Cancelled,
}

/// One piece of streamed message content: text, or a block kind the
/// observer does not render.
#[derive(Debug, Clone)]
pub enum ContentChunk {
    Text { text: String },
    Other,
}

/// A streaming update the adapter sent for a session.
#[derive(Debug, Clone)]
pub enum SessionUpdate {
    AgentMessageChunk { content: ContentChunk },
    UserMessageChunk { content: ContentChunk },
    ToolCall {
        tool_call_id: String,
        title: String,
        status: String,
        kind: String,
        raw_input: String,
        locations: Vec<ToolLocation>,
    },
    ToolCallUpdate { tool_call_id: String, status: Option<String>, content: Option<String> },
    CurrentModeUpdate { current_mode_id: String },
    AgentThoughtChunk,
    Plan,
    AvailableCommandsUpdate,
}

/// An event for the external observer; the shell serializes these on
/// the observer boundary.
#[derive(Debug, Clone)]
pub enum Event {
    AgentReady,
    SessionCreated { session_id: String },
    AgentMessageChunk { session_id: String, request_id: Option<u64>, text: String },
    UserMessageChunk { session_id: String, text: String },
    ToolCall {
        session_id: String,
        request_id: Option<u64>,
        tool_call_id: String,
        title: String,
        status: String,
        kind: String,
        raw_input: String,
        locations: Vec<ToolLocation>,
    },
    ToolCallUpdate {
        session_id: String,
        request_id: Option<u64>,
        tool_call_id: String,
        status: Option<String>,
        content: Option<String>,
    },
    ModeUpdate { session_id: String, mode: String },
    PermissionRequest { request: FrontendPermissionRequest },
    MessageComplete { request_id: u64, stop_reason: StopReason },
    MessageError { request_id: u64, error: String },
    MaxTokens { request_id: u64, message: String },
    TerminalCreated { session_id: String, terminal_id: u64, command: String },
    TerminalOutput { terminal_id: u64, output: String, exit_status: Option<i32> },
}

/// The event one update translates to: text chunks stream through,
/// tool-call creations and updates carry their fields, mode changes are
/// announced, and the unsurfaced kinds translate to nothing.
pub open spec fn spec_relayed(
    session_id: String,
    request_id: Option<u64>,
    update: SessionUpdate,
) -> Option<Event> {
    match update {
        SessionUpdate::AgentMessageChunk { content } => match content {
            ContentChunk::Text { text } => Some(
                Event::AgentMessageChunk { session_id, request_id, text },
            ),
            ContentChunk::Other => None,
        },
        SessionUpdate::UserMessageChunk { content } => match content {
            ContentChunk::Text { text } => Some(Event::UserMessageChunk { session_id, text }),
            ContentChunk::Other => None,
        },
        SessionUpdate::ToolCall { tool_call_id, title, status, kind, raw_input, locations } => Some(
            Event::ToolCall {
                session_id,
                request_id,
                tool_call_id,
                title,
                status,
                kind,
                raw_input,
                locations,
            },
        ),
        SessionUpdate::ToolCallUpdate { tool_call_id, status, content } => Some(
            Event::ToolCallUpdate { session_id, request_id, tool_call_id, status, content },
        ),
        SessionUpdate::CurrentModeUpdate { current_mode_id } => Some(
            Event::ModeUpdate { session_id, mode: current_mode_id },
        ),
        SessionUpdate::AgentThoughtChunk => None,
        SessionUpdate::Plan => None,
        SessionUpdate::AvailableCommandsUpdate => None,
    }
}

/// Translate one streaming update into the event to emit, if any.
pub fn relay_update(session_id: String, request_id: Option<u64>, update: SessionUpdate) -> (r:
    Option<Event>)
    ensures
        r == spec_relayed(session_id, request_id, update),
{
    match update {
        SessionUpdate::AgentMessageChunk { content } => match content {
            ContentChunk::Text { text } => Some(
                Event::AgentMessageChunk { session_id, request_id, text },
            ),
            ContentChunk::Other => None,
        },
        SessionUpdate::UserMessageChunk { content } => match content {
            ContentChunk::Text { text } => Some(Event::UserMessageChunk { session_id, text }),
            ContentChunk::Other => None,
        },
        SessionUpdate::ToolCall { tool_call_id, title, status, kind, raw_input, locations } => Some(
            Event::ToolCall {
                session_id,
                request_id,
                tool_call_id,
                title,
                status,
                kind,
                raw_input,
                locations,
            },
        ),
        SessionUpdate::ToolCallUpdate { tool_call_id, status, content } => Some(
            Event::ToolCallUpdate { session_id, request_id, tool_call_id, status, content },
        ),
        SessionUpdate::CurrentModeUpdate { current_mode_id } => Some(
            Event::ModeUpdate { session_id, mode: current_mode_id },
        ),
        SessionUpdate::AgentThoughtChunk => None,
        SessionUpdate::Plan => None,
        SessionUpdate::AvailableCommandsUpdate => None,
    }
}

} // verus!
