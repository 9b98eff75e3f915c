use thinking_space::permission::FrontendPermissionOption;
use thinking_space::permission::FrontendPermissionResponse;
use thinking_space::permission::PermissionError;
use thinking_space::permission::PermissionOutcome;
use thinking_space::relay::ContentChunk;
use thinking_space::relay::Event;
use thinking_space::relay::SessionUpdate;
use thinking_space::relay::StopReason;
use thinking_space::sessions::SessionResolution;
use thinking_space::supervisor::build_command_line;
use thinking_space::supervisor::compose_prompt;
use thinking_space::supervisor::AcpManager;
use thinking_space::supervisor::ConversationMessage;
use thinking_space::supervisor::PromptOutcome;
use thinking_space::supervisor::SendMessageParams;
use thinking_space::supervisor::StartAction;
use thinking_space::supervisor::SupervisorError;

fn params(request_id: u64, working_directory: &str) -> SendMessageParams {
    SendMessageParams {
        request_id,
        message: String::from("hello"),
        working_directory: String::from(working_directory),
        system_prompt: None,
        conversation_history: None,
    }
}

fn started() -> AcpManager {
    let mut manager = AcpManager::new();
    let ready = manager.record_start(Ok(())).unwrap();
    assert!(matches!(ready, Event::AgentReady));
    manager
}

#[test]
fn test_start_decision() {
    let manager = AcpManager::new();
    match manager.start(Some(String::from("sk-key"))) {
        StartAction::Spawn { env_api_key } => assert_eq!(env_api_key.as_deref(), Some("sk-key")),
        StartAction::AlreadyRunning => panic!("not running yet"),
    }
    match manager.start(None) {
        StartAction::Spawn { env_api_key } => assert!(env_api_key.is_none()),
        StartAction::AlreadyRunning => panic!("not running yet"),
    }
}

#[test]
fn test_start_is_idempotent_once_running() {
    let manager = started();
    assert!(matches!(manager.start(None), StartAction::AlreadyRunning));
}

#[test]
fn test_failed_handshake_leaves_supervisor_down() {
    let mut manager = AcpManager::new();
    let err = manager.record_start(Err(String::from("spawn failed"))).unwrap_err();
    assert_eq!(err, "spawn failed");
    // still not running: message sends fail fast
    let got = manager.begin_send(&params(1, "/w")).unwrap_err();
    assert_eq!(got, SupervisorError::NotConnected);
    assert_eq!(got.message(), "Not connected");
}

#[test]
fn test_send_before_start_fails_fast() {
    let mut manager = AcpManager::new();
    assert!(matches!(
        manager.begin_send(&params(1, "/w")),
        Err(SupervisorError::NotConnected)
    ));
}

#[test]
fn test_second_send_reuses_session_without_second_event() {
    // two messages to the same working directory back-to-back: the
    // second reuses the session the first created, and only the first
    // produces a session-created event.
    let mut manager = started();
    let first = manager.begin_send(&params(1, "/space")).unwrap();
    assert!(matches!(first, SessionResolution::NeedsCreation));
    let mut created_events = 0;
    let event = manager.complete_session_creation("/space", String::from("sess-1"));
    match &event {
        Event::SessionCreated { session_id } => {
            created_events += 1;
            assert_eq!(session_id, "sess-1");
        }
        _ => panic!("expected a session-created event"),
    }
    let second = manager.begin_send(&params(2, "/space")).unwrap();
    match second {
        SessionResolution::Existing { session_id } => assert_eq!(session_id, "sess-1"),
        SessionResolution::NeedsCreation => panic!("session must be reused"),
    }
    // the second call returned a resolution, not another creation event
    assert_eq!(created_events, 1);
}

#[test]
fn test_sessions_for_different_keys_are_independent() {
    let mut manager = started();
    manager.begin_send(&params(1, "/a")).unwrap();
    manager.complete_session_creation("/a", String::from("sess-a"));
    // resolving a different key creates nothing for "/a" and sees no session
    let other = manager.begin_send(&params(2, "/b")).unwrap();
    assert!(matches!(other, SessionResolution::NeedsCreation));
    // "/a" still resolves to its own session
    let again = manager.begin_send(&params(3, "/a")).unwrap();
    match again {
        SessionResolution::Existing { session_id } => assert_eq!(session_id, "sess-a"),
        SessionResolution::NeedsCreation => panic!("session for /a was lost"),
    }
}

fn one_option(id: &str) -> Vec<FrontendPermissionOption> {
    vec![FrontendPermissionOption {
        option_id: String::from(id),
        name: String::from("Allow"),
        kind: String::from("AllowOnce"),
    }]
}

#[test]
fn test_permission_decision_reaches_only_its_waiter() {
    // two requests outstanding: a decision tagged with one id resolves
    // exactly that request and leaves the other untouched.
    let mut manager = started();
    manager.set_current_request_id(9);
    let first = manager.request_permission(
        String::from("sess-1"),
        String::from("tool-1"),
        Some(String::from("Edit file")),
        Some(String::from("Edit")),
        Some(String::from("{}")),
        one_option("allow-1"),
    );
    let second = manager.request_permission(
        String::from("sess-1"),
        String::from("tool-2"),
        Some(String::from("Run command")),
        Some(String::from("Execute")),
        Some(String::from("{}")),
        one_option("allow-2"),
    );
    let (id1, id2) = match (&first, &second) {
        (
            Event::PermissionRequest { request: r1 },
            Event::PermissionRequest { request: r2 },
        ) => {
            assert_ne!(r1.request_id, r2.request_id);
            assert_eq!(r1.current_request_id, Some(9));
            (r1.request_id, r2.request_id)
        }
        _ => panic!("expected permission-request events"),
    };
    let decision = FrontendPermissionResponse {
        request_id: id2,
        option_id: Some(String::from("allow-2")),
        cancelled: false,
    };
    let resolved = manager.send_permission_response(&decision).unwrap();
    assert_eq!(resolved.request.request_id, id2);
    assert_eq!(resolved.request.tool_call_id, "tool-2");
    match resolved.outcome {
        PermissionOutcome::Selected { option_id } => assert_eq!(option_id, "allow-2"),
        _ => panic!("an option was selected"),
    }
    // the other request is still outstanding and can be resolved
    let cancel = FrontendPermissionResponse { request_id: id1, option_id: None, cancelled: true };
    let resolved1 = manager.send_permission_response(&cancel).unwrap();
    assert_eq!(resolved1.request.tool_call_id, "tool-1");
    assert!(matches!(resolved1.outcome, PermissionOutcome::Cancelled));
    // a second decision for an already resolved id is a correlation error
    let stale = manager.send_permission_response(&decision);
    assert!(matches!(stale, Err(PermissionError::UnknownRequest)));
}

#[test]
fn test_malformed_decision_is_an_internal_error() {
    let mut manager = started();
    let event = manager.request_permission(
        String::from("s"),
        String::from("t"),
        None,
        None,
        None,
        Vec::new(),
    );
    let id = match &event {
        Event::PermissionRequest { request } => {
            assert_eq!(request.title, "");
            assert_eq!(request.kind, "");
            assert_eq!(request.raw_input, "");
            request.request_id
        }
        _ => panic!("expected a permission-request event"),
    };
    let malformed = FrontendPermissionResponse { request_id: id, option_id: None, cancelled: false };
    let resolved = manager.send_permission_response(&malformed).unwrap();
    assert!(matches!(resolved.outcome, PermissionOutcome::MalformedDecision));
}

#[test]
fn test_stop_aborts_outstanding_waits() {
    // stopping while a permission wait and a prompt wait are outstanding
    // hands both back so the shell resolves them with a failure at once.
    let mut manager = started();
    manager.begin_send(&params(7, "/w")).unwrap();
    let event = manager.request_permission(
        String::from("s"),
        String::from("t"),
        None,
        None,
        None,
        Vec::new(),
    );
    let pending_id = match &event {
        Event::PermissionRequest { request } => request.request_id,
        _ => panic!("expected a permission-request event"),
    };
    let outcome = manager.stop();
    assert_eq!(outcome.aborted_prompts, vec![7]);
    assert_eq!(outcome.aborted_permissions.len(), 1);
    assert_eq!(outcome.aborted_permissions[0].request_id, pending_id);
    // stopped: sends fail fast instead of hanging
    assert!(matches!(
        manager.begin_send(&params(8, "/w")),
        Err(SupervisorError::NotConnected)
    ));
    // a late decision for the aborted request is reported, not dropped
    let late = FrontendPermissionResponse {
        request_id: pending_id,
        option_id: None,
        cancelled: true,
    };
    assert!(matches!(
        manager.send_permission_response(&late),
        Err(PermissionError::UnknownRequest)
    ));
}

#[test]
fn test_stop_clears_sessions() {
    let mut manager = started();
    manager.begin_send(&params(1, "/w")).unwrap();
    manager.complete_session_creation("/w", String::from("sess-1"));
    manager.stop();
    // after a restart the key has no session: all were invalidated together
    manager.record_start(Ok(())).unwrap();
    assert!(matches!(
        manager.begin_send(&params(2, "/w")).unwrap(),
        SessionResolution::NeedsCreation
    ));
}

#[test]
fn test_stop_is_idempotent_and_keeps_terminals() {
    let mut manager = started();
    let tid = manager.terminals.create_terminal(Some(16));
    manager.terminals.append_chunk(tid, "kept").unwrap();
    let first = manager.stop();
    assert!(first.aborted_prompts.is_empty());
    let second = manager.stop();
    assert!(second.aborted_permissions.is_empty());
    let (output, _) = manager.terminals.get_output(tid).unwrap();
    assert_eq!(output, "kept");
}

#[test]
fn test_finish_prompt_reports_completion() {
    let mut manager = started();
    manager.begin_send(&params(4, "/w")).unwrap();
    let events = manager.finish_prompt(4, PromptOutcome::Completed { stop_reason: StopReason::EndTurn });
    assert_eq!(events.len(), 1);
    match &events[0] {
        Event::MessageComplete { request_id, stop_reason } => {
            assert_eq!(*request_id, 4);
            assert_eq!(*stop_reason, StopReason::EndTurn);
        }
        _ => panic!("expected a completion event"),
    }
    // the prompt wait is closed: a later stop aborts nothing
    assert!(manager.stop().aborted_prompts.is_empty());
}

#[test]
fn test_finish_prompt_reports_max_tokens() {
    let mut manager = started();
    let events = manager.finish_prompt(5, PromptOutcome::Completed { stop_reason: StopReason::MaxTokens });
    assert_eq!(events.len(), 2);
    match &events[0] {
        Event::MaxTokens { request_id, message } => {
            assert_eq!(*request_id, 5);
            assert_eq!(
                message,
                "Conversation has reached the maximum context window. Consider starting a fresh conversation."
            );
        }
        _ => panic!("expected a max-tokens notice first"),
    }
    assert!(matches!(
        &events[1],
        Event::MessageComplete { request_id: 5, stop_reason: StopReason::MaxTokens }
    ));
}

#[test]
fn test_finish_prompt_reports_errors() {
    let mut manager = started();
    let events = manager.finish_prompt(6, PromptOutcome::Failed { error: String::from("broken pipe") });
    assert_eq!(events.len(), 1);
    match &events[0] {
        Event::MessageError { request_id, error } => {
            assert_eq!(*request_id, 6);
            assert_eq!(error, "broken pipe");
        }
        _ => panic!("expected an error event"),
    }
}

#[test]
fn test_compose_prompt_without_history() {
    assert_eq!(compose_prompt(true, &None, "hi"), "hi");
    assert_eq!(compose_prompt(false, &None, "hi"), "hi");
    assert_eq!(compose_prompt(true, &Some(Vec::new()), "hi"), "hi");
}

#[test]
fn test_compose_prompt_ignores_history_for_existing_session() {
    let history = Some(vec![ConversationMessage {
        role: String::from("user"),
        content: String::from("earlier"),
    }]);
    assert_eq!(compose_prompt(false, &history, "now"), "now");
}

#[test]
fn test_compose_prompt_serializes_history_into_first_prompt() {
    let history = Some(vec![
        ConversationMessage { role: String::from("user"), content: String::from("Hi") },
        ConversationMessage { role: String::from("assistant"), content: String::from("Hello!") },
    ]);
    let prompt = compose_prompt(true, &history, "What next?");
    let expected = "This session is being continued from a previous conversation. Here is the conversation history:\n\n<previous_user>\nHi\n</previous_user>\n\n<previous_assistant>\nHello!\n</previous_assistant>\n\n--- End of previous conversation ---\n\nCurrent message:\nWhat next?";
    assert_eq!(prompt, expected);
}

#[test]
fn test_session_notification_tags_current_request() {
    let mut manager = started();
    manager.set_current_request_id(11);
    let event = manager.session_notification(
        String::from("sess-1"),
        SessionUpdate::AgentMessageChunk {
            content: ContentChunk::Text { text: String::from("partial") },
        },
    );
    match event {
        Some(Event::AgentMessageChunk { session_id, request_id, text }) => {
            assert_eq!(session_id, "sess-1");
            assert_eq!(request_id, Some(11));
            assert_eq!(text, "partial");
        }
        _ => panic!("expected an agent-message-chunk event"),
    }
}

#[test]
fn test_session_notification_drops_unsurfaced_kinds() {
    let manager = started();
    let sid = || String::from("s");
    assert!(manager.session_notification(sid(), SessionUpdate::AgentThoughtChunk).is_none());
    assert!(manager.session_notification(sid(), SessionUpdate::Plan).is_none());
    assert!(manager
        .session_notification(sid(), SessionUpdate::AvailableCommandsUpdate)
        .is_none());
    assert!(manager
        .session_notification(
            sid(),
            SessionUpdate::AgentMessageChunk { content: ContentChunk::Other }
        )
        .is_none());
}

#[test]
fn test_session_notification_translates_tool_calls_and_modes() {
    let manager = started();
    let event = manager.session_notification(
        String::from("s"),
        SessionUpdate::ToolCall {
            tool_call_id: String::from("t1"),
            title: String::from("Read file"),
            status: String::from("Pending"),
            kind: String::from("Read"),
            raw_input: String::from("{\"path\":\"x\"}"),
            locations: Vec::new(),
        },
    );
    match event {
        Some(Event::ToolCall { tool_call_id, title, status, kind, raw_input, .. }) => {
            assert_eq!(tool_call_id, "t1");
            assert_eq!(title, "Read file");
            assert_eq!(status, "Pending");
            assert_eq!(kind, "Read");
            assert_eq!(raw_input, "{\"path\":\"x\"}");
        }
        _ => panic!("expected a tool-call event"),
    }
    let mode = manager.session_notification(
        String::from("s"),
        SessionUpdate::CurrentModeUpdate { current_mode_id: String::from("plan") },
    );
    match mode {
        Some(Event::ModeUpdate { session_id, mode }) => {
            assert_eq!(session_id, "s");
            assert_eq!(mode, "plan");
        }
        _ => panic!("expected a mode-update event"),
    }
}

#[test]
fn test_create_terminal_event_and_output() {
    let mut manager = started();
    let (id, event) = manager.create_terminal(
        String::from("sess-1"),
        "echo",
        &vec![String::from("Hello,"), String::from("Terminal!")],
        Some(500),
    );
    match &event {
        Event::TerminalCreated { session_id, terminal_id, command } => {
            assert_eq!(session_id, "sess-1");
            assert_eq!(*terminal_id, id);
            assert_eq!(command, "echo Hello, Terminal!");
        }
        _ => panic!("expected a terminal-created event"),
    }
    manager.terminals.append_chunk(id, "Hello, Terminal!\n").unwrap();
    manager.terminals.record_exit(id, 0).unwrap();
    let (output, exit, out_event) = manager.terminal_output(id).unwrap();
    assert_eq!(output, "Hello, Terminal!\n");
    assert_eq!(exit, Some(0));
    match out_event {
        Event::TerminalOutput { terminal_id, output, exit_status } => {
            assert_eq!(terminal_id, id);
            assert_eq!(output, "Hello, Terminal!\n");
            assert_eq!(exit_status, Some(0));
        }
        _ => panic!("expected a terminal-output event"),
    }
}

#[test]
fn test_build_command_line_with_no_args() {
    assert_eq!(build_command_line("ls", &Vec::new()), "ls ");
}
