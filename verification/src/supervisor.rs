//! Agent process supervisor: owns the adapter connection state and
//! composes the session registry, the permission broker and the terminal
//! supervisor.
//!
//! The shell spawns the subprocess, performs the initialize handshake
//! and runs the transport; every decision in between is taken here:
//! whether to spawn, what a send-message call must do next, what each
//! outcome means for the observer, and what stopping aborts. A
//! message-send that observes "not connected" fails fast instead of
//! blocking.

use vstd::prelude::*;

use crate::permission::FrontendPermissionOption;
use crate::permission::FrontendPermissionRequest;
use crate::permission::FrontendPermissionResponse;
use crate::permission::PendingPermissionRequest;
use crate::permission::PermissionError;
use crate::permission::PermissionBroker;
use crate::permission::ResolvedPermission;
use crate::relay::Event;
use crate::relay::SessionUpdate;
use crate::relay::StopReason;
use crate::relay::spec_relayed;
use crate::relay::relay_update;
use crate::sessions::SessionRegistry;
use crate::sessions::SessionResolution;
use crate::terminal::TerminalError;
use crate::terminal::TerminalManager;
use vstd::string::StringExecFns;

verus! {

/// One user-facing send-message call.
#[derive(Debug, Clone)]
pub struct SendMessageParams {
    pub request_id: u64,
    pub message: String,
    pub working_directory: String,
    pub system_prompt: Option<String>,
    pub conversation_history: Option<Vec<ConversationMessage>>,
}

/// One earlier turn, replayed into the first prompt of a restored
/// conversation.
#[derive(Debug, Clone)]
pub struct ConversationMessage {
    pub role: String,
    pub content: String,
}

/// What a start request asks the shell to do.
#[derive(Debug, Clone)]
pub enum StartAction {
    /// The supervisor is already running: starting again is a no-op.
    AlreadyRunning,
    /// Spawn the adapter; inject the credential into its environment
    /// only when one was supplied, otherwise the adapter sources its own.
    Spawn { env_api_key: Option<String> },
}

/// How a prompt round ended at the transport.
#[derive(Debug, Clone)]
pub enum PromptOutcome {
    Completed { stop_reason: StopReason },
    Failed { error: String },
}

/// Everything a stop aborted: each listed wait must be resolved with a
/// failure by the shell, so nothing hangs.
#[derive(Debug)]
pub struct StopOutcome {
    pub aborted_permissions: Vec<PendingPermissionRequest>,
    pub aborted_prompts: Vec<u64>,
}

/// Failures of supervisor operations.
#[derive(Debug, Clone, Copy, PartialEq, Eq, Structural)]
pub enum SupervisorError {
    /// No adapter connection is live; the call fails fast rather than
    /// blocking.
    NotConnected,
}

impl SupervisorError {
    /// A short description for the caller's error reporting.
    pub fn message(&self) -> (r: String)
        ensures
            r@ == "Not connected"@,
    {
        String::from_str("Not connected")
    }
}

/// The notice emitted when a prompt stops at the context-window limit.
pub open spec fn max_tokens_notice() -> Seq<char> {
    "Conversation has reached the maximum context window. Consider starting a fresh conversation."@
}

/// One history turn as it is serialized into the first prompt.
pub open spec fn spec_wrapped_turn(m: ConversationMessage) -> Seq<char> {
    "<previous_"@ + m.role@ + ">\n"@ + m.content@ + "\n</previous_"@ + m.role@ + ">\n\n"@
}

/// The serialized history turns, in order.
pub open spec fn spec_history_block(msgs: Seq<ConversationMessage>) -> Seq<char>
    decreases msgs.len(),
{
    if msgs.len() == 0 {
        Seq::<char>::empty()
    } else {
        spec_wrapped_turn(msgs[0]) + spec_history_block(msgs.drop_first())
    }
}

proof fn lemma_history_block_snoc(msgs: Seq<ConversationMessage>)
    requires
        msgs.len() > 0,
    ensures
        spec_history_block(msgs) == spec_history_block(msgs.drop_last()) + spec_wrapped_turn(
            msgs.last(),
        ),
    decreases msgs.len(),
{
    if msgs.len() == 1 {
        assert(msgs.drop_last() =~= Seq::<ConversationMessage>::empty());
        assert(msgs.drop_first() =~= Seq::<ConversationMessage>::empty());
        assert(spec_history_block(msgs) =~= spec_history_block(msgs.drop_last())
            + spec_wrapped_turn(msgs.last()));
    } else {
        lemma_history_block_snoc(msgs.drop_first());
        assert(msgs.drop_first().drop_last() =~= msgs.drop_last().drop_first());
        assert(msgs.drop_first().last() == msgs.last());
        assert(msgs.drop_last()[0] == msgs[0]);
        assert(spec_history_block(msgs) =~= spec_history_block(msgs.drop_last())
            + spec_wrapped_turn(msgs.last()));
    }
}

/// The prompt text actually sent: on the first message of a restored
/// conversation the supplied history is serialized into the prompt
/// itself, so the adapter's own context accounting stays authoritative;
/// otherwise the message goes through unchanged. History is never
/// resent once a session exists.
pub open spec fn spec_composed_prompt(
    new_session: bool,
    history: Option<Seq<ConversationMessage>>,
    message: Seq<char>,
) -> Seq<char> {
    if new_session && history is Some && history->0.len() > 0 {
        "This session is being continued from a previous conversation. Here is the conversation history:\n\n"@
            + spec_history_block(history->0)
            + "--- End of previous conversation ---\n\nCurrent message:\n"@ + message
    } else {
        message
    }
}

/// Build the prompt text for one send: see [`spec_composed_prompt`].
pub fn compose_prompt(
    new_session: bool,
    conversation_history: &Option<Vec<ConversationMessage>>,
    message: &str,
) -> (r: String)
    ensures
        r@ == spec_composed_prompt(
            new_session,
            match *conversation_history {
                Some(h) => Some(h@),
                None => None,
            },
            message@,
        ),
{
    match conversation_history {
        Some(h) => {
            if new_session && h.len() > 0 {
                let ghost hist = h@;
                let mut s = String::from_str(
                    "This session is being continued from a previous conversation. Here is the conversation history:\n\n",
                );
                let ghost header = s@;
                let n = h.len();
                let mut i: usize = 0;
                while i < n
                    invariant
                        hist == h@,
                        n == hist.len(),
                        i <= n,
                        s@ == header + spec_history_block(hist.subrange(0, i as int)),
                    decreases n - i,
                {
                    let m = &h[i];
                    s.append("<previous_");
                    s.append(m.role.as_str());
                    s.append(">\n");
                    s.append(m.content.as_str());
                    s.append("\n</previous_");
                    s.append(m.role.as_str());
                    s.append(">\n\n");
                    proof {
                        let pre = hist.subrange(0, i as int);
                        let cur = hist.subrange(0, i + 1);
                        lemma_history_block_snoc(cur);
                        assert(cur.drop_last() =~= pre);
                        assert(cur.last() == hist[i as int]);
                        assert(s@ =~= header + (spec_history_block(pre) + spec_wrapped_turn(
                            hist[i as int],
                        )));
                        assert(s@ =~= header + spec_history_block(cur));
                    }
                    i = i + 1;
                }
                proof {
                    assert(hist.subrange(0, n as int) =~= hist);
                }
                s.append("--- End of previous conversation ---\n\nCurrent message:\n");
                s.append(message);
                proof {
                    assert(s@ =~= spec_composed_prompt(true, Some(hist), message@));
                }
                s
            } else {
                String::from_str(message)
            }
        },
        None => String::from_str(message),
    }
}

/// The command line shown for a created terminal: the command, one
/// space, then the arguments joined by single spaces.
pub open spec fn spec_joined_from(args: Seq<String>, i: int) -> Seq<char>
    decreases args.len() - i,
    when 0 <= i
{
    if i >= args.len() {
        Seq::<char>::empty()
    } else if i == args.len() - 1 {
        args[i]@
    } else {
        args[i]@ + " "@ + spec_joined_from(args, i + 1)
    }
}

/// See [`spec_joined_from`]: `command` plus a space plus the joined
/// arguments.
pub open spec fn spec_command_line(command: Seq<char>, args: Seq<String>) -> Seq<char> {
    command + " "@ + spec_joined_from(args, 0)
}

/// The display form of a terminal command.
pub fn build_command_line(command: &str, args: &Vec<String>) -> (r: String)
    ensures
        r@ == spec_command_line(command@, args@),
{
    let mut s = String::from_str(command);
    s.append(" ");
    let n = args.len();
    let mut i: usize = 0;
    while i < n
        invariant
            n == args@.len(),
            i <= n,
            s@ + spec_joined_from(args@, i as int) == spec_command_line(command@, args@),
        decreases n - i,
    {
        s.append(args[i].as_str());
        if i + 1 < n {
            s.append(" ");
            proof {
                assert(s@ + spec_joined_from(args@, i + 1) =~= spec_command_line(command@, args@));
            }
        } else {
            proof {
                assert(s@ + spec_joined_from(args@, i + 1) =~= spec_command_line(command@, args@));
            }
        }
        i = i + 1;
    }
    proof {
        assert(s@ =~= spec_command_line(command@, args@));
    }
    s
}

/// The supervisor: connection status, the session registry, the
/// permission broker, the terminal supervisor, the active logical
/// request, and the prompt waits currently outstanding.
pub struct AcpManager {
    pub running: bool,
    pub sessions: SessionRegistry,
    pub broker: PermissionBroker,
    pub terminals: TerminalManager,
    pub current_request_id: Option<u64>,
    pub pending_prompts: Vec<u64>,
}

impl AcpManager {
    /// All component invariants hold.
    pub open spec fn wf(&self) -> bool {
        &&& self.sessions.wf()
        &&& self.broker.wf()
        &&& self.terminals.wf()
    }

    /// A live adapter connection exists.
    pub open spec fn spec_running(&self) -> bool {
        self.running
    }

    /// The logical request id the next notifications are tagged with.
    pub open spec fn spec_current_request_id(&self) -> Option<u64> {
        self.current_request_id
    }

    /// The logical request ids with a prompt wait outstanding.
    pub open spec fn spec_pending_prompts(&self) -> Seq<u64> {
        self.pending_prompts@
    }

    pub fn new() -> (r: AcpManager)
        ensures
            r.wf(),
            !r.spec_running(),
            r.spec_current_request_id() is None,
            r.spec_pending_prompts() == Seq::<u64>::empty(),
            forall|key: Seq<char>| !r.sessions.spec_has(key),
            r.broker.spec_pending() == Seq::<PendingPermissionRequest>::empty(),
            forall|id: u64| !r.terminals.spec_has(id),
    {
        AcpManager {
            running: false,
            sessions: SessionRegistry::new(),
            broker: PermissionBroker::new(),
            terminals: TerminalManager::new(),
            current_request_id: None,
            pending_prompts: Vec::new(),
        }
    }

    /// Decide a start request: a no-op when already running, otherwise
    /// the shell must spawn the adapter, injecting the credential only
    /// when one was supplied.
    pub fn start(&self, api_key: Option<String>) -> (r: StartAction)
        ensures
            self.spec_running() ==> r is AlreadyRunning,
            !self.spec_running() ==> r == (StartAction::Spawn { env_api_key: api_key }),
    {
        if self.running {
            StartAction::AlreadyRunning
        } else {
            StartAction::Spawn { env_api_key: api_key }
        }
    }

    /// Record the spawn-and-handshake outcome. On success the connection
    /// is stored and the observer is told the agent is ready; on failure
    /// the error is passed back and no partial state is retained.
    pub fn record_start(&mut self, handshake: Result<(), String>) -> (r: Result<Event, String>)
        requires
            old(self).wf(),
            !old(self).spec_running(),
        ensures
            final(self).wf(),
            final(self).sessions == old(self).sessions,
            final(self).broker == old(self).broker,
            final(self).terminals == old(self).terminals,
            final(self).spec_current_request_id() == old(self).spec_current_request_id(),
            final(self).spec_pending_prompts() == old(self).spec_pending_prompts(),
            match handshake {
                Ok(_) => final(self).spec_running() && r == Ok::<Event, String>(Event::AgentReady),
                Err(e) => !final(self).spec_running() && r == Err::<Event, String>(e),
            },
    {
        match handshake {
            Ok(_) => {
                self.running = true;
                Ok(Event::AgentReady)
            },
            Err(e) => Err(e),
        }
    }

    /// Stop the supervisor: discard the connection, drop every session,
    /// and abort every outstanding permission wait and prompt wait. The
    /// shell resolves each returned wait with a failure at once, so no
    /// waiter hangs. Safe to call when not running. Terminals are kept.
    pub fn stop(&mut self) -> (r: StopOutcome)
        requires
            old(self).wf(),
        ensures
            final(self).wf(),
            !final(self).spec_running(),
            forall|key: Seq<char>| !final(self).sessions.spec_has(key),
            final(self).broker.spec_pending() == Seq::<PendingPermissionRequest>::empty(),
            forall|id: u64| !final(self).broker.spec_has(id),
            final(self).spec_pending_prompts() == Seq::<u64>::empty(),
            final(self).terminals == old(self).terminals,
            r.aborted_permissions@ == old(self).broker.spec_pending(),
            r.aborted_prompts@ == old(self).spec_pending_prompts(),
    {
        self.running = false;
        self.sessions.clear();
        let aborted_permissions = self.broker.fail_all();
        let mut aborted_prompts: Vec<u64> = Vec::new();
        core::mem::swap(&mut aborted_prompts, &mut self.pending_prompts);
        StopOutcome { aborted_permissions, aborted_prompts }
    }

    /// Tag subsequent notifications with the logical request now active.
    pub fn set_current_request_id(&mut self, request_id: u64)
        ensures
            final(self).spec_current_request_id() == Some(request_id),
            final(self).spec_running() == old(self).spec_running(),
            final(self).sessions == old(self).sessions,
            final(self).broker == old(self).broker,
            final(self).terminals == old(self).terminals,
            final(self).spec_pending_prompts() == old(self).spec_pending_prompts(),
    {
        self.current_request_id = Some(request_id);
    }

    /// Begin a send-message call: fail fast when not connected;
    /// otherwise make this the active logical request, record its prompt
    /// wait, and say whether the key's session is reused or one must be
    /// created. Nothing is created here, so resolving one key cannot
    /// touch another key's session.
    pub fn begin_send(&mut self, params: &SendMessageParams) -> (r: Result<
        SessionResolution,
        SupervisorError,
    >)
        requires
            old(self).wf(),
        ensures
            final(self).wf(),
            r is Ok <==> old(self).spec_running(),
            r is Err ==> *final(self) == *old(self) && r == Err::<
                SessionResolution,
                SupervisorError,
            >(SupervisorError::NotConnected),
            final(self).sessions == old(self).sessions,
            final(self).broker == old(self).broker,
            final(self).terminals == old(self).terminals,
            final(self).spec_running() == old(self).spec_running(),
            r is Ok ==> final(self).spec_current_request_id() == Some(params.request_id),
            r is Ok ==> final(self).spec_pending_prompts() == old(self).spec_pending_prompts().push(params.request_id),
            r matches Ok(res) ==> ({
                &&& old(self).sessions.spec_has(params.working_directory@) ==> (
                res matches SessionResolution::Existing { session_id } && session_id@ == old(self).sessions.spec_session_for(params.working_directory@))
                &&& !old(self).sessions.spec_has(params.working_directory@)
                    ==> res is NeedsCreation
            }),
    {
        if !self.running {
            return Err(SupervisorError::NotConnected);
        }
        self.current_request_id = Some(params.request_id);
        self.pending_prompts.push(params.request_id);
        Ok(self.sessions.begin_resolve(params.working_directory.as_str()))
    }

    /// Store the session the adapter created for this key and announce
    /// it. Allowed only while no session exists for the key, so a key
    /// can never get a second session, and every later send reuses this
    /// one without a second announcement.
    pub fn complete_session_creation(&mut self, working_directory: &str, session_id: String) -> (r:
        Event)
        requires
            old(self).wf(),
            !old(self).sessions.spec_has(working_directory@),
        ensures
            final(self).wf(),
            final(self).sessions.spec_has(working_directory@),
            final(self).sessions.spec_session_for(working_directory@) == session_id@,
            forall|key: Seq<char>|
                key != working_directory@ ==> final(self).sessions.spec_has(key) == old(self).sessions.spec_has(key),
            forall|key: Seq<char>|
                key != working_directory@ && old(self).sessions.spec_has(key) ==> final(self).sessions.spec_session_for(key) == old(self).sessions.spec_session_for(key),
            final(self).broker == old(self).broker,
            final(self).terminals == old(self).terminals,
            final(self).spec_running() == old(self).spec_running(),
            final(self).spec_current_request_id() == old(self).spec_current_request_id(),
            final(self).spec_pending_prompts() == old(self).spec_pending_prompts(),
            r matches Event::SessionCreated { session_id: s } && s == session_id,
    {
        let announced = session_id.clone();
        let key = String::from_str(working_directory);
        self.sessions.store(key, session_id);
        proof {
            assert(announced == session_id);
        }
        Event::SessionCreated { session_id: announced }
    }

    /// Close a prompt wait and report its outcome to the observer: an
    /// error event on failure; on success a completion event, preceded
    /// by a context-window notice when the turn stopped at max tokens.
    pub fn finish_prompt(&mut self, request_id: u64, outcome: PromptOutcome) -> (r: Vec<Event>)
        requires
            old(self).wf(),
        ensures
            final(self).wf(),
            final(self).sessions == old(self).sessions,
            final(self).broker == old(self).broker,
            final(self).terminals == old(self).terminals,
            final(self).spec_running() == old(self).spec_running(),
            final(self).spec_current_request_id() == old(self).spec_current_request_id(),
            (exists|i: int|
                0 <= i < old(self).spec_pending_prompts().len() && old(self).spec_pending_prompts()[i]
                    == request_id) ==> exists|i: int|
                {
                    &&& 0 <= i < old(self).spec_pending_prompts().len()
                    &&& old(self).spec_pending_prompts()[i] == request_id
                    &&& forall|j: int|
                        0 <= j < i ==> old(self).spec_pending_prompts()[j] != request_id
                    &&& final(self).spec_pending_prompts() == old(self).spec_pending_prompts().remove(i)
                },
            (forall|i: int|
                0 <= i < old(self).spec_pending_prompts().len() ==> old(self).spec_pending_prompts()[i] != request_id) ==> final(self).spec_pending_prompts()
                == old(self).spec_pending_prompts(),
            match outcome {
                PromptOutcome::Failed { error } => r@ == seq![
                    (Event::MessageError { request_id, error }),
                ],
                PromptOutcome::Completed { stop_reason } => {
                    if stop_reason == StopReason::MaxTokens {
                        &&& r@.len() == 2
                        &&& r@[0] matches Event::MaxTokens { request_id: rid, message }
                            && rid == request_id && message@ == max_tokens_notice()
                        &&& r@[1] == (Event::MessageComplete { request_id, stop_reason })
                    } else {
                        r@ == seq![(Event::MessageComplete { request_id, stop_reason })]
                    }
                },
            },
    {
        let n = self.pending_prompts.len();
        let mut i: usize = 0;
        let mut found = false;
        while i < n && !found
            invariant
                i <= n,
                n == self.pending_prompts@.len(),
                !found ==> forall|j: int|
                    0 <= j < i ==> (#[trigger] self.pending_prompts@[j]) != request_id,
                found ==> i < n && self.pending_prompts@[i as int] == request_id && forall|j: int|
                    0 <= j < i ==> (#[trigger] self.pending_prompts@[j]) != request_id,
                self.pending_prompts == old(self).pending_prompts,
            decreases n - i, (if found { 0int } else { 1int }),
    {
            if self.pending_prompts[i] == request_id {
                found = true;
            } else {
                i = i + 1;
            }
        }
        if found {
            let _ = self.pending_prompts.remove(i);
        }
        let mut events: Vec<Event> = Vec::new();
        match outcome {
            PromptOutcome::Failed { error } => {
                events.push(Event::MessageError { request_id, error });
            },
            PromptOutcome::Completed { stop_reason } => {
                if stop_reason == StopReason::MaxTokens {
                    events.push(
                        Event::MaxTokens {
                            request_id,
                            message: String::from_str(
                                "Conversation has reached the maximum context window. Consider starting a fresh conversation.",
                            ),
                        },
                    );
                }
                events.push(Event::MessageComplete { request_id, stop_reason });
            },
        }
        events
    }

    /// Translate one streaming update from the adapter into the event to
    /// emit, tagged with the active logical request.
    pub fn session_notification(&self, session_id: String, update: SessionUpdate) -> (r: Option<
        Event,
    >)
        ensures
            r == spec_relayed(session_id, self.spec_current_request_id(), update),
    {
        relay_update(session_id, self.current_request_id, update)
    }

    /// Handle an approval request from the agent: open a correlation
    /// record under a fresh id and build the event asking the external
    /// authority to decide. Missing tool-call fields default to empty.
    pub fn request_permission(
        &mut self,
        session_id: String,
        tool_call_id: String,
        title: Option<String>,
        kind: Option<String>,
        raw_input: Option<String>,
        options: Vec<FrontendPermissionOption>,
    ) -> (r: Event)
        requires
            old(self).wf(),
            old(self).broker.spec_next_id() < u64::MAX,
        ensures
            final(self).wf(),
            final(self).sessions == old(self).sessions,
            final(self).terminals == old(self).terminals,
            final(self).spec_running() == old(self).spec_running(),
            final(self).spec_current_request_id() == old(self).spec_current_request_id(),
            final(self).spec_pending_prompts() == old(self).spec_pending_prompts(),
            r matches Event::PermissionRequest { request } && ({
                &&& !old(self).broker.spec_has(request.request_id)
                &&& final(self).broker.spec_has(request.request_id)
                &&& request.session_id == session_id
                &&& request.tool_call_id == tool_call_id
                &&& request.title@ == (match title {
                    Some(t) => t@,
                    None => Seq::<char>::empty(),
                })
                &&& request.kind@ == (match kind {
                    Some(k) => k@,
                    None => Seq::<char>::empty(),
                })
                &&& request.raw_input@ == (match raw_input {
                    Some(ri) => ri@,
                    None => Seq::<char>::empty(),
                })
                &&& request.options == options
                &&& request.current_request_id == old(self).spec_current_request_id()
                &&& final(self).broker.spec_pending().len() == old(self).broker.spec_pending().len() + 1
                &&& forall|i: int|
                    0 <= i < old(self).broker.spec_pending().len() ==> final(self).broker.spec_pending()[i] == old(self).broker.spec_pending()[i]
            }),
    {
        let title_v = match title {
            Some(t) => t,
            None => String::new(),
        };
        let kind_v = match kind {
            Some(k) => k,
            None => String::new(),
        };
        let raw_input_v = match raw_input {
            Some(ri) => ri,
            None => String::new(),
        };
        let request = self.broker.open_request(
            session_id,
            tool_call_id,
            title_v,
            kind_v,
            raw_input_v,
            options,
            self.current_request_id,
        );
        Event::PermissionRequest { request }
    }

    /// Deliver a decision from the approval authority to the one waiter
    /// whose request it is tagged with.
    pub fn send_permission_response(&mut self, response: &FrontendPermissionResponse) -> (r: Result<
        ResolvedPermission,
        PermissionError,
    >)
        requires
            old(self).wf(),
        ensures
            final(self).wf(),
            final(self).sessions == old(self).sessions,
            final(self).terminals == old(self).terminals,
            final(self).spec_running() == old(self).spec_running(),
            final(self).spec_current_request_id() == old(self).spec_current_request_id(),
            final(self).spec_pending_prompts() == old(self).spec_pending_prompts(),
            r is Ok <==> old(self).broker.spec_has(response.request_id),
            r is Err ==> *final(self) == *old(self) && r == Err::<
                ResolvedPermission,
                PermissionError,
            >(PermissionError::UnknownRequest),
            r matches Ok(res) ==> ({
                &&& res.request == old(self).broker.spec_get(response.request_id)
                &&& res.outcome == crate::permission::spec_decision_outcome(*response)
                &&& !final(self).broker.spec_has(response.request_id)
                &&& forall|k: u64|
                    k != response.request_id ==> final(self).broker.spec_has(k) == old(self).broker.spec_has(k)
                &&& forall|k: u64|
                    k != response.request_id && old(self).broker.spec_has(k) ==> final(self).broker.spec_get(k) == old(self).broker.spec_get(k)
            }),
    {
        self.broker.resolve(response)
    }

    /// Register a terminal for the agent and announce it; the shell
    /// spawns the process under the returned id.
    pub fn create_terminal(
        &mut self,
        session_id: String,
        command: &str,
        args: &Vec<String>,
        max_output_bytes: Option<usize>,
    ) -> (r: (u64, Event))
        requires
            old(self).wf(),
            old(self).terminals.spec_next_id() < u64::MAX,
        ensures
            final(self).wf(),
            final(self).sessions == old(self).sessions,
            final(self).broker == old(self).broker,
            final(self).spec_running() == old(self).spec_running(),
            final(self).spec_current_request_id() == old(self).spec_current_request_id(),
            final(self).spec_pending_prompts() == old(self).spec_pending_prompts(),
            !old(self).terminals.spec_has(r.0),
            final(self).terminals.spec_has(r.0),
            final(self).terminals.spec_get(r.0).output@ == Seq::<char>::empty(),
            final(self).terminals.spec_get(r.0).exit_status is None,
            final(self).terminals.spec_get(r.0).max_output_bytes == (match max_output_bytes {
                Some(m) => m,
                None => crate::terminal::DEFAULT_MAX_OUTPUT_BYTES,
            }),
            forall|k: u64|
                k != r.0 ==> final(self).terminals.spec_has(k) == old(self).terminals.spec_has(k),
            forall|k: u64|
                k != r.0 && old(self).terminals.spec_has(k) ==> final(self).terminals.spec_get(k)
                    == old(self).terminals.spec_get(k),
            r.1 matches Event::TerminalCreated { session_id: s, terminal_id, command: c } && s
                == session_id && terminal_id == r.0 && c@ == spec_command_line(command@, args@),
    {
        let id = self.terminals.create_terminal(max_output_bytes);
        let command_line = build_command_line(command, args);
        (id, Event::TerminalCreated { session_id, terminal_id: id, command: command_line })
    }

    /// Report a terminal's captured output: the current buffer, the exit
    /// code if known, and the event announcing them.
    pub fn terminal_output(&self, terminal_id: u64) -> (r: Result<
        (String, Option<i32>, Event),
        TerminalError,
    >)
        requires
            self.wf(),
        ensures
            r is Ok <==> self.terminals.spec_has(terminal_id),
            r matches Ok(out) ==> ({
                &&& out.0@ == self.terminals.spec_get(terminal_id).output@
                &&& out.1 == self.terminals.spec_get(terminal_id).exit_status
                &&& out.2 matches Event::TerminalOutput { terminal_id: t, output, exit_status }
                    && t == terminal_id && output@ == out.0@ && exit_status == out.1
            }),
    {
        match self.terminals.get_output(terminal_id) {
            Ok((output, exit_status)) => {
                let event = Event::TerminalOutput {
                    terminal_id,
                    output: output.clone(),
                    exit_status,
                };
                Ok((output, exit_status, event))
            },
            Err(e) => Err(e),
        }
    }
}

} // verus!
