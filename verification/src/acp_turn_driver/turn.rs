//! The course of one prompt turn, from the prompt to its terminal observation.
//!
//! A turn collects what the agent writes and which tools it calls. It ends with the response to
//! its prompt, or when no response can be expected any more. What ends it first, counts.

use vstd::prelude::*;
use vstd::string::*;
use crate::acp::connection::{AcpConnection, ContentBlock};
use crate::acp::protocol::{
    ConfigOption, JsonRpcError, JsonRpcMessage, JsonRpcRequest, TurnResult,
};
use crate::acp_turn::{
    DeliveryOutcome, ExecutionOutcome, LegacyDispatchDisposition, ObservedToolCall,
    ObservedToolCallStatus, TurnCompletion, TurnStartError, TurnTicket, UnknownReason,
};
use crate::acp_turn_driver::directives;
use crate::acp_turn_driver::display;
use crate::acp_turn_driver::display::{EntryModel, ToolDisplay, ToolEntry, ToolState};
use crate::acp_turn_driver::tools;
use crate::acp_turn_driver::tools::CallModel;
use crate::json::Json;
use crate::text;

verus! {

/// Why a turn fails whose placeholder could not be posted.
pub const DELIVERY_SETUP_FAILURE: &'static str = "platform delivery setup failed after the ACP turn started";

/// For how many milliseconds the text of a native stream is collected before it is sent.
pub const NATIVE_FLUSH_MS: u128 = 400;

/// How a turn ended.
#[derive(Debug, PartialEq, Eq)]
pub enum TerminalObservation {
    Succeeded(TurnResult),
    Cancelled(TurnResult),
    Unknown(UnknownReason),
}

/// What a turn has done, by how it ended. Success without an answer is not known to be one.
pub open spec fn execution_of(
    terminal: TerminalObservation,
    output_present: bool,
    calls: Vec<ObservedToolCall>,
) -> ExecutionOutcome {
    match terminal {
        TerminalObservation::Succeeded(turn_result) => if output_present {
            ExecutionOutcome::Succeeded { turn_result }
        } else {
            ExecutionOutcome::OutcomeUnknown {
                reason: UnknownReason::MissingOutput,
                observed_tool_calls: calls,
            }
        },
        TerminalObservation::Cancelled(turn_result) => ExecutionOutcome::Cancelled {
            turn_result,
            observed_tool_calls: calls,
        },
        TerminalObservation::Unknown(reason) => ExecutionOutcome::OutcomeUnknown {
            reason,
            observed_tool_calls: calls,
        },
    }
}

/// Classifies what a turn has done.
pub fn classify_execution(
    terminal: TerminalObservation,
    authoritative_output_present: bool,
    observed_tool_calls: Vec<ObservedToolCall>,
) -> (r: ExecutionOutcome)
    ensures
        r == execution_of(terminal, authoritative_output_present, observed_tool_calls),
{
    match terminal {
        TerminalObservation::Succeeded(turn_result) => {
            if authoritative_output_present {
                ExecutionOutcome::Succeeded { turn_result }
            } else {
                ExecutionOutcome::OutcomeUnknown {
                    reason: UnknownReason::MissingOutput,
                    observed_tool_calls,
                }
            }
        },
        TerminalObservation::Cancelled(turn_result) => ExecutionOutcome::Cancelled {
            turn_result,
            observed_tool_calls,
        },
        TerminalObservation::Unknown(reason) => ExecutionOutcome::OutcomeUnknown {
            reason,
            observed_tool_calls,
        },
    }
}

/// Whether a turn stopped because it was cancelled, in either spelling and any case.
pub open spec fn cancelled(result: TurnResult) -> bool {
    match result.stop_reason {
        Some(reason) => text::ascii_lowered(reason@) == "cancelled"@ || text::ascii_lowered(reason@)
            == "canceled"@,
        None => false,
    }
}

/// Whether a turn stopped because it was cancelled.
pub fn is_cancelled(turn_result: &TurnResult) -> (r: bool)
    ensures
        r == cancelled(*turn_result),
{
    match &turn_result.stop_reason {
        Some(reason) => {
            let chars = text::to_chars(reason.as_str());
            let lower = text::to_ascii_lowercase(chars.as_slice());
            text::same_str(lower.as_slice(), "cancelled") || text::same_str(
                lower.as_slice(),
                "canceled",
            )
        },
        None => false,
    }
}

/// A span of time, in seconds and nanoseconds.
#[derive(Debug, Clone, Copy, PartialEq, Eq, Structural)]
pub struct Span {
    pub secs: u64,
    pub nanos: u32,
}

impl Span {
    pub open spec fn total(self) -> int {
        self.secs * 1_000_000_000 + self.nanos
    }

    /// Whether this span is longer than another.
    pub fn exceeds(&self, other: &Span) -> (r: bool)
        ensures
            r == (self.total() > other.total()),
    {
        self.secs as u128 * 1_000_000_000 + self.nanos as u128 > other.secs as u128 * 1_000_000_000
            + other.nanos as u128
    }
}

/// What the agent tells of a turn while it runs.
#[derive(Debug, PartialEq, Eq)]
pub enum AcpEvent {
    Text(String),
    Thinking,
    ToolStart { id: String, title: String },
    ToolDone { id: String, title: String, status: String },
    ConfigUpdate { options: Vec<ConfigOption> },
    /// Anything else, which a turn does not heed.
    Unheeded,
}

/// What answers a prompt.
#[derive(Debug, PartialEq, Eq)]
pub enum TurnResponse {
    /// An error, as users see it and as the audit log keeps it.
    Error { shown: String, audited: String },
    Result(TurnResult),
    /// Neither an error nor a result.
    Nothing,
}

/// What a message says that answers a prompt.
#[derive(Debug, PartialEq, Eq)]
pub enum ResponseContent<'a> {
    /// An error: what of it users are shown, and what of it the audit log keeps.
    Error { shown: &'a JsonRpcError, audited: JsonRpcError },
    Result(&'a Json),
    /// Neither an error nor a result.
    Nothing,
}

/// Finds what a message says that answers a prompt. An error counts before a result. Of an error
/// only its code is audited: its texts can hold what the user or the agent wrote.
pub fn response_content(message: &JsonRpcMessage) -> (r: ResponseContent<'_>)
    ensures
        match message.error {
            Some(error) => {
                &&& r matches ResponseContent::Error { shown, audited }
                &&& *shown == error
                &&& audited.code == error.code
                &&& audited.message@.len() == 0
                &&& audited.data is None
            },
            None => match message.result {
                Some(result) => r matches ResponseContent::Result(found) && *found == result,
                None => r is Nothing,
            },
        },
{
    match &message.error {
        Some(error) => ResponseContent::Error {
            shown: error,
            audited: JsonRpcError { code: error.code, message: String::new(), data: None },
        },
        None => match &message.result {
            Some(result) => ResponseContent::Result(result),
            None => ResponseContent::Nothing,
        },
    }
}

/// What is fixed of a turn before it starts.
#[derive(Debug, Clone, Copy, PartialEq, Eq, Structural)]
pub struct TurnDeliveryContext {
    /// Whether the session was started anew for this turn.
    pub reset: bool,
    /// Whether the platform shows the answer while it is written.
    pub streaming: bool,
    /// Whether the platform has streams of its own.
    pub native: bool,
    /// Whether progress is shown as a status, not as a reaction.
    pub assistant_status: bool,
    /// Whether text between tool calls is delivered.
    pub narration_display: bool,
    pub tool_display: ToolDisplay,
    /// How long a turn may take.
    pub prompt_hard_timeout: Span,
    /// How often the agent and the clock are looked at.
    pub liveness_check_interval: Span,
}

impl TurnDeliveryContext {
    pub open spec fn keeps_full_text(self) -> bool {
        self.streaming || self.narration_display
    }

    /// The first content of the message that is edited while the answer is written.
    pub open spec fn first_content(self) -> Option<Seq<char>> {
        if self.streaming && !self.native {
            Some(
                if self.reset {
                    directives::SESSION_RESET_NOTICE@ + "…"@
                } else {
                    "…"@
                },
            )
        } else {
            None
        }
    }
}

/// A turn as a mathematical value.
#[verifier::ext_equal]
pub struct TurnModel {
    pub ticket: TurnTicket,
    pub context: TurnDeliveryContext,
    /// The text to show, with the notice of a new session.
    pub text: Seq<char>,
    /// The text that the agent wrote.
    pub agent_text: Seq<char>,
    pub tools: Seq<EntryModel>,
    pub calls: Seq<CallModel>,
    /// How many bytes of the text precede the answer.
    pub answer_start: int,
    /// How many bytes of the agent's text precede the answer.
    pub agent_answer_start: int,
    pub stream_open: bool,
    pub stream_failed: bool,
    /// What was not yet sent to the native stream.
    pub pending: Seq<char>,
    /// The message that is edited while the answer is written.
    pub placeholder: Option<Seq<char>>,
    /// Why that message could not be posted.
    pub setup_error: Option<Seq<char>>,
    pub response_error: Option<Seq<char>>,
    pub terminal: Option<TerminalObservation>,
    /// Whether nobody waits for the response any more.
    pub abandoned: bool,
}

impl TurnModel {
    /// A turn whose prompt was just sent.
    pub open spec fn started(ticket: TurnTicket, context: TurnDeliveryContext) -> Self {
        TurnModel {
            ticket,
            context,
            text: if context.reset {
                directives::SESSION_RESET_NOTICE@
            } else {
                Seq::empty()
            },
            agent_text: Seq::empty(),
            tools: Seq::empty(),
            calls: Seq::empty(),
            answer_start: 0,
            agent_answer_start: 0,
            stream_open: false,
            stream_failed: false,
            pending: Seq::empty(),
            placeholder: None,
            setup_error: None,
            response_error: None,
            terminal: None,
            abandoned: false,
        }
    }

    /// Whether the turn is over.
    pub open spec fn over(self) -> bool {
        self.terminal is Some || self.setup_error is Some
    }

    /// The turn after it ended without a response.
    pub open spec fn lost(self, error: Seq<char>, reason: UnknownReason) -> Self {
        TurnModel {
            response_error: Some(error),
            terminal: Some(TerminalObservation::Unknown(reason)),
            abandoned: true,
            ..self
        }
    }

    /// The turn after the agent wrote text.
    pub open spec fn with_text(self, text: Seq<char>) -> Self {
        TurnModel { text: self.text + text, agent_text: self.agent_text + text, ..self }
    }

    /// The turn after a tool call started. A call without a title is recorded, but not shown.
    pub open spec fn with_tool_start(self, id: Seq<char>, title: Seq<char>) -> Self {
        TurnModel {
            calls: tools::observing(self.calls, id, title, ObservedToolCallStatus::Started),
            tools: if title.len() == 0 {
                self.tools
            } else {
                tools::showing(self.tools, id, title, ToolState::Running)
            },
            ..self
        }
    }

    /// The turn after a tool call ended. What was written up to here is not the answer.
    pub open spec fn with_tool_done(self, id: Seq<char>, title: Seq<char>, completed: bool) -> Self {
        TurnModel {
            calls: tools::observing(
                self.calls,
                id,
                title,
                if completed {
                    ObservedToolCallStatus::Completed
                } else {
                    ObservedToolCallStatus::Failed
                },
            ),
            tools: tools::showing(
                self.tools,
                id,
                title,
                if completed {
                    ToolState::Completed
                } else {
                    ToolState::Failed
                },
            ),
            answer_start: directives::byte_len(self.text),
            agent_answer_start: directives::byte_len(self.agent_text),
            ..self
        }
    }

    /// The turn after an event. What comes after its end does not count.
    pub open spec fn after(self, event: AcpEvent) -> Self {
        if self.over() {
            self
        } else {
            match event {
                AcpEvent::Text(text) => self.with_text(text@),
                AcpEvent::ToolStart { id, title } => self.with_tool_start(id@, title@),
                AcpEvent::ToolDone { id, title, status } => self.with_tool_done(
                    id@,
                    title@,
                    status@ == "completed"@,
                ),
                _ => self,
            }
        }
    }

    /// The turn as it is shown while it runs, where a message is edited for that.
    pub open spec fn shown(self) -> Option<Seq<char>> {
        if self.placeholder is Some {
            Some(display::displayed(self.tools, self.text, true, self.context.tool_display))
        } else {
            None
        }
    }
}

/// What changes in how the progress of a turn is shown.
#[derive(Debug, PartialEq, Eq)]
pub enum Progress {
    Unchanged,
    Thinking,
    Tool { title: String },
}

impl Progress {
    /// The status that shows the progress.
    pub open spec fn status(self) -> Option<Seq<char>> {
        match self {
            Progress::Unchanged => None,
            Progress::Thinking => Some("Thinking…"@),
            Progress::Tool { title } => Some("Using "@ + title@ + "…"@),
        }
    }

    /// The status that shows the progress, if it changes.
    pub fn status_text(&self) -> (r: Option<String>)
        ensures
            text::opt_text(r) == self.status(),
    {
        match self {
            Progress::Unchanged => None,
            Progress::Thinking => Some(String::from_str("Thinking…")),
            Progress::Tool { title } => Some(
                String::from_str("Using ").concat(title.as_str()).concat("…"),
            ),
        }
    }
}

/// What a native stream needs for a text.
#[derive(Debug, Clone, Copy, PartialEq, Eq, Structural)]
pub enum StreamNeed {
    Nothing,
    /// To be opened before the text is written.
    Opening,
    /// The text to be written.
    Writing,
}

/// What is left to do after an event.
#[derive(Debug, PartialEq, Eq)]
pub struct TurnStep {
    pub progress: Progress,
    pub stream: StreamNeed,
    /// What the edited message shows now.
    pub display: Option<String>,
    /// Settings of the agent that changed.
    pub options: Option<Vec<ConfigOption>>,
}

impl TurnModel {
    /// The progress after an event.
    pub open spec fn progress(self, event: AcpEvent) -> Progress {
        if self.over() {
            Progress::Unchanged
        } else {
            match event {
                AcpEvent::Thinking => Progress::Thinking,
                AcpEvent::ToolStart { id, title } => if title@.len() == 0 {
                    Progress::Unchanged
                } else {
                    Progress::Tool { title }
                },
                AcpEvent::ToolDone { .. } => Progress::Thinking,
                _ => Progress::Unchanged,
            }
        }
    }

    /// What a native stream needs after an event. A stream that could not be opened is not tried
    /// again.
    pub open spec fn stream_need(self, event: AcpEvent) -> StreamNeed {
        if self.over() || !(event is Text) || !self.context.native {
            StreamNeed::Nothing
        } else if self.stream_open {
            StreamNeed::Writing
        } else if self.stream_failed {
            StreamNeed::Nothing
        } else {
            StreamNeed::Opening
        }
    }

    /// What the edited message shows after an event.
    pub open spec fn display_after(self, event: AcpEvent) -> Option<Seq<char>> {
        if self.over() {
            None
        } else {
            match event {
                AcpEvent::Text(_) => if self.context.native {
                    None
                } else {
                    self.after(event).shown()
                },
                AcpEvent::ToolStart { id, title } => if title@.len() == 0 {
                    None
                } else {
                    self.after(event).shown()
                },
                AcpEvent::ToolDone { .. } => self.after(event).shown(),
                _ => None,
            }
        }
    }

    /// The settings that an event changes.
    pub open spec fn options_after(self, event: AcpEvent) -> Option<Vec<ConfigOption>> {
        match event {
            AcpEvent::ConfigUpdate { options } => if self.over() {
                None
            } else {
                Some(options)
            },
            _ => None,
        }
    }
}

/// One prompt turn.
pub struct AcpTurnDriver {
    pub ticket: TurnTicket,
    pub context: TurnDeliveryContext,
    pub text_buf: String,
    pub agent_text_buf: String,
    pub tool_lines: Vec<ToolEntry>,
    pub observed_tools: Vec<ObservedToolCall>,
    pub answer_start: usize,
    pub agent_answer_start: usize,
    pub stream_open: bool,
    pub stream_begin_failed: bool,
    pub native_pending: String,
    pub placeholder: Option<String>,
    pub delivery_setup_error: Option<String>,
    pub response_error: Option<String>,
    pub terminal: Option<TerminalObservation>,
    pub request_abandoned: bool,
}

fn byte_length(s: &String) -> (r: usize)
    ensures
        r == directives::byte_len(s@),
{
    s.as_str().as_bytes().len()
}

impl AcpTurnDriver {
    pub open spec fn model(self) -> TurnModel {
        TurnModel {
            ticket: self.ticket,
            context: self.context,
            text: self.text_buf@,
            agent_text: self.agent_text_buf@,
            tools: display::entry_models(self.tool_lines@),
            calls: tools::call_models(self.observed_tools@),
            answer_start: self.answer_start as int,
            agent_answer_start: self.agent_answer_start as int,
            stream_open: self.stream_open,
            stream_failed: self.stream_begin_failed,
            pending: self.native_pending@,
            placeholder: text::opt_text(self.placeholder),
            setup_error: text::opt_text(self.delivery_setup_error),
            response_error: text::opt_text(self.response_error),
            terminal: self.terminal,
            abandoned: self.request_abandoned,
        }
    }

    /// A turn whose prompt was just sent.
    pub fn new(ticket: TurnTicket, context: TurnDeliveryContext) -> (r: Self)
        ensures
            r.model() == TurnModel::started(ticket, context),
    {
        let text_buf = if context.reset {
            String::from_str(directives::SESSION_RESET_NOTICE)
        } else {
            String::new()
        };
        let r = AcpTurnDriver {
            ticket,
            context,
            text_buf,
            agent_text_buf: String::new(),
            tool_lines: Vec::new(),
            observed_tools: Vec::new(),
            answer_start: 0,
            agent_answer_start: 0,
            stream_open: false,
            stream_begin_failed: false,
            native_pending: String::new(),
            placeholder: None,
            delivery_setup_error: None,
            response_error: None,
            terminal: None,
            request_abandoned: false,
        };
        assert(r.model() =~= TurnModel::started(ticket, context));
        r
    }

    /// Whether the turn is over.
    pub fn is_over(&self) -> (r: bool)
        ensures
            r == self.model().over(),
    {
        self.terminal.is_some() || self.delivery_setup_error.is_some()
    }

    /// What to post before the agent writes anything, where a message is edited for the turn.
    pub fn placeholder_text(&self) -> (r: Option<String>)
        ensures
            text::opt_text(r) == self.context.first_content(),
    {
        if self.context.streaming && !self.context.native {
            if self.context.reset {
                Some(String::from_str(directives::SESSION_RESET_NOTICE).concat("…"))
            } else {
                Some(String::from_str("…"))
            }
        } else {
            None
        }
    }

    /// Notes the message that is edited for the turn.
    pub fn placeholder_ready(&mut self, message_id: String)
        ensures
            final(self).model() == (TurnModel {
                placeholder: Some(message_id@),
                ..old(self).model()
            }),
    {
        self.placeholder = Some(message_id);
    }

    /// Notes that the message could not be posted. That ends the turn, and its request is
    /// abandoned.
    pub fn placeholder_failed(&mut self, error: String)
        ensures
            final(self).model() == (TurnModel {
                setup_error: Some(error@),
                abandoned: true,
                ..old(self).model()
            }),
    {
        self.delivery_setup_error = Some(error);
        self.request_abandoned = true;
    }

    fn show(&self) -> (r: Option<String>)
        ensures
            text::opt_text(r) == self.model().shown(),
    {
        if self.placeholder.is_some() {
            Some(
                display::compose_display(
                    &self.tool_lines,
                    self.text_buf.as_str(),
                    true,
                    self.context.tool_display,
                ),
            )
        } else {
            None
        }
    }

    /// Takes an event in.
    pub fn on_event(&mut self, event: AcpEvent) -> (r: TurnStep)
        ensures
            final(self).model() == old(self).model().after(event),
            r.progress == old(self).model().progress(event),
            r.stream == old(self).model().stream_need(event),
            text::opt_text(r.display) == old(self).model().display_after(event),
            r.options == old(self).model().options_after(event),
    {
        let mut step = TurnStep {
            progress: Progress::Unchanged,
            stream: StreamNeed::Nothing,
            display: None,
            options: None,
        };
        if self.is_over() {
            return step;
        }
        match event {
            AcpEvent::Text(text) => {
                self.text_buf.append(text.as_str());
                self.agent_text_buf.append(text.as_str());
                if self.context.native {
                    if self.stream_open {
                        step.stream = StreamNeed::Writing;
                    } else if !self.stream_begin_failed {
                        step.stream = StreamNeed::Opening;
                    }
                } else {
                    step.display = self.show();
                }
            },
            AcpEvent::Thinking => {
                step.progress = Progress::Thinking;
            },
            AcpEvent::ToolStart { id, title } => {
                tools::observe_tool_call(
                    &mut self.observed_tools,
                    id.as_str(),
                    title.as_str(),
                    ObservedToolCallStatus::Started,
                );
                if !title.as_str().is_empty() {
                    tools::show_tool_call(
                        &mut self.tool_lines,
                        id.as_str(),
                        title.as_str(),
                        ToolState::Running,
                    );
                    step.progress = Progress::Tool { title };
                    step.display = self.show();
                }
            },
            AcpEvent::ToolDone { id, title, status } => {
                let completed = text::str_eq(status.as_str(), "completed");
                let (observed, state) = if completed {
                    (ObservedToolCallStatus::Completed, ToolState::Completed)
                } else {
                    (ObservedToolCallStatus::Failed, ToolState::Failed)
                };
                tools::observe_tool_call(
                    &mut self.observed_tools,
                    id.as_str(),
                    title.as_str(),
                    observed,
                );
                self.answer_start = byte_length(&self.text_buf);
                self.agent_answer_start = byte_length(&self.agent_text_buf);
                tools::show_tool_call(&mut self.tool_lines, id.as_str(), title.as_str(), state);
                step.progress = Progress::Thinking;
                step.display = self.show();
            },
            AcpEvent::ConfigUpdate { options } => {
                step.options = Some(options);
            },
            AcpEvent::Unheeded => {},
        }
        step
    }

    /// Notes whether the native stream could be opened.
    pub fn stream_opened(&mut self, opened: bool)
        ensures
            final(self).model() == (TurnModel {
                stream_open: old(self).stream_open || opened,
                stream_failed: old(self).stream_begin_failed || !opened,
                ..old(self).model()
            }),
    {
        if opened {
            self.stream_open = true;
        } else {
            self.stream_begin_failed = true;
        }
    }

    /// Collects text for an open native stream, and hands out what was collected when the last
    /// writing is long enough ago.
    pub fn stream_text(&mut self, text: &str, since_flush_ms: u128) -> (r: Option<String>)
        ensures
            ({
                let collected = old(self).native_pending@ + text@;
                let due = old(self).stream_open && since_flush_ms >= NATIVE_FLUSH_MS
                    && collected.len() > 0;
                &&& text::opt_text(r) == if due {
                    Some(collected)
                } else {
                    None
                }
                &&& final(self).model() == (TurnModel {
                    pending: if !old(self).stream_open {
                        old(self).native_pending@
                    } else if due {
                        Seq::empty()
                    } else {
                        collected
                    },
                    ..old(self).model()
                })
            }),
    {
        if !self.stream_open {
            return None;
        }
        self.native_pending.append(text);
        if since_flush_ms >= NATIVE_FLUSH_MS && !self.native_pending.as_str().is_empty() {
            let due = self.native_pending.clone();
            self.native_pending = String::new();
            Some(due)
        } else {
            None
        }
    }
}

/// What users are told where it is not known whether a cancellation reached the agent.
pub open spec fn cancel_lost_text() -> Seq<char> {
    "ACP cancellation delivery was indeterminate; agent terminated"@
}

impl TurnModel {
    /// The turn after a response. Only the response to its own prompt ends it.
    pub open spec fn after_response(self, id: u64, response: TurnResponse) -> Self {
        if self.over() || id != self.ticket.request() {
            self
        } else {
            match response {
                TurnResponse::Error { shown, audited } => TurnModel {
                    response_error: Some(shown@),
                    terminal: Some(
                        TerminalObservation::Unknown(UnknownReason::AcpError { error: audited }),
                    ),
                    ..self
                },
                TurnResponse::Result(result) => TurnModel {
                    terminal: Some(
                        if cancelled(result) {
                            TerminalObservation::Cancelled(result)
                        } else {
                            TerminalObservation::Succeeded(result)
                        },
                    ),
                    ..self
                },
                TurnResponse::Nothing => TurnModel {
                    terminal: Some(TerminalObservation::Unknown(UnknownReason::MissingResult)),
                    ..self
                },
            }
        }
    }

    /// The turn after the agent's output ended.
    pub open spec fn after_disconnect(self, cancel_lost: bool) -> Self {
        if self.over() {
            self
        } else if cancel_lost {
            self.lost(cancel_lost_text(), UnknownReason::CancelWriteIndeterminate)
        } else {
            self.lost("Agent process exited unexpectedly"@, UnknownReason::AgentExited)
        }
    }

    /// The turn after a look at the agent and the clock.
    pub open spec fn after_tick(
        self,
        cancel_lost: bool,
        alive: bool,
        elapsed: Span,
    ) -> Self {
        let timeout = self.context.prompt_hard_timeout;
        if self.over() {
            self
        } else if cancel_lost {
            self.lost(cancel_lost_text(), UnknownReason::CancelWriteIndeterminate)
        } else if !alive {
            self.lost("Agent process died"@, UnknownReason::AgentDied)
        } else if elapsed.total() > timeout.total() {
            self.lost(
                "Agent exceeded hard timeout ("@ + text::decimal(timeout.secs as nat) + "s)"@,
                UnknownReason::HardTimeout { seconds: timeout.secs },
            )
        } else {
            self
        }
    }
}

impl AcpTurnDriver {
    /// Takes a response in. Responses to other requests are ignored.
    pub fn on_response(&mut self, id: u64, response: TurnResponse)
        ensures
            final(self).model() == old(self).model().after_response(id, response),
    {
        if self.is_over() || id != self.ticket.request_id() {
            return;
        }
        match response {
            TurnResponse::Error { shown, audited } => {
                self.response_error = Some(shown);
                self.terminal = Some(
                    TerminalObservation::Unknown(UnknownReason::AcpError { error: audited }),
                );
            },
            TurnResponse::Result(result) => {
                self.terminal = if is_cancelled(&result) {
                    Some(TerminalObservation::Cancelled(result))
                } else {
                    Some(TerminalObservation::Succeeded(result))
                };
            },
            TurnResponse::Nothing => {
                self.terminal = Some(TerminalObservation::Unknown(UnknownReason::MissingResult));
            },
        }
    }

    fn lose(&mut self, error: String, reason: UnknownReason)
        ensures
            final(self).model() == old(self).model().lost(error@, reason),
    {
        self.response_error = Some(error);
        self.terminal = Some(TerminalObservation::Unknown(reason));
        self.request_abandoned = true;
    }

    /// Notes that the agent's output ended.
    pub fn on_disconnect(&mut self, cancel_write_indeterminate: bool)
        ensures
            final(self).model() == old(self).model().after_disconnect(cancel_write_indeterminate),
    {
        if self.is_over() {
            return;
        }
        if cancel_write_indeterminate {
            self.lose(
                String::from_str("ACP cancellation delivery was indeterminate; agent terminated"),
                UnknownReason::CancelWriteIndeterminate,
            );
        } else {
            self.lose(
                String::from_str("Agent process exited unexpectedly"),
                UnknownReason::AgentExited,
            );
        }
    }

    /// Notes what a look at the agent and the clock showed.
    pub fn on_tick(
        &mut self,
        cancel_write_indeterminate: bool,
        alive: bool,
        elapsed: Span,
    )
        ensures
            final(self).model() == old(self).model().after_tick(
                cancel_write_indeterminate,
                alive,
                elapsed,
            ),
    {
        if self.is_over() {
            return;
        }
        if cancel_write_indeterminate {
            self.lose(
                String::from_str("ACP cancellation delivery was indeterminate; agent terminated"),
                UnknownReason::CancelWriteIndeterminate,
            );
        } else if !alive {
            self.lose(String::from_str("Agent process died"), UnknownReason::AgentDied);
        } else if elapsed.exceeds(&self.context.prompt_hard_timeout) {
            let seconds = self.context.prompt_hard_timeout.secs;
            let mut error = String::from_str("Agent exceeded hard timeout (");
            text::push_decimal(&mut error, seconds);
            error.append("s)");
            self.lose(error, UnknownReason::HardTimeout { seconds });
        }
    }

    /// Whether the request has to be abandoned before the turn is cleaned up.
    pub fn must_abandon(&self) -> (r: bool)
        ensures
            r == self.model().abandoned,
    {
        self.request_abandoned
    }
}

/// A turn that is over, before its answer is delivered.
pub struct FinishedTurn {
    pub ticket: TurnTicket,
    pub execution: ExecutionOutcome,
    /// What to deliver, in Markdown.
    pub content: String,
    /// What may be spoken.
    pub speech_text: String,
    /// The message to reply to.
    pub reply_to: Option<String>,
    pub native: bool,
    pub stream_open: bool,
    pub native_pending: String,
    pub placeholder: Option<String>,
    pub assistant_status: bool,
}

/// The end of a turn.
pub enum TurnEnd {
    /// Nothing can be delivered.
    SetupFailed(TurnCompletion),
    Deliver(FinishedTurn),
}

/// What is known of a turn without a result.
pub open spec fn nothing_known() -> TurnResult {
    TurnResult { stop_reason: None, input_tokens: None, output_tokens: None, total_tokens: None }
}

impl TurnModel {
    /// How the turn ended; without a response it has no result.
    pub open spec fn observation(self) -> TerminalObservation {
        match self.terminal {
            Some(t) => t,
            None => TerminalObservation::Unknown(UnknownReason::MissingResult),
        }
    }

    pub open spec fn result(self) -> TurnResult {
        match self.observation() {
            TerminalObservation::Succeeded(result) => result,
            TerminalObservation::Cancelled(result) => result,
            TerminalObservation::Unknown(_) => nothing_known(),
        }
    }

    /// The answer: what the agent wrote after its last tool call.
    pub open spec fn answer(self) -> Seq<char> {
        directives::delivery_of(self.agent_text, self.agent_answer_start, false).1
    }

    /// The message that the answer replies to.
    pub open spec fn reply_to(self) -> Option<Seq<char>> {
        directives::delivery_of(
            self.text,
            self.answer_start,
            self.context.keeps_full_text(),
        ).0
    }

    /// The tool calls and the text that are delivered.
    pub open spec fn outcome_text(self) -> Seq<char> {
        let full = self.context.keeps_full_text();
        let body = directives::delivery_of(self.text, self.answer_start, full).1;
        display::displayed(
            self.tools,
            directives::finalized(self.context.reset, full, self.answer_start, body),
            false,
            self.context.tool_display,
        )
    }

    /// What is delivered.
    pub open spec fn content(self) -> Seq<char> {
        let shown = self.outcome_text();
        if shown.len() == 0 {
            display::empty_turn_text(self.response_error, self.result())
        } else {
            match self.response_error {
                Some(error) => "⚠️ "@ + error + "\n\n"@ + shown,
                None => shown,
            }
        }
    }
}

impl AcpTurnDriver {
    fn compose_content(&self, result: &TurnResult) -> (r: (Option<String>, String))
        requires
            *result == self.model().result(),
        ensures
            text::opt_text(r.0) == self.model().reply_to(),
            r.1@ == self.model().content(),
    {
        let keep_full_text = self.context.streaming || self.context.narration_display;
        let (found, body) = directives::split_delivery(
            self.text_buf.as_str(),
            self.answer_start,
            keep_full_text,
        );
        let body = directives::finalize_body(
            self.context.reset,
            keep_full_text,
            self.answer_start,
            body,
        );
        let shown = display::compose_display(
            &self.tool_lines,
            body.as_str(),
            false,
            self.context.tool_display,
        );
        let content = if shown.as_str().is_empty() {
            match &self.response_error {
                Some(error) => display::classify_empty_turn(Some(error.as_str()), result),
                None => display::classify_empty_turn(None, result),
            }
        } else {
            match &self.response_error {
                Some(error) => String::from_str("⚠️ ").concat(error.as_str()).concat("\n\n").concat(
                    shown.as_str(),
                ),
                None => shown,
            }
        };
        (found.reply_to, content)
    }

    fn display_result(&self) -> (r: TurnResult)
        ensures
            r == self.model().result(),
    {
        match &self.terminal {
            Some(TerminalObservation::Succeeded(result)) => result.copy(),
            Some(TerminalObservation::Cancelled(result)) => result.copy(),
            _ => TurnResult {
                stop_reason: None,
                input_tokens: None,
                output_tokens: None,
                total_tokens: None,
            },
        }
    }

    /// Ends the turn: says what it has done, and what to deliver.
    pub fn finish(self) -> (r: TurnEnd)
        ensures
            match r {
                TurnEnd::SetupFailed(done) => {
                    &&& self.model().setup_error is Some
                    &&& done.ticket == self.ticket
                    &&& done.execution matches ExecutionOutcome::OutcomeUnknown {
                        reason: UnknownReason::DeliverySetupFailure { error },
                        observed_tool_calls,
                    }
                    &&& error@ == DELIVERY_SETUP_FAILURE@
                    &&& observed_tool_calls == self.observed_tools
                    &&& done.output is None
                    &&& done.delivery matches DeliveryOutcome::Failed {
                        error: shown,
                        partially_delivered,
                    }
                    &&& shown@ == DELIVERY_SETUP_FAILURE@
                    &&& !partially_delivered
                    &&& done.legacy_dispatch matches LegacyDispatchDisposition::Failed {
                        error: cause,
                    }
                    &&& Some(cause@) == self.model().setup_error
                },
                TurnEnd::Deliver(turn) => {
                    &&& self.model().setup_error is None
                    &&& turn.ticket == self.ticket
                    &&& turn.execution == execution_of(
                        self.model().observation(),
                        !text::blank(self.model().answer()),
                        self.observed_tools,
                    )
                    &&& turn.content@ == self.model().content()
                    &&& turn.speech_text@ == self.model().answer()
                    &&& text::opt_text(turn.reply_to) == self.model().reply_to()
                    &&& turn.native == self.context.native
                    &&& turn.stream_open == self.stream_open
                    &&& turn.native_pending == self.native_pending
                    &&& turn.placeholder == self.placeholder
                    &&& turn.assistant_status == self.context.assistant_status
                },
            },
    {
        if let Some(error) = self.delivery_setup_error {
            return TurnEnd::SetupFailed(
                TurnCompletion {
                    ticket: self.ticket,
                    execution: ExecutionOutcome::OutcomeUnknown {
                        reason: UnknownReason::DeliverySetupFailure {
                            error: String::from_str(DELIVERY_SETUP_FAILURE),
                        },
                        observed_tool_calls: self.observed_tools,
                    },
                    output: None,
                    delivery: DeliveryOutcome::Failed {
                        error: String::from_str(DELIVERY_SETUP_FAILURE),
                        partially_delivered: false,
                    },
                    legacy_dispatch: LegacyDispatchDisposition::Failed { error },
                },
            );
        }
        let (_, answer) = directives::split_delivery(
            self.agent_text_buf.as_str(),
            self.agent_answer_start,
            false,
        );
        let output_present = !text::is_blank(answer.as_str());
        let result = self.display_result();
        let (reply_to, content) = self.compose_content(&result);
        let terminal = match self.terminal {
            Some(t) => t,
            None => TerminalObservation::Unknown(UnknownReason::MissingResult),
        };
        TurnEnd::Deliver(
            FinishedTurn {
                ticket: self.ticket,
                execution: classify_execution(terminal, output_present, self.observed_tools),
                content,
                speech_text: answer,
                reply_to,
                native: self.context.native,
                stream_open: self.stream_open,
                native_pending: self.native_pending,
                placeholder: self.placeholder,
                assistant_status: self.context.assistant_status,
            },
        )
    }
}

/// Begins a turn: consumes the mark that the session was started anew, whatever comes of it, and
/// then starts the prompt, once. Says whether the mark was there.
pub fn start_turn(
    connection: &mut AcpConnection,
    content_blocks: &Vec<ContentBlock>,
    now_ms: u64,
) -> (r: (bool, Result<(TurnTicket, JsonRpcRequest), TurnStartError>))
    ensures
        r.0 == old(connection).session_reset,
        !final(connection).session_reset,
        (AcpConnection { session_reset: false, ..*old(connection) }).starts_prompt(
            content_blocks@,
            now_ms,
            *final(connection),
            r.1,
        ),
{
    let reset = connection.take_session_reset();
    let started = connection.session_prompt_typed(content_blocks, now_ms);
    (reset, started)
}

/// What is reported of a turn whose prompt could not be sent. Where the agent may have read the
/// prompt, that is a completion of which nothing is known; where it cannot have, an error.
pub open spec fn reports_failed_start(
    failure: TurnStartError,
    r: Result<TurnCompletion, String>,
) -> bool {
    match failure {
        TurnStartError::NotStarted { error } => r == Err::<TurnCompletion, String>(error),
        TurnStartError::WriteIndeterminate { ticket, error } => {
            &&& r matches Ok(done)
            &&& done.ticket == ticket
            &&& done.execution matches ExecutionOutcome::OutcomeUnknown {
                reason: UnknownReason::PromptWriteIndeterminate { error: cause },
                observed_tool_calls,
            }
            &&& cause == error
            &&& observed_tool_calls@.len() == 0
            &&& done.output is None
            &&& done.delivery == DeliveryOutcome::NotAttempted
            &&& done.legacy_dispatch == (LegacyDispatchDisposition::Failed { error })
        },
    }
}

/// Ends a turn whose prompt could not be sent. Where the agent may have read the prompt, the
/// connection is cleaned up after exactly that turn; where it cannot have, it is left alone.
pub fn end_failed_start(connection: &mut AcpConnection, failure: TurnStartError, now_ms: u64) -> (r:
    Result<TurnCompletion, String>)
    ensures
        reports_failed_start(failure, r),
        match failure {
            TurnStartError::NotStarted { .. } => *final(connection) == *old(connection),
            TurnStartError::WriteIndeterminate { ticket, .. } => old(connection).cleaned_up(
                ticket,
                now_ms,
                *final(connection),
            ),
        },
{
    if let TurnStartError::WriteIndeterminate { ticket, .. } = &failure {
        connection.prompt_done_typed(ticket, now_ms);
    }
    start_failure(failure)
}

/// Says what became of a turn whose prompt could not be sent.
pub fn start_failure(error: TurnStartError) -> (r: Result<TurnCompletion, String>)
    ensures
        reports_failed_start(error, r),
{
    match error {
        TurnStartError::NotStarted { error } => Err(error),
        TurnStartError::WriteIndeterminate { ticket, error } => Ok(
            TurnCompletion {
                ticket,
                execution: ExecutionOutcome::OutcomeUnknown {
                    reason: UnknownReason::PromptWriteIndeterminate { error: error.clone() },
                    observed_tool_calls: Vec::new(),
                },
                output: None,
                delivery: DeliveryOutcome::NotAttempted,
                legacy_dispatch: LegacyDispatchDisposition::Failed { error },
            },
        ),
    }
}

/// The turn after events.
pub open spec fn after_all(turn: TurnModel, events: Seq<AcpEvent>) -> TurnModel
    decreases events.len(),
{
    if events.len() == 0 {
        turn
    } else {
        after_all(turn, events.drop_last()).after(events.last())
    }
}

/// Texts one after the other.
pub open spec fn concatenated(texts: Seq<Seq<char>>) -> Seq<char>
    decreases texts.len(),
{
    if texts.len() == 0 {
        Seq::empty()
    } else {
        concatenated(texts.drop_last()) + texts.last()
    }
}

/// The turn after the agent wrote texts.
pub open spec fn with_texts(turn: TurnModel, texts: Seq<Seq<char>>) -> TurnModel
    decreases texts.len(),
{
    if texts.len() == 0 {
        turn
    } else {
        with_texts(turn, texts.drop_last()).with_text(texts.last())
    }
}

/// A turn ends once: whatever comes after its end changes nothing.
pub proof fn lemma_first_end_counts(
    turn: TurnModel,
    event: AcpEvent,
    id: u64,
    response: TurnResponse,
    cancel_lost: bool,
    alive: bool,
    elapsed: Span,
)
    requires
        turn.over(),
    ensures
        turn.after(event) == turn,
        turn.after_response(id, response) == turn,
        turn.after_disconnect(cancel_lost) == turn,
        turn.after_tick(cancel_lost, alive, elapsed) == turn,
{
}

/// A response to another request leaves the turn as it is, and so it goes on.
pub proof fn lemma_foreign_response_is_ignored(turn: TurnModel, id: u64, response: TurnResponse)
    requires
        id != turn.ticket.request(),
    ensures
        turn.after_response(id, response) == turn,
{
}

/// The response to the prompt of a running turn ends it without abandoning its request; every
/// other end abandons it.
pub proof fn lemma_only_unanswered_requests_are_abandoned(
    turn: TurnModel,
    response: TurnResponse,
    cancel_lost: bool,
    elapsed: Span,
)
    requires
        !turn.over(),
        !turn.abandoned,
    ensures
        turn.after_response(turn.ticket.request(), response).over(),
        !turn.after_response(turn.ticket.request(), response).abandoned,
        turn.after_disconnect(cancel_lost).over(),
        turn.after_disconnect(cancel_lost).abandoned,
        forall|alive: bool|
            (#[trigger] turn.after_tick(cancel_lost, alive, elapsed)).over()
                == turn.after_tick(cancel_lost, alive, elapsed).abandoned,
        elapsed.total() > turn.context.prompt_hard_timeout.total() ==> forall|alive: bool|
            (#[trigger] turn.after_tick(cancel_lost, alive, elapsed)).over(),
{
}

proof fn lemma_texts_are_kept(turn: TurnModel, texts: Seq<Seq<char>>)
    ensures
        with_texts(turn, texts).agent_text == turn.agent_text + concatenated(texts),
        with_texts(turn, texts).agent_answer_start == turn.agent_answer_start,
    decreases texts.len(),
{
    if texts.len() > 0 {
        lemma_texts_are_kept(turn, texts.drop_last());
    }
    assert(with_texts(turn, texts).agent_text =~= turn.agent_text + concatenated(texts));
}

/// The answer is what the agent wrote after its last tool call, and nothing of what it wrote
/// before. Where it wrote nothing before, the answer has no directive header.
pub proof fn lemma_answer_is_what_followed_the_last_tool(
    turn: TurnModel,
    id: Seq<char>,
    title: Seq<char>,
    completed: bool,
    texts: Seq<Seq<char>>,
)
    ensures
        with_texts(turn.with_tool_done(id, title, completed), texts).answer() == if turn.agent_text.len()
            == 0 {
            directives::parsed_output(concatenated(texts), None).1
        } else {
            concatenated(texts)
        },
{
    let done = turn.with_tool_done(id, title, completed);
    let after = concatenated(texts);
    lemma_texts_are_kept(done, texts);
    directives::lemma_selects_what_followed(turn.agent_text, after);
    directives::lemma_byte_len_bounds(turn.agent_text);
    if turn.agent_text.len() == 0 {
        assert(turn.agent_text =~= Seq::empty());
        assert(directives::byte_len(turn.agent_text) == 0);
        assert(turn.agent_text + after =~= after);
    }
}

/// What may be spoken depends on the agent's events alone: neither the notice of a new session
/// nor narration that is shown gets into it.
pub proof fn lemma_display_settings_do_not_change_the_answer(
    ticket: TurnTicket,
    one: TurnDeliveryContext,
    other: TurnDeliveryContext,
    events: Seq<AcpEvent>,
)
    ensures
        after_all(TurnModel::started(ticket, one), events).answer() == after_all(
            TurnModel::started(ticket, other),
            events,
        ).answer(),
{
    lemma_same_agent_text(ticket, one, other, events);
}

proof fn lemma_same_agent_text(
    ticket: TurnTicket,
    one: TurnDeliveryContext,
    other: TurnDeliveryContext,
    events: Seq<AcpEvent>,
)
    ensures
        ({
            let a = after_all(TurnModel::started(ticket, one), events);
            let b = after_all(TurnModel::started(ticket, other), events);
            a.agent_text == b.agent_text && a.agent_answer_start == b.agent_answer_start && !a.over()
                && !b.over()
        }),
    decreases events.len(),
{
    if events.len() > 0 {
        lemma_same_agent_text(ticket, one, other, events.drop_last());
    }
}

/// Each observed tool call stands once in the record of a turn, whatever the agent reports.
pub proof fn lemma_calls_stay_distinct(turn: TurnModel, events: Seq<AcpEvent>)
    requires
        tools::distinct_calls(turn.calls),
    ensures
        tools::distinct_calls(after_all(turn, events).calls),
    decreases events.len(),
{
    if events.len() > 0 {
        lemma_calls_stay_distinct(turn, events.drop_last());
        let before = after_all(turn, events.drop_last());
        match events.last() {
            AcpEvent::ToolStart { id, title } => {
                tools::lemma_observing_keeps_calls_distinct(
                    before.calls,
                    id@,
                    title@,
                    ObservedToolCallStatus::Started,
                );
            },
            AcpEvent::ToolDone { id, title, status } => {
                tools::lemma_observing_keeps_calls_distinct(
                    before.calls,
                    id@,
                    title@,
                    if status@ == "completed"@ {
                        ObservedToolCallStatus::Completed
                    } else {
                        ObservedToolCallStatus::Failed
                    },
                );
            },
            _ => {},
        }
    }
}

} // verus!
