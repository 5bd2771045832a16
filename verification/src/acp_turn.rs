//! Typed results for a single ACP prompt turn.
//!
//! These types keep execution, canonical platform delivery and the return value of the text
//! dispatcher separate. A turn may have completed successfully even when its final message could
//! not be delivered, while an interrupted turn may have produced partial output without proof
//! that execution completed.

use vstd::prelude::*;
use vstd::string::*;
use crate::acp::protocol::TurnResult;
use crate::text;

verus! {

/// Finalized text produced by an ACP turn.
#[derive(Clone, Debug, PartialEq, Eq)]
pub struct TurnOutput {
    /// Canonical, directive-applied text used for platform delivery.
    pub display_text: String,
    /// Directive-free text that may be considered for speech playback. Possessing it does not
    /// make it eligible: see [`TurnCompletion::eligible_speech_text`].
    pub speech_text: String,
    /// Agent-authored, bounded spoken brief, when the originating prompt requested one. It is
    /// separate from `speech_text`, which may hold content that must never be read aloud as an
    /// implicit fallback.
    pub voice_brief: Option<String>,
}

/// The latest lifecycle state observed for an ACP tool call.
#[derive(Clone, Copy, Debug, PartialEq, Eq, Structural)]
#[non_exhaustive]
pub enum ObservedToolCallStatus {
    /// The tool call was announced, but no terminal update was observed.
    Started,
    /// ACP reported that the tool call completed.
    Completed,
    /// ACP reported that the tool call failed.
    Failed,
}

/// Evidence that an ACP tool call was observed during the turn: what the client observed, not
/// proof that a side effect did or did not happen.
#[derive(Clone, Debug, PartialEq, Eq)]
pub struct ObservedToolCall {
    /// ACP's stable tool-call identifier, when the agent supplied one.
    pub id: String,
    /// The latest human-readable title supplied for the tool call.
    pub title: String,
    /// The latest lifecycle state observed.
    pub status: ObservedToolCallStatus,
}

/// Opaque identity of one active `session/prompt` request.
///
/// Both components are required so a cancellation intended for one connection cannot target a
/// reused JSON-RPC request id on another connection.
#[derive(Clone, Copy, Debug, PartialEq, Eq, Structural)]
pub struct TurnTicket {
    connection_id: u128,
    request_id: u64,
}

impl TurnTicket {
    pub closed spec fn connection(self) -> u128 {
        self.connection_id
    }

    pub closed spec fn request(self) -> u64 {
        self.request_id
    }

    /// Mints a ticket for an active request on a specific ACP connection.
    pub fn new(connection_id: u128, request_id: u64) -> (r: Self)
        ensures
            r.connection() == connection_id,
            r.request() == request_id,
    {
        TurnTicket { connection_id, request_id }
    }

    /// The ACP connection generation that owns the request.
    pub fn connection_id(&self) -> (r: u128)
        ensures
            r == self.connection(),
    {
        self.connection_id
    }

    /// The JSON-RPC request id within the owning connection.
    pub fn request_id(&self) -> (r: u64)
        ensures
            r == self.request(),
    {
        self.request_id
    }

    /// A ticket is its connection and its request: two tickets with equal parts are the same.
    pub proof fn lemma_identity(a: TurnTicket, b: TurnTicket)
        ensures
            a == b <==> a.connection() == b.connection() && a.request() == b.request(),
    {
    }
}

/// Failure while starting `session/prompt`, classified by whether any request bytes may have
/// reached the ACP child.
#[derive(Clone, Debug, PartialEq, Eq)]
#[non_exhaustive]
pub enum TurnStartError {
    /// Validation or serialization failed before a write was attempted.
    NotStarted { error: String },
    /// A stdin write or flush failed after bytes may have reached the child. The owning
    /// connection is poisoned and must not be reused.
    WriteIndeterminate { ticket: TurnTicket, error: String },
}

/// Opaque proof, supplied by a containment backend, that a failed turn could not have produced
/// any side effects. An error response or a missing final response is not such proof.
#[derive(Clone, Copy, Debug, PartialEq, Eq)]
pub struct NoEffectsProof {
    private: (),
}

impl NoEffectsProof {
    /// The one proof there is.
    pub closed spec fn established() -> Self {
        NoEffectsProof { private: () }
    }

    /// Creates proof after a containment backend has established that the turn could not have
    /// produced an effect.
    pub fn new() -> (r: Self)
        ensures
            r == Self::established(),
    {
        NoEffectsProof { private: () }
    }
}

/// Why a prompt turn's terminal execution outcome cannot be determined.
#[derive(Clone, Debug, PartialEq, Eq)]
#[non_exhaustive]
pub enum UnknownReason {
    /// A dispatch target completed but cannot expose structured evidence.
    LegacyDispatchTarget,
    /// ACP returned an error after the prompt may already have started work.
    AcpError { error: String },
    /// The ACP reader observed EOF before the prompt's final response.
    AgentExited,
    /// A liveness check determined that the agent process had died.
    AgentDied,
    /// The prompt exceeded its hard execution ceiling.
    HardTimeout { seconds: u64 },
    /// A matching final response arrived without a result object.
    MissingResult,
    /// The turn ended without an authoritative final output.
    MissingOutput,
    /// It is not known whether the complete prompt request reached the child process.
    PromptWriteIndeterminate { error: String },
    /// It is not known whether the agent received a targeted cancellation. The process tree is
    /// terminated and the connection poisoned, but effects before that remain unknown.
    CancelWriteIndeterminate,
    /// Delivery initialization failed after the prompt became active.
    DeliverySetupFailure { error: String },
}

/// The execution outcome of one ACP prompt, independent of message delivery.
#[derive(Clone, Debug, PartialEq, Eq)]
#[non_exhaustive]
pub enum ExecutionOutcome {
    /// ACP returned a successful final prompt result.
    Succeeded { turn_result: TurnResult },
    /// Execution failed and a containment backend proved that no effects occurred.
    Failed { error: String, no_effects: NoEffectsProof },
    /// Cancellation was confirmed as the terminal result.
    Cancelled { turn_result: TurnResult, observed_tool_calls: Vec<ObservedToolCall> },
    /// Work may have happened, but no authoritative terminal result was observed.
    OutcomeUnknown { reason: UnknownReason, observed_tool_calls: Vec<ObservedToolCall> },
}

/// Canonical platform delivery state, independent of ACP execution.
#[derive(Clone, Debug, PartialEq, Eq)]
#[non_exhaustive]
pub enum DeliveryOutcome {
    /// No canonical result delivery was attempted.
    NotAttempted,
    /// The canonical final result was delivered successfully.
    Delivered,
    /// Canonical delivery failed; the platform may already contain part of the text.
    Failed { error: String, partially_delivered: bool },
}

/// The success or error that the text dispatcher expects.
#[derive(Clone, Debug, PartialEq, Eq)]
#[non_exhaustive]
pub enum LegacyDispatchDisposition {
    /// The dispatcher returns success.
    Succeeded,
    /// The dispatcher returns this error.
    Failed { error: String },
}

impl LegacyDispatchDisposition {
    /// Converts this disposition into a result.
    pub fn into_result(self) -> (r: Result<(), String>)
        ensures
            r == match self {
                LegacyDispatchDisposition::Succeeded => Ok::<(), String>(()),
                LegacyDispatchDisposition::Failed { error } => Err::<(), String>(error),
            },
    {
        match self {
            LegacyDispatchDisposition::Succeeded => Ok(()),
            LegacyDispatchDisposition::Failed { error } => Err(error),
        }
    }
}

/// Typed completion of one active ACP prompt turn.
#[derive(Clone, Debug, PartialEq, Eq)]
pub struct TurnCompletion {
    /// The connection-qualified prompt identity used for targeted cancellation.
    pub ticket: TurnTicket,
    /// What is known about ACP execution.
    pub execution: ExecutionOutcome,
    /// Final or partial text retained from the turn, when available.
    pub output: Option<TurnOutput>,
    /// Whether canonical platform result delivery succeeded.
    pub delivery: DeliveryOutcome,
    /// The result for the text dispatcher.
    pub legacy_dispatch: LegacyDispatchDisposition,
}

/// Text that may be spoken: nothing if it is blank.
pub open spec fn speakable(s: Seq<char>) -> Option<Seq<char>> {
    if text::blank(s) {
        None
    } else {
        Some(s)
    }
}

impl TurnCompletion {
    /// Playback waits for successful execution and successful delivery of the canonical text.
    pub open spec fn may_speak(self) -> bool {
        self.execution is Succeeded && self.delivery is Delivered
    }

    pub open spec fn speech(self) -> Option<Seq<char>> {
        if self.may_speak() {
            match self.output {
                Some(output) => speakable(output.speech_text@),
                None => None,
            }
        } else {
            None
        }
    }

    pub open spec fn brief(self) -> Option<Seq<char>> {
        if self.may_speak() {
            match self.output {
                Some(output) => match output.voice_brief {
                    Some(brief) => speakable(brief@),
                    None => None,
                },
                None => None,
            }
        } else {
            None
        }
    }

    /// Speech text, only when it is safe to enqueue action playback: execution succeeded, the
    /// canonical text was delivered, and the finalized speech projection is not blank.
    pub fn eligible_speech_text(&self) -> (r: Option<&str>)
        ensures
            text::opt_str(r) == self.speech(),
    {
        if !self.playback_allowed() {
            return None;
        }
        match &self.output {
            Some(output) => {
                let speech_text = output.speech_text.as_str();
                if text::is_blank(speech_text) {
                    None
                } else {
                    Some(speech_text)
                }
            },
            None => None,
        }
    }

    /// The explicit voice brief, only after successful execution and canonical text delivery.
    /// Full ACP output is never used as a fallback.
    pub fn eligible_voice_brief(&self) -> (r: Option<&str>)
        ensures
            text::opt_str(r) == self.brief(),
    {
        if !self.playback_allowed() {
            return None;
        }
        match &self.output {
            Some(output) => match &output.voice_brief {
                Some(brief) => {
                    let brief = brief.as_str();
                    if text::is_blank(brief) {
                        None
                    } else {
                        Some(brief)
                    }
                },
                None => None,
            },
            None => None,
        }
    }

    fn playback_allowed(&self) -> (r: bool)
        ensures
            r == self.may_speak(),
    {
        let succeeded = match &self.execution {
            ExecutionOutcome::Succeeded { turn_result } => true,
            _ => false,
        };
        let delivered = match &self.delivery {
            DeliveryOutcome::Delivered => true,
            _ => false,
        };
        succeeded && delivered
    }

    /// Nothing is spoken of a turn whose execution or delivery did not succeed, and a brief is
    /// never taken from the full output.
    pub proof fn lemma_nothing_unsafe_is_spoken(self)
        ensures
            !(self.execution is Succeeded) ==> self.speech() is None && self.brief() is None,
            !(self.delivery is Delivered) ==> self.speech() is None && self.brief() is None,
            self.output is None ==> self.speech() is None && self.brief() is None,
            self.output matches Some(output) && output.voice_brief is None ==> self.brief() is None,
            self.speech() matches Some(s) ==> !text::blank(s),
            self.brief() matches Some(s) ==> !text::blank(s),
    {
    }
}

} // verus!
