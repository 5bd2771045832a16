//! Session-bound voice intent delegation for Discord.
//!
//! The broker turns a finalized transcript from the operator bound to a voice session into a
//! proposed delegation or a request for the voice agent itself, waits for one text confirmation,
//! and then emits the selected action. It performs no I/O: each step returns the messages that
//! are to be sent, and the results of sending them come back as further steps. The transition to
//! dispatching is made before any message leaves, so an intent is dispatched at most once.

use std::collections::{HashMap, VecDeque};
use vstd::prelude::*;
use vstd::string::*;
use crate::discord_voice_runtime::VoiceSessionToken;
use crate::ids;
use crate::text;

pub mod language;
pub mod messages;
pub mod targets;

use language::Confirmation;
use targets::{IntentDestination, IntentProposal, IntentTarget};

verus! {

/// How many transcripts of a session are remembered so that a replay is not taken for a new
/// command.
pub const MAX_PROCESSED_TRANSCRIPT_KEYS: usize = 1_024;

/// Stable identity of one finalized STT segment within a voice session.
#[derive(Debug, Clone, Copy, PartialEq, Eq, Hash, Structural)]
pub struct TranscriptKey {
    pub speaker_id: u64,
    pub start_frame: u64,
    pub end_frame: u64,
}

/// The final transcript information needed by the intent broker.
#[derive(Debug, Clone)]
pub struct FinalTranscriptEvent {
    pub token: VoiceSessionToken,
    pub control_channel_id: u64,
    pub key: TranscriptKey,
    pub text: String,
}

/// What became of a transcript.
#[derive(Debug, Clone, Copy, PartialEq, Eq, Structural)]
pub enum VoiceIntentTranscriptOutcome {
    /// The event was disabled, stale, from another speaker/channel, or was not an unambiguous
    /// command for a supported destination.
    Ignored,
    /// This exact session already has an intent waiting for text confirmation.
    AwaitingConfirmation,
    /// A new proposal was stored and its idempotent confirmation post started.
    Proposed,
}

/// Confirmed work that should execute through the voice agent's own ACP path.
///
/// The intent stays in dispatch until the handoff completes. A handoff that definitely was not
/// enqueued may reopen confirmation; any repeated handoff keeps the same `intent_id` and
/// `revision` for deduplication.
#[derive(Debug, Clone, PartialEq, Eq)]
pub struct LocalIntentExecution {
    pub intent_id: u128,
    pub revision: u64,
    pub session: VoiceSessionToken,
    pub control_channel_id: u64,
    pub operator_user_id: u64,
    pub operator_display_name: String,
    pub task: String,
}

/// What became of a text message.
#[derive(Debug, Clone, PartialEq, Eq)]
pub enum VoiceIntentTextOutcome {
    /// This text is unrelated to a pending confirmation and should continue through the ordinary
    /// Discord message pipeline.
    NotApplicable,
    /// A second confirmation arrived while the first dispatch was in flight.
    AlreadyProcessing,
    /// The target message may have been accepted and is being recovered with its enforced nonce
    /// after an ambiguous transport result.
    Dispatching,
    Dispatched,
    /// Execute this confirmed task through the voice agent's own ACP runtime.
    ExecuteLocal(LocalIntentExecution),
    Cancelled,
    Corrected,
    /// The message used correction syntax but did not contain a usable task.
    CorrectionRejected,
}

impl VoiceIntentTextOutcome {
    /// Whether the Discord handler must stop normal message processing.
    pub fn consumed(&self) -> (r: bool)
        ensures
            r == !(self is NotApplicable),
    {
        match self {
            VoiceIntentTextOutcome::NotApplicable => false,
            _ => true,
        }
    }
}

/// Where a pending intent stands.
#[derive(Debug, Clone, Copy, PartialEq, Eq, Structural)]
pub enum PendingPhase {
    PostingConfirmation,
    WaitingConfirmation,
    Dispatching,
}

/// An intent that is not completed yet.
#[derive(Debug, Clone, PartialEq, Eq)]
pub struct PendingIntent {
    pub id: u128,
    pub revision: u64,
    pub waiting_epoch: u64,
    pub proposal: IntentProposal,
    pub phase: PendingPhase,
    pub confirmation_message_id: Option<String>,
}

/// A pending intent as a mathematical value.
#[verifier::ext_equal]
pub struct PendingModel {
    pub id: u128,
    pub revision: u64,
    pub waiting_epoch: u64,
    pub proposal: targets::ProposalModel,
    pub phase: PendingPhase,
    pub message_id: Option<Seq<char>>,
}

impl View for PendingIntent {
    type V = PendingModel;

    open spec fn view(&self) -> PendingModel {
        PendingModel {
            id: self.id,
            revision: self.revision,
            waiting_epoch: self.waiting_epoch,
            proposal: self.proposal@,
            phase: self.phase,
            message_id: text::opt_text(self.confirmation_message_id),
        }
    }
}

impl PendingIntent {
    fn copy(&self) -> (r: PendingIntent)
        ensures
            r == *self,
    {
        PendingIntent {
            id: self.id,
            revision: self.revision,
            waiting_epoch: self.waiting_epoch,
            proposal: IntentProposal {
                destination: self.proposal.destination,
                task: self.proposal.task.clone(),
            },
            phase: self.phase,
            confirmation_message_id: self.confirmation_message_id.clone(),
        }
    }
}

/// What the broker holds of one voice session.
#[derive(Debug)]
pub struct BoundSession {
    pub token: VoiceSessionToken,
    pub control_channel_id: u64,
    pub operator_user_id: u64,
    pub operator_display_name: String,
    pub next_revision: u64,
    pub next_waiting_epoch: u64,
    pub pending: Option<PendingIntent>,
    /// The transcripts that were taken for commands, the oldest first.
    pub processed_keys: VecDeque<TranscriptKey>,
}

/// A bound session as a mathematical value.
#[verifier::ext_equal]
pub struct BoundModel {
    pub token: VoiceSessionToken,
    pub channel: u64,
    pub operator: u64,
    pub operator_name: Seq<char>,
    pub next_revision: u64,
    pub next_epoch: u64,
    pub pending: Option<PendingModel>,
    pub keys: Seq<TranscriptKey>,
}

pub open spec fn pending_model(pending: Option<PendingIntent>) -> Option<PendingModel> {
    match pending {
        Some(p) => Some(p@),
        None => None,
    }
}

impl View for BoundSession {
    type V = BoundModel;

    open spec fn view(&self) -> BoundModel {
        BoundModel {
            token: self.token,
            channel: self.control_channel_id,
            operator: self.operator_user_id,
            operator_name: self.operator_display_name@,
            next_revision: self.next_revision,
            next_epoch: self.next_waiting_epoch,
            pending: pending_model(self.pending),
            keys: self.processed_keys@,
        }
    }
}

/// The number after `n`, which stays at the largest one.
pub open spec fn following(n: u64) -> u64 {
    if n == u64::MAX {
        n
    } else {
        (n + 1) as u64
    }
}

impl BoundModel {
    /// What holds of a session: its pending work goes somewhere, revisions and waiting periods to
    /// come are later than the current ones, and its memory of transcripts is bounded and holds
    /// each once.
    pub open spec fn wf(self, targets: Seq<IntentTarget>) -> bool {
        &&& self.pending matches Some(p) ==> messages::known_destination(
            p.proposal.destination,
            targets,
        )
        &&& self.pending matches Some(p) ==> p.revision < self.next_revision || self.next_revision
            == u64::MAX
        &&& self.pending matches Some(p) ==> p.waiting_epoch < self.next_epoch || self.next_epoch
            == u64::MAX
        &&& 0 < self.next_epoch
        &&& self.keys.len() <= MAX_PROCESSED_TRANSCRIPT_KEYS
        &&& self.keys.no_duplicates()
    }

    /// A session that was just bound.
    pub open spec fn fresh(
        token: VoiceSessionToken,
        channel: u64,
        operator: u64,
        operator_name: Seq<char>,
    ) -> BoundModel {
        BoundModel {
            token,
            channel,
            operator,
            operator_name,
            next_revision: 1,
            next_epoch: 1,
            pending: None,
            keys: Seq::empty(),
        }
    }

    /// Whether the pending intent is the given revision of the given intent, in the given phase.
    pub open spec fn is_current(self, id: u128, revision: u64, phase: PendingPhase) -> bool {
        self.pending matches Some(p) && p.id == id && p.revision == revision && p.phase == phase
    }

    /// Nothing is pending any more.
    pub open spec fn cleared(self) -> BoundModel {
        BoundModel { pending: None, ..self }
    }

    /// The pending intent enters the given phase.
    pub open spec fn in_phase(self, phase: PendingPhase) -> BoundModel {
        BoundModel {
            pending: match self.pending {
                Some(p) => Some(PendingModel { phase, ..p }),
                None => None,
            },
            ..self
        }
    }

    /// The pending intent waits for confirmation, in a waiting period of its own.
    pub open spec fn waiting(self) -> BoundModel {
        BoundModel {
            pending: match self.pending {
                Some(p) => Some(
                    PendingModel {
                        phase: PendingPhase::WaitingConfirmation,
                        waiting_epoch: self.next_epoch,
                        ..p
                    },
                ),
                None => None,
            },
            next_epoch: following(self.next_epoch),
            ..self
        }
    }

    /// The pending intent waits for confirmation by the given message.
    pub open spec fn waiting_by(self, message_id: Seq<char>) -> BoundModel {
        let waiting = self.waiting();
        BoundModel {
            pending: match waiting.pending {
                Some(p) => Some(PendingModel { message_id: Some(message_id), ..p }),
                None => None,
            },
            ..waiting
        }
    }

    /// New work is pending, under a new id and a new revision.
    pub open spec fn proposing(self, id: u128, proposal: targets::ProposalModel) -> BoundModel {
        BoundModel {
            pending: Some(
                PendingModel {
                    id,
                    revision: self.next_revision,
                    waiting_epoch: 0,
                    proposal,
                    phase: PendingPhase::PostingConfirmation,
                    message_id: None,
                },
            ),
            next_revision: following(self.next_revision),
            ..self
        }
    }

    /// A transcript is remembered; the oldest is forgotten where there are too many.
    pub open spec fn remembering(self, key: TranscriptKey) -> BoundModel {
        let keys = self.keys.push(key);
        BoundModel {
            keys: if keys.len() > MAX_PROCESSED_TRANSCRIPT_KEYS {
                keys.skip(1)
            } else {
                keys
            },
            ..self
        }
    }

    /// The prompt to delete when the session ends. A prompt that was confirmed stays as part of
    /// the audit trail.
    pub open spec fn visible_prompt(self) -> Option<(u64, Seq<char>)> {
        match self.pending {
            Some(p) => if p.phase == PendingPhase::Dispatching {
                None
            } else {
                match p.message_id {
                    Some(id) => Some((self.channel, id)),
                    None => None,
                }
            },
            None => None,
        }
    }
}

/// A message that is to be sent.
#[derive(Debug, Clone, PartialEq, Eq)]
pub struct OutgoingMessage {
    pub channel_id: u64,
    pub content: String,
    /// A nonce that the platform has to enforce, so that sending again after an unknown result
    /// recovers the same message instead of creating another.
    pub nonce: Option<String>,
}

/// A pending intent together with the session it belongs to.
#[derive(Debug, Clone, PartialEq, Eq)]
pub struct PendingMessage {
    pub token: VoiceSessionToken,
    pub control_channel_id: u64,
    pub operator_user_id: u64,
    pub operator_display_name: String,
    pub intent: PendingIntent,
}

impl PendingMessage {
    /// Whether this is the pending intent of a session.
    pub open spec fn is_pending_of(self, bound: BoundModel) -> bool {
        &&& self.token == bound.token
        &&& self.control_channel_id == bound.channel
        &&& self.operator_user_id == bound.operator
        &&& self.operator_display_name@ == bound.operator_name
        &&& bound.pending == Some(self.intent@)
    }
}

/// A prompt that became stale.
#[derive(Debug, Clone, PartialEq, Eq)]
pub struct StalePrompt {
    pub channel_id: u64,
    pub message_id: String,
}

pub open spec fn prompt_model(prompt: Option<StalePrompt>) -> Option<(u64, Seq<char>)> {
    match prompt {
        Some(p) => Some((p.channel_id, p.message_id@)),
        None => None,
    }
}

/// The number after `n`.
fn next_number(n: u64) -> (r: u64)
    ensures
        r == following(n),
{
    if n == u64::MAX {
        n
    } else {
        n + 1
    }
}

impl BoundSession {
    fn fresh(
        token: VoiceSessionToken,
        control_channel_id: u64,
        operator_user_id: u64,
        operator_display_name: String,
    ) -> (r: Self)
        ensures
            r@ == BoundModel::fresh(
                token,
                control_channel_id,
                operator_user_id,
                operator_display_name@,
            ),
    {
        BoundSession {
            token,
            control_channel_id,
            operator_user_id,
            operator_display_name,
            next_revision: 1,
            next_waiting_epoch: 1,
            pending: None,
            processed_keys: VecDeque::new(),
        }
    }

    /// Whether the pending intent is the given revision of the given intent, in the given phase.
    fn is_current(&self, id: u128, revision: u64, phase: PendingPhase) -> (r: bool)
        ensures
            r == self@.is_current(id, revision, phase),
    {
        match &self.pending {
            Some(p) => p.id == id && p.revision == revision && p.phase == phase,
            None => false,
        }
    }

    /// Starts a waiting period and returns its number.
    fn enter_waiting(&mut self) -> (epoch: u64)
        ensures
            epoch == old(self)@.next_epoch,
            final(self)@ == old(self)@.waiting(),
    {
        let epoch = self.next_waiting_epoch;
        self.next_waiting_epoch = next_number(epoch);
        let mut pending: Option<PendingIntent> = None;
        std::mem::swap(&mut pending, &mut self.pending);
        self.pending = match pending {
            Some(p) => Some(
                PendingIntent {
                    phase: PendingPhase::WaitingConfirmation,
                    waiting_epoch: epoch,
                    ..p
                },
            ),
            None => None,
        };
        epoch
    }

    /// Stores new work and returns it.
    fn propose(&mut self, id: u128, proposal: IntentProposal) -> (r: PendingMessage)
        ensures
            final(self)@ == old(self)@.proposing(id, proposal@),
            r.is_pending_of(final(self)@),
    {
        let intent = PendingIntent {
            id,
            revision: self.next_revision,
            waiting_epoch: 0,
            proposal,
            phase: PendingPhase::PostingConfirmation,
            confirmation_message_id: None,
        };
        self.next_revision = next_number(self.next_revision);
        self.pending = Some(intent.copy());
        self.message(intent)
    }

    fn message(&self, intent: PendingIntent) -> (r: PendingMessage)
        ensures
            r.token == self@.token,
            r.control_channel_id == self@.channel,
            r.operator_user_id == self@.operator,
            r.operator_display_name@ == self@.operator_name,
            r.intent == intent,
    {
        PendingMessage {
            token: self.token,
            control_channel_id: self.control_channel_id,
            operator_user_id: self.operator_user_id,
            operator_display_name: self.operator_display_name.clone(),
            intent,
        }
    }

    fn knows_key(&self, key: TranscriptKey) -> (r: bool)
        ensures
            r == self@.keys.contains(key),
    {
        let mut i: usize = 0;
        while i < self.processed_keys.len()
            invariant
                i <= self.processed_keys@.len(),
                forall|j: int| 0 <= j < i ==> self.processed_keys@[j] != key,
            decreases self.processed_keys@.len() - i,
        {
            if self.processed_keys[i] == key {
                assert(self.processed_keys@.contains(key));
                return true;
            }
            i = i + 1;
        }
        false
    }

    /// Remembers a transcript, unless it is remembered already.
    fn record_transcript_key(&mut self, key: TranscriptKey) -> (r: bool)
        requires
            old(self)@.keys.len() <= MAX_PROCESSED_TRANSCRIPT_KEYS,
            old(self)@.keys.no_duplicates(),
        ensures
            r == !old(self)@.keys.contains(key),
            final(self)@ == if r {
                old(self)@.remembering(key)
            } else {
                old(self)@
            },
            final(self)@.keys.len() <= MAX_PROCESSED_TRANSCRIPT_KEYS,
            final(self)@.keys.no_duplicates(),
    {
        if self.knows_key(key) {
            return false;
        }
        self.processed_keys.push_back(key);
        let ghost keys = self.processed_keys@;
        assert(keys.no_duplicates());
        if self.processed_keys.len() > MAX_PROCESSED_TRANSCRIPT_KEYS {
            self.processed_keys.pop_front();
            assert(self.processed_keys@ =~= keys.skip(1));
        }
        true
    }

    /// The prompt to delete when the session ends.
    fn visible_prompt_to_delete(&self) -> (r: Option<StalePrompt>)
        ensures
            prompt_model(r) == self@.visible_prompt(),
    {
        match &self.pending {
            Some(p) => if p.phase == PendingPhase::Dispatching {
                None
            } else {
                match &p.confirmation_message_id {
                    Some(id) => Some(
                        StalePrompt { channel_id: self.control_channel_id, message_id: id.clone() },
                    ),
                    None => None,
                }
            },
            None => None,
        }
    }
}

/// A target as it is configured.
#[derive(Debug, Clone, PartialEq, Eq)]
pub struct DiscordVoiceIntentTargetConfig {
    pub discord_user_id: String,
    pub aliases: Vec<String>,
}

/// The settings of the voice intent flow. Targets are listed by name.
#[derive(Debug, Clone, PartialEq, Eq)]
pub struct DiscordVoiceIntentConfig {
    pub enabled: bool,
    pub confirmation_timeout_seconds: u64,
    pub default_to_local: bool,
    pub targets: Vec<(String, DiscordVoiceIntentTargetConfig)>,
}

/// The user that a target is configured to be.
pub open spec fn configured_user(config: DiscordVoiceIntentTargetConfig) -> Option<nat> {
    match text::parsed_number(text::trimmed_white(config.discord_user_id@)) {
        Some(n) => if n <= u64::MAX {
            Some(n)
        } else {
            None
        },
        None => None,
    }
}

/// The names of a configured target in the form in which they are compared: its own, then its
/// aliases.
pub open spec fn configured_names(name: Seq<char>, aliases: Seq<String>) -> Seq<Seq<char>> {
    seq![targets::match_form(name)] + aliases.map_values(|a: String| targets::match_form(a@))
}

/// Whether a target is the one that is configured.
pub open spec fn is_configured(
    target: IntentTarget,
    name: Seq<char>,
    config: DiscordVoiceIntentTargetConfig,
) -> bool {
    &&& target.canonical@ == name
    &&& configured_user(config) == Some(target.discord_user_id as nat)
    &&& text::strings(target.aliases@) == configured_names(name, config.aliases@)
}

/// The sessions that the broker knows, by guild.
pub type Sessions = Map<u64, BoundModel>;

/// What holds of all sessions.
pub open spec fn sessions_wf(sessions: Sessions, targets: Seq<IntentTarget>) -> bool {
    forall|g: u64| #[trigger]
        sessions.contains_key(g) ==> sessions[g].wf(targets) && sessions[g].token.guild() == g
}

/// Broker for the opt-in Discord voice intent flow.
#[derive(Debug)]
pub struct DiscordVoiceIntentBroker {
    enabled: bool,
    default_to_local: bool,
    confirmation_timeout_seconds: u64,
    targets: Vec<IntentTarget>,
    sessions: HashMap<u64, BoundSession>,
}

impl View for DiscordVoiceIntentBroker {
    type V = Sessions;

    closed spec fn view(&self) -> Sessions {
        self.sessions@.map_values(|s: BoundSession| s@)
    }
}

/// What the broker was made with.
pub struct BrokerSettings {
    pub enabled: bool,
    pub default_to_local: bool,
    pub timeout_seconds: u64,
    pub targets: Seq<IntentTarget>,
}

impl DiscordVoiceIntentBroker {
    pub closed spec fn settings(&self) -> BrokerSettings {
        BrokerSettings {
            enabled: self.enabled,
            default_to_local: self.default_to_local,
            timeout_seconds: self.confirmation_timeout_seconds,
            targets: self.targets@,
        }
    }

    pub open spec fn wf(&self) -> bool {
        sessions_wf(self@, self.settings().targets)
    }

    /// Makes a broker with no session bound. A target whose user id is not a number is refused.
    pub fn new(config: DiscordVoiceIntentConfig) -> (r: Result<Self, String>)
        ensures
            match r {
                Ok(broker) => {
                    &&& broker.wf()
                    &&& broker@ == Map::<u64, BoundModel>::empty()
                    &&& broker.settings().enabled == config.enabled
                    &&& broker.settings().default_to_local == config.default_to_local
                    &&& broker.settings().timeout_seconds == if config.confirmation_timeout_seconds
                        == 0 {
                        1
                    } else {
                        config.confirmation_timeout_seconds
                    }
                    &&& broker.settings().targets.len() == config.targets@.len()
                    &&& forall|i: int|
                        0 <= i < config.targets@.len() ==> is_configured(
                            #[trigger] broker.settings().targets[i],
                            config.targets@[i].0@,
                            config.targets@[i].1,
                        )
                },
                Err(e) => exists|i: int|
                    {
                        &&& 0 <= i < config.targets@.len()
                        &&& configured_user((#[trigger] config.targets@[i]).1) is None
                        &&& forall|j: int|
                            0 <= j < i ==> configured_user((#[trigger] config.targets@[j]).1) is Some
                        &&& e@ == "invalid Discord user ID for discord.voice.intent.targets."@
                            + config.targets@[i].0@
                    },
            },
    {
        let mut list: Vec<IntentTarget> = Vec::new();
        let mut i: usize = 0;
        while i < config.targets.len()
            invariant
                i <= config.targets@.len(),
                list@.len() == i,
                forall|j: int|
                    0 <= j < i ==> is_configured(
                        #[trigger] list@[j],
                        config.targets@[j].0@,
                        config.targets@[j].1,
                    ),
                forall|j: int|
                    0 <= j < i ==> configured_user((#[trigger] config.targets@[j]).1) is Some,
            decreases config.targets@.len() - i,
        {
            let entry = &config.targets[i];
            let digits = text::to_chars(entry.1.discord_user_id.as_str());
            let user = match text::parse_u64(text::trim_white(digits.as_slice())) {
                Some(user) => user,
                None => {
                    let error = String::from_str(
                        "invalid Discord user ID for discord.voice.intent.targets.",
                    ).concat(entry.0.as_str());
                    assert(configured_user(config.targets@[i as int].1) is None);
                    return Err(error);
                },
            };
            let aliases = Self::names_of(entry.0.as_str(), &entry.1.aliases);
            let target = IntentTarget {
                canonical: entry.0.clone(),
                discord_user_id: user,
                aliases,
            };
            list.push(target);
            i = i + 1;
        }
        let timeout = if config.confirmation_timeout_seconds == 0 {
            1
        } else {
            config.confirmation_timeout_seconds
        };
        let broker = DiscordVoiceIntentBroker {
            enabled: config.enabled,
            default_to_local: config.default_to_local,
            confirmation_timeout_seconds: timeout,
            targets: list,
            sessions: HashMap::new(),
        };
        assert(broker@ =~= Map::<u64, BoundModel>::empty());
        Ok(broker)
    }

    fn names_of(name: &str, aliases: &Vec<String>) -> (r: Vec<String>)
        ensures
            text::strings(r@) == configured_names(name@, aliases@),
    {
        let mut names: Vec<String> = Vec::new();
        names.push(targets::normalize_for_matching(name));
        let mut i: usize = 0;
        while i < aliases.len()
            invariant
                i <= aliases@.len(),
                names@.len() == i + 1,
                names@[0]@ == targets::match_form(name@),
                forall|j: int|
                    0 < j <= i ==> (#[trigger] names@[j])@ == targets::match_form(
                        aliases@[j - 1]@,
                    ),
            decreases aliases@.len() - i,
        {
            names.push(targets::normalize_for_matching(aliases[i].as_str()));
            i = i + 1;
        }
        assert(text::strings(names@) =~= configured_names(name@, aliases@));
        names
    }

    pub fn enabled(&self) -> (r: bool)
        ensures
            r == self.settings().enabled,
    {
        self.enabled
    }

    /// How long a confirmation is waited for.
    pub fn confirmation_timeout_seconds(&self) -> (r: u64)
        ensures
            r == self.settings().timeout_seconds,
    {
        self.confirmation_timeout_seconds
    }

    fn take(&mut self, guild: u64) -> (r: Option<BoundSession>)
        ensures
            final(self).settings() == old(self).settings(),
            match r {
                Some(bound) => {
                    &&& old(self)@.contains_key(guild)
                    &&& old(self)@[guild] == bound@
                    &&& final(self)@ == old(self)@.remove(guild)
                },
                None => !old(self)@.contains_key(guild) && final(self)@ == old(self)@,
            },
    {
        let r = self.sessions.remove(&guild);
        assert(self@ =~= old(self)@.remove(guild));
        assert(!old(self)@.contains_key(guild) ==> old(self)@.remove(guild) =~= old(self)@);
        r
    }

    fn put(&mut self, guild: u64, bound: BoundSession)
        ensures
            final(self).settings() == old(self).settings(),
            final(self)@ == old(self)@.insert(guild, bound@),
    {
        self.sessions.insert(guild, bound);
        assert(self@ =~= old(self)@.insert(guild, bound@));
    }

    fn peek(&self, guild: u64) -> (r: Option<&BoundSession>)
        ensures
            match r {
                Some(bound) => self@.contains_key(guild) && self@[guild] == bound@,
                None => !self@.contains_key(guild),
            },
    {
        self.sessions.get(&guild)
    }

    /// Binds the operator and Discord control channel to one exact voice session.
    ///
    /// A newer session for the same guild replaces the old binding, with any pending proposal.
    /// Late transcripts, confirmations and timeouts of the replaced session no longer match. A
    /// prompt that became stale is to be deleted.
    pub fn bind_session(
        &mut self,
        token: VoiceSessionToken,
        control_channel_id: u64,
        operator_user_id: u64,
        operator_display_name: &str,
    ) -> (r: (bool, Option<StalePrompt>))
        requires
            old(self).wf(),
        ensures
            final(self).wf(),
            final(self).settings() == old(self).settings(),
            r.0 == old(self).settings().enabled,
            if r.0 {
                &&& final(self)@ == old(self)@.insert(
                    token.guild(),
                    BoundModel::fresh(
                        token,
                        control_channel_id,
                        operator_user_id,
                        messages::shown_name(operator_display_name@, operator_user_id),
                    ),
                )
                &&& prompt_model(r.1) == if old(self)@.contains_key(token.guild()) {
                    old(self)@[token.guild()].visible_prompt()
                } else {
                    None
                }
            } else {
                final(self)@ == old(self)@ && r.1 is None
            },
    {
        if !self.enabled {
            return (false, None);
        }
        let name = messages::sanitize_display_name(operator_display_name, operator_user_id);
        let guild = token.guild_id();
        let stale = match self.peek(guild) {
            Some(bound) => bound.visible_prompt_to_delete(),
            None => None,
        };
        self.put(guild, BoundSession::fresh(token, control_channel_id, operator_user_id, name));
        (true, stale)
    }

    /// Removes a binding only when its session is still the given one. A prompt that became
    /// stale is to be deleted.
    pub fn abandon_session(&mut self, token: VoiceSessionToken) -> (r: (bool, Option<StalePrompt>))
        requires
            old(self).wf(),
        ensures
            final(self).wf(),
            final(self).settings() == old(self).settings(),
            r.0 == (old(self).settings().enabled && old(self)@.contains_key(token.guild()) && old(
                self,
            )@[token.guild()].token == token),
            if r.0 {
                &&& final(self)@ == old(self)@.remove(token.guild())
                &&& prompt_model(r.1) == old(self)@[token.guild()].visible_prompt()
            } else {
                final(self)@ == old(self)@ && r.1 is None
            },
    {
        if !self.enabled {
            return (false, None);
        }
        let guild = token.guild_id();
        let found = match self.peek(guild) {
            Some(bound) => if bound.token == token {
                Some(bound.visible_prompt_to_delete())
            } else {
                None
            },
            None => None,
        };
        match found {
            Some(stale) => {
                self.take(guild);
                (true, stale)
            },
            None => (false, None),
        }
    }
}

/// A message about a pending intent that is to be sent.
#[derive(Debug, Clone, PartialEq, Eq)]
pub struct Delivery {
    pub message: PendingMessage,
    pub outgoing: OutgoingMessage,
}

impl OutgoingMessage {
    pub open spec fn is(self, channel: u64, content: Seq<char>, nonce: Option<Seq<char>>) -> bool {
        self.channel_id == channel && self.content@ == content && text::opt_text(self.nonce) == nonce
    }
}

impl Delivery {
    /// Whether this asks for the confirmation of a session's pending intent.
    pub open spec fn asks_confirmation(self, bound: BoundModel, targets: Seq<IntentTarget>) -> bool {
        &&& self.message.is_pending_of(bound)
        &&& bound.pending matches Some(p)
        &&& self.outgoing.is(
            bound.channel,
            messages::shortened(
                messages::confirmation_text(
                    bound.operator,
                    p.proposal.destination,
                    targets,
                    p.proposal.task,
                ),
                2000,
            ),
            Some(messages::nonce("oabp1"@, p.id)),
        )
    }

    /// Whether this hands a session's pending intent to its target.
    pub open spec fn dispatches(self, bound: BoundModel, targets: Seq<IntentTarget>) -> bool {
        &&& self.message.is_pending_of(bound)
        &&& bound.pending matches Some(p)
        &&& p.proposal.destination matches IntentDestination::Delegate { target_index }
        &&& self.outgoing.is(
            bound.channel,
            messages::shortened(
                messages::dispatch_text(
                    targets[target_index as int].discord_user_id,
                    bound.operator,
                    bound.operator_name,
                    p.proposal.task,
                ),
                2000,
            ),
            Some(messages::nonce("oabv1"@, p.id)),
        )
    }
}

impl LocalIntentExecution {
    /// Whether this is a session's pending intent, to be carried out by the voice agent itself.
    pub open spec fn executes(self, bound: BoundModel) -> bool {
        &&& bound.pending matches Some(p)
        &&& self.intent_id == p.id
        &&& self.revision == p.revision
        &&& self.session == bound.token
        &&& self.control_channel_id == bound.channel
        &&& self.operator_user_id == bound.operator
        &&& self.operator_display_name@ == bound.operator_name
        &&& self.task@ == p.proposal.task
    }
}

impl BoundModel {
    /// Whether a transcript comes from the operator and channel of this session.
    pub open spec fn hears(self, event: FinalTranscriptEvent) -> bool {
        &&& self.token == event.token
        &&& self.channel == event.control_channel_id
        &&& self.operator == event.key.speaker_id
    }

    /// The work that a proposal comes to in this session.
    pub open spec fn canonical(
        self,
        proposal: Option<targets::ProposalModel>,
        targets: Seq<IntentTarget>,
    ) -> Option<targets::ProposalModel> {
        match proposal {
            Some(p) => match messages::canonical_task(
                self.operator,
                self.operator_name,
                p.destination,
                targets,
                p.task,
            ) {
                Some(task) => Some(
                    targets::ProposalModel { destination: p.destination, task },
                ),
                None => None,
            },
            None => None,
        }
    }
}

/// The work that a transcript comes to, if the broker hears it at all.
pub open spec fn heard_work(
    settings: BrokerSettings,
    sessions: Sessions,
    event: FinalTranscriptEvent,
) -> Option<targets::ProposalModel> {
    let guild = event.token.guild();
    if settings.enabled && sessions.contains_key(guild) && sessions[guild].hears(event) {
        sessions[guild].canonical(
            targets::proposal_of(
                event.text@,
                targets::target_names(settings.targets),
                settings.default_to_local,
            ),
            settings.targets,
        )
    } else {
        None
    }
}

/// What a transcript does. A transcript that was taken for a command before is ignored; any
/// other is remembered, and becomes the pending intent where none is pending.
pub open spec fn after_transcript(
    settings: BrokerSettings,
    sessions: Sessions,
    event: FinalTranscriptEvent,
    fresh_id: u128,
) -> (Sessions, VoiceIntentTranscriptOutcome) {
    let guild = event.token.guild();
    match heard_work(settings, sessions, event) {
        None => (sessions, VoiceIntentTranscriptOutcome::Ignored),
        Some(work) => {
            let bound = sessions[guild];
            if bound.keys.contains(event.key) {
                (sessions, VoiceIntentTranscriptOutcome::Ignored)
            } else if bound.pending is Some {
                (
                    sessions.insert(guild, bound.remembering(event.key)),
                    VoiceIntentTranscriptOutcome::AwaitingConfirmation,
                )
            } else {
                (
                    sessions.insert(
                        guild,
                        bound.remembering(event.key).proposing(fresh_id, work),
                    ),
                    VoiceIntentTranscriptOutcome::Proposed,
                )
            }
        },
    }
}

impl DiscordVoiceIntentBroker {
    /// The message that asks for the confirmation of a pending intent.
    fn confirmation_delivery(&self, message: PendingMessage) -> (r: Option<Delivery>)
        ensures
            match r {
                Some(delivery) => {
                    &&& messages::known_destination(
                        message.intent.proposal.destination,
                        self.settings().targets,
                    )
                    &&& delivery.message == message
                    &&& delivery.outgoing.is(
                        message.control_channel_id,
                        messages::shortened(
                            messages::confirmation_text(
                                message.operator_user_id,
                                message.intent.proposal.destination,
                                self.settings().targets,
                                message.intent.proposal.task@,
                            ),
                            2000,
                        ),
                        Some(messages::nonce("oabp1"@, message.intent.id)),
                    )
                },
                None => !messages::known_destination(
                    message.intent.proposal.destination,
                    self.settings().targets,
                ),
            },
    {
        let content = match messages::confirmation_message_for(
            message.operator_user_id,
            message.intent.proposal.destination,
            &self.targets,
            message.intent.proposal.task.as_str(),
        ) {
            Some(content) => content,
            None => return None,
        };
        let nonce = messages::confirmation_nonce(message.intent.id);
        let outgoing = OutgoingMessage {
            channel_id: message.control_channel_id,
            content,
            nonce: Some(nonce),
        };
        Some(Delivery { message, outgoing })
    }

    /// The work that a transcript asks for, given the targets of this broker.
    pub fn resolve_proposal(&self, text: &str) -> (r: Option<IntentProposal>)
        ensures
            targets::proposal_model(r) == targets::proposal_of(
                text@,
                targets::target_names(self.settings().targets),
                self.settings().default_to_local,
            ),
            r matches Some(p) ==> (p.destination matches IntentDestination::Delegate {
                target_index,
            } ==> target_index < self.settings().targets.len()),
    {
        targets::resolve_proposal(text, &self.targets, self.default_to_local)
    }

    /// Proposes an intent from one finalized STT segment, under the given id. The delivery asks
    /// for its confirmation.
    pub fn propose_transcript(&mut self, event: &FinalTranscriptEvent, fresh_id: u128) -> (r: (
        VoiceIntentTranscriptOutcome,
        Option<Delivery>,
    ))
        requires
            old(self).wf(),
        ensures
            final(self).wf(),
            final(self).settings() == old(self).settings(),
            (final(self)@, r.0) == after_transcript(
                old(self).settings(),
                old(self)@,
                *event,
                fresh_id,
            ),
            match r.1 {
                Some(delivery) => r.0 is Proposed && delivery.asks_confirmation(
                    final(self)@[event.token.guild()],
                    old(self).settings().targets,
                ),
                None => !(r.0 is Proposed),
            },
    {
        if !self.enabled {
            return (VoiceIntentTranscriptOutcome::Ignored, None);
        }
        let raw = match self.resolve_proposal(event.text.as_str()) {
            Some(raw) => raw,
            None => return (VoiceIntentTranscriptOutcome::Ignored, None),
        };
        let guild = event.token.guild_id();
        let mut bound = match self.take(guild) {
            Some(bound) => bound,
            None => return (VoiceIntentTranscriptOutcome::Ignored, None),
        };
        let ghost before = bound@;
        assert(old(self)@.remove(guild).insert(guild, before) =~= old(self)@);
        if bound.token != event.token || bound.control_channel_id != event.control_channel_id
            || bound.operator_user_id != event.key.speaker_id {
            self.put(guild, bound);
            return (VoiceIntentTranscriptOutcome::Ignored, None);
        }
        let proposal = match messages::canonicalize_proposal(
            bound.operator_user_id,
            bound.operator_display_name.as_str(),
            raw,
            &self.targets,
        ) {
            Some(proposal) => proposal,
            None => {
                self.put(guild, bound);
                return (VoiceIntentTranscriptOutcome::Ignored, None);
            },
        };
        assert(heard_work(old(self).settings(), old(self)@, *event) == Some(proposal@));
        if !bound.record_transcript_key(event.key) {
            self.put(guild, bound);
            return (VoiceIntentTranscriptOutcome::Ignored, None);
        }
        let ghost remembered = bound@;
        assert(old(self)@.remove(guild).insert(guild, remembered) =~= old(self)@.insert(
            guild,
            remembered,
        ));
        if bound.pending.is_some() {
            self.put(guild, bound);
            return (VoiceIntentTranscriptOutcome::AwaitingConfirmation, None);
        }
        let message = bound.propose(fresh_id, proposal);
        let ghost proposed = bound@;
        assert(old(self)@.remove(guild).insert(guild, proposed) =~= old(self)@.insert(
            guild,
            proposed,
        ));
        self.put(guild, bound);
        let delivery = self.confirmation_delivery(message);
        (VoiceIntentTranscriptOutcome::Proposed, delivery)
    }

    /// Proposes an intent from one finalized STT segment, under a new id.
    pub fn handle_final_transcript(&mut self, event: &FinalTranscriptEvent) -> (r: (
        VoiceIntentTranscriptOutcome,
        Option<Delivery>,
    ))
        requires
            old(self).wf(),
        ensures
            final(self).wf(),
            final(self).settings() == old(self).settings(),
            exists|fresh_id: u128|
                ids::is_random_id(fresh_id) && (final(self)@, r.0)
                    == #[trigger] after_transcript(
                    old(self).settings(),
                    old(self)@,
                    *event,
                    fresh_id,
                ),
            match r.1 {
                Some(delivery) => r.0 is Proposed && delivery.asks_confirmation(
                    final(self)@[event.token.guild()],
                    old(self).settings().targets,
                ) && ids::is_random_id(delivery.message.intent.id),
                None => !(r.0 is Proposed),
            },
    {
        let fresh_id = ids::random_id();
        self.propose_transcript(event, fresh_id)
    }
}

/// What a text message does, and what is to be sent for it.
#[derive(Debug, Clone, PartialEq, Eq)]
pub enum TextEffect {
    NotApplicable,
    AlreadyProcessing,
    /// Hand the confirmed work to its target.
    Dispatch(Delivery),
    /// Have the voice agent itself carry the confirmed work out.
    ExecuteLocal(LocalIntentExecution),
    /// Acknowledge the cancellation.
    Cancel(OutgoingMessage),
    /// Ask for the confirmation of the corrected work.
    Correct(Delivery),
    /// Say how a correction is written.
    RejectCorrection(OutgoingMessage),
}

/// Whether a text message is an answer to the pending intent of a session.
pub open spec fn answers(
    settings: BrokerSettings,
    sessions: Sessions,
    guild: u64,
    channel: u64,
    user: u64,
    content: Seq<char>,
) -> bool {
    &&& settings.enabled
    &&& !(language::confirmation_of(content) is Unrelated)
    &&& sessions.contains_key(guild)
    &&& sessions[guild].channel == channel
    &&& sessions[guild].operator == user
    &&& sessions[guild].pending is Some
}

/// The session after an answer to its intent, which waits for confirmation.
pub open spec fn after_answer(
    settings: BrokerSettings,
    bound: BoundModel,
    answer: language::ConfirmationModel,
    fresh_id: u128,
) -> BoundModel {
    match answer {
        language::ConfirmationModel::Affirmative => bound.in_phase(PendingPhase::Dispatching),
        language::ConfirmationModel::Negative => bound.cleared(),
        language::ConfirmationModel::Correction(correction) => match bound.canonical(
            targets::correction_of(
                bound.pending->0.proposal.destination,
                correction,
                targets::target_names(settings.targets),
                settings.default_to_local,
            ),
            settings.targets,
        ) {
            Some(work) => bound.proposing(fresh_id, work),
            None => bound,
        },
        language::ConfirmationModel::Unrelated => bound,
    }
}

/// The sessions after a text message.
pub open spec fn after_text(
    settings: BrokerSettings,
    sessions: Sessions,
    guild: u64,
    channel: u64,
    user: u64,
    content: Seq<char>,
    fresh_id: u128,
) -> Sessions {
    if answers(settings, sessions, guild, channel, user, content)
        && sessions[guild].pending->0.phase == PendingPhase::WaitingConfirmation {
        sessions.insert(
            guild,
            after_answer(
                settings,
                sessions[guild],
                language::confirmation_of(content),
                fresh_id,
            ),
        )
    } else {
        sessions
    }
}

impl TextEffect {
    /// Whether this is what an answer calls for, given the session before and after it.
    pub open spec fn follows(
        self,
        settings: BrokerSettings,
        before: BoundModel,
        answer: language::ConfirmationModel,
        after: BoundModel,
    ) -> bool {
        match answer {
            language::ConfirmationModel::Affirmative => {
                match before.pending->0.proposal.destination {
                    IntentDestination::Delegate { .. } => self matches TextEffect::Dispatch(
                        delivery,
                    ) && delivery.dispatches(after, settings.targets),
                    IntentDestination::Local => self matches TextEffect::ExecuteLocal(request)
                        && request.executes(after),
                }
            },
            language::ConfirmationModel::Negative => self matches TextEffect::Cancel(outgoing)
                && outgoing.is(
                before.channel,
                messages::notice(before.operator, " 已取消這次語音任務。"@),
                None,
            ),
            language::ConfirmationModel::Correction(correction) => if after == before {
                self matches TextEffect::RejectCorrection(outgoing) && outgoing.is(
                    before.channel,
                    messages::notice(
                        before.operator,
                        " 我沒有理解這個修正；請用「更正：請 Sam review PR #123」委派，或用「更正：幫我 review PR #123」改由我處理。"@,
                    ),
                    None,
                )
            } else {
                self matches TextEffect::Correct(delivery) && delivery.asks_confirmation(
                    after,
                    settings.targets,
                )
            },
            language::ConfirmationModel::Unrelated => self is NotApplicable,
        }
    }
}

impl DiscordVoiceIntentBroker {
    /// The effect of confirming the pending intent of a session.
    fn confirm(&self, bound: &BoundSession) -> (r: TextEffect)
        requires
            bound@.pending is Some,
            bound@.wf(self.settings().targets),
        ensures
            match bound@.pending->0.proposal.destination {
                IntentDestination::Delegate { .. } => r matches TextEffect::Dispatch(delivery)
                    && delivery.dispatches(bound@, self.settings().targets),
                IntentDestination::Local => r matches TextEffect::ExecuteLocal(request)
                    && request.executes(bound@),
            },
    {
        let intent = match &bound.pending {
            Some(intent) => intent.copy(),
            None => return TextEffect::NotApplicable,
        };
        match intent.proposal.destination {
            IntentDestination::Delegate { target_index } => {
                let content = messages::dispatch_message(
                    self.targets[target_index].discord_user_id,
                    bound.operator_user_id,
                    bound.operator_display_name.as_str(),
                    intent.proposal.task.as_str(),
                );
                let outgoing = OutgoingMessage {
                    channel_id: bound.control_channel_id,
                    content,
                    nonce: Some(messages::dispatch_nonce(intent.id)),
                };
                TextEffect::Dispatch(Delivery { message: bound.message(intent), outgoing })
            },
            IntentDestination::Local => TextEffect::ExecuteLocal(
                LocalIntentExecution {
                    intent_id: intent.id,
                    revision: intent.revision,
                    session: bound.token,
                    control_channel_id: bound.control_channel_id,
                    operator_user_id: bound.operator_user_id,
                    operator_display_name: bound.operator_display_name.clone(),
                    task: intent.proposal.task,
                },
            ),
        }
    }

    /// Takes an exact text confirmation, cancellation or correction. Corrected work gets the
    /// given id.
    pub fn answer_text_message(
        &mut self,
        guild_id: u64,
        channel_id: u64,
        user_id: u64,
        content: &str,
        fresh_id: u128,
    ) -> (r: TextEffect)
        requires
            old(self).wf(),
        ensures
            final(self).wf(),
            final(self).settings() == old(self).settings(),
            final(self)@ == after_text(
                old(self).settings(),
                old(self)@,
                guild_id,
                channel_id,
                user_id,
                content@,
                fresh_id,
            ),
            if !answers(
                old(self).settings(),
                old(self)@,
                guild_id,
                channel_id,
                user_id,
                content@,
            ) {
                r is NotApplicable
            } else if old(self)@[guild_id].pending->0.phase != PendingPhase::WaitingConfirmation {
                r is AlreadyProcessing
            } else {
                r.follows(
                    old(self).settings(),
                    old(self)@[guild_id],
                    language::confirmation_of(content@),
                    final(self)@[guild_id],
                )
            },
    {
        if !self.enabled {
            return TextEffect::NotApplicable;
        }
        let confirmation = language::classify_confirmation(content);
        match &confirmation {
            Confirmation::Unrelated => return TextEffect::NotApplicable,
            _ => {},
        }
        let mut bound = match self.take(guild_id) {
            Some(bound) => bound,
            None => return TextEffect::NotApplicable,
        };
        let ghost before = bound@;
        assert(old(self)@.remove(guild_id).insert(guild_id, before) =~= old(self)@);
        if bound.control_channel_id != channel_id || bound.operator_user_id != user_id {
            self.put(guild_id, bound);
            return TextEffect::NotApplicable;
        }
        let (phase, destination) = match &bound.pending {
            Some(pending) => (pending.phase, pending.proposal.destination),
            None => {
                self.put(guild_id, bound);
                return TextEffect::NotApplicable;
            },
        };
        if phase != PendingPhase::WaitingConfirmation {
            self.put(guild_id, bound);
            return TextEffect::AlreadyProcessing;
        }
        let effect = match confirmation {
            Confirmation::Affirmative => {
                let mut pending: Option<PendingIntent> = None;
                std::mem::swap(&mut pending, &mut bound.pending);
                bound.pending = match pending {
                    Some(p) => Some(PendingIntent { phase: PendingPhase::Dispatching, ..p }),
                    None => None,
                };
                self.confirm(&bound)
            },
            Confirmation::Negative => {
                bound.pending = None;
                TextEffect::Cancel(
                    OutgoingMessage {
                        channel_id: bound.control_channel_id,
                        content: messages::cancelled_message(bound.operator_user_id),
                        nonce: None,
                    },
                )
            },
            Confirmation::Correction(correction) => {
                let corrected = match targets::resolve_correction(
                    destination,
                    correction.as_str(),
                    &self.targets,
                    self.default_to_local,
                ) {
                    Some(proposal) => messages::canonicalize_proposal(
                        bound.operator_user_id,
                        bound.operator_display_name.as_str(),
                        proposal,
                        &self.targets,
                    ),
                    None => None,
                };
                match corrected {
                    Some(proposal) => {
                        let message = bound.propose(fresh_id, proposal);
                        assert(bound@.pending->0.phase == PendingPhase::PostingConfirmation);
                        match self.confirmation_delivery(message) {
                            Some(delivery) => TextEffect::Correct(delivery),
                            None => TextEffect::NotApplicable,
                        }
                    },
                    None => TextEffect::RejectCorrection(
                        OutgoingMessage {
                            channel_id: bound.control_channel_id,
                            content: messages::correction_guidance_message(bound.operator_user_id),
                            nonce: None,
                        },
                    ),
                }
            },
            Confirmation::Unrelated => TextEffect::NotApplicable,
        };
        let ghost after = bound@;
        assert(old(self)@.remove(guild_id).insert(guild_id, after) =~= old(self)@.insert(
            guild_id,
            after,
        ));
        self.put(guild_id, bound);
        effect
    }

    /// Takes an exact text confirmation, cancellation or correction. Corrected work gets a new
    /// id.
    pub fn handle_text_message(
        &mut self,
        guild_id: u64,
        channel_id: u64,
        user_id: u64,
        content: &str,
    ) -> (r: TextEffect)
        requires
            old(self).wf(),
        ensures
            final(self).wf(),
            final(self).settings() == old(self).settings(),
            exists|fresh_id: u128|
                ids::is_random_id(fresh_id) && final(self)@ == #[trigger] after_text(
                    old(self).settings(),
                    old(self)@,
                    guild_id,
                    channel_id,
                    user_id,
                    content@,
                    fresh_id,
                ),
            if !answers(
                old(self).settings(),
                old(self)@,
                guild_id,
                channel_id,
                user_id,
                content@,
            ) {
                r is NotApplicable
            } else if old(self)@[guild_id].pending->0.phase != PendingPhase::WaitingConfirmation {
                r is AlreadyProcessing
            } else {
                r.follows(
                    old(self).settings(),
                    old(self)@[guild_id],
                    language::confirmation_of(content@),
                    final(self)@[guild_id],
                )
            },
    {
        let fresh_id = ids::random_id();
        self.answer_text_message(guild_id, channel_id, user_id, content, fresh_id)
    }
}

/// Whether a session's pending intent is the given one, in the given phase.
pub open spec fn is_pending(
    sessions: Sessions,
    token: VoiceSessionToken,
    id: u128,
    revision: u64,
    phase: PendingPhase,
) -> bool {
    &&& sessions.contains_key(token.guild())
    &&& sessions[token.guild()].token == token
    &&& sessions[token.guild()].is_current(id, revision, phase)
}

impl DiscordVoiceIntentBroker {
    /// Whether a message is about a session's pending intent, in the given phase.
    pub fn is_current_phase(&self, message: &PendingMessage, phase: PendingPhase) -> (r: bool)
        ensures
            r == is_pending(
                self@,
                message.token,
                message.intent.id,
                message.intent.revision,
                phase,
            ),
    {
        match self.peek(message.token.guild_id()) {
            Some(bound) => bound.token == message.token && bound.is_current(
                message.intent.id,
                message.intent.revision,
                phase,
            ),
            None => false,
        }
    }

    /// Removes a pending intent if it is the given one, in the given phase.
    pub fn remove_pending_if_current(
        &mut self,
        token: VoiceSessionToken,
        intent_id: u128,
        revision: u64,
        phase: PendingPhase,
    ) -> (r: bool)
        requires
            old(self).wf(),
        ensures
            final(self).wf(),
            final(self).settings() == old(self).settings(),
            r == is_pending(old(self)@, token, intent_id, revision, phase),
            final(self)@ == if r {
                old(self)@.insert(token.guild(), old(self)@[token.guild()].cleared())
            } else {
                old(self)@
            },
    {
        let guild = token.guild_id();
        let mut bound = match self.take(guild) {
            Some(bound) => bound,
            None => return false,
        };
        let ghost before = bound@;
        assert(old(self)@.remove(guild).insert(guild, before) =~= old(self)@);
        let current = bound.token == token && bound.is_current(intent_id, revision, phase);
        if current {
            bound.pending = None;
        }
        let ghost after = bound@;
        assert(old(self)@.remove(guild).insert(guild, after) =~= old(self)@.insert(guild, after));
        self.put(guild, bound);
        current
    }

    /// Has a pending intent wait for confirmation again, if it is the given one and is being
    /// dispatched. Returns the number of the waiting period, for which a timeout is to be set.
    pub fn restore_waiting_if_current(&mut self, message: &PendingMessage) -> (r: Option<u64>)
        requires
            old(self).wf(),
        ensures
            final(self).wf(),
            final(self).settings() == old(self).settings(),
            if is_pending(
                old(self)@,
                message.token,
                message.intent.id,
                message.intent.revision,
                PendingPhase::Dispatching,
            ) {
                &&& r == Some(old(self)@[message.token.guild()].next_epoch)
                &&& final(self)@ == old(self)@.insert(
                    message.token.guild(),
                    old(self)@[message.token.guild()].waiting(),
                )
            } else {
                r is None && final(self)@ == old(self)@
            },
    {
        self.wait_if_current(
            message.token,
            message.intent.id,
            message.intent.revision,
            PendingPhase::Dispatching,
        )
    }

    fn wait_if_current(
        &mut self,
        token: VoiceSessionToken,
        intent_id: u128,
        revision: u64,
        phase: PendingPhase,
    ) -> (r: Option<u64>)
        requires
            old(self).wf(),
        ensures
            final(self).wf(),
            final(self).settings() == old(self).settings(),
            if is_pending(old(self)@, token, intent_id, revision, phase) {
                &&& r == Some(old(self)@[token.guild()].next_epoch)
                &&& final(self)@ == old(self)@.insert(
                    token.guild(),
                    old(self)@[token.guild()].waiting(),
                )
            } else {
                r is None && final(self)@ == old(self)@
            },
    {
        let guild = token.guild_id();
        let mut bound = match self.take(guild) {
            Some(bound) => bound,
            None => return None,
        };
        let ghost before = bound@;
        assert(old(self)@.remove(guild).insert(guild, before) =~= old(self)@);
        let epoch = if bound.token == token && bound.is_current(intent_id, revision, phase) {
            Some(bound.enter_waiting())
        } else {
            None
        };
        let ghost after = bound@;
        assert(old(self)@.remove(guild).insert(guild, after) =~= old(self)@.insert(guild, after));
        self.put(guild, bound);
        epoch
    }

    /// Takes the id of a confirmation that was posted. Returns the number of the waiting period,
    /// for which a timeout is to be set. Where the intent is not pending any more there is none,
    /// and the message is to be deleted.
    pub fn enter_waiting_after_confirmation_post(
        &mut self,
        message: &PendingMessage,
        message_id: String,
    ) -> (r: Option<u64>)
        requires
            old(self).wf(),
        ensures
            final(self).wf(),
            final(self).settings() == old(self).settings(),
            if is_pending(
                old(self)@,
                message.token,
                message.intent.id,
                message.intent.revision,
                PendingPhase::PostingConfirmation,
            ) {
                &&& r == Some(old(self)@[message.token.guild()].next_epoch)
                &&& final(self)@ == old(self)@.insert(
                    message.token.guild(),
                    old(self)@[message.token.guild()].waiting_by(message_id@),
                )
            } else {
                r is None && final(self)@ == old(self)@
            },
    {
        let guild = message.token.guild_id();
        let epoch = self.wait_if_current(
            message.token,
            message.intent.id,
            message.intent.revision,
            PendingPhase::PostingConfirmation,
        );
        if epoch.is_none() {
            return None;
        }
        let ghost waiting = self@;
        if let Some(mut bound) = self.take(guild) {
            let mut pending: Option<PendingIntent> = None;
            std::mem::swap(&mut pending, &mut bound.pending);
            bound.pending = match pending {
                Some(p) => Some(PendingIntent { confirmation_message_id: Some(message_id), ..p }),
                None => None,
            };
            let ghost after = bound@;
            assert(waiting.remove(guild).insert(guild, after) =~= old(self)@.insert(
                guild,
                after,
            ));
            self.put(guild, bound);
        }
        epoch
    }

    /// Gives a pending intent up if the waiting period of a timeout is still the current one.
    /// The message says so.
    pub fn expire_pending(
        &mut self,
        token: VoiceSessionToken,
        intent_id: u128,
        revision: u64,
        waiting_epoch: u64,
    ) -> (r: Option<OutgoingMessage>)
        requires
            old(self).wf(),
        ensures
            final(self).wf(),
            final(self).settings() == old(self).settings(),
            if is_pending(
                old(self)@,
                token,
                intent_id,
                revision,
                PendingPhase::WaitingConfirmation,
            ) && old(self)@[token.guild()].pending->0.waiting_epoch == waiting_epoch {
                let bound = old(self)@[token.guild()];
                &&& r matches Some(outgoing)
                &&& outgoing.is(
                    bound.channel,
                    messages::notice(
                        bound.operator,
                        " 語音任務確認已逾時，未送出或執行任何指令。"@,
                    ),
                    None,
                )
                &&& final(self)@ == old(self)@.insert(token.guild(), bound.cleared())
            } else {
                r is None && final(self)@ == old(self)@
            },
    {
        let guild = token.guild_id();
        let found = match self.peek(guild) {
            Some(bound) => match &bound.pending {
                Some(pending) => if pending.waiting_epoch == waiting_epoch {
                    Some((bound.control_channel_id, bound.operator_user_id))
                } else {
                    None
                },
                None => None,
            },
            None => None,
        };
        match found {
            Some((channel_id, operator)) => {
                if self.remove_pending_if_current(
                    token,
                    intent_id,
                    revision,
                    PendingPhase::WaitingConfirmation,
                ) {
                    Some(
                        OutgoingMessage {
                            channel_id,
                            content: messages::expired_message(operator),
                            nonce: None,
                        },
                    )
                } else {
                    None
                }
            },
            None => None,
        }
    }

    /// Records that a local handoff was accepted by the execution queue.
    pub fn complete_local_execution(&mut self, request: &LocalIntentExecution) -> (r: bool)
        requires
            old(self).wf(),
        ensures
            final(self).wf(),
            final(self).settings() == old(self).settings(),
            r == is_pending(
                old(self)@,
                request.session,
                request.intent_id,
                request.revision,
                PendingPhase::Dispatching,
            ),
            final(self)@ == if r {
                old(self)@.insert(
                    request.session.guild(),
                    old(self)@[request.session.guild()].cleared(),
                )
            } else {
                old(self)@
            },
    {
        self.remove_pending_if_current(
            request.session,
            request.intent_id,
            request.revision,
            PendingPhase::Dispatching,
        )
    }

    /// Has an intent wait for confirmation again after a local handoff that definitely was not
    /// enqueued. Returns the number of the waiting period, for which a timeout is to be set.
    pub fn reopen_local_execution(&mut self, request: &LocalIntentExecution) -> (r: Option<u64>)
        requires
            old(self).wf(),
        ensures
            final(self).wf(),
            final(self).settings() == old(self).settings(),
            if is_pending(
                old(self)@,
                request.session,
                request.intent_id,
                request.revision,
                PendingPhase::Dispatching,
            ) && old(self)@[request.session.guild()].pending->0.proposal.destination
                == IntentDestination::Local {
                &&& r == Some(old(self)@[request.session.guild()].next_epoch)
                &&& final(self)@ == old(self)@.insert(
                    request.session.guild(),
                    old(self)@[request.session.guild()].waiting(),
                )
            } else {
                r is None && final(self)@ == old(self)@
            },
    {
        let local = match self.peek(request.session.guild_id()) {
            Some(bound) => match &bound.pending {
                Some(pending) => pending.proposal.destination == IntentDestination::Local,
                None => false,
            },
            None => false,
        };
        if !local {
            return None;
        }
        self.wait_if_current(
            request.session,
            request.intent_id,
            request.revision,
            PendingPhase::Dispatching,
        )
    }

    /// Takes the result of sending what a text message called for. A dispatch that was sent is
    /// complete; one whose fate is unknown is to be sent again.
    pub fn apply_text_effect(&mut self, effect: TextEffect, sent: bool) -> (r: Result<
        VoiceIntentTextOutcome,
        String,
    >)
        requires
            old(self).wf(),
        ensures
            final(self).wf(),
            final(self).settings() == old(self).settings(),
            match effect {
                TextEffect::NotApplicable => r == Ok::<VoiceIntentTextOutcome, String>(
                    VoiceIntentTextOutcome::NotApplicable,
                ),
                TextEffect::AlreadyProcessing => r == Ok::<VoiceIntentTextOutcome, String>(
                    VoiceIntentTextOutcome::AlreadyProcessing,
                ),
                TextEffect::Dispatch(delivery) => r == Ok::<VoiceIntentTextOutcome, String>(
                    if sent {
                        VoiceIntentTextOutcome::Dispatched
                    } else {
                        VoiceIntentTextOutcome::Dispatching
                    },
                ),
                TextEffect::ExecuteLocal(request) => r == Ok::<VoiceIntentTextOutcome, String>(
                    VoiceIntentTextOutcome::ExecuteLocal(request),
                ),
                TextEffect::Cancel(_) => if sent {
                    r == Ok::<VoiceIntentTextOutcome, String>(VoiceIntentTextOutcome::Cancelled)
                } else {
                    r matches Err(e) && e@
                        == "failed to acknowledge cancelled Discord voice intent"@
                },
                TextEffect::Correct(_) => r == Ok::<VoiceIntentTextOutcome, String>(
                    VoiceIntentTextOutcome::Corrected,
                ),
                TextEffect::RejectCorrection(_) => if sent {
                    r == Ok::<VoiceIntentTextOutcome, String>(
                        VoiceIntentTextOutcome::CorrectionRejected,
                    )
                } else {
                    r matches Err(e) && e@ == "failed to send Discord voice correction guidance"@
                },
            },
            final(self)@ == match effect {
                TextEffect::Dispatch(delivery) => if sent && is_pending(
                    old(self)@,
                    delivery.message.token,
                    delivery.message.intent.id,
                    delivery.message.intent.revision,
                    PendingPhase::Dispatching,
                ) {
                    old(self)@.insert(
                        delivery.message.token.guild(),
                        old(self)@[delivery.message.token.guild()].cleared(),
                    )
                } else {
                    old(self)@
                },
                _ => old(self)@,
            },
    {
        match effect {
            TextEffect::NotApplicable => Ok(VoiceIntentTextOutcome::NotApplicable),
            TextEffect::AlreadyProcessing => Ok(VoiceIntentTextOutcome::AlreadyProcessing),
            TextEffect::Dispatch(delivery) => {
                if !sent {
                    return Ok(VoiceIntentTextOutcome::Dispatching);
                }
                self.remove_pending_if_current(
                    delivery.message.token,
                    delivery.message.intent.id,
                    delivery.message.intent.revision,
                    PendingPhase::Dispatching,
                );
                Ok(VoiceIntentTextOutcome::Dispatched)
            },
            TextEffect::ExecuteLocal(request) => Ok(VoiceIntentTextOutcome::ExecuteLocal(request)),
            TextEffect::Cancel(_) => if sent {
                Ok(VoiceIntentTextOutcome::Cancelled)
            } else {
                Err(String::from_str("failed to acknowledge cancelled Discord voice intent"))
            },
            TextEffect::Correct(_) => Ok(VoiceIntentTextOutcome::Corrected),
            TextEffect::RejectCorrection(_) => if sent {
                Ok(VoiceIntentTextOutcome::CorrectionRejected)
            } else {
                Err(String::from_str("failed to send Discord voice correction guidance"))
            },
        }
    }
}

/// The retries of a message whose fate is unknown.
#[derive(Debug, Clone, Copy, PartialEq, Eq, Structural)]
pub struct DeliveryRetry {
    pub attempt: usize,
    pub stale_recoveries: usize,
}

impl DeliveryRetry {
    pub fn new() -> (r: Self)
        ensures
            r == (DeliveryRetry { attempt: 0, stale_recoveries: 0 }),
    {
        DeliveryRetry { attempt: 0, stale_recoveries: 0 }
    }

    /// Seconds to wait before the next attempt, if there is one.
    pub fn next_delay(&self) -> (r: Option<u64>)
        ensures
            match r {
                Some(seconds) => self.attempt < 5 && seconds == if self.attempt == 0 {
                    1u64
                } else if self.attempt == 1 {
                    2u64
                } else if self.attempt == 2 {
                    4u64
                } else {
                    8u64
                },
                None => self.attempt >= 5,
            },
    {
        if self.attempt < messages::MAX_CONFIRMATION_RETRY_ATTEMPTS {
            Some(messages::confirmation_retry_delay(self.attempt))
        } else {
            None
        }
    }

    /// Whether to send once more, given whether anybody still waits for the message. A message
    /// that nobody waits for is sent a few times more, to find the one that may already be there
    /// and delete it.
    pub fn may_send(&mut self, current: bool) -> (r: bool)
        ensures
            r == (current || old(self).stale_recoveries < 2),
            *final(self) == if r && !current {
                DeliveryRetry {
                    stale_recoveries: (old(self).stale_recoveries + 1) as usize,
                    ..*old(self)
                }
            } else {
                *old(self)
            },
    {
        if !current {
            if self.stale_recoveries >= messages::MAX_STALE_CONFIRMATION_RECOVERY_ATTEMPTS {
                return false;
            }
            self.stale_recoveries = self.stale_recoveries + 1;
        }
        true
    }

    /// Records an attempt whose result is unknown.
    pub fn failed(&mut self)
        requires
            old(self).attempt < 5,
        ensures
            *final(self) == (DeliveryRetry {
                attempt: (old(self).attempt + 1) as usize,
                ..*old(self)
            }),
    {
        self.attempt = self.attempt + 1;
    }
}

impl DiscordVoiceIntentBroker {
    /// Gives an intent up whose confirmation could not be posted.
    pub fn confirmation_retries_exhausted(&mut self, message: &PendingMessage) -> (r: bool)
        requires
            old(self).wf(),
        ensures
            final(self).wf(),
            final(self).settings() == old(self).settings(),
            r == is_pending(
                old(self)@,
                message.token,
                message.intent.id,
                message.intent.revision,
                PendingPhase::PostingConfirmation,
            ),
            final(self)@ == if r {
                old(self)@.insert(
                    message.token.guild(),
                    old(self)@[message.token.guild()].cleared(),
                )
            } else {
                old(self)@
            },
    {
        self.remove_pending_if_current(
            message.token,
            message.intent.id,
            message.intent.revision,
            PendingPhase::PostingConfirmation,
        )
    }

    /// Completes an intent whose dispatch was recovered by a retry.
    pub fn dispatch_recovered(&mut self, message: &PendingMessage) -> (r: bool)
        requires
            old(self).wf(),
        ensures
            final(self).wf(),
            final(self).settings() == old(self).settings(),
            r == is_pending(
                old(self)@,
                message.token,
                message.intent.id,
                message.intent.revision,
                PendingPhase::Dispatching,
            ),
            final(self)@ == if r {
                old(self)@.insert(
                    message.token.guild(),
                    old(self)@[message.token.guild()].cleared(),
                )
            } else {
                old(self)@
            },
    {
        self.remove_pending_if_current(
            message.token,
            message.intent.id,
            message.intent.revision,
            PendingPhase::Dispatching,
        )
    }
}

/// An intent is dispatched at most once: from the moment it is confirmed, no text message changes
/// anything about it until its dispatch is over, and none is an answer once nothing is pending.
pub proof fn lemma_confirmed_intent_ignores_answers(
    settings: BrokerSettings,
    sessions: Sessions,
    guild: u64,
    channel: u64,
    user: u64,
    content: Seq<char>,
    fresh_id: u128,
)
    requires
        sessions.contains_key(guild),
        sessions[guild].pending is None || sessions[guild].pending->0.phase
            != PendingPhase::WaitingConfirmation,
    ensures
        after_text(settings, sessions, guild, channel, user, content, fresh_id) == sessions,
        sessions[guild].pending is None ==> !answers(
            settings,
            sessions,
            guild,
            channel,
            user,
            content,
        ),
{
}

/// A confirmation takes the intent out of waiting, so a second one finds it processing.
pub proof fn lemma_second_confirmation_changes_nothing(
    settings: BrokerSettings,
    sessions: Sessions,
    guild: u64,
    channel: u64,
    user: u64,
    content: Seq<char>,
    first_id: u128,
    second_id: u128,
)
    requires
        language::confirmation_of(content) is Affirmative,
    ensures
        ({
            let once = after_text(settings, sessions, guild, channel, user, content, first_id);
            after_text(settings, once, guild, channel, user, content, second_id) == once
        }),
{
    let once = after_text(settings, sessions, guild, channel, user, content, first_id);
    assert(once == sessions || once[guild].pending->0.phase == PendingPhase::Dispatching);
}

/// A transcript that its session remembers is not taken for a command again, whatever became of
/// the intent that it was taken for.
pub proof fn lemma_replay_is_ignored(
    settings: BrokerSettings,
    sessions: Sessions,
    event: FinalTranscriptEvent,
    fresh_id: u128,
)
    requires
        sessions.contains_key(event.token.guild()),
        sessions[event.token.guild()].keys.contains(event.key),
    ensures
        after_transcript(settings, sessions, event, fresh_id) == (
            sessions,
            VoiceIntentTranscriptOutcome::Ignored,
        ),
{
}

/// A transcript that is taken for a command is remembered, so it is ignored when it comes again.
pub proof fn lemma_command_is_remembered(
    settings: BrokerSettings,
    sessions: Sessions,
    event: FinalTranscriptEvent,
    first_id: u128,
    second_id: u128,
)
    requires
        after_transcript(settings, sessions, event, first_id).1
            != VoiceIntentTranscriptOutcome::Ignored,
    ensures
        ({
            let once = after_transcript(settings, sessions, event, first_id).0;
            &&& once.contains_key(event.token.guild())
            &&& once[event.token.guild()].keys.len() > 0
            &&& once[event.token.guild()].keys.last() == event.key
            &&& after_transcript(settings, once, event, second_id) == (
                once,
                VoiceIntentTranscriptOutcome::Ignored,
            )
        }),
{
    let guild = event.token.guild();
    let once = after_transcript(settings, sessions, event, first_id).0;
    let kept = once[guild].keys;
    assert(kept[kept.len() - 1] == event.key);
    assert(kept.contains(event.key));
    lemma_replay_is_ignored(settings, once, event, second_id);
}

/// Whether the memory of a session changes from one state to the next as it does when a transcript
/// is recorded, or not at all where none is.
pub open spec fn remembers(
    before: BoundModel,
    recorded: Option<TranscriptKey>,
    after: BoundModel,
) -> bool {
    after.keys == match recorded {
        Some(key) => before.remembering(key).keys,
        None => before.keys,
    }
}

/// Only transcripts that are taken for commands are recorded. Confirming, correcting, cancelling,
/// dispatching and expiring an intent leave the memory of its session as it is.
pub proof fn lemma_only_commands_are_recorded(
    settings: BrokerSettings,
    sessions: Sessions,
    guild: u64,
    event: FinalTranscriptEvent,
    channel: u64,
    user: u64,
    content: Seq<char>,
    answered: u64,
    message_id: Seq<char>,
    phase: PendingPhase,
    fresh_id: u128,
)
    requires
        sessions.contains_key(guild),
    ensures
        ({
            let bound = sessions[guild];
            let (told, outcome) = after_transcript(settings, sessions, event, fresh_id);
            let texted = after_text(
                settings,
                sessions,
                answered,
                channel,
                user,
                content,
                fresh_id,
            );
            &&& told.contains_key(guild)
            &&& remembers(
                bound,
                if outcome != VoiceIntentTranscriptOutcome::Ignored && event.token.guild()
                    == guild {
                    Some(event.key)
                } else {
                    None
                },
                told[guild],
            )
            &&& texted.contains_key(guild)
            &&& remembers(bound, None, texted[guild])
            &&& remembers(bound, None, bound.cleared())
            &&& remembers(bound, None, bound.in_phase(phase))
            &&& remembers(bound, None, bound.waiting())
            &&& remembers(bound, None, bound.waiting_by(message_id))
        }),
{
}

/// How many transcripts were recorded.
pub open spec fn record_count(recorded: Seq<Option<TranscriptKey>>) -> nat
    decreases recorded.len(),
{
    if recorded.len() == 0 {
        0
    } else {
        record_count(recorded.drop_last()) + if recorded.last() is Some {
            1nat
        } else {
            0nat
        }
    }
}

/// Whether a session went through states, with the transcripts recorded from each to the next.
pub open spec fn is_history(states: Seq<BoundModel>, recorded: Seq<Option<TranscriptKey>>) -> bool {
    &&& states.len() == recorded.len() + 1
    &&& forall|i: int|
        #![trigger recorded[i]]
        0 <= i < recorded.len() ==> remembers(states[i], recorded[i], states[i + 1])
}

/// A transcript that was recorded stays remembered, and is ignored when it comes again, through
/// all that happens to its session until as many others were recorded as are remembered.
pub proof fn lemma_recorded_transcript_stays_ignored(
    settings: BrokerSettings,
    states: Seq<BoundModel>,
    recorded: Seq<Option<TranscriptKey>>,
    sessions: Sessions,
    event: FinalTranscriptEvent,
    fresh_id: u128,
)
    requires
        is_history(states, recorded),
        0 < states[0].keys.len() <= MAX_PROCESSED_TRANSCRIPT_KEYS,
        states[0].keys.last() == event.key,
        record_count(recorded) < MAX_PROCESSED_TRANSCRIPT_KEYS,
        sessions.contains_key(event.token.guild()),
        sessions[event.token.guild()] == states.last(),
    ensures
        states.last().keys.contains(event.key),
        after_transcript(settings, sessions, event, fresh_id) == (
            sessions,
            VoiceIntentTranscriptOutcome::Ignored,
        ),
{
    let i = lemma_recorded_key_place(states, recorded, event.key);
    assert(states.last().keys[i] == event.key);
    lemma_replay_is_ignored(settings, sessions, event, fresh_id);
}

/// Where a key stands after a history: not farther from the end than others were recorded.
proof fn lemma_recorded_key_place(
    states: Seq<BoundModel>,
    recorded: Seq<Option<TranscriptKey>>,
    key: TranscriptKey,
) -> (i: int)
    requires
        is_history(states, recorded),
        0 < states[0].keys.len() <= MAX_PROCESSED_TRANSCRIPT_KEYS,
        states[0].keys.last() == key,
        record_count(recorded) < MAX_PROCESSED_TRANSCRIPT_KEYS,
    ensures
        0 <= i < states.last().keys.len() <= MAX_PROCESSED_TRANSCRIPT_KEYS,
        states.last().keys[i] == key,
        states.last().keys.len() - 1 - i <= record_count(recorded),
    decreases recorded.len(),
{
    if recorded.len() == 0 {
        states[0].keys.len() - 1
    } else {
        let n = recorded.len() as int;
        let earlier = states.drop_last();
        assert(is_history(earlier, recorded.drop_last())) by {
            assert forall|j: int| 0 <= j < n - 1 implies remembers(
                earlier[j],
                #[trigger] recorded.drop_last()[j],
                earlier[j + 1],
            ) by {
                assert(recorded[j] == recorded.drop_last()[j]);
            }
        }
        let i = lemma_recorded_key_place(earlier, recorded.drop_last(), key);
        let before = states[n - 1];
        assert(earlier.last() == before);
        assert(remembers(before, recorded[n - 1], states[n]));
        match recorded[n - 1] {
            None => i,
            Some(other) => {
                let keys = before.keys.push(other);
                assert(keys[i] == key);
                if keys.len() > MAX_PROCESSED_TRANSCRIPT_KEYS {
                    assert(keys.skip(1)[i - 1] == key);
                    i - 1
                } else {
                    i
                }
            },
        }
    }
}

/// A session that was replaced hears nothing and holds nothing: no late transcript, result or
/// timeout of it matches the session that replaced it.
pub proof fn lemma_replaced_session_is_deaf(
    settings: BrokerSettings,
    sessions: Sessions,
    old_token: VoiceSessionToken,
    new_token: VoiceSessionToken,
    bound: BoundModel,
    event: FinalTranscriptEvent,
    id: u128,
    revision: u64,
    phase: PendingPhase,
    fresh_id: u128,
)
    requires
        old_token != new_token,
        old_token.guild() == new_token.guild(),
        bound.token == new_token,
        event.token == old_token,
    ensures
        ({
            let rebound = sessions.insert(new_token.guild(), bound);
            &&& !is_pending(rebound, old_token, id, revision, phase)
            &&& after_transcript(settings, rebound, event, fresh_id) == (
                rebound,
                VoiceIntentTranscriptOutcome::Ignored,
            )
        }),
{
}

/// A timeout expires only the waiting period it was set for: once the intent was corrected, or
/// waits again after a dispatch, the timeout of the earlier waiting period finds another
/// revision or another period.
pub proof fn lemma_old_timeout_is_stale(
    bound: BoundModel,
    targets: Seq<IntentTarget>,
    fresh_id: u128,
    work: targets::ProposalModel,
)
    requires
        bound.wf(targets),
        bound.pending is Some,
        bound.next_revision < u64::MAX,
        bound.next_epoch < u64::MAX,
    ensures
        bound.proposing(fresh_id, work).pending->0.revision > bound.pending->0.revision,
        bound.waiting().pending->0.waiting_epoch > bound.pending->0.waiting_epoch,
        bound.in_phase(PendingPhase::Dispatching).waiting().pending->0.waiting_epoch
            > bound.pending->0.waiting_epoch,
{
}

} // verus!
