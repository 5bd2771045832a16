//! The voice sessions of all guilds. Each guild has one at most.

use vstd::prelude::*;
use vstd::string::*;
use std::collections::{HashMap, HashSet};
use crate::discord_voice;
use crate::discord_voice::{CaptureLimits, PcmCaptureConfig, TranscriptStore};
use crate::discord_voice_intent::FinalTranscriptEvent;
use crate::discord_voice_runtime::rendering;
use crate::discord_voice_runtime::session;
use crate::discord_voice_runtime::session::{
    CompletedSegment, SegmentJob, SessionModel, VoiceConnectionState, VoiceSession,
    VoiceSessionStatus, VoiceTick,
};
use crate::discord_voice_runtime::VoiceSessionToken;
use crate::text;
use crate::tts::TtsConfig;

verus! {

broadcast use vstd::std_specs::hash::group_hash_axioms;

/// For how many milliseconds a segment must hold speech.
pub const MINIMUM_SPEECH_MS: u32 = 100;

/// Up to which loudness a frame is silent.
pub const DEFAULT_SILENCE_THRESHOLD: u16 = 500;

/// How many entries a transcript holds at most.
pub const MAX_TRANSCRIPT_ENTRIES: usize = 10_000;

/// How many seconds a transcription may take.
pub const STT_REQUEST_TIMEOUT_SECS: u64 = 120;

/// For how many milliseconds nothing is captured after the bot spoke.
pub const TTS_POST_ROLL_MS: u64 = 300;

/// For how many seconds the end of the bot's speech is waited for beyond its duration.
pub const TTS_WATCHDOG_GRACE_SECS: u64 = 5;

/// How voice sessions are set up.
#[derive(Debug, Clone)]
pub struct DiscordVoiceConfig {
    pub enabled: bool,
    /// The voice channels that may be joined; all, if none is named.
    pub allowed_channels: Vec<String>,
    /// After how many milliseconds of silence a segment is complete.
    pub silence_ms: u64,
    /// How many seconds a segment lasts at most.
    pub max_segment_seconds: u64,
    /// How many segments may wait for transcription.
    pub max_pending_segments: usize,
    /// How many bytes of text a transcript holds at most.
    pub max_transcript_bytes: usize,
    /// How many minutes a session lasts at most.
    pub max_session_minutes: u64,
}

impl Default for DiscordVoiceConfig {
    fn default() -> (r: Self)
        ensures
            !r.enabled,
            r.allowed_channels@.len() == 0,
            r.silence_ms == 2_000,
            r.max_segment_seconds == 30,
            r.max_pending_segments == 64,
            r.max_transcript_bytes == 1_000_000,
            r.max_session_minutes == 120,
            config_error(r) is None,
    {
        DiscordVoiceConfig {
            enabled: false,
            allowed_channels: Vec::new(),
            silence_ms: 2_000,
            max_segment_seconds: 30,
            max_pending_segments: 64,
            max_transcript_bytes: 1_000_000,
            max_session_minutes: 120,
        }
    }
}

/// How speech is transcribed.
#[derive(Debug, Clone)]
pub struct SttConfig {
    pub enabled: bool,
    pub api_key: String,
}

impl Default for SttConfig {
    fn default() -> (r: Self)
        ensures
            !r.enabled,
            r.api_key@.len() == 0,
    {
        SttConfig { enabled: false, api_key: String::new() }
    }
}

/// The voice channel that a text names.
pub open spec fn channel_id(raw: Seq<char>) -> Option<u64> {
    match text::parsed_number(raw) {
        Some(n) => if n <= u64::MAX {
            Some(n as u64)
        } else {
            None
        },
        None => None,
    }
}

/// What is wrong with the first voice channel that has a fault.
pub open spec fn channels_error(raws: Seq<Seq<char>>) -> Option<Seq<char>>
    decreases raws.len(),
{
    if raws.len() == 0 {
        None
    } else {
        match channels_error(raws.drop_last()) {
            Some(e) => Some(e),
            None => match channel_id(raws.last()) {
                None => Some(
                    "invalid Discord voice channel ID in discord.voice.allowed_channels: "@
                        + raws.last(),
                ),
                Some(id) => if id == 0 {
                    Some("Discord voice channel IDs must be non-zero: "@ + raws.last())
                } else {
                    None
                },
            },
        }
    }
}

/// The voice channels that texts name.
pub open spec fn channel_ids(raws: Seq<Seq<char>>) -> Set<u64>
    decreases raws.len(),
{
    if raws.len() == 0 {
        Set::empty()
    } else {
        match channel_id(raws.last()) {
            Some(id) => channel_ids(raws.drop_last()).insert(id),
            None => channel_ids(raws.drop_last()),
        }
    }
}

/// Why segments cannot be cut as configured.
pub open spec fn capture_error(config: DiscordVoiceConfig) -> bool {
    let minimum = discord_voice::millis_as_frames(MINIMUM_SPEECH_MS);
    let silence = discord_voice::millis_as_frames(config.silence_ms as u32);
    let maximum = discord_voice::millis_as_frames((config.max_segment_seconds * 1_000) as u32);
    ||| minimum > usize::MAX
    ||| silence > usize::MAX
    ||| maximum > usize::MAX
    ||| discord_voice::frame_counts_error(minimum, silence, maximum) is Some
}

/// What is wrong with a configuration.
pub open spec fn config_error(config: DiscordVoiceConfig) -> Option<Seq<char>> {
    if config.max_pending_segments == 0 {
        Some("discord.voice.max_pending_segments must be greater than zero"@)
    } else if config.max_transcript_bytes == 0 {
        Some("discord.voice.max_transcript_bytes must be greater than zero"@)
    } else if config.max_session_minutes == 0 {
        Some("discord.voice.max_session_minutes must be greater than zero"@)
    } else if config.silence_ms > u32::MAX {
        Some("discord.voice.silence_ms is too large"@)
    } else if config.max_segment_seconds * 1_000 > u32::MAX {
        Some("discord.voice.max_segment_seconds is too large"@)
    } else if capture_error(config) {
        Some("invalid discord.voice capture configuration"@)
    } else {
        channels_error(text::strings(config.allowed_channels@))
    }
}

/// How segments are cut as configured.
pub open spec fn configured_limits(config: DiscordVoiceConfig) -> CaptureLimits {
    CaptureLimits {
        silence_threshold: DEFAULT_SILENCE_THRESHOLD as int,
        minimum_speech: discord_voice::millis_as_frames(MINIMUM_SPEECH_MS),
        trailing_silence: discord_voice::millis_as_frames(config.silence_ms as u32),
        maximum_segment: discord_voice::millis_as_frames(
            (config.max_segment_seconds * 1_000) as u32,
        ),
    }
}

/// What is fixed of a manager.
pub struct VoiceRules {
    pub enabled: bool,
    pub stt_ready: bool,
    pub tts_ready: bool,
    pub limits: CaptureLimits,
    /// The voice channels that may be joined; all, if the set is empty.
    pub allowed: Set<u64>,
    pub capacity: nat,
    pub max_text_bytes: nat,
    pub session_minutes: u64,
}

impl VoiceRules {
    /// Whether a voice channel may be joined.
    pub open spec fn allows(self, channel: u64) -> bool {
        self.allowed.len() == 0 || self.allowed.contains(channel)
    }
}

/// Owns at most one voice session per Discord guild.
pub struct DiscordVoiceManager {
    enabled: bool,
    stt_config: SttConfig,
    tts_config: TtsConfig,
    capture_config: PcmCaptureConfig,
    allowed_voice_channels: HashSet<u64>,
    max_pending_segments: usize,
    max_transcript_bytes: usize,
    max_session_minutes: u64,
    sessions: HashMap<u64, VoiceSession>,
    next_session_id: u64,
    intents: bool,
}

impl View for DiscordVoiceManager {
    type V = Map<u64, SessionModel>;

    closed spec fn view(&self) -> Map<u64, SessionModel> {
        self.sessions@.map_values(|s: VoiceSession| s@)
    }
}

/// Why no voice session starts in a guild, before the guild is looked at.
pub open spec fn refusal(rules: VoiceRules, channel: u64) -> Option<Seq<char>> {
    if !rules.enabled {
        Some("Discord voice support is disabled"@)
    } else if !rules.stt_ready {
        Some("Discord voice requires [stt] enabled = true and a configured API key"@)
    } else if !rules.allows(channel) {
        Some("voice channel is not in discord.voice.allowed_channels"@)
    } else {
        None
    }
}

/// Why no voice session starts in a guild that has had one.
pub open spec fn occupation(sessions: Map<u64, SessionModel>, guild: u64) -> Option<Seq<char>> {
    if !sessions.contains_key(guild) {
        None
    } else if sessions[guild].state.active() || sessions[guild].state is Stopping {
        Some("a Discord voice session is already active in this guild"@)
    } else if sessions[guild].pending() > 0 {
        Some("the previous Discord voice session still has pending STT work"@)
    } else {
        None
    }
}

/// The session that a token names, if it is still the guild's.
pub open spec fn current(sessions: Map<u64, SessionModel>, token: VoiceSessionToken) -> Option<
    SessionModel,
> {
    if sessions.contains_key(token.guild()) && sessions[token.guild()].id == token.session() {
        Some(sessions[token.guild()])
    } else {
        None
    }
}

impl DiscordVoiceManager {
    pub closed spec fn rules(&self) -> VoiceRules {
        VoiceRules {
            enabled: self.enabled,
            stt_ready: self.stt_config.enabled && self.stt_config.api_key@.len() > 0,
            tts_ready: self.tts_config.enabled && !text::blank(self.tts_config.api_key@),
            limits: self.capture_config@,
            allowed: self.allowed_voice_channels@,
            capacity: self.max_pending_segments as nat,
            max_text_bytes: self.max_transcript_bytes as nat,
            session_minutes: self.max_session_minutes,
        }
    }

    /// The id of the next session.
    pub closed spec fn next_id(&self) -> u64 {
        self.next_session_id
    }

    /// Whether what is said is looked through for intents.
    pub closed spec fn hears_intents(&self) -> bool {
        self.intents
    }

    pub closed spec fn wf(&self) -> bool {
        &&& self.capture_config.wf()
        &&& self.max_transcript_bytes > 0
        &&& self.allowed_voice_channels@.finite()
        &&& forall|g: u64| #[trigger] self.sessions@.contains_key(g) ==> self.sessions@[g].wf()
    }

    /// What holds of every manager: its limits make sense, and so does each session.
    pub proof fn lemma_wf(&self)
        requires
            self.wf(),
        ensures
            self.rules().limits.valid(),
            self.rules().max_text_bytes > 0,
            self.rules().allowed.finite(),
            forall|g: u64| #[trigger] self@.contains_key(g) ==> self@[g].wf(),
    {
        self.capture_config.lemma_wf();
        assert forall|g: u64| #[trigger] self@.contains_key(g) implies self@[g].wf() by {
            assert(self.sessions@.contains_key(g));
            self.sessions@[g].lemma_wf();
        }
    }

    /// Everything but the sessions is as it was.
    pub open spec fn same_rules(&self, other: &Self) -> bool {
        &&& self.rules() == other.rules()
        &&& self.hears_intents() == other.hears_intents()
    }

    pub fn new(config: DiscordVoiceConfig, stt_config: SttConfig) -> (r: Result<Self, String>)
        ensures
            match config_error(config) {
                Some(e) => r matches Err(error) && error@ == e,
                None => r matches Ok(manager) && manager.wf() && manager@ == Map::<
                    u64,
                    SessionModel,
                >::empty() && manager.next_id() == 1 && !manager.hears_intents() && manager.rules()
                    == rules_of(config, stt_config, false),
            },
    {
        let r = Self::new_with_tts(config, stt_config, TtsConfig::default());
        r
    }

    pub fn new_with_tts(
        config: DiscordVoiceConfig,
        stt_config: SttConfig,
        tts_config: TtsConfig,
    ) -> (r: Result<Self, String>)
        ensures
            match config_error(config) {
                Some(e) => r matches Err(error) && error@ == e,
                None => r matches Ok(manager) && manager.wf() && manager@ == Map::<
                    u64,
                    SessionModel,
                >::empty() && manager.next_id() == 1 && !manager.hears_intents() && manager.rules()
                    == rules_of(
                    config,
                    stt_config,
                    tts_config.enabled && !text::blank(tts_config.api_key@),
                ),
            },
    {
        if config.max_pending_segments == 0 {
            return Err(
                String::from_str("discord.voice.max_pending_segments must be greater than zero"),
            );
        }
        if config.max_transcript_bytes == 0 {
            return Err(
                String::from_str("discord.voice.max_transcript_bytes must be greater than zero"),
            );
        }
        if config.max_session_minutes == 0 {
            return Err(
                String::from_str("discord.voice.max_session_minutes must be greater than zero"),
            );
        }
        if config.silence_ms > u32::MAX as u64 {
            return Err(String::from_str("discord.voice.silence_ms is too large"));
        }
        let max_segment_ms = match config.max_segment_seconds.checked_mul(1_000) {
            Some(value) => value,
            None => {
                return Err(String::from_str("discord.voice.max_segment_seconds is too large"));
            },
        };
        if max_segment_ms > u32::MAX as u64 {
            return Err(String::from_str("discord.voice.max_segment_seconds is too large"));
        }
        let capture_config = match PcmCaptureConfig::from_millis(
            DEFAULT_SILENCE_THRESHOLD,
            MINIMUM_SPEECH_MS,
            config.silence_ms as u32,
            max_segment_ms as u32,
        ) {
            Ok(capture_config) => capture_config,
            Err(_) => {
                return Err(String::from_str("invalid discord.voice capture configuration"));
            },
        };
        let allowed_voice_channels = match parse_channels(&config.allowed_channels) {
            Ok(allowed) => allowed,
            Err(error) => return Err(error),
        };
        let manager = DiscordVoiceManager {
            enabled: config.enabled,
            stt_config,
            tts_config,
            capture_config,
            allowed_voice_channels,
            max_pending_segments: config.max_pending_segments,
            max_transcript_bytes: config.max_transcript_bytes,
            max_session_minutes: config.max_session_minutes,
            sessions: HashMap::new(),
            next_session_id: 1,
            intents: false,
        };
        assert(manager@ =~= Map::empty());
        Ok(manager)
    }
}

/// What is fixed of a manager with a configuration.
pub open spec fn rules_of(
    config: DiscordVoiceConfig,
    stt_config: SttConfig,
    tts_ready: bool,
) -> VoiceRules {
    VoiceRules {
        enabled: config.enabled,
        stt_ready: stt_config.enabled && stt_config.api_key@.len() > 0,
        tts_ready,
        limits: configured_limits(config),
        allowed: channel_ids(text::strings(config.allowed_channels@)),
        capacity: config.max_pending_segments as nat,
        max_text_bytes: config.max_transcript_bytes as nat,
        session_minutes: config.max_session_minutes,
    }
}

fn parse_channels(raws: &Vec<String>) -> (r: Result<HashSet<u64>, String>)
    ensures
        match channels_error(text::strings(raws@)) {
            Some(e) => r matches Err(error) && error@ == e,
            None => r matches Ok(ids) && ids@ == channel_ids(text::strings(raws@)) && ids@.finite(),
        },
{
    let ghost all = text::strings(raws@);
    let mut ids: HashSet<u64> = HashSet::new();
    let mut i: usize = 0;
    assert(all.take(0) =~= Seq::empty());
    while i < raws.len()
        invariant
            i <= raws@.len(),
            all == text::strings(raws@),
            channels_error(all.take(i as int)) is None,
            ids@ == channel_ids(all.take(i as int)),
            ids@.finite(),
        decreases raws@.len() - i,
    {
        let raw = raws[i].as_str();
        proof {
            assert(all.take(i + 1).drop_last() =~= all.take(i as int));
            assert(all.take(i + 1).last() == raw@);
        }
        let chars = text::to_chars(raw);
        let id = match text::parse_u64(chars.as_slice()) {
            Some(id) => id,
            None => {
                proof {
                    lemma_first_error_stays(all, i + 1);
                }
                return Err(
                    String::from_str(
                        "invalid Discord voice channel ID in discord.voice.allowed_channels: ",
                    ).concat(raw),
                );
            },
        };
        if id == 0 {
            proof {
                lemma_first_error_stays(all, i + 1);
            }
            return Err(
                String::from_str("Discord voice channel IDs must be non-zero: ").concat(raw),
            );
        }
        ids.insert(id);
        i = i + 1;
    }
    assert(all.take(all.len() as int) =~= all);
    Ok(ids)
}

proof fn lemma_first_error_stays(raws: Seq<Seq<char>>, n: int)
    requires
        0 <= n <= raws.len(),
        channels_error(raws.take(n)) is Some,
    ensures
        channels_error(raws) == channels_error(raws.take(n)),
    decreases raws.len(),
{
    if n < raws.len() {
        assert(raws.drop_last().take(n) =~= raws.take(n));
        lemma_first_error_stays(raws.drop_last(), n);
    } else {
        assert(raws.take(n) =~= raws);
    }
}

/// A token for a session of a guild.
pub open spec fn is_token(token: VoiceSessionToken, guild: u64, id: u64) -> bool {
    token.guild() == guild && token.session() == id
}

impl DiscordVoiceManager {
    pub fn enabled(&self) -> (r: bool)
        ensures
            r == self.rules().enabled,
    {
        self.enabled
    }

    pub fn stt_ready(&self) -> (r: bool)
        ensures
            r == self.rules().stt_ready,
    {
        self.stt_config.enabled && !self.stt_config.api_key.as_str().is_empty()
    }

    pub fn tts_ready(&self) -> (r: bool)
        ensures
            r == self.rules().tts_ready,
    {
        self.tts_config.is_available()
    }

    pub fn voice_channel_allowed(&self, channel_id: u64) -> (r: bool)
        requires
            self.wf(),
        ensures
            r == self.rules().allows(channel_id),
    {
        self.allowed_voice_channels.len() == 0 || self.allowed_voice_channels.contains(&channel_id)
    }

    /// After how many seconds a session expires.
    pub fn session_timeout_secs(&self) -> (r: u64)
        ensures
            r == discord_voice::sat(self.rules().session_minutes * 60),
    {
        match self.max_session_minutes.checked_mul(60) {
            Some(seconds) => seconds,
            None => u64::MAX,
        }
    }

    /// Has what is said in sessions that start from now on looked through for intents.
    pub fn attach_intent_broker(&mut self)
        requires
            old(self).wf(),
        ensures
            final(self).wf(),
            final(self)@ == old(self)@,
            final(self).next_id() == old(self).next_id(),
            final(self).rules() == old(self).rules(),
            final(self).hears_intents(),
    {
        self.intents = true;
    }

    fn put(&mut self, guild_id: u64, session: VoiceSession)
        requires
            old(self).wf(),
            session.wf(),
        ensures
            final(self).wf(),
            final(self)@ == old(self)@.insert(guild_id, session@),
            final(self).next_id() == old(self).next_id(),
            final(self).same_rules(old(self)),
    {
        let ghost before = self@;
        self.sessions.insert(guild_id, session);
        assert(self@ =~= before.insert(guild_id, session@));
    }

    fn take(&mut self, guild_id: u64) -> (r: Option<VoiceSession>)
        requires
            old(self).wf(),
        ensures
            final(self).wf(),
            final(self)@ == old(self)@.remove(guild_id),
            final(self).next_id() == old(self).next_id(),
            final(self).same_rules(old(self)),
            match r {
                Some(session) => old(self)@.contains_key(guild_id) && session.wf() && session@
                    == old(self)@[guild_id],
                None => !old(self)@.contains_key(guild_id),
            },
    {
        let ghost before = self@;
        let taken = self.sessions.remove(&guild_id);
        assert(self@ =~= before.remove(guild_id));
        taken
    }

    /// The session of a guild.
    pub fn session(&self, guild_id: u64) -> (r: Option<&VoiceSession>)
        requires
            self.wf(),
        ensures
            match r {
                Some(session) => self@.contains_key(guild_id) && session.wf() && session@
                    == self@[guild_id],
                None => !self@.contains_key(guild_id),
            },
    {
        self.sessions.get(&guild_id)
    }

    /// Takes the session that a token names out, if it is still the guild's.
    fn take_current(&mut self, token: VoiceSessionToken) -> (r: Option<VoiceSession>)
        requires
            old(self).wf(),
        ensures
            final(self).wf(),
            final(self).next_id() == old(self).next_id(),
            final(self).same_rules(old(self)),
            match r {
                Some(session) => current(old(self)@, token) == Some(session@) && session.wf()
                    && final(self)@ == old(self)@.remove(token.guild()),
                None => current(old(self)@, token) is None && final(self)@ == old(self)@,
            },
    {
        let guild_id = token.guild_id();
        let is_current = match self.session(guild_id) {
            Some(session) => session.id() == token.session_id(),
            None => false,
        };
        if is_current {
            self.take(guild_id)
        } else {
            None
        }
    }

    /// Creates a session before its channel is joined, so that nothing that is said early is lost.
    /// If joining fails, it is to be discarded. The session that it replaces is told.
    pub fn begin_session(
        &mut self,
        guild_id: u64,
        voice_channel_id: u64,
        control_channel_id: u64,
        now: u128,
    ) -> (r: Result<(VoiceSessionToken, Option<VoiceSessionToken>), String>)
        requires
            old(self).wf(),
        ensures
            final(self).wf(),
            final(self).same_rules(old(self)),
            match refusal(old(self).rules(), voice_channel_id) {
                Some(e) => {
                    &&& r matches Err(error)
                    &&& error@ == e
                    &&& final(self)@ == old(self)@
                    &&& final(self).next_id() == old(self).next_id()
                },
                None => {
                    &&& final(self).next_id() == if old(self).next_id() == u64::MAX {
                        0
                    } else {
                        old(self).next_id() + 1
                    }
                    &&& match occupation(old(self)@, guild_id) {
                        Some(e) => r matches Err(error) && error@ == e && final(self)@
                            == old(self)@,
                        None => {
                            &&& r matches Ok((token, replaced))
                            &&& is_token(token, guild_id, old(self).next_id())
                            &&& match replaced {
                                Some(t) => old(self)@.contains_key(guild_id) && is_token(
                                    t,
                                    guild_id,
                                    old(self)@[guild_id].id,
                                ),
                                None => !old(self)@.contains_key(guild_id),
                            }
                            &&& final(self)@ == old(self)@.insert(
                                guild_id,
                                SessionModel::started(
                                    old(self).next_id(),
                                    voice_channel_id,
                                    control_channel_id,
                                    now,
                                    old(self).rules().limits,
                                    MAX_TRANSCRIPT_ENTRIES as nat,
                                    old(self).rules().max_text_bytes,
                                    old(self).rules().capacity,
                                    old(self).hears_intents(),
                                ),
                            )
                        },
                    }
                },
            },
    {
        if !self.enabled() {
            return Err(String::from_str("Discord voice support is disabled"));
        }
        if !self.stt_ready() {
            return Err(
                String::from_str(
                    "Discord voice requires [stt] enabled = true and a configured API key",
                ),
            );
        }
        if !self.voice_channel_allowed(voice_channel_id) {
            return Err(
                String::from_str("voice channel is not in discord.voice.allowed_channels"),
            );
        }
        let session_id = self.next_session_id;
        self.next_session_id = session_id.wrapping_add(1);
        let transcript = match TranscriptStore::new(
            MAX_TRANSCRIPT_ENTRIES,
            self.max_transcript_bytes,
        ) {
            Ok(transcript) => transcript,
            Err(_) => {
                assert(false);
                return Err(String::new());
            },
        };
        let replaced = match self.session(guild_id) {
            Some(existing) => {
                let state = existing.state();
                if state.is_active() || state == VoiceConnectionState::Stopping {
                    return Err(
                        String::from_str("a Discord voice session is already active in this guild"),
                    );
                }
                if existing.pending_segments() > 0 {
                    return Err(
                        String::from_str(
                            "the previous Discord voice session still has pending STT work",
                        ),
                    );
                }
                Some(VoiceSessionToken::new(guild_id, existing.id()))
            },
            None => None,
        };
        let session = VoiceSession::new(
            session_id,
            voice_channel_id,
            control_channel_id,
            now,
            self.capture_config,
            transcript,
            self.max_pending_segments,
            self.intents,
        );
        assert(session@ =~= SessionModel::started(
            session_id,
            voice_channel_id,
            control_channel_id,
            now,
            self.rules().limits,
            MAX_TRANSCRIPT_ENTRIES as nat,
            self.rules().max_text_bytes,
            self.rules().capacity,
            self.hears_intents(),
        ));
        self.put(guild_id, session);
        Ok((VoiceSessionToken::new(guild_id, session_id), replaced))
    }
}

impl DiscordVoiceManager {
    /// Notes that a session's channel was joined.
    pub fn mark_listening(&mut self, token: VoiceSessionToken) -> (r: bool)
        requires
            old(self).wf(),
        ensures
            final(self).wf(),
            final(self).next_id() == old(self).next_id(),
            final(self).same_rules(old(self)),
            r == (current(old(self)@, token) matches Some(s) && s.state is Connecting),
            final(self)@ == if r {
                old(self)@.insert(
                    token.guild(),
                    SessionModel {
                        state: VoiceConnectionState::Listening,
                        ..old(self)@[token.guild()]
                    },
                )
            } else {
                old(self)@
            },
    {
        let ghost before = self@;
        match self.take_current(token) {
            Some(mut session) => {
                let joined = session.listen();
                self.put(token.guild_id(), session);
                assert(self@ =~= before.insert(token.guild(), session@));
                if !joined {
                    assert(self@ =~= before);
                }
                joined
            },
            None => false,
        }
    }

    /// Notes that the connection of a session was restored. A session in another channel than its
    /// own has failed. Says whether the session is active, and whether its intents are void.
    pub fn note_reconnected(&mut self, token: VoiceSessionToken, channel_id: u64, now: u128) -> (r: (
        bool,
        bool,
    ))
        requires
            old(self).wf(),
        ensures
            final(self).wf(),
            final(self).next_id() == old(self).next_id(),
            final(self).same_rules(old(self)),
            match current(old(self)@, token) {
                None => r == (false, false) && final(self)@ == old(self)@,
                Some(s) => if channel_id != s.voice_channel || !old(self).rules().allows(
                    channel_id,
                ) {
                    &&& r == (false, true)
                    &&& final(self)@ == old(self)@.insert(
                        token.guild(),
                        s.ending(VoiceConnectionState::Failed, now),
                    )
                } else {
                    &&& r == (s.state.active(), false)
                    &&& final(self)@ == old(self)@.insert(token.guild(), s.reconnected())
                },
            },
    {
        let ghost before = self@;
        let channel_allowed = self.voice_channel_allowed(channel_id);
        match self.take_current(token) {
            Some(mut session) => {
                let lost = channel_id != session.voice_channel_id() || !channel_allowed;
                let active = if lost {
                    session.end_capture(VoiceConnectionState::Failed, now);
                    false
                } else {
                    session.reconnect()
                };
                self.put(token.guild_id(), session);
                assert(self@ =~= before.insert(token.guild(), session@));
                (active, lost)
            },
            None => (false, false),
        }
    }

    /// Notes that a session's connection was lost for good. Says whether its intents are void.
    pub fn mark_driver_failed(&mut self, token: VoiceSessionToken, now: u128) -> (r: bool)
        requires
            old(self).wf(),
        ensures
            final(self).wf(),
            final(self).next_id() == old(self).next_id(),
            final(self).same_rules(old(self)),
            r == (current(old(self)@, token) matches Some(s) && s.state.active()),
            final(self)@ == if r {
                old(self)@.insert(
                    token.guild(),
                    old(self)@[token.guild()].ending(VoiceConnectionState::Failed, now),
                )
            } else {
                old(self)@
            },
    {
        self.end_if_active(token, VoiceConnectionState::Failed, now)
    }

    /// Starts to end a session that has lasted too long. Says whether its channel is to be left and
    /// its intents are void.
    pub fn expire_session(&mut self, token: VoiceSessionToken, now: u128) -> (r: bool)
        requires
            old(self).wf(),
        ensures
            final(self).wf(),
            final(self).next_id() == old(self).next_id(),
            final(self).same_rules(old(self)),
            r == (current(old(self)@, token) matches Some(s) && s.state.active()),
            final(self)@ == if r {
                old(self)@.insert(
                    token.guild(),
                    old(self)@[token.guild()].ending(VoiceConnectionState::Stopping, now),
                )
            } else {
                old(self)@
            },
    {
        self.end_if_active(token, VoiceConnectionState::Stopping, now)
    }

    fn end_if_active(
        &mut self,
        token: VoiceSessionToken,
        state: VoiceConnectionState,
        now: u128,
    ) -> (r: bool)
        requires
            old(self).wf(),
        ensures
            final(self).wf(),
            final(self).next_id() == old(self).next_id(),
            final(self).same_rules(old(self)),
            r == (current(old(self)@, token) matches Some(s) && s.state.active()),
            final(self)@ == if r {
                old(self)@.insert(token.guild(), old(self)@[token.guild()].ending(state, now))
            } else {
                old(self)@
            },
    {
        let ghost before = self@;
        match self.take_current(token) {
            Some(mut session) => {
                let active = session.state().is_active();
                if active {
                    session.end_capture(state, now);
                }
                self.put(token.guild_id(), session);
                assert(self@ =~= before.insert(token.guild(), session@));
                if !active {
                    assert(self@ =~= before);
                }
                active
            },
            None => false,
        }
    }

    /// Forgets a session. Says whether its intents are void.
    pub fn discard_session(&mut self, token: VoiceSessionToken) -> (r: bool)
        requires
            old(self).wf(),
        ensures
            final(self).wf(),
            final(self).next_id() == old(self).next_id(),
            final(self).same_rules(old(self)),
            r == (current(old(self)@, token) is Some),
            final(self)@ == if r {
                old(self)@.remove(token.guild())
            } else {
                old(self)@
            },
    {
        self.take_current(token).is_some()
    }
}

/// Whether a session can be stopped.
pub open spec fn stoppable(state: VoiceConnectionState) -> bool {
    state.active() || state is Stopping || state is Failed
}

/// A session after it was told to stop. One that is stopping already stays as it is.
pub open spec fn stopping(session: SessionModel, now: u128) -> SessionModel {
    if session.state is Stopping {
        session
    } else {
        session.ending(VoiceConnectionState::Stopping, now)
    }
}

impl DiscordVoiceManager {
    /// Starts to stop the session of a guild. Its intents are void.
    pub fn start_stopping(&mut self, guild_id: u64, now: u128) -> (r: Result<
        (VoiceSessionToken, VoiceSessionStatus),
        String,
    >)
        requires
            old(self).wf(),
        ensures
            final(self).wf(),
            final(self).next_id() == old(self).next_id(),
            final(self).same_rules(old(self)),
            if !old(self)@.contains_key(guild_id) {
                &&& r matches Err(e)
                &&& e@ == "no Discord voice session exists in this guild"@
                &&& final(self)@ == old(self)@
            } else if !stoppable(old(self)@[guild_id].state) {
                &&& r matches Err(e)
                &&& e@ == "the Discord voice session is not active"@
                &&& final(self)@ == old(self)@
            } else {
                let s = stopping(old(self)@[guild_id], now);
                &&& r matches Ok((token, status))
                &&& is_token(token, guild_id, old(self)@[guild_id].id)
                &&& status.describes(guild_id, s, now)
                &&& final(self)@ == old(self)@.insert(guild_id, s)
            },
    {
        let ghost before = self@;
        match self.take(guild_id) {
            Some(session) => {
                let token = VoiceSessionToken::new(guild_id, session.id());
                match self.stop(guild_id, session, now) {
                    Some(status) => {
                        assert(self@ =~= before.insert(guild_id, stopping(before[guild_id], now)));
                        Ok((token, status))
                    },
                    None => {
                        assert(self@ =~= before);
                        Err(String::from_str("the Discord voice session is not active"))
                    },
                }
            },
            None => {
                assert(self@ =~= before);
                Err(String::from_str("no Discord voice session exists in this guild"))
            },
        }
    }

    fn stop(&mut self, guild_id: u64, session: VoiceSession, now: u128) -> (r: Option<
        VoiceSessionStatus,
    >)
        requires
            old(self).wf(),
            session.wf(),
        ensures
            final(self).wf(),
            final(self).next_id() == old(self).next_id(),
            final(self).same_rules(old(self)),
            match r {
                Some(status) => stoppable(session@.state) && status.describes(
                    guild_id,
                    stopping(session@, now),
                    now,
                ) && final(self)@ == old(self)@.insert(guild_id, stopping(session@, now)),
                None => !stoppable(session@.state) && final(self)@ == old(self)@.insert(
                    guild_id,
                    session@,
                ),
            },
    {
        let mut session = session;
        let state = session.state();
        let ends = state.is_active() || state == VoiceConnectionState::Failed;
        if ends {
            session.end_capture(VoiceConnectionState::Stopping, now);
        } else if state != VoiceConnectionState::Stopping {
            self.put(guild_id, session);
            return None;
        }
        let status = session.status(guild_id, now);
        self.put(guild_id, session);
        Some(status)
    }

    /// Starts to stop the session that a token names. Its intents are void.
    pub fn start_stopping_token(&mut self, token: VoiceSessionToken, now: u128) -> (r: Result<
        VoiceSessionStatus,
        String,
    >)
        requires
            old(self).wf(),
        ensures
            final(self).wf(),
            final(self).next_id() == old(self).next_id(),
            final(self).same_rules(old(self)),
            if !old(self)@.contains_key(token.guild()) {
                &&& r matches Err(e)
                &&& e@ == "the Discord voice session no longer exists"@
                &&& final(self)@ == old(self)@
            } else {
                match current(old(self)@, token) {
                    None => {
                        &&& r matches Err(e)
                        &&& e@ == "the Discord voice session was replaced"@
                        &&& final(self)@ == old(self)@
                    },
                    Some(s) => if stoppable(s.state) {
                        &&& r matches Ok(status)
                        &&& status.describes(token.guild(), stopping(s, now), now)
                        &&& final(self)@ == old(self)@.insert(token.guild(), stopping(s, now))
                    } else {
                        &&& r matches Err(e)
                        &&& e@ == "the Discord voice session is not active"@
                        &&& final(self)@ == old(self)@
                    },
                }
            },
    {
        let ghost before = self@;
        let guild_id = token.guild_id();
        if self.session(guild_id).is_none() {
            return Err(String::from_str("the Discord voice session no longer exists"));
        }
        match self.take_current(token) {
            Some(session) => {
                match self.stop(guild_id, session, now) {
                    Some(status) => {
                        assert(self@ =~= before.insert(guild_id, stopping(before[guild_id], now)));
                        Ok(status)
                    },
                    None => {
                        assert(self@ =~= before);
                        Err(String::from_str("the Discord voice session is not active"))
                    },
                }
            },
            None => Err(String::from_str("the Discord voice session was replaced")),
        }
    }

    fn settle(&mut self, token: VoiceSessionToken, state: VoiceConnectionState, now: u128) -> (r:
        Option<VoiceSessionStatus>)
        requires
            old(self).wf(),
        ensures
            final(self).wf(),
            final(self).next_id() == old(self).next_id(),
            final(self).same_rules(old(self)),
            settled(old(self)@, final(self)@, token, state, now, r),
    {
        let ghost before = self@;
        match self.take_current(token) {
            Some(mut session) => {
                let was_stopping = session.settle(state);
                let status = session.status(token.guild_id(), now);
                self.put(token.guild_id(), session);
                assert(self@ =~= before.insert(token.guild(), session@));
                if was_stopping {
                    Some(status)
                } else {
                    assert(self@ =~= before);
                    None
                }
            },
            None => None,
        }
    }

    /// Notes that a session has stopped.
    pub fn finish_stop(&mut self, token: VoiceSessionToken, now: u128) -> (r: Option<
        VoiceSessionStatus,
    >)
        requires
            old(self).wf(),
        ensures
            final(self).wf(),
            final(self).next_id() == old(self).next_id(),
            final(self).same_rules(old(self)),
            settled(old(self)@, final(self)@, token, VoiceConnectionState::Stopped, now, r),
    {
        self.settle(token, VoiceConnectionState::Stopped, now)
    }

    /// Notes that a session that had to stop has failed.
    pub fn finish_failed(&mut self, token: VoiceSessionToken, now: u128) -> (r: Option<
        VoiceSessionStatus,
    >)
        requires
            old(self).wf(),
        ensures
            final(self).wf(),
            final(self).next_id() == old(self).next_id(),
            final(self).same_rules(old(self)),
            settled(old(self)@, final(self)@, token, VoiceConnectionState::Failed, now, r),
    {
        self.settle(token, VoiceConnectionState::Failed, now)
    }

    /// Notes that the channel of a session that lasted too long was left.
    pub fn finish_expired(&mut self, token: VoiceSessionToken, now: u128) -> (r: Option<
        VoiceSessionStatus,
    >)
        requires
            old(self).wf(),
        ensures
            final(self).wf(),
            final(self).next_id() == old(self).next_id(),
            final(self).same_rules(old(self)),
            settled(old(self)@, final(self)@, token, VoiceConnectionState::Expired, now, r),
    {
        self.settle(token, VoiceConnectionState::Expired, now)
    }
}

/// What becomes of the sessions when one that is stopping reaches its last state. A session that
/// is not stopping, or is no longer the guild's, is left as it is.
pub open spec fn settled(
    before: Map<u64, SessionModel>,
    after: Map<u64, SessionModel>,
    token: VoiceSessionToken,
    state: VoiceConnectionState,
    now: u128,
    status: Option<VoiceSessionStatus>,
) -> bool {
    match current(before, token) {
        Some(s) => if s.state is Stopping {
            let done = SessionModel { state, ..s };
            &&& after == before.insert(token.guild(), done)
            &&& status matches Some(status)
            &&& status.describes(token.guild(), done, now)
        } else {
            after == before && status is None
        },
        None => after == before && status is None,
    }
}

impl DiscordVoiceManager {
    /// The condition of a guild's session.
    pub fn status(&self, guild_id: u64, now: u128) -> (r: Option<VoiceSessionStatus>)
        requires
            self.wf(),
        ensures
            match r {
                Some(status) => self@.contains_key(guild_id) && status.describes(
                    guild_id,
                    self@[guild_id],
                    now,
                ),
                None => !self@.contains_key(guild_id),
            },
    {
        match self.session(guild_id) {
            Some(session) => Some(session.status(guild_id, now)),
            None => None,
        }
    }

    /// The condition of the session that a token names.
    pub fn status_for(&self, token: VoiceSessionToken, now: u128) -> (r: Option<VoiceSessionStatus>)
        requires
            self.wf(),
        ensures
            match r {
                Some(status) => current(self@, token) matches Some(s) && status.describes(
                    token.guild(),
                    s,
                    now,
                ),
                None => current(self@, token) is None,
            },
    {
        let guild_id = token.guild_id();
        match self.session(guild_id) {
            Some(session) => if session.id() == token.session_id() {
                Some(session.status(guild_id, now))
            } else {
                None
            },
            None => None,
        }
    }

    /// The token of a guild's session.
    pub fn session_token(&self, guild_id: u64) -> (r: Option<VoiceSessionToken>)
        requires
            self.wf(),
        ensures
            match r {
                Some(token) => self@.contains_key(guild_id) && is_token(
                    token,
                    guild_id,
                    self@[guild_id].id,
                ),
                None => !self@.contains_key(guild_id),
            },
    {
        match self.session(guild_id) {
            Some(session) => Some(VoiceSessionToken::new(guild_id, session.id())),
            None => None,
        }
    }

    /// What was said in a guild's session, as text.
    pub fn render_transcript(&self, guild_id: u64) -> (r: Result<String, String>)
        requires
            self.wf(),
        ensures
            if !self@.contains_key(guild_id) {
                r matches Err(e) && e@ == "no Discord voice session exists in this guild"@
            } else if self@[guild_id].transcript.len() == 0 {
                r matches Err(e) && e@
                    == "the Discord voice session has no completed transcript entries yet"@
            } else {
                r matches Ok(output) && output@ == rendering::rendered(
                    self@[guild_id].transcript,
                    self@[guild_id].totals.evicted_entries,
                )
            },
    {
        match self.session(guild_id) {
            Some(session) => {
                let transcript = session.transcript();
                if transcript.is_empty() {
                    return Err(
                        String::from_str(
                            "the Discord voice session has no completed transcript entries yet",
                        ),
                    );
                }
                Ok(rendering::render_transcript(transcript))
            },
            None => Err(String::from_str("no Discord voice session exists in this guild")),
        }
    }

    /// Whether all segments of a session are transcribed.
    pub fn is_drained(&self, token: VoiceSessionToken) -> (r: bool)
        requires
            self.wf(),
        ensures
            r == match current(self@, token) {
                Some(s) => s.pending() == 0,
                None => true,
            },
    {
        match self.session(token.guild_id()) {
            Some(session) => session.id() != token.session_id() || session.pending_segments() == 0,
            None => true,
        }
    }

    /// Whether the bot can speak in a session.
    pub fn may_speak(&self, token: VoiceSessionToken) -> (r: bool)
        requires
            self.wf(),
        ensures
            r == (self.rules().tts_ready && (current(self@, token) matches Some(s)
                && s.state.active())),
    {
        if !self.tts_ready() {
            return false;
        }
        match self.session(token.guild_id()) {
            Some(session) => session.id() == token.session_id() && session.state().is_active(),
            None => false,
        }
    }

    /// Starts to play the bot's speech in a session. Gives the number by which its end is told.
    pub fn begin_playback(&mut self, token: VoiceSessionToken) -> (r: Option<u64>)
        requires
            old(self).wf(),
        ensures
            final(self).wf(),
            final(self).next_id() == old(self).next_id(),
            final(self).same_rules(old(self)),
            match current(old(self)@, token) {
                Some(s) => if s.state is Listening {
                    &&& r == Some(s.playing().epoch)
                    &&& final(self)@ == old(self)@.insert(token.guild(), s.playing())
                } else {
                    r is None && final(self)@ == old(self)@
                },
                None => r is None && final(self)@ == old(self)@,
            },
    {
        let ghost before = self@;
        match self.take_current(token) {
            Some(mut session) => {
                let epoch = session.begin_playback();
                self.put(token.guild_id(), session);
                assert(self@ =~= before.insert(token.guild(), session@));
                if epoch.is_none() {
                    assert(self@ =~= before);
                }
                epoch
            },
            None => None,
        }
    }

    /// Ends playing the bot's speech with the given number in a session.
    pub fn finish_playback(&mut self, token: VoiceSessionToken, epoch: u64) -> (r: bool)
        requires
            old(self).wf(),
        ensures
            final(self).wf(),
            final(self).next_id() == old(self).next_id(),
            final(self).same_rules(old(self)),
            r == (current(old(self)@, token) matches Some(s) && s.epoch == epoch),
            final(self)@ == if r {
                old(self)@.insert(token.guild(), old(self)@[token.guild()].played())
            } else {
                old(self)@
            },
    {
        let ghost before = self@;
        match self.take_current(token) {
            Some(mut session) => {
                let finished = session.finish_playback(epoch);
                self.put(token.guild_id(), session);
                assert(self@ =~= before.insert(token.guild(), session@));
                if !finished {
                    assert(self@ =~= before);
                }
                finished
            },
            None => false,
        }
    }

    /// Notes that a speaker uses a stream of a session.
    pub fn note_speaking(&mut self, token: VoiceSessionToken, ssrc: u32, user_id: u64)
        requires
            old(self).wf(),
        ensures
            final(self).wf(),
            final(self).next_id() == old(self).next_id(),
            final(self).same_rules(old(self)),
            final(self)@ == match current(old(self)@, token) {
                Some(s) => old(self)@.insert(token.guild(), s.speaking(ssrc, user_id)),
                None => old(self)@,
            },
    {
        let ghost before = self@;
        if let Some(mut session) = self.take_current(token) {
            session.note_speaking(ssrc, user_id);
            self.put(token.guild_id(), session);
            assert(self@ =~= before.insert(token.guild(), session@));
        }
    }

    /// Notes that a speaker left a session.
    pub fn note_disconnect(&mut self, token: VoiceSessionToken, user_id: u64)
        requires
            old(self).wf(),
        ensures
            final(self).wf(),
            final(self).next_id() == old(self).next_id(),
            final(self).same_rules(old(self)),
            final(self)@ == match current(old(self)@, token) {
                Some(s) => old(self)@.insert(token.guild(), s.left(user_id)),
                None => old(self)@,
            },
    {
        let ghost before = self@;
        if let Some(mut session) = self.take_current(token) {
            session.note_disconnect(user_id);
            self.put(token.guild_id(), session);
            assert(self@ =~= before.insert(token.guild(), session@));
        }
    }

    /// Takes a tick of a session in.
    pub fn handle_tick(&mut self, token: VoiceSessionToken, tick: &VoiceTick)
        requires
            old(self).wf(),
        ensures
            final(self).wf(),
            final(self).next_id() == old(self).next_id(),
            final(self).same_rules(old(self)),
            final(self)@ == match current(old(self)@, token) {
                Some(s) => old(self)@.insert(
                    token.guild(),
                    s.ticked(session::voices(tick.speaking@), tick.silent@),
                ),
                None => old(self)@,
            },
    {
        let ghost before = self@;
        if let Some(mut session) = self.take_current(token) {
            session.handle_tick(tick);
            self.put(token.guild_id(), session);
            assert(self@ =~= before.insert(token.guild(), session@));
        }
    }

    /// Hands out the next segment of a session for transcription.
    pub fn next_segment_job(&mut self, token: VoiceSessionToken) -> (r: Option<SegmentJob>)
        requires
            old(self).wf(),
        ensures
            final(self).wf(),
            final(self).next_id() == old(self).next_id(),
            final(self).same_rules(old(self)),
            match current(old(self)@, token) {
                Some(s) => if !s.in_flight && s.queue.len() > 0 {
                    &&& r matches Some(job)
                    &&& job@ == s.queue[0]
                    &&& final(self)@ == old(self)@.insert(
                        token.guild(),
                        SessionModel { queue: s.queue.skip(1), in_flight: true, ..s },
                    )
                } else {
                    r is None && final(self)@ == old(self)@
                },
                None => r is None && final(self)@ == old(self)@,
            },
    {
        let ghost before = self@;
        match self.take_current(token) {
            Some(mut session) => {
                let job = session.take_job();
                self.put(token.guild_id(), session);
                assert(self@ =~= before.insert(token.guild(), session@));
                if job.is_none() {
                    assert(self@ =~= before);
                }
                job
            },
            None => None,
        }
    }

    /// Takes the result of a transcription in. A result that no session waits for is dropped.
    pub fn complete_segment_job(
        &mut self,
        token: VoiceSessionToken,
        completed: CompletedSegment,
    ) -> (r: Option<FinalTranscriptEvent>)
        requires
            old(self).wf(),
        ensures
            final(self).wf(),
            final(self).next_id() == old(self).next_id(),
            final(self).same_rules(old(self)),
            match current(old(self)@, token) {
                Some(s) => if s.in_flight {
                    &&& final(self)@.dom() == old(self)@.dom()
                    &&& final(self)@ == old(self)@.insert(token.guild(), final(self)@[token.guild()])
                    &&& session::job_completed(
                        s,
                        final(self)@[token.guild()],
                        completed,
                        token,
                        r,
                    )
                } else {
                    r is None && final(self)@ == old(self)@
                },
                None => r is None && final(self)@ == old(self)@,
            },
    {
        let ghost before = self@;
        match self.take_current(token) {
            Some(mut session) => {
                if !session.has_job_in_flight() {
                    self.put(token.guild_id(), session);
                    assert(self@ =~= before);
                    return None;
                }
                let event = session.complete_job(completed, token);
                self.put(token.guild_id(), session);
                assert(self@ =~= before.insert(token.guild(), session@));
                assert(self@.dom() =~= before.dom());
                event
            },
            None => None,
        }
    }
}

impl DiscordVoiceManager {
    /// The guilds that have a session, in no particular order.
    pub fn guild_ids(&self) -> (r: Vec<u64>)
        requires
            self.wf(),
        ensures
            r@.no_duplicates(),
            r@.to_set() == self@.dom(),
    {
        let mut out: Vec<u64> = Vec::new();
        let keys = self.sessions.keys();
        let ghost all = vstd::std_specs::iter::IteratorSpec::remaining(&keys).unref();
        for guild in it: keys
            invariant
                it.seq().unref() == all,
                out@ == all.take(it.index()),
        {
            out.push(*guild);
            assert(out@ =~= all.take(it.index() + 1));
        }
        assert(out@ =~= all);
        assert(self@.dom() =~= self.sessions@.dom());
        out
    }
}

/// A token of a session that is no longer the guild's changes nothing, whatever is told with it.
pub proof fn lemma_replaced_session_is_out_of_reach(
    before: Map<u64, SessionModel>,
    after: Map<u64, SessionModel>,
    token: VoiceSessionToken,
    state: VoiceConnectionState,
    now: u128,
    status: Option<VoiceSessionStatus>,
)
    requires
        current(before, token) is None,
        settled(before, after, token, state, now, status),
    ensures
        after == before,
        status is None,
{
}

/// The ids of all sessions were given out before the next one.
pub open spec fn ids_are_fresh(sessions: Map<u64, SessionModel>, next_id: u64) -> bool {
    forall|g: u64| #[trigger] sessions.contains_key(g) ==> sessions[g].id < next_id
}

/// A session that starts gets an id that no session has, so that tokens of earlier sessions do not
/// name it; and that stays so for the session after it.
pub proof fn lemma_new_session_has_its_own_token(
    sessions: Map<u64, SessionModel>,
    next_id: u64,
    guild: u64,
    started: SessionModel,
    old_token: VoiceSessionToken,
)
    requires
        ids_are_fresh(sessions, next_id),
        next_id < u64::MAX,
        started.id == next_id,
        old_token.session() < next_id,
    ensures
        ids_are_fresh(sessions.insert(guild, started), (next_id + 1) as u64),
        old_token.guild() == guild ==> current(sessions.insert(guild, started), old_token) is None,
        forall|g: u64| g != guild && #[trigger] sessions.contains_key(g) ==> sessions.insert(
            guild,
            started,
        )[g] == sessions[g],
{
}

/// What came of an intent that was confirmed by voice.
#[derive(Debug, Clone, Copy, PartialEq, Eq, Structural)]
pub enum SpokenAction {
    /// Nothing was to be done here.
    Elsewhere,
    /// The task was handed over.
    Queued,
    /// The task could not be handed over.
    Failed { confirmation_reopened: bool },
    /// There is nobody to hand the task over to.
    Unavailable { confirmation_reopened: bool },
}

/// What the bot says of a confirmed intent.
pub open spec fn spoken_feedback(
    feedback: Option<Seq<char>>,
    action: SpokenAction,
) -> Option<Seq<char>> {
    match action {
        SpokenAction::Elsewhere => feedback,
        SpokenAction::Queued => feedback,
        SpokenAction::Failed { confirmation_reopened } => Some(
            if confirmation_reopened {
                "沒有成功開始。你可以再說一次對，或更正指令。"@
            } else {
                "沒有成功開始。請重新說出指令。"@
            },
        ),
        SpokenAction::Unavailable { confirmation_reopened } => Some(
            if confirmation_reopened {
                "目前無法開始。你可以再說一次對，或更正指令。"@
            } else {
                "目前無法開始。請重新說出指令。"@
            },
        ),
    }
}

/// Decides what the bot says of a confirmed intent. Where its task did not start, that is said
/// instead of the confirmation.
pub fn voice_intent_feedback(feedback: Option<String>, action: SpokenAction) -> (r: Option<String>)
    ensures
        text::opt_text(r) == spoken_feedback(text::opt_text(feedback), action),
{
    match action {
        SpokenAction::Elsewhere => feedback,
        SpokenAction::Queued => feedback,
        SpokenAction::Failed { confirmation_reopened } => Some(
            if confirmation_reopened {
                String::from_str("沒有成功開始。你可以再說一次對，或更正指令。")
            } else {
                String::from_str("沒有成功開始。請重新說出指令。")
            },
        ),
        SpokenAction::Unavailable { confirmation_reopened } => Some(
            if confirmation_reopened {
                String::from_str("目前無法開始。你可以再說一次對，或更正指令。")
            } else {
                String::from_str("目前無法開始。請重新說出指令。")
            },
        ),
    }
}

} // verus!
