//! The voice sessions of guilds: when one starts, who may end it and what is told of it.

use vstd::prelude::*;
use vstd::string::*;
use crate::discord_voice_runtime::manager;
use crate::discord_voice_runtime::manager::{
    DiscordVoiceConfig, DiscordVoiceManager, SpokenAction, SttConfig,
};
use crate::discord_voice_intent::FinalTranscriptEvent;
use crate::discord_voice_runtime::session;
use crate::discord_voice_runtime::session::{
    CompletedSegment, SegmentJob, SessionModel, VoiceSession, VoiceSessionStatus, VoiceTick,
};
use crate::discord_voice_runtime::VoiceSessionToken;
use crate::text;
use crate::tts::TtsConfig;

verus! {

/// Whether a token names the session that its guild has.
pub open spec fn names(sessions: Map<u64, SessionModel>, token: VoiceSessionToken) -> bool {
    sessions.contains_key(token.guild()) && sessions[token.guild()].id == token.session()
}

/// Whether a session is joined or about to be.
pub open spec fn joined(s: SessionModel) -> bool {
    s.state is Connecting || s.state is Listening
}

/// Whether a session still has something to transcribe.
pub open spec fn busy(s: SessionModel) -> bool {
    s.in_flight || s.queue.len() > 0
}

/// Whether nothing happened to any session but that of one guild.
pub open spec fn only_at(
    before: Map<u64, SessionModel>,
    after: Map<u64, SessionModel>,
    guild: u64,
) -> bool {
    forall|g: u64|
        g != guild ==> (#[trigger] after.contains_key(g) <==> before.contains_key(g)) && (
        before.contains_key(g) ==> after[g] == before[g])
}

/// A session starts when voice is enabled, speech can be transcribed, the channel is allowed, and
/// the guild has no session that is under way or still has something to transcribe. It is then
/// the guild's, with an id of its own, and about to be joined.
pub proof fn lemma_sessions_start(
    m: &mut DiscordVoiceManager,
    guild: u64,
    channel: u64,
    control: u64,
    now: u128,
    r: Result<(VoiceSessionToken, Option<VoiceSessionToken>), String>,
)
    requires
        old(m).wf(),
        call_ensures(DiscordVoiceManager::begin_session, (m, guild, channel, control, now), r),
    ensures
        r is Ok <==> old(m).rules().enabled && old(m).rules().stt_ready && (old(
            m,
        ).rules().allowed.len() == 0 || old(m).rules().allowed.contains(channel)) && (
        old(m)@.contains_key(guild) ==> !joined(old(m)@[guild]) && !(old(m)@[guild].state
            is Stopping) && !busy(old(m)@[guild])),
        r is Ok ==> {
            let s = final(m)@[guild];
            &&& final(m)@.contains_key(guild)
            &&& names(final(m)@, r->Ok_0.0)
            &&& r->Ok_0.0.guild() == guild
            &&& r->Ok_0.0.session() == old(m).next_id()
            &&& s.state is Connecting
            &&& s.voice_channel == channel
            &&& s.control_channel == control
            &&& s.started == now
            &&& s.ended is None
            &&& s.transcript.len() == 0 && s.queue.len() == 0 && s.captures.len() == 0
            &&& s.accepting
            &&& !s.suppressed && !s.in_flight
            &&& s.frames == 0
            &&& s.max_entries == 10_000
            &&& s.max_text_bytes == old(m).rules().max_text_bytes
            &&& s.capacity == old(m).rules().capacity
            &&& s.limits == old(m).rules().limits
            &&& s.intents == old(m).hears_intents()
            &&& r->Ok_0.1 is Some <==> old(m)@.contains_key(guild)
            &&& r->Ok_0.1 is Some ==> r->Ok_0.1->0.guild() == guild && r->Ok_0.1->0.session()
                == old(m)@[guild].id
        },
        r is Err ==> final(m)@ == old(m)@,
        only_at(old(m)@, final(m)@, guild),
        r is Ok && old(m).next_id() < u64::MAX ==> final(m).next_id() == old(m).next_id() + 1,
{
}

/// Why a session does not start, in this order.
pub proof fn lemma_refusals_are_explained(
    m: &mut DiscordVoiceManager,
    guild: u64,
    channel: u64,
    control: u64,
    now: u128,
    r: Result<(VoiceSessionToken, Option<VoiceSessionToken>), String>,
)
    requires
        old(m).wf(),
        call_ensures(DiscordVoiceManager::begin_session, (m, guild, channel, control, now), r),
    ensures
        !old(m).rules().enabled ==> r->Err_0@ == "Discord voice support is disabled"@,
        old(m).rules().enabled && !old(m).rules().stt_ready ==> r->Err_0@
            == "Discord voice requires [stt] enabled = true and a configured API key"@,
        old(m).rules().enabled && old(m).rules().stt_ready && old(m).rules().allowed.len() > 0
            && !old(m).rules().allowed.contains(channel) ==> r->Err_0@
            == "voice channel is not in discord.voice.allowed_channels"@,
        old(m).rules().enabled && old(m).rules().stt_ready && (old(m).rules().allowed.len() == 0
            || old(m).rules().allowed.contains(channel)) && old(m)@.contains_key(guild) ==> {
            let s = old(m)@[guild];
            &&& joined(s) || s.state is Stopping ==> r->Err_0@
                == "a Discord voice session is already active in this guild"@
            &&& !joined(s) && !(s.state is Stopping) && busy(s) ==> r->Err_0@
                == "the previous Discord voice session still has pending STT work"@
        },
{
}

/// All channels may be joined where none is named, and otherwise those that are named.
pub proof fn lemma_channels_are_allowed(m: &DiscordVoiceManager, channel: u64, r: bool)
    requires
        m.wf(),
        call_ensures(DiscordVoiceManager::voice_channel_allowed, (m, channel), r),
    ensures
        m.rules().allowed.contains(channel) ==> r,
        m.rules().allowed.len() == 0 ==> r,
        m.rules().allowed.len() > 0 && !m.rules().allowed.contains(channel) ==> !r,
{
}

/// A session that was joined listens; the token of any other session changes nothing.
pub proof fn lemma_the_guilds_session_listens(
    m: &mut DiscordVoiceManager,
    token: VoiceSessionToken,
    r: bool,
)
    requires
        old(m).wf(),
        call_ensures(DiscordVoiceManager::mark_listening, (m, token), r),
    ensures
        r <==> names(old(m)@, token) && old(m)@[token.guild()].state is Connecting,
        r ==> names(final(m)@, token) && final(m)@[token.guild()].state is Listening
            && final(m)@[token.guild()].queue == old(m)@[token.guild()].queue,
        !r ==> final(m)@ == old(m)@,
        only_at(old(m)@, final(m)@, token.guild()),
{
}

/// A session that is restored in its own channel goes on. One that is restored elsewhere, or where
/// it may no longer be, has failed and is to be left.
pub proof fn lemma_sessions_stay_in_their_channel(
    m: &mut DiscordVoiceManager,
    token: VoiceSessionToken,
    channel: u64,
    now: u128,
    r: (bool, bool),
)
    requires
        old(m).wf(),
        call_ensures(DiscordVoiceManager::note_reconnected, (m, token, channel, now), r),
    ensures
        !names(old(m)@, token) ==> r == (false, false) && final(m)@ == old(m)@,
        names(old(m)@, token) ==> {
            let s = old(m)@[token.guild()];
            let home = channel == s.voice_channel && (old(m).rules().allowed.len() == 0 || old(
                m,
            ).rules().allowed.contains(channel));
            &&& names(final(m)@, token) || s.id != token.session()
            &&& !home ==> r == (false, true) && final(m)@[token.guild()].state is Failed
                && !final(m)@[token.guild()].accepting
            &&& home ==> r.0 == joined(s) && !r.1 && final(m)@[token.guild()].state == s.state
        },
        only_at(old(m)@, final(m)@, token.guild()),
{
    if names(old(m)@, token) {
        let s = old(m)@[token.guild()];
        let items = session::flushed_segments(s.captures, s.limits);
        let t = SessionModel {
            captures: session::flushed_captures(s.captures, s.limits),
            ..s
        };
        session::lemma_enqueued_all_keeps(t, items);
    }
}

/// A joined session whose driver fails has failed; one whose time is over is stopping. Either takes
/// in nothing more. A session that is not joined, and every other session, is left as it is.
pub proof fn lemma_joined_sessions_end(
    m: &mut DiscordVoiceManager,
    n: &mut DiscordVoiceManager,
    token: VoiceSessionToken,
    now: u128,
    failed: bool,
    expired: bool,
)
    requires
        old(m).wf(),
        old(n).wf(),
        call_ensures(DiscordVoiceManager::mark_driver_failed, (m, token, now), failed),
        call_ensures(DiscordVoiceManager::expire_session, (n, token, now), expired),
    ensures
        failed <==> names(old(m)@, token) && joined(old(m)@[token.guild()]),
        expired <==> names(old(n)@, token) && joined(old(n)@[token.guild()]),
        failed ==> final(m)@[token.guild()].state is Failed && !final(m)@[token.guild()].accepting,
        expired ==> final(n)@[token.guild()].state is Stopping
            && !final(n)@[token.guild()].accepting,
        failed && old(m)@[token.guild()].ended is None ==> final(m)@[token.guild()].ended == Some(
            now,
        ),
        expired && old(n)@[token.guild()].ended is None ==> final(n)@[token.guild()].ended == Some(
            now,
        ),
        !failed ==> final(m)@ == old(m)@,
        !expired ==> final(n)@ == old(n)@,
        only_at(old(m)@, final(m)@, token.guild()),
        only_at(old(n)@, final(n)@, token.guild()),
{
}

/// Only the guild's own session is discarded.
pub proof fn lemma_sessions_are_discarded(
    m: &mut DiscordVoiceManager,
    token: VoiceSessionToken,
    r: bool,
)
    requires
        old(m).wf(),
        call_ensures(DiscordVoiceManager::discard_session, (m, token), r),
    ensures
        r <==> names(old(m)@, token),
        r ==> !final(m)@.contains_key(token.guild()),
        !r ==> final(m)@ == old(m)@,
        only_at(old(m)@, final(m)@, token.guild()),
{
}

/// A session can be stopped while it is joined, while it is stopping, and after it failed. It then
/// takes in nothing more and keeps its transcript.
pub proof fn lemma_sessions_are_stopped(
    m: &mut DiscordVoiceManager,
    guild: u64,
    now: u128,
    r: Result<(VoiceSessionToken, VoiceSessionStatus), String>,
)
    requires
        old(m).wf(),
        call_ensures(DiscordVoiceManager::start_stopping, (m, guild, now), r),
    ensures
        r is Ok <==> old(m)@.contains_key(guild) && (joined(old(m)@[guild]) || old(m)@[guild].state
            is Stopping || old(m)@[guild].state is Failed),
        r is Ok ==> {
            &&& names(final(m)@, r->Ok_0.0)
            &&& r->Ok_0.0.guild() == guild
            &&& final(m)@[guild].state is Stopping
            &&& r->Ok_0.1.state is Stopping
            &&& r->Ok_0.1.guild_id == guild
            &&& r->Ok_0.1.transcript_entries == final(m)@[guild].transcript.len()
            &&& final(m)@[guild].transcript == old(m)@[guild].transcript
            &&& old(m)@[guild].state is Stopping ==> final(m)@[guild] == old(m)@[guild]
            &&& !(old(m)@[guild].state is Stopping) ==> !final(m)@[guild].accepting
        },
        r is Err ==> final(m)@ == old(m)@,
        !old(m)@.contains_key(guild) ==> r->Err_0@
            == "no Discord voice session exists in this guild"@,
        old(m)@.contains_key(guild) && r is Err ==> r->Err_0@
            == "the Discord voice session is not active"@,
        only_at(old(m)@, final(m)@, guild),
{
    if old(m)@.contains_key(guild) {
        let s = old(m)@[guild];
        let items = session::flushed_segments(s.captures, s.limits);
        let t = SessionModel {
            captures: session::flushed_captures(s.captures, s.limits),
            ..s
        };
        session::lemma_enqueued_all_keeps(t, items);
    }
}

/// Stopping by a token is stopping the guild's session, if the token is of that one.
pub proof fn lemma_sessions_are_stopped_by_token(
    m: &mut DiscordVoiceManager,
    token: VoiceSessionToken,
    now: u128,
    r: Result<VoiceSessionStatus, String>,
)
    requires
        old(m).wf(),
        call_ensures(DiscordVoiceManager::start_stopping_token, (m, token, now), r),
    ensures
        r is Ok <==> names(old(m)@, token) && (joined(old(m)@[token.guild()])
            || old(m)@[token.guild()].state is Stopping || old(m)@[token.guild()].state is Failed),
        r is Ok ==> final(m)@[token.guild()].state is Stopping && r->Ok_0.state is Stopping,
        r is Err ==> final(m)@ == old(m)@,
        !old(m)@.contains_key(token.guild()) ==> r->Err_0@
            == "the Discord voice session no longer exists"@,
        old(m)@.contains_key(token.guild()) && !names(old(m)@, token) ==> r->Err_0@
            == "the Discord voice session was replaced"@,
        names(old(m)@, token) && r is Err ==> r->Err_0@
            == "the Discord voice session is not active"@,
        only_at(old(m)@, final(m)@, token.guild()),
{
}

/// A session that is stopping reaches its last state: stopped, failed or expired, as it is told.
/// One that is not stopping does not.
pub proof fn lemma_stopping_sessions_settle(
    m: &mut DiscordVoiceManager,
    n: &mut DiscordVoiceManager,
    o: &mut DiscordVoiceManager,
    token: VoiceSessionToken,
    now: u128,
    stopped: Option<VoiceSessionStatus>,
    failed: Option<VoiceSessionStatus>,
    expired: Option<VoiceSessionStatus>,
)
    requires
        old(m).wf() && old(n).wf() && old(o).wf(),
        call_ensures(DiscordVoiceManager::finish_stop, (m, token, now), stopped),
        call_ensures(DiscordVoiceManager::finish_failed, (n, token, now), failed),
        call_ensures(DiscordVoiceManager::finish_expired, (o, token, now), expired),
    ensures
        stopped is Some <==> names(old(m)@, token) && old(m)@[token.guild()].state is Stopping,
        failed is Some <==> names(old(n)@, token) && old(n)@[token.guild()].state is Stopping,
        expired is Some <==> names(old(o)@, token) && old(o)@[token.guild()].state is Stopping,
        stopped is Some ==> final(m)@[token.guild()].state is Stopped && stopped->0.state
            is Stopped,
        failed is Some ==> final(n)@[token.guild()].state is Failed && failed->0.state is Failed,
        expired is Some ==> final(o)@[token.guild()].state is Expired && expired->0.state
            is Expired,
        stopped is None ==> final(m)@ == old(m)@,
        failed is None ==> final(n)@ == old(n)@,
        expired is None ==> final(o)@ == old(o)@,
        stopped is Some ==> final(m)@[token.guild()].transcript
            == old(m)@[token.guild()].transcript,
        only_at(old(m)@, final(m)@, token.guild()),
{
}

/// A guild's session is told of by guild and by token alike, and only by its own token.
pub proof fn lemma_guilds_are_described(
    m: &DiscordVoiceManager,
    token: VoiceSessionToken,
    now: u128,
    by_guild: Option<VoiceSessionStatus>,
    by_token: Option<VoiceSessionStatus>,
    own: Option<VoiceSessionToken>,
)
    requires
        m.wf(),
        call_ensures(DiscordVoiceManager::status, (m, token.guild(), now), by_guild),
        call_ensures(DiscordVoiceManager::status_for, (m, token, now), by_token),
        call_ensures(DiscordVoiceManager::session_token, (m, token.guild()), own),
    ensures
        by_guild is Some <==> m@.contains_key(token.guild()),
        by_token is Some <==> names(m@, token),
        own is Some <==> m@.contains_key(token.guild()),
        own is Some ==> names(m@, own->0) && own->0.guild() == token.guild(),
        by_guild is Some ==> {
            &&& by_guild->0.guild_id == token.guild()
            &&& by_guild->0.state == m@[token.guild()].state
            &&& by_guild->0.voice_channel_id == m@[token.guild()].voice_channel
        },
        by_token is Some ==> {
            &&& by_token->0.guild_id == token.guild()
            &&& by_token->0.state == m@[token.guild()].state
            &&& by_token->0.elapsed_nanos == by_guild->0.elapsed_nanos
            &&& by_token->0.pending_segments == by_guild->0.pending_segments
        },
{
}

/// A session is drained when nothing of it waits or is being transcribed, and so is one that the
/// guild no longer has.
pub proof fn lemma_drained_sessions_have_nothing_left(
    m: &DiscordVoiceManager,
    token: VoiceSessionToken,
    r: bool,
)
    requires
        m.wf(),
        call_ensures(DiscordVoiceManager::is_drained, (m, token), r),
    ensures
        names(m@, token) ==> (r <==> !busy(m@[token.guild()])),
        !names(m@, token) ==> r,
{
}

/// The bot speaks where speech can be synthesised and the session is joined.
pub proof fn lemma_joined_sessions_may_speak(
    m: &DiscordVoiceManager,
    token: VoiceSessionToken,
    r: bool,
)
    requires
        m.wf(),
        call_ensures(DiscordVoiceManager::may_speak, (m, token), r),
    ensures
        r <==> m.rules().tts_ready && names(m@, token) && joined(m@[token.guild()]),
{
}

/// A session that listens goes deaf while the bot speaks in it, and hears again when that speech
/// has ended.
pub proof fn lemma_speaking_sessions_are_deaf(
    m: &mut DiscordVoiceManager,
    token: VoiceSessionToken,
    r: Option<u64>,
    n: &mut DiscordVoiceManager,
    epoch: u64,
    ended: bool,
)
    requires
        old(m).wf(),
        call_ensures(DiscordVoiceManager::begin_playback, (m, token), r),
        *old(n) == *final(m),
        call_ensures(DiscordVoiceManager::finish_playback, (n, token, epoch), ended),
    ensures
        r is Some <==> names(old(m)@, token) && old(m)@[token.guild()].state is Listening,
        r is Some ==> {
            &&& final(m)@[token.guild()].suppressed
            &&& final(m)@[token.guild()].captures.len() == 0
            &&& r->0 == final(m)@[token.guild()].epoch
            &&& ended <==> epoch == r->0
            &&& ended ==> !final(n)@[token.guild()].suppressed
            &&& !ended ==> final(n)@[token.guild()].suppressed
        },
        r is None ==> final(m)@ == old(m)@,
        only_at(old(m)@, final(m)@, token.guild()),
        only_at(old(n)@, final(n)@, token.guild()),
{
}

/// What happens in a voice channel happens to the session that the token names, and to it as if
/// it had been told itself.
pub proof fn lemma_events_reach_their_session(
    m: &mut DiscordVoiceManager,
    token: VoiceSessionToken,
    ssrc: u32,
    user: u64,
    s: &mut VoiceSession,
)
    requires
        old(m).wf(),
        old(s).wf(),
        call_ensures(DiscordVoiceManager::note_speaking, (m, token, ssrc, user), ()),
        call_ensures(VoiceSession::note_speaking, (s, ssrc, user), ()),
    ensures
        names(old(m)@, token) && old(s)@ == old(m)@[token.guild()] ==> final(m)@[token.guild()]
            == final(s)@,
        !names(old(m)@, token) ==> final(m)@ == old(m)@,
        only_at(old(m)@, final(m)@, token.guild()),
{
}

/// A speaker leaves the session that the token names, and a tick is heard in it.
pub proof fn lemma_ticks_reach_their_session(
    m: &mut DiscordVoiceManager,
    n: &mut DiscordVoiceManager,
    token: VoiceSessionToken,
    user: u64,
    tick: &VoiceTick,
    s: &mut VoiceSession,
    t: &mut VoiceSession,
)
    requires
        old(m).wf() && old(n).wf(),
        old(s).wf() && old(t).wf(),
        call_ensures(DiscordVoiceManager::note_disconnect, (m, token, user), ()),
        call_ensures(DiscordVoiceManager::handle_tick, (n, token, tick), ()),
        call_ensures(VoiceSession::note_disconnect, (s, user), ()),
        call_ensures(VoiceSession::handle_tick, (t, tick), ()),
    ensures
        names(old(m)@, token) && old(s)@ == old(m)@[token.guild()] ==> final(m)@[token.guild()]
            == final(s)@,
        names(old(n)@, token) && old(t)@ == old(n)@[token.guild()] ==> final(n)@[token.guild()]
            == final(t)@,
        !names(old(m)@, token) ==> final(m)@ == old(m)@,
        !names(old(n)@, token) ==> final(n)@ == old(n)@,
        only_at(old(m)@, final(m)@, token.guild()),
        only_at(old(n)@, final(n)@, token.guild()),
{
}

/// The next segment of a session to transcribe is the one that has waited longest, one at a time;
/// a replaced session gives out none and takes none back.
pub proof fn lemma_work_belongs_to_its_session(
    m: &mut DiscordVoiceManager,
    n: &mut DiscordVoiceManager,
    token: VoiceSessionToken,
    job: Option<SegmentJob>,
    done: CompletedSegment,
    event: Option<FinalTranscriptEvent>,
)
    requires
        old(m).wf() && old(n).wf(),
        call_ensures(DiscordVoiceManager::next_segment_job, (m, token), job),
        call_ensures(DiscordVoiceManager::complete_segment_job, (n, token, done), event),
    ensures
        job is Some <==> names(old(m)@, token) && !old(m)@[token.guild()].in_flight
            && old(m)@[token.guild()].queue.len() > 0,
        job is Some ==> {
            &&& job->0@ == old(m)@[token.guild()].queue[0]
            &&& final(m)@[token.guild()].in_flight
            &&& final(m)@[token.guild()].queue.len() == old(m)@[token.guild()].queue.len() - 1
        },
        job is None ==> final(m)@ == old(m)@,
        !names(old(n)@, token) || !old(n)@[token.guild()].in_flight ==> event is None && final(n)@
            == old(n)@,
        names(old(n)@, token) && old(n)@[token.guild()].in_flight ==> {
            &&& !final(n)@[token.guild()].in_flight
            &&& done.transcript is None ==> event is None && final(n)@[token.guild()].transcript
                == old(n)@[token.guild()].transcript
            &&& event is Some ==> event->0.token == token && event->0.text@ == done.transcript->0@
                && event->0.key.speaker_id == done.speaker_id
            &&& event is Some ==> final(n)@[token.guild()].transcript.last().text@
                == done.transcript->0@
        },
        only_at(old(m)@, final(m)@, token.guild()),
        only_at(old(n)@, final(n)@, token.guild()),
{
}

/// A transcript is rendered for a guild that has a session with at least one entry.
pub proof fn lemma_transcripts_are_rendered(
    m: &DiscordVoiceManager,
    guild: u64,
    r: Result<String, String>,
)
    requires
        m.wf(),
        call_ensures(DiscordVoiceManager::render_transcript, (m, guild), r),
    ensures
        r is Ok <==> m@.contains_key(guild) && m@[guild].transcript.len() > 0,
        !m@.contains_key(guild) ==> r->Err_0@ == "no Discord voice session exists in this guild"@,
        m@.contains_key(guild) && m@[guild].transcript.len() == 0 ==> r->Err_0@
            == "the Discord voice session has no completed transcript entries yet"@,
{
}

/// A configuration is taken when its limits are positive and fit, and its channels are numbers
/// other than zero.
pub proof fn lemma_limits_must_be_positive(
    config: DiscordVoiceConfig,
    stt: SttConfig,
    r: Result<DiscordVoiceManager, String>,
)
    requires
        call_ensures(DiscordVoiceManager::new, (config, stt), r),
    ensures
        config.max_pending_segments == 0 ==> r is Err && r->Err_0@
            == "discord.voice.max_pending_segments must be greater than zero"@,
        config.max_pending_segments > 0 && config.max_transcript_bytes == 0 ==> r is Err
            && r->Err_0@ == "discord.voice.max_transcript_bytes must be greater than zero"@,
        config.max_pending_segments > 0 && config.max_transcript_bytes > 0 ==> {
            &&& config.max_session_minutes == 0 ==> r is Err && r->Err_0@
                == "discord.voice.max_session_minutes must be greater than zero"@
            &&& config.max_session_minutes > 0 && config.silence_ms > 0xffff_ffff ==> r is Err
                && r->Err_0@ == "discord.voice.silence_ms is too large"@
            &&& config.max_session_minutes > 0 && config.silence_ms <= 0xffff_ffff
                && config.max_segment_seconds * 1_000 > 0xffff_ffff ==> r is Err && r->Err_0@
                == "discord.voice.max_segment_seconds is too large"@
        },
        config.silence_ms == 0 || config.max_segment_seconds == 0 ==> r is Err,
        r is Ok ==> {
            let m = r->Ok_0;
            &&& m.rules().enabled == config.enabled
            &&& m.rules().stt_ready <==> stt.enabled && stt.api_key@.len() > 0
            &&& !m.rules().tts_ready
            &&& m.rules().capacity == config.max_pending_segments
            &&& m.rules().max_text_bytes == config.max_transcript_bytes
            &&& m.rules().session_minutes == config.max_session_minutes
            &&& m.rules().limits.silence_threshold == 500
            &&& m.rules().limits.minimum_speech == 4_800
            &&& m.rules().limits.trailing_silence == 48 * config.silence_ms
            &&& m.rules().limits.maximum_segment == 48_000 * config.max_segment_seconds
            &&& forall|g: u64| !#[trigger] m@.contains_key(g)
            &&& m.next_id() == 1
            &&& !m.hears_intents()
        },
{
}

/// With a synthesiser a manager is as without one, but that it can speak when the synthesiser is
/// enabled and has a key.
pub proof fn lemma_speech_is_optional(
    config: DiscordVoiceConfig,
    stt: SttConfig,
    tts: TtsConfig,
    r: Result<DiscordVoiceManager, String>,
    s: Result<DiscordVoiceManager, String>,
)
    requires
        call_ensures(DiscordVoiceManager::new, (config, stt), r),
        call_ensures(DiscordVoiceManager::new_with_tts, (config, stt, tts), s),
    ensures
        r is Ok <==> s is Ok,
        r is Err ==> r->Err_0@ == s->Err_0@,
        s is Ok ==> {
            &&& s->Ok_0.rules().tts_ready <==> tts.enabled && !text::blank(tts.api_key@)
            &&& s->Ok_0.rules().limits == r->Ok_0.rules().limits
            &&& s->Ok_0.rules().allowed == r->Ok_0.rules().allowed
            &&& s->Ok_0.rules().enabled == r->Ok_0.rules().enabled
        },
{
}

/// The channels that may be joined are the numbers that are named, each of them and no others.
/// One that is no number, or zero, is an error.
pub proof fn lemma_named_channels_are_allowed(raws: Seq<Seq<char>>, raw: Seq<char>, id: u64)
    ensures
        manager::channel_ids(Seq::empty()) == Set::<u64>::empty(),
        manager::channel_ids(raws.push(raw)).contains(id) <==> manager::channel_ids(raws).contains(
            id,
        ) || text::parsed_number(raw) == Some(id as nat),
        manager::channels_error(raws) is Some ==> manager::channels_error(raws.push(raw))
            == manager::channels_error(raws),
        manager::channels_error(raws) is None ==> {
            let e = manager::channels_error(raws.push(raw));
            &&& text::parsed_number(raw) is None || text::parsed_number(raw)->0 > u64::MAX ==> e
                == Some(
                "invalid Discord voice channel ID in discord.voice.allowed_channels: "@ + raw,
            )
            &&& text::parsed_number(raw) == Some(0nat) ==> e == Some(
                "Discord voice channel IDs must be non-zero: "@ + raw,
            )
            &&& text::parsed_number(raw) is Some && 0 < text::parsed_number(raw)->0 <= u64::MAX
                ==> e is None
        },
        manager::channels_error(Seq::empty()) is None,
{
    assert(raws.push(raw).drop_last() =~= raws);
}

/// A session lasts as many minutes as are configured.
pub proof fn lemma_minutes_have_sixty_seconds(m: &DiscordVoiceManager, r: u64)
    requires
        call_ensures(DiscordVoiceManager::session_timeout_secs, (m,), r),
        m.rules().session_minutes * 60 <= u64::MAX,
    ensures
        r == 60 * m.rules().session_minutes,
{
}

/// What is said of a confirmed intent: what was planned, if the work is queued or lies elsewhere,
/// and otherwise that it did not start, and whether it can be confirmed again.
pub proof fn lemma_feedback_is_honest(
    feedback: Option<String>,
    action: SpokenAction,
    r: Option<String>,
)
    requires
        call_ensures(manager::voice_intent_feedback, (feedback, action), r),
    ensures
        action is Elsewhere || action is Queued ==> (r is Some <==> feedback is Some) && (r is Some
            ==> r->0@ == feedback->0@),
        action is Failed ==> r is Some && r->0@ == if action->Failed_confirmation_reopened {
            "沒有成功開始。你可以再說一次對，或更正指令。"@
        } else {
            "沒有成功開始。請重新說出指令。"@
        },
        action is Unavailable ==> r is Some && r->0@
            == if action->Unavailable_confirmation_reopened {
            "目前無法開始。你可以再說一次對，或更正指令。"@
        } else {
            "目前無法開始。請重新說出指令。"@
        },
{
}

/// What a manager tells of itself is what it was configured with.
pub proof fn lemma_managers_are_told(
    m: &DiscordVoiceManager,
    enabled: bool,
    stt: bool,
    tts: bool,
    guilds: Vec<u64>,
    g: u64,
)
    requires
        m.wf(),
        call_ensures(DiscordVoiceManager::enabled, (m,), enabled),
        call_ensures(DiscordVoiceManager::stt_ready, (m,), stt),
        call_ensures(DiscordVoiceManager::tts_ready, (m,), tts),
        call_ensures(DiscordVoiceManager::guild_ids, (m,), guilds),
    ensures
        enabled == m.rules().enabled,
        stt == m.rules().stt_ready,
        tts == m.rules().tts_ready,
        guilds@.contains(g) <==> m@.contains_key(g),
        guilds@.no_duplicates(),
{
    assert(guilds@.to_set().contains(g) <==> m@.dom().contains(g));
}

/// With a broker attached, new sessions listen for intents; nothing else changes.
pub proof fn lemma_brokers_are_attached(m: &mut DiscordVoiceManager)
    requires
        old(m).wf(),
        call_ensures(DiscordVoiceManager::attach_intent_broker, (m,), ()),
    ensures
        final(m).hears_intents(),
        final(m)@ == old(m)@,
        final(m).rules() == old(m).rules(),
        final(m).next_id() == old(m).next_id(),
{
}

/// The session of a guild is found, with what is in it.
pub proof fn lemma_sessions_are_found(
    m: &DiscordVoiceManager,
    guild: u64,
    r: Option<&VoiceSession>,
)
    requires
        m.wf(),
        call_ensures(DiscordVoiceManager::session, (m, guild), r),
    ensures
        r is Some <==> m@.contains_key(guild),
        r is Some ==> r->0@ == m@[guild],
{
}

} // verus!
