//! One voice session: its speakers, their speech, and the segments that wait for transcription.

use vstd::prelude::*;
use vstd::string::*;
use std::collections::HashMap;
use crate::discord_voice::{
    CaptureLimits, CaptureModel, PcmCaptureConfig, PcmSegment, SegmentBoundary, SegmentModel,
    SpeakerPcmBuffer, TranscriptEntry, TranscriptStore, TranscriptStoreStats, VoiceDropCounters,
    VoiceDropSnapshot,
};
use crate::discord_voice;
use crate::discord_voice_intent::{FinalTranscriptEvent, TranscriptKey};
use crate::discord_voice_runtime::VoiceSessionToken;
use crate::text;

verus! {

broadcast use vstd::std_specs::hash::group_hash_axioms;

/// The frames of a tick: 20 ms at 48 kHz.
pub const VOICE_TICK_FRAMES: usize = 960;

/// How many speakers are captured at most.
pub const MAX_TRACKED_SPEAKERS: usize = 25;

/// How a voice session stands.
#[derive(Debug, Clone, Copy, PartialEq, Eq, Structural)]
pub enum VoiceConnectionState {
    Connecting,
    Listening,
    Stopping,
    Stopped,
    Expired,
    Failed,
}

impl VoiceConnectionState {
    /// Whether the session is joined or about to be.
    pub open spec fn active(self) -> bool {
        self is Connecting || self is Listening
    }

    pub fn is_active(&self) -> (r: bool)
        ensures
            r == self.active(),
    {
        match self {
            VoiceConnectionState::Connecting => true,
            VoiceConnectionState::Listening => true,
            _ => false,
        }
    }
}

/// A segment of speech that waits for transcription, on the session's timeline.
#[derive(Debug)]
pub struct SegmentJob {
    pub speaker_id: u64,
    pub start_frame: u64,
    pub end_frame: u64,
    pub segment: PcmSegment,
}

/// A waiting segment as a mathematical value.
#[verifier::ext_equal]
pub struct JobModel {
    pub speaker: u64,
    pub start: int,
    pub end: int,
    pub segment: SegmentModel,
}

impl View for SegmentJob {
    type V = JobModel;

    open spec fn view(&self) -> JobModel {
        JobModel {
            speaker: self.speaker_id,
            start: self.start_frame as int,
            end: self.end_frame as int,
            segment: self.segment@,
        }
    }
}

pub open spec fn job_models(jobs: Seq<SegmentJob>) -> Seq<JobModel> {
    jobs.map_values(|j: SegmentJob| j@)
}

/// Where a segment of a speaker stands on the session's timeline.
pub fn session_segment_range(base_frame: u64, segment: &PcmSegment) -> (r: (u64, u64))
    ensures
        r.0 == discord_voice::sat(base_frame + segment.start_frame),
        r.1 == discord_voice::sat(base_frame + segment.end_frame),
{
    (
        base_frame.saturating_add(segment.start_frame),
        base_frame.saturating_add(segment.end_frame),
    )
}

/// The capture of one speaker, whose timeline starts at a frame of the session.
#[derive(Debug)]
pub struct SpeakerCapture {
    pub user_id: u64,
    pub base_frame: u64,
    pub buffer: SpeakerPcmBuffer,
}

/// The capture of a speaker as a mathematical value.
#[verifier::ext_equal]
pub struct SpeakerModel {
    pub user: u64,
    pub base: u64,
    pub capture: CaptureModel,
}

impl View for SpeakerCapture {
    type V = SpeakerModel;

    open spec fn view(&self) -> SpeakerModel {
        SpeakerModel { user: self.user_id, base: self.base_frame, capture: self.buffer@ }
    }
}

pub open spec fn speaker_models(captures: Seq<SpeakerCapture>) -> Seq<SpeakerModel> {
    captures.map_values(|c: SpeakerCapture| c@)
}

/// A capture that has heard nothing.
pub open spec fn fresh_capture() -> CaptureModel {
    CaptureModel {
        start: None,
        samples: Seq::empty(),
        speech: 0,
        pending: 0,
        received: 0,
        emitted: 0,
        ignored: 0,
        segments: 0,
    }
}

/// Which capture is a speaker's.
pub open spec fn capture_index(captures: Seq<SpeakerModel>, user: u64) -> Option<int>
    decreases captures.len(),
{
    if captures.len() == 0 {
        None
    } else {
        match capture_index(captures.drop_last(), user) {
            Some(i) => Some(i),
            None => if captures.last().user == user {
                Some(captures.len() - 1)
            } else {
                None
            },
        }
    }
}

/// The captures after all of them were flushed.
pub open spec fn flushed_captures(captures: Seq<SpeakerModel>, limits: CaptureLimits) -> Seq<
    SpeakerModel,
> {
    captures.map_values(
        |c: SpeakerModel|
            SpeakerModel { capture: c.capture.finished(limits, SegmentBoundary::Flush).0, ..c },
    )
}

/// The segments that flushing completes, each with its speaker and the start of the speaker's
/// timeline.
pub open spec fn flushed_segments(captures: Seq<SpeakerModel>, limits: CaptureLimits) -> Seq<
    (u64, u64, SegmentModel),
>
    decreases captures.len(),
{
    if captures.len() == 0 {
        Seq::empty()
    } else {
        let before = flushed_segments(captures.drop_last(), limits);
        let last = captures.last();
        match last.capture.finished(limits, SegmentBoundary::Flush).1 {
            Some(segment) => before.push((last.user, last.base, segment)),
            None => before,
        }
    }
}

/// Segments with their speaker and the start of the speaker's timeline.
pub open spec fn owned_by(user: u64, base: u64, segments: Seq<SegmentModel>) -> Seq<
    (u64, u64, SegmentModel),
> {
    segments.map_values(|s: SegmentModel| (user, base, s))
}

/// A voice session as a mathematical value.
#[verifier::ext_equal]
pub struct SessionModel {
    pub id: u64,
    pub voice_channel: u64,
    pub control_channel: u64,
    pub state: VoiceConnectionState,
    /// When the session started and ended, on a clock in nanoseconds.
    pub started: u128,
    pub ended: Option<u128>,
    /// The frames since the session was joined.
    pub frames: int,
    pub limits: CaptureLimits,
    pub ssrc_to_user: Map<u32, u64>,
    pub user_to_ssrc: Map<u64, u32>,
    pub captures: Seq<SpeakerModel>,
    pub transcript: Seq<TranscriptEntry>,
    pub totals: TranscriptStoreStats,
    pub max_entries: nat,
    pub max_text_bytes: nat,
    /// Whether segments are taken in.
    pub accepting: bool,
    /// How many segments may wait.
    pub capacity: nat,
    pub queue: Seq<JobModel>,
    /// Whether a segment is being transcribed.
    pub in_flight: bool,
    pub stt_failures: int,
    pub drops: VoiceDropSnapshot,
    pub ignored_speakers: int,
    /// Whether nothing is captured because the bot speaks.
    pub suppressed: bool,
    /// How often the bot spoke.
    pub epoch: u64,
    /// Whether what is said is looked through for intents.
    pub intents: bool,
}

impl SessionModel {
    /// The session after a segment was completed. Segments that nobody takes in, or for which
    /// there is no room, are dropped and counted.
    pub open spec fn enqueued(self, item: (u64, u64, SegmentModel)) -> Self {
        if self.accepting && self.queue.len() < self.capacity {
            SessionModel {
                queue: self.queue.push(
                    JobModel {
                        speaker: item.0,
                        start: discord_voice::sat(item.1 + item.2.start),
                        end: discord_voice::sat(item.1 + item.2.end),
                        segment: item.2,
                    },
                ),
                ..self
            }
        } else {
            SessionModel {
                drops: VoiceDropSnapshot {
                    segments: discord_voice::sat(self.drops.segments + 1) as u64,
                    ..self.drops
                },
                ..self
            }
        }
    }

    pub open spec fn enqueued_all(self, items: Seq<(u64, u64, SegmentModel)>) -> Self
        decreases items.len(),
    {
        if items.len() == 0 {
            self
        } else {
            self.enqueued_all(items.drop_last()).enqueued(items.last())
        }
    }

    /// The session after all captures were flushed.
    pub open spec fn flushed(self) -> Self {
        SessionModel {
            captures: flushed_captures(self.captures, self.limits),
            ..self
        }.enqueued_all(flushed_segments(self.captures, self.limits))
    }

    /// The session after capturing ended: what was captured is flushed, and nothing more is taken
    /// in. When it ended first, counts.
    pub open spec fn ending(self, state: VoiceConnectionState, now: u128) -> Self {
        SessionModel {
            state,
            ended: match self.ended {
                Some(at) => Some(at),
                None => Some(now),
            },
            accepting: false,
            ..self.flushed()
        }
    }

    /// The session with a capture for a speaker, whose timeline starts at `base` where it is new.
    pub open spec fn with_capture(self, user: u64, base: u64) -> Self {
        match capture_index(self.captures, user) {
            Some(_) => self,
            None => SessionModel {
                captures: self.captures.push(
                    SpeakerModel { user, base, capture: fresh_capture() },
                ),
                ..self
            },
        }
    }

    /// The frame at which the current tick started.
    pub open spec fn tick_start(self) -> u64 {
        if self.frames < VOICE_TICK_FRAMES {
            0
        } else {
            (self.frames - VOICE_TICK_FRAMES) as u64
        }
    }

    /// The session after a stream delivered samples. Streams of unknown speakers are not heard, and
    /// samples that are not stereo are refused.
    pub open spec fn heard(self, ssrc: u32, samples: Option<Seq<i16>>) -> Self {
        if !self.ssrc_to_user.contains_key(ssrc) {
            self
        } else {
            match samples {
                None => self,
                Some(samples) => {
                    let user = self.ssrc_to_user[ssrc];
                    let s = self.with_capture(user, self.tick_start());
                    if samples.len() % 2 != 0 {
                        s
                    } else {
                        let i = capture_index(s.captures, user)->0;
                        let before = s.captures[i];
                        let (capture, segments) = before.capture.after_samples(s.limits, samples);
                        SessionModel {
                            captures: s.captures.update(i, SpeakerModel { capture, ..before }),
                            ..s
                        }.enqueued_all(owned_by(user, before.base, segments))
                    }
                },
            }
        }
    }

    /// The session after a stream was silent for a tick.
    pub open spec fn quiet(self, ssrc: u32) -> Self {
        if !self.ssrc_to_user.contains_key(ssrc) {
            self
        } else {
            let user = self.ssrc_to_user[ssrc];
            let s = self.with_capture(user, self.tick_start());
            let i = capture_index(s.captures, user)->0;
            let before = s.captures[i];
            let (capture, segments) = before.capture.after_silence(
                s.limits,
                VOICE_TICK_FRAMES as int,
            );
            SessionModel {
                captures: s.captures.update(i, SpeakerModel { capture, ..before }),
                ..s
            }.enqueued_all(owned_by(user, before.base, segments))
        }
    }

    pub open spec fn heard_all(self, voices: Seq<(u32, Option<Seq<i16>>)>) -> Self
        decreases voices.len(),
    {
        if voices.len() == 0 {
            self
        } else {
            self.heard_all(voices.drop_last()).heard(voices.last().0, voices.last().1)
        }
    }

    pub open spec fn quiet_all(self, ssrcs: Seq<u32>) -> Self
        decreases ssrcs.len(),
    {
        if ssrcs.len() == 0 {
            self
        } else {
            self.quiet_all(ssrcs.drop_last()).quiet(ssrcs.last())
        }
    }

    /// The session after a tick. While the bot speaks, nothing is captured.
    pub open spec fn ticked(self, speaking: Seq<(u32, Option<Seq<i16>>)>, silent: Seq<u32>) -> Self {
        if self.state != VoiceConnectionState::Listening {
            self
        } else {
            let s = SessionModel {
                frames: discord_voice::sat(self.frames + VOICE_TICK_FRAMES),
                ..self
            };
            if s.suppressed {
                SessionModel { captures: Seq::empty(), ..s }
            } else {
                s.heard_all(speaking).quiet_all(silent)
            }
        }
    }
}

impl SessionModel {
    /// Who uses which stream after a speaker was seen on one: the stream has no other speaker any
    /// more, and the speaker no other stream.
    pub open spec fn streams_with(self, ssrc: u32, user: u64) -> (Map<u32, u64>, Map<u64, u32>) {
        let users = self.ssrc_to_user.insert(ssrc, user);
        let ssrcs = if self.ssrc_to_user.contains_key(ssrc) && self.ssrc_to_user[ssrc] != user
            && self.user_to_ssrc.contains_key(self.ssrc_to_user[ssrc])
            && self.user_to_ssrc[self.ssrc_to_user[ssrc]] == ssrc {
            self.user_to_ssrc.remove(self.ssrc_to_user[ssrc])
        } else {
            self.user_to_ssrc
        };
        let users = if ssrcs.contains_key(user) && ssrcs[user] != ssrc && users.contains_key(
            ssrcs[user],
        ) && users[ssrcs[user]] == user {
            users.remove(ssrcs[user])
        } else {
            users
        };
        (users, ssrcs.insert(user, ssrc))
    }

    /// The session after a speaker was seen on a stream. Beyond the limit, new speakers are
    /// ignored and counted.
    pub open spec fn speaking(self, ssrc: u32, user: u64) -> Self {
        if !self.state.active() {
            self
        } else if !self.user_to_ssrc.contains_key(user) && self.user_to_ssrc.len()
            >= MAX_TRACKED_SPEAKERS {
            SessionModel {
                ignored_speakers: discord_voice::sat(self.ignored_speakers + 1),
                ..self
            }
        } else {
            SessionModel {
                ssrc_to_user: self.streams_with(ssrc, user).0,
                user_to_ssrc: self.streams_with(ssrc, user).1,
                ..self
            }.with_capture(user, self.frames as u64)
        }
    }

    /// The session after a speaker left: their capture is flushed and forgotten.
    pub open spec fn left(self, user: u64) -> Self {
        let s = match capture_index(self.captures, user) {
            None => self,
            Some(i) => {
                let c = self.captures[i];
                let gone = SessionModel { captures: self.captures.remove(i), ..self };
                match c.capture.finished(self.limits, SegmentBoundary::Flush).1 {
                    Some(segment) => gone.enqueued((user, c.base, segment)),
                    None => gone,
                }
            },
        };
        if s.user_to_ssrc.contains_key(user) {
            SessionModel {
                ssrc_to_user: s.ssrc_to_user.remove(s.user_to_ssrc[user]),
                user_to_ssrc: s.user_to_ssrc.remove(user),
                ..s
            }
        } else {
            s
        }
    }

    /// Each stream belongs to one speaker and each speaker has one stream, and there are not too
    /// many of them.
    pub open spec fn streams_wf(self) -> bool {
        &&& self.user_to_ssrc.dom().finite()
        &&& self.user_to_ssrc.len() <= MAX_TRACKED_SPEAKERS
        &&& self.ssrc_to_user.dom().finite()
        &&& forall|ssrc: u32| #[trigger]
            self.ssrc_to_user.contains_key(ssrc) ==> self.user_to_ssrc.contains_key(
                self.ssrc_to_user[ssrc],
            ) && self.user_to_ssrc[self.ssrc_to_user[ssrc]] == ssrc
        &&& forall|user: u64| #[trigger]
            self.user_to_ssrc.contains_key(user) ==> self.ssrc_to_user.contains_key(
                self.user_to_ssrc[user],
            ) && self.ssrc_to_user[self.user_to_ssrc[user]] == user
    }

    /// Each speaker has one capture.
    pub open spec fn captures_wf(self) -> bool {
        forall|i: int, j: int|
            0 <= i < j < self.captures.len() ==> self.captures[i].user != self.captures[j].user
    }

    /// Every capture is sound, and so is every segment that waits for transcription.
    pub open spec fn audio_wf(self) -> bool {
        &&& self.limits.valid()
        &&& forall|i: int|
            0 <= i < self.captures.len() ==> (#[trigger] self.captures[i]).capture.wf(self.limits)
        &&& forall|i: int|
            0 <= i < self.queue.len() ==> CaptureModel::sound_segment(
                self.limits,
                (#[trigger] self.queue[i]).segment,
            )
    }
}

/// One voice session.
#[derive(Debug)]
pub struct VoiceSession {
    id: u64,
    voice_channel_id: u64,
    control_channel_id: u64,
    state: VoiceConnectionState,
    started_at: u128,
    ended_at: Option<u128>,
    session_frames: u64,
    capture_config: PcmCaptureConfig,
    ssrc_to_user: HashMap<u32, u64>,
    user_to_ssrc: HashMap<u64, u32>,
    captures: Vec<SpeakerCapture>,
    transcript: TranscriptStore,
    accepting: bool,
    capacity: usize,
    queue: Vec<SegmentJob>,
    job_in_flight: bool,
    stt_failures: u64,
    drops: VoiceDropCounters,
    ignored_speakers: u64,
    capture_suppressed: bool,
    playback_epoch: u64,
    intents: bool,
}

impl View for VoiceSession {
    type V = SessionModel;

    closed spec fn view(&self) -> SessionModel {
        SessionModel {
            id: self.id,
            voice_channel: self.voice_channel_id,
            control_channel: self.control_channel_id,
            state: self.state,
            started: self.started_at,
            ended: self.ended_at,
            frames: self.session_frames as int,
            limits: self.capture_config@,
            ssrc_to_user: self.ssrc_to_user@,
            user_to_ssrc: self.user_to_ssrc@,
            captures: speaker_models(self.captures@),
            transcript: self.transcript@,
            totals: self.transcript.totals(),
            max_entries: self.transcript.max_entries(),
            max_text_bytes: self.transcript.max_text_bytes(),
            accepting: self.accepting,
            capacity: self.capacity as nat,
            queue: job_models(self.queue@),
            in_flight: self.job_in_flight,
            stt_failures: self.stt_failures as int,
            drops: self.drops@,
            ignored_speakers: self.ignored_speakers as int,
            suppressed: self.capture_suppressed,
            epoch: self.playback_epoch,
            intents: self.intents,
        }
    }
}

impl VoiceSession {
    spec fn sound(&self) -> bool {
        &&& self.capture_config.wf()
        &&& self.transcript.wf()
        &&& forall|i: int|
            0 <= i < self.captures@.len() ==> (#[trigger] self.captures@[i]).buffer.wf()
                && self.captures@[i].buffer.configuration() == self.capture_config
        &&& forall|i: int|
            0 <= i < self.captures@.len() ==> (#[trigger] self.captures@[i]).buffer.limits()
                == self.capture_config@
    }

    fn find_capture(&self, user_id: u64) -> (r: Option<usize>)
        ensures
            match r {
                Some(i) => i < self.captures@.len() && capture_index(
                    speaker_models(self.captures@),
                    user_id,
                ) == Some(i as int),
                None => capture_index(speaker_models(self.captures@), user_id) is None,
            },
    {
        let ghost all = speaker_models(self.captures@);
        let mut found: Option<usize> = None;
        let mut i: usize = 0;
        assert(all.take(0) =~= Seq::empty());
        while i < self.captures.len()
            invariant
                i <= self.captures@.len(),
                all == speaker_models(self.captures@),
                match found {
                    Some(k) => capture_index(all.take(i as int), user_id) == Some(k as int) && k
                        < i,
                    None => capture_index(all.take(i as int), user_id) is None,
                },
            decreases self.captures@.len() - i,
        {
            assert(all.take(i + 1).drop_last() =~= all.take(i as int));
            assert(all.take(i + 1).last() == self.captures@[i as int]@);
            if found.is_none() && self.captures[i].user_id == user_id {
                found = Some(i);
            }
            i = i + 1;
        }
        assert(all.take(all.len() as int) =~= all);
        found
    }

    fn enqueue_segment(&mut self, speaker_id: u64, base_frame: u64, segment: PcmSegment)
        requires
            old(self).sound(),
        ensures
            final(self).sound(),
            final(self)@ == old(self)@.enqueued((speaker_id, base_frame, segment@)),
            final(self).captures == old(self).captures,
            final(self).capture_config == old(self).capture_config,
    {
        let ghost before = self@;
        let ghost jobs = self.queue@;
        if self.accepting && self.queue.len() < self.capacity {
            let (start_frame, end_frame) = session_segment_range(base_frame, &segment);
            self.queue.push(SegmentJob { speaker_id, start_frame, end_frame, segment });
            assert(job_models(self.queue@) =~= job_models(jobs).push(
                JobModel {
                    speaker: speaker_id,
                    start: start_frame as int,
                    end: end_frame as int,
                    segment: segment@,
                },
            ));
        } else {
            self.drops.record_segment();
        }
        assert(self@ =~= before.enqueued((speaker_id, base_frame, segment@)));
    }

    fn enqueue_segments(&mut self, speaker_id: u64, base_frame: u64, segments: Vec<PcmSegment>)
        requires
            old(self).sound(),
        ensures
            final(self).sound(),
            final(self)@ == old(self)@.enqueued_all(
                owned_by(speaker_id, base_frame, discord_voice::segment_models(segments@)),
            ),
            final(self).captures == old(self).captures,
            final(self).capture_config == old(self).capture_config,
    {
        let ghost before = *self;
        let ghost items = owned_by(
            speaker_id,
            base_frame,
            discord_voice::segment_models(segments@),
        );
        let mut segments = segments;
        let ghost n = segments@.len();
        let ghost all = segments@;
        let ghost mut done: int = 0;
        assert(items.take(0) =~= Seq::empty());
        while segments.len() > 0
            invariant
                self.sound(),
                0 <= done,
                done + segments@.len() == n,
                n == all.len(),
                segments@ == all.skip(done),
                items == owned_by(speaker_id, base_frame, discord_voice::segment_models(all)),
                self@ == before@.enqueued_all(items.take(done)),
                self.captures == before.captures,
                self.capture_config == before.capture_config,
            decreases segments@.len(),
        {
            let segment = segments.remove(0);
            assert(segment@ == discord_voice::segment_models(all)[done]);
            assert(items.take(done + 1).drop_last() =~= items.take(done));
            assert(items.take(done + 1).last() == (speaker_id, base_frame, segment@));
            self.enqueue_segment(speaker_id, base_frame, segment);
            proof {
                done = done + 1;
            }
            assert(segments@ =~= all.skip(done));
        }
        assert(items.take(items.len() as int) =~= items);
    }
}

/// Segments that were handed out, with their speakers.
pub open spec fn item_models(items: Seq<(u64, u64, PcmSegment)>) -> Seq<(u64, u64, SegmentModel)> {
    items.map_values(|i: (u64, u64, PcmSegment)| (i.0, i.1, i.2@))
}

impl VoiceSession {
    fn flush_buffers(&mut self) -> (r: Vec<(u64, u64, PcmSegment)>)
        requires
            old(self).sound(),
        ensures
            final(self).sound(),
            final(self)@ == (SessionModel {
                captures: flushed_captures(old(self)@.captures, old(self)@.limits),
                ..old(self)@
            }),
            item_models(r@) == flushed_segments(old(self)@.captures, old(self)@.limits),
    {
        let ghost before = *self;
        let ghost all = self@.captures;
        let ghost limits = self@.limits;
        let mut out: Vec<(u64, u64, PcmSegment)> = Vec::new();
        let mut i: usize = 0;
        assert(all.take(0) =~= Seq::empty());
        assert(item_models(out@) =~= Seq::empty());
        while i < self.captures.len()
            invariant
                i <= self.captures@.len(),
                self.captures@.len() == all.len(),
                all == before@.captures,
                limits == before@.limits,
                before.sound(),
                self.sound(),
                self@ == (SessionModel { captures: self@.captures, ..before@ }),
                forall|j: int|
                    0 <= j < i ==> #[trigger] self@.captures[j] == flushed_captures(
                        all,
                        limits,
                    )[j],
                forall|j: int| i <= j < all.len() ==> #[trigger] self@.captures[j] == all[j],
                item_models(out@) == flushed_segments(all.take(i as int), limits),
            decreases all.len() - i,
        {
            assert(all.take(i + 1).drop_last() =~= all.take(i as int));
            assert(self@.captures[i as int] == all[i as int]);
            let ghost mid = *self;
            let user_id = self.captures[i].user_id;
            let base_frame = self.captures[i].base_frame;
            let flushed = self.captures[i].buffer.flush();
            assert(self@.captures =~= mid@.captures.update(
                i as int,
                flushed_captures(all, limits)[i as int],
            ));
            if let Some(segment) = flushed {
                let ghost items = out@;
                out.push((user_id, base_frame, segment));
                assert(item_models(out@) =~= item_models(items).push(
                    (user_id, base_frame, segment@),
                ));
            }
            i = i + 1;
        }
        assert(all.take(all.len() as int) =~= all);
        assert(self@.captures =~= flushed_captures(all, limits));
        out
    }
}

impl VoiceSession {
    fn enqueue_items(&mut self, items: Vec<(u64, u64, PcmSegment)>)
        requires
            old(self).sound(),
        ensures
            final(self).sound(),
            final(self)@ == old(self)@.enqueued_all(item_models(items@)),
    {
        let ghost before = *self;
        let ghost all = items@;
        let ghost models = item_models(all);
        let mut items = items;
        let ghost mut done: int = 0;
        assert(models.take(0) =~= Seq::empty());
        while items.len() > 0
            invariant
                self.sound(),
                0 <= done,
                done + items@.len() == all.len(),
                items@ == all.skip(done),
                models == item_models(all),
                self@ == before@.enqueued_all(models.take(done)),
            decreases items@.len(),
        {
            let (user_id, base_frame, segment) = items.remove(0);
            assert((user_id, base_frame, segment) == all[done]);
            assert(models.take(done + 1).drop_last() =~= models.take(done));
            assert(models.take(done + 1).last() == (user_id, base_frame, segment@));
            self.enqueue_segment(user_id, base_frame, segment);
            proof {
                done = done + 1;
            }
            assert(items@ =~= all.skip(done));
        }
        assert(models.take(models.len() as int) =~= models);
    }

    /// Completes the segments of all speakers.
    fn flush_all_captures(&mut self)
        requires
            old(self).sound(),
        ensures
            final(self).sound(),
            final(self)@ == old(self)@.flushed(),
    {
        let items = self.flush_buffers();
        self.enqueue_items(items);
    }

    fn end(&mut self, state: VoiceConnectionState, now: u128)
        requires
            old(self).sound(),
        ensures
            final(self).sound(),
            final(self)@ == old(self)@.ending(state, now),
    {
        let ghost before = self@;
        self.flush_all_captures();
        proof {
            lemma_enqueued_all_keeps(
                SessionModel {
                    captures: flushed_captures(before.captures, before.limits),
                    ..before
                },
                flushed_segments(before.captures, before.limits),
            );
        }
        self.state = state;
        if self.ended_at.is_none() {
            self.ended_at = Some(now);
        }
        self.accepting = false;
        assert(self@ =~= before.ending(state, now));
    }

    fn ensure_capture(&mut self, user_id: u64, base_frame: u64) -> (r: usize)
        requires
            old(self).sound(),
        ensures
            final(self).sound(),
            final(self)@ == old(self)@.with_capture(user_id, base_frame),
            r < final(self).captures@.len(),
            capture_index(final(self)@.captures, user_id) == Some(r as int),
            final(self).capture_config == old(self).capture_config,
    {
        let ghost before = *self;
        match self.find_capture(user_id) {
            Some(i) => i,
            None => {
                let buffer = SpeakerPcmBuffer::new(self.capture_config);
                self.captures.push(SpeakerCapture { user_id, base_frame, buffer });
                proof {
                    let all = self@.captures;
                    assert(all =~= before@.captures.push(
                        SpeakerModel { user: user_id, base: base_frame, capture: fresh_capture() },
                    ));
                    assert(all.drop_last() =~= before@.captures);
                }
                assert(self@ =~= before@.with_capture(user_id, base_frame));
                self.captures.len() - 1
            },
        }
    }

    fn tick_start(&self) -> (r: u64)
        ensures
            r == self@.tick_start(),
    {
        if self.session_frames < VOICE_TICK_FRAMES as u64 {
            0
        } else {
            self.session_frames - VOICE_TICK_FRAMES as u64
        }
    }

    fn hear(&mut self, ssrc: u32, samples: &Option<Vec<i16>>)
        requires
            old(self).sound(),
        ensures
            final(self).sound(),
            final(self)@ == old(self)@.heard(ssrc, voice_samples(*samples)),
    {
        let user_id = match self.ssrc_to_user.get(&ssrc) {
            Some(user) => *user,
            None => return,
        };
        let samples = match samples {
            Some(samples) => samples,
            None => return,
        };
        let base = self.tick_start();
        let i = self.ensure_capture(user_id, base);
        let ghost before = *self;
        let base_frame = self.captures[i].base_frame;
        match self.captures[i].buffer.push_interleaved_stereo(samples.as_slice()) {
            Ok(segments) => {
                assert(self@ =~= (SessionModel {
                    captures: before@.captures.update(
                        i as int,
                        SpeakerModel {
                            capture: before@.captures[i as int].capture.after_samples(
                                before@.limits,
                                samples@,
                            ).0,
                            ..before@.captures[i as int]
                        },
                    ),
                    ..before@
                }));
                self.enqueue_segments(user_id, base_frame, segments);
            },
            Err(_) => {
                assert(self@.captures =~= before@.captures);
                assert(self@ =~= before@);
            },
        }
    }

    fn pause(&mut self, ssrc: u32)
        requires
            old(self).sound(),
        ensures
            final(self).sound(),
            final(self)@ == old(self)@.quiet(ssrc),
    {
        let user_id = match self.ssrc_to_user.get(&ssrc) {
            Some(user) => *user,
            None => return,
        };
        let base = self.tick_start();
        let i = self.ensure_capture(user_id, base);
        let ghost before = *self;
        let base_frame = self.captures[i].base_frame;
        let segment = self.captures[i].buffer.push_silence_frames(VOICE_TICK_FRAMES);
        let ghost after = before@.captures[i as int].capture.after_silence(
            before@.limits,
            VOICE_TICK_FRAMES as int,
        );
        assert(self@ =~= (SessionModel {
            captures: before@.captures.update(
                i as int,
                SpeakerModel { capture: after.0, ..before@.captures[i as int] },
            ),
            ..before@
        }));
        let ghost mid = self@;
        match segment {
            Some(segment) => {
                self.enqueue_segment(user_id, base_frame, segment);
                proof {
                    let items = owned_by(user_id, base_frame, after.1);
                    assert(items =~= seq![(user_id, base_frame, segment@)]);
                    assert(items.drop_last() =~= Seq::empty());
                    assert(mid.enqueued_all(items.drop_last()) == mid);
                }
            },
            None => {
                assert(owned_by(user_id, base_frame, after.1) =~= Seq::empty());
            },
        }
    }
}

/// The samples of a stream.
pub open spec fn voice_samples(samples: Option<Vec<i16>>) -> Option<Seq<i16>> {
    match samples {
        Some(s) => Some(s@),
        None => None,
    }
}

/// Taking segments in changes only what waits and what was dropped.
pub proof fn lemma_enqueued_all_keeps(
    session: SessionModel,
    items: Seq<(u64, u64, SegmentModel)>,
)
    ensures
        session.enqueued_all(items) == (SessionModel {
            queue: session.enqueued_all(items).queue,
            drops: session.enqueued_all(items).drops,
            ..session
        }),
        session.queue.len() <= session.capacity ==> session.enqueued_all(items).queue.len()
            <= session.capacity,
    decreases items.len(),
{
    if items.len() > 0 {
        lemma_enqueued_all_keeps(session, items.drop_last());
    }
}

/// Whether all segments are sound.
pub open spec fn all_sound(items: Seq<(u64, u64, SegmentModel)>, limits: CaptureLimits) -> bool {
    forall|i: int|
        0 <= i < items.len() ==> CaptureModel::sound_segment(limits, (#[trigger] items[i]).2)
}

/// Where only sound segments are taken in, only sound segments wait.
proof fn lemma_enqueued_all_sound(session: SessionModel, items: Seq<(u64, u64, SegmentModel)>)
    requires
        session.audio_wf(),
        all_sound(items, session.limits),
    ensures
        session.enqueued_all(items).audio_wf(),
    decreases items.len(),
{
    if items.len() > 0 {
        lemma_enqueued_all_sound(session, items.drop_last());
        lemma_enqueued_all_keeps(session, items.drop_last());
        assert(CaptureModel::sound_segment(session.limits, items[items.len() - 1].2));
    }
}

proof fn lemma_flushed_segments_sound(captures: Seq<SpeakerModel>, limits: CaptureLimits)
    requires
        limits.valid(),
        forall|i: int|
            0 <= i < captures.len() ==> (#[trigger] captures[i]).capture.wf(limits),
    ensures
        all_sound(flushed_segments(captures, limits), limits),
    decreases captures.len(),
{
    if captures.len() > 0 {
        lemma_flushed_segments_sound(captures.drop_last(), limits);
        let last = captures[captures.len() - 1];
        discord_voice::lemma_flush_keeps_wf(last.capture, limits, SegmentBoundary::Flush);
    }
}

impl SessionModel {
    /// A session that is about to be joined.
    pub open spec fn started(
        id: u64,
        voice_channel: u64,
        control_channel: u64,
        now: u128,
        limits: CaptureLimits,
        max_entries: nat,
        max_text_bytes: nat,
        capacity: nat,
        intents: bool,
    ) -> Self {
        SessionModel {
            id,
            voice_channel,
            control_channel,
            state: VoiceConnectionState::Connecting,
            started: now,
            ended: None,
            frames: 0,
            limits,
            ssrc_to_user: Map::empty(),
            user_to_ssrc: Map::empty(),
            captures: Seq::empty(),
            transcript: Seq::empty(),
            totals: TranscriptStoreStats {
                accepted_entries: 0,
                rejected_entries: 0,
                evicted_entries: 0,
                evicted_text_bytes: 0,
            },
            max_entries,
            max_text_bytes,
            accepting: true,
            capacity,
            queue: Seq::empty(),
            in_flight: false,
            stt_failures: 0,
            drops: discord_voice::no_drops(),
            ignored_speakers: 0,
            suppressed: false,
            epoch: 0,
            intents,
        }
    }

    /// What holds of a session between two calls.
    pub open spec fn wf(self) -> bool {
        &&& self.streams_wf()
        &&& self.captures_wf()
        &&& self.audio_wf()
        &&& self.queue.len() <= self.capacity
    }

    /// The session after the bot starts to speak. What is captured partly is discarded: it may hold
    /// the start of the bot's own speech.
    pub open spec fn playing(self) -> Self {
        SessionModel {
            epoch: discord_voice::sat(self.epoch + 1) as u64,
            suppressed: true,
            captures: Seq::empty(),
            ..self
        }
    }

    /// The session after the bot's speech with the given number ended.
    pub open spec fn played(self) -> Self {
        SessionModel { suppressed: false, captures: Seq::empty(), ..self }
    }

    /// The session after the connection was restored: the streams are new, and so are the speakers'
    /// timelines.
    pub open spec fn reconnected(self) -> Self {
        if self.state == VoiceConnectionState::Listening {
            SessionModel {
                captures: Seq::empty(),
                ssrc_to_user: Map::empty(),
                user_to_ssrc: Map::empty(),
                ..self.flushed()
            }
        } else {
            self
        }
    }

    /// How many segments are not transcribed yet.
    pub open spec fn pending(self) -> int {
        discord_voice::sat(
            self.queue.len() + if self.in_flight {
                1int
            } else {
                0int
            },
        )
    }
}

proof fn lemma_capture_index(captures: Seq<SpeakerModel>, user: u64)
    ensures
        match capture_index(captures, user) {
            Some(i) => 0 <= i < captures.len() && captures[i].user == user,
            None => forall|i: int| 0 <= i < captures.len() ==> (#[trigger] captures[i]).user != user,
        },
    decreases captures.len(),
{
    if captures.len() > 0 {
        lemma_capture_index(captures.drop_last(), user);
        match capture_index(captures.drop_last(), user) {
            Some(i) => {
                assert(captures.drop_last()[i] == captures[i]);
            },
            None => {
                assert forall|i: int| 0 <= i < captures.len() - 1 implies (
                #[trigger] captures[i]).user != user by {
                    assert(captures.drop_last()[i] == captures[i]);
                }
            },
        }
    }
}

proof fn lemma_with_capture_keeps_wf(session: SessionModel, user: u64, base: u64)
    requires
        session.wf(),
    ensures
        session.with_capture(user, base).wf(),
        capture_index(session.with_capture(user, base).captures, user) is Some,
{
    lemma_capture_index(session.captures, user);
    let after = session.with_capture(user, base);
    if capture_index(session.captures, user) is None {
        assert(after.captures.drop_last() =~= session.captures);
    }
}

/// Flushing keeps the speakers and their streams, and what it hands out is sound.
pub proof fn lemma_flushed_keeps_wf(session: SessionModel)
    requires
        session.wf(),
    ensures
        session.flushed().wf(),
        session.flushed().captures == flushed_captures(session.captures, session.limits),
{
    let mid = SessionModel {
        captures: flushed_captures(session.captures, session.limits),
        ..session
    };
    lemma_enqueued_all_keeps(mid, flushed_segments(session.captures, session.limits));
    assert forall|i: int| 0 <= i < mid.captures.len() implies (
    #[trigger] mid.captures[i]).capture.wf(session.limits) by {
        discord_voice::lemma_flush_keeps_wf(
            session.captures[i].capture,
            session.limits,
            SegmentBoundary::Flush,
        );
    }
    lemma_flushed_segments_sound(session.captures, session.limits);
    lemma_enqueued_all_sound(mid, flushed_segments(session.captures, session.limits));
    assert forall|i: int, j: int| 0 <= i < j < mid.captures.len() implies mid.captures[i].user
        != mid.captures[j].user by {
        assert(session.captures[i].user != session.captures[j].user);
    }
}

proof fn lemma_heard_keeps_wf(session: SessionModel, ssrc: u32, samples: Option<Seq<i16>>)
    requires
        session.wf(),
    ensures
        session.heard(ssrc, samples).wf(),
{
    if session.ssrc_to_user.contains_key(ssrc) && samples is Some {
        let user = session.ssrc_to_user[ssrc];
        let samples = samples->0;
        let s = session.with_capture(user, session.tick_start());
        lemma_with_capture_keeps_wf(session, user, session.tick_start());
        lemma_capture_index(s.captures, user);
        let i = capture_index(s.captures, user)->0;
        let before = s.captures[i];
        let (capture, segments) = before.capture.after_samples(s.limits, samples);
        let mid = SessionModel {
            captures: s.captures.update(i, SpeakerModel { capture, ..before }),
            ..s
        };
        lemma_enqueued_all_keeps(mid, owned_by(user, before.base, segments));
        discord_voice::lemma_samples_keep_wf(before.capture, s.limits, samples);
        lemma_enqueued_all_sound(mid, owned_by(user, before.base, segments));
    }
}

proof fn lemma_quiet_keeps_wf(session: SessionModel, ssrc: u32)
    requires
        session.wf(),
    ensures
        session.quiet(ssrc).wf(),
{
    if session.ssrc_to_user.contains_key(ssrc) {
        let user = session.ssrc_to_user[ssrc];
        let s = session.with_capture(user, session.tick_start());
        lemma_with_capture_keeps_wf(session, user, session.tick_start());
        lemma_capture_index(s.captures, user);
        let i = capture_index(s.captures, user)->0;
        let before = s.captures[i];
        let (capture, segments) = before.capture.after_silence(s.limits, VOICE_TICK_FRAMES as int);
        let mid = SessionModel {
            captures: s.captures.update(i, SpeakerModel { capture, ..before }),
            ..s
        };
        lemma_enqueued_all_keeps(mid, owned_by(user, before.base, segments));
        discord_voice::lemma_silence_keeps_wf(before.capture, s.limits, VOICE_TICK_FRAMES as int);
        lemma_enqueued_all_sound(mid, owned_by(user, before.base, segments));
    }
}

proof fn lemma_heard_all_keeps_wf(session: SessionModel, voices: Seq<(u32, Option<Seq<i16>>)>)
    requires
        session.wf(),
    ensures
        session.heard_all(voices).wf(),
    decreases voices.len(),
{
    if voices.len() > 0 {
        lemma_heard_all_keeps_wf(session, voices.drop_last());
        lemma_heard_keeps_wf(
            session.heard_all(voices.drop_last()),
            voices.last().0,
            voices.last().1,
        );
    }
}

proof fn lemma_quiet_all_keeps_wf(session: SessionModel, ssrcs: Seq<u32>)
    requires
        session.wf(),
    ensures
        session.quiet_all(ssrcs).wf(),
    decreases ssrcs.len(),
{
    if ssrcs.len() > 0 {
        lemma_quiet_all_keeps_wf(session, ssrcs.drop_last());
        lemma_quiet_keeps_wf(session.quiet_all(ssrcs.drop_last()), ssrcs.last());
    }
}

/// A tick keeps the speakers and their streams, and what it hands out is sound.
pub proof fn lemma_ticked_keeps_wf(
    session: SessionModel,
    speaking: Seq<(u32, Option<Seq<i16>>)>,
    silent: Seq<u32>,
)
    requires
        session.wf(),
    ensures
        session.ticked(speaking, silent).wf(),
{
    let s = SessionModel {
        frames: discord_voice::sat(session.frames + VOICE_TICK_FRAMES),
        ..session
    };
    lemma_heard_all_keeps_wf(s, speaking);
    lemma_quiet_all_keeps_wf(s.heard_all(speaking), silent);
}

/// However speakers change their streams, each stream has one speaker and each speaker one stream,
/// and no more speakers are tracked than the limit allows.
pub proof fn lemma_speaking_keeps_wf(session: SessionModel, ssrc: u32, user: u64)
    requires
        session.wf(),
    ensures
        session.speaking(ssrc, user).wf(),
{
    if session.state.active() && (session.user_to_ssrc.contains_key(user)
        || session.user_to_ssrc.len() < MAX_TRACKED_SPEAKERS) {
        let (users, ssrcs) = session.streams_with(ssrc, user);
        let mid = SessionModel { ssrc_to_user: users, user_to_ssrc: ssrcs, ..session };
        assert(mid.streams_wf());
        lemma_with_capture_keeps_wf(mid, user, session.frames as u64);
    }
}

/// A speaker who left is no longer tracked, and the others keep their streams.
pub proof fn lemma_left_keeps_wf(session: SessionModel, user: u64)
    requires
        session.wf(),
    ensures
        session.left(user).wf(),
        !session.left(user).user_to_ssrc.contains_key(user),
{
    lemma_capture_index(session.captures, user);
    if let Some(i) = capture_index(session.captures, user) {
        discord_voice::lemma_flush_keeps_wf(
            session.captures[i].capture,
            session.limits,
            SegmentBoundary::Flush,
        );
    }
}

/// As many streams as speakers are tracked.
pub proof fn lemma_streams_match_speakers(session: SessionModel)
    requires
        session.wf(),
    ensures
        session.ssrc_to_user.len() == session.user_to_ssrc.len(),
        session.ssrc_to_user.len() <= MAX_TRACKED_SPEAKERS,
{
    let f = |user: u64| session.user_to_ssrc[user];
    let users = session.user_to_ssrc.dom();
    let ssrcs = session.ssrc_to_user.dom();
    assert(users.map(f) =~= ssrcs) by {
        assert forall|b: u32| #[trigger] ssrcs.contains(b) implies users.map(f).contains(b) by {
            assert(users.contains(session.ssrc_to_user[b]) && f(session.ssrc_to_user[b]) == b);
        }
    }
    vstd::set_lib::lemma_map_size(users, ssrcs, f);
}

/// What one stream delivered in a tick.
#[derive(Debug)]
pub struct SpeakingVoice {
    pub ssrc: u32,
    /// Interleaved stereo samples, where the voice could be decoded.
    pub samples: Option<Vec<i16>>,
}

/// What was heard in 20 ms.
#[derive(Debug)]
pub struct VoiceTick {
    pub speaking: Vec<SpeakingVoice>,
    pub silent: Vec<u32>,
}

pub open spec fn voices(speaking: Seq<SpeakingVoice>) -> Seq<(u32, Option<Seq<i16>>)> {
    speaking.map_values(|v: SpeakingVoice| (v.ssrc, voice_samples(v.samples)))
}

impl VoiceSession {
    /// What holds of a session between two calls.
    pub closed spec fn wf(&self) -> bool {
        self.sound() && self@.wf()
    }

    /// What holds of every session: streams and speakers are paired, each speaker has one capture,
    /// and what is captured and what waits for transcription is sound.
    pub proof fn lemma_wf(&self)
        requires
            self.wf(),
        ensures
            self@.wf(),
    {
    }

    /// A session that is about to be joined.
    pub fn new(
        id: u64,
        voice_channel_id: u64,
        control_channel_id: u64,
        now: u128,
        capture_config: PcmCaptureConfig,
        transcript: TranscriptStore,
        capacity: usize,
        intents: bool,
    ) -> (r: Self)
        requires
            capture_config.wf(),
            transcript.wf(),
        ensures
            r.wf(),
            r@ == (SessionModel {
                transcript: transcript@,
                totals: transcript.totals(),
                ..SessionModel::started(
                    id,
                    voice_channel_id,
                    control_channel_id,
                    now,
                    capture_config@,
                    transcript.max_entries(),
                    transcript.max_text_bytes(),
                    capacity as nat,
                    intents,
                )
            }),
    {
        let r = VoiceSession {
            id,
            voice_channel_id,
            control_channel_id,
            state: VoiceConnectionState::Connecting,
            started_at: now,
            ended_at: None,
            session_frames: 0,
            capture_config,
            ssrc_to_user: HashMap::new(),
            user_to_ssrc: HashMap::new(),
            captures: Vec::new(),
            transcript,
            accepting: true,
            capacity,
            queue: Vec::new(),
            job_in_flight: false,
            stt_failures: 0,
            drops: VoiceDropCounters::default(),
            ignored_speakers: 0,
            capture_suppressed: false,
            playback_epoch: 0,
            intents,
        };
        assert(r@.captures =~= Seq::empty());
        assert(r@.queue =~= Seq::empty());
        proof {
            capture_config.lemma_wf();
        }
        r
    }

    pub fn id(&self) -> (r: u64)
        ensures
            r == self@.id,
    {
        self.id
    }

    pub fn voice_channel_id(&self) -> (r: u64)
        ensures
            r == self@.voice_channel,
    {
        self.voice_channel_id
    }

    pub fn state(&self) -> (r: VoiceConnectionState)
        ensures
            r == self@.state,
    {
        self.state
    }

    /// Whether nothing is captured because the bot speaks.
    pub fn capture_suppressed(&self) -> (r: bool)
        ensures
            r == self@.suppressed,
    {
        self.capture_suppressed
    }

    /// Of how many speakers speech is captured.
    pub fn capture_count(&self) -> (r: usize)
        ensures
            r == self@.captures.len(),
    {
        self.captures.len()
    }

    /// Whether speech of a speaker is captured.
    pub fn has_capture(&self, user_id: u64) -> (r: bool)
        ensures
            r == (capture_index(self@.captures, user_id) is Some),
    {
        self.find_capture(user_id).is_some()
    }

    /// Whose speech a stream delivers.
    pub fn speaker_of(&self, ssrc: u32) -> (r: Option<u64>)
        ensures
            r == if self@.ssrc_to_user.contains_key(ssrc) {
                Some(self@.ssrc_to_user[ssrc])
            } else {
                None
            },
    {
        match self.ssrc_to_user.get(&ssrc) {
            Some(user) => Some(*user),
            None => None,
        }
    }

    /// How many segments are not transcribed yet.
    pub fn pending_segments(&self) -> (r: u64)
        ensures
            r == self@.pending(),
    {
        let waiting = self.queue.len() as u64;
        if self.job_in_flight {
            waiting.saturating_add(1)
        } else {
            waiting
        }
    }

    /// Notes that the session was joined. Says whether it was about to be.
    pub fn listen(&mut self) -> (r: bool)
        requires
            old(self).wf(),
        ensures
            final(self).wf(),
            r == (old(self)@.state is Connecting),
            final(self)@ == if r {
                SessionModel { state: VoiceConnectionState::Listening, ..old(self)@ }
            } else {
                old(self)@
            },
    {
        if self.state == VoiceConnectionState::Connecting {
            self.state = VoiceConnectionState::Listening;
            true
        } else {
            false
        }
    }

    /// Ends capturing.
    pub fn end_capture(&mut self, state: VoiceConnectionState, now: u128)
        requires
            old(self).wf(),
        ensures
            final(self).wf(),
            final(self)@ == old(self)@.ending(state, now),
    {
        proof {
            lemma_flushed_keeps_wf(self@);
        }
        self.end(state, now);
    }

    /// Notes that the connection was restored in the session's own channel. Says whether the
    /// session is active.
    pub fn reconnect(&mut self) -> (r: bool)
        requires
            old(self).wf(),
        ensures
            final(self).wf(),
            final(self)@ == old(self)@.reconnected(),
            r == old(self)@.state.active(),
    {
        let ghost before = self@;
        if self.state == VoiceConnectionState::Listening {
            proof {
                lemma_flushed_keeps_wf(self@);
            }
            self.flush_all_captures();
            proof {
                lemma_enqueued_all_keeps(
                    SessionModel {
                        captures: flushed_captures(before.captures, before.limits),
                        ..before
                    },
                    flushed_segments(before.captures, before.limits),
                );
            }
            self.captures.clear();
            self.ssrc_to_user.clear();
            self.user_to_ssrc.clear();
            assert(self@.captures =~= Seq::empty());
            assert(self@ =~= before.reconnected());
        }
        self.state.is_active()
    }

    /// Moves a session that is stopping to its last state. Says whether it was stopping.
    pub fn settle(&mut self, state: VoiceConnectionState) -> (r: bool)
        requires
            old(self).wf(),
        ensures
            final(self).wf(),
            r == (old(self)@.state is Stopping),
            final(self)@ == if r {
                SessionModel { state, ..old(self)@ }
            } else {
                old(self)@
            },
    {
        if self.state == VoiceConnectionState::Stopping {
            self.state = state;
            true
        } else {
            false
        }
    }

    /// Starts to play the bot's speech. Gives the number by which its end is told.
    pub fn begin_playback(&mut self) -> (r: Option<u64>)
        requires
            old(self).wf(),
        ensures
            final(self).wf(),
            if old(self)@.state is Listening {
                &&& final(self)@ == old(self)@.playing()
                &&& r == Some(old(self)@.playing().epoch)
            } else {
                &&& final(self)@ == old(self)@
                &&& r is None
            },
    {
        if self.state != VoiceConnectionState::Listening {
            return None;
        }
        let ghost before = self@;
        self.playback_epoch = self.playback_epoch.saturating_add(1);
        self.capture_suppressed = true;
        self.captures.clear();
        assert(self@.captures =~= Seq::empty());
        assert(self@ =~= before.playing());
        Some(self.playback_epoch)
    }

    /// Ends playing the bot's speech with the given number. An older number changes nothing.
    pub fn finish_playback(&mut self, epoch: u64) -> (r: bool)
        requires
            old(self).wf(),
        ensures
            final(self).wf(),
            r == (epoch == old(self)@.epoch),
            final(self)@ == if r {
                old(self)@.played()
            } else {
                old(self)@
            },
    {
        if self.playback_epoch != epoch {
            return false;
        }
        let ghost before = self@;
        self.capture_suppressed = false;
        self.captures.clear();
        assert(self@.captures =~= Seq::empty());
        assert(self@ =~= before.played());
        true
    }

    /// Notes that a speaker uses a stream.
    pub fn note_speaking(&mut self, ssrc: u32, user_id: u64)
        requires
            old(self).wf(),
        ensures
            final(self).wf(),
            final(self)@ == old(self)@.speaking(ssrc, user_id),
    {
        proof {
            lemma_speaking_keeps_wf(self@, ssrc, user_id);
        }
        let ghost before = self@;
        if !self.state.is_active() {
            return;
        }
        if !self.user_to_ssrc.contains_key(&user_id) && self.user_to_ssrc.len()
            >= MAX_TRACKED_SPEAKERS {
            self.ignored_speakers = self.ignored_speakers.saturating_add(1);
            assert(self@ =~= before.speaking(ssrc, user_id));
            return;
        }
        if let Some(previous_user) = self.ssrc_to_user.insert(ssrc, user_id) {
            if previous_user != user_id {
                let same = match self.user_to_ssrc.get(&previous_user) {
                    Some(other) => *other == ssrc,
                    None => false,
                };
                if same {
                    self.user_to_ssrc.remove(&previous_user);
                }
            }
        }
        if let Some(previous_ssrc) = self.user_to_ssrc.insert(user_id, ssrc) {
            if previous_ssrc != ssrc {
                let same = match self.ssrc_to_user.get(&previous_ssrc) {
                    Some(other) => *other == user_id,
                    None => false,
                };
                if same {
                    self.ssrc_to_user.remove(&previous_ssrc);
                }
            }
        }
        assert(self@.ssrc_to_user =~= before.streams_with(ssrc, user_id).0);
        assert(self@.user_to_ssrc =~= before.streams_with(ssrc, user_id).1);
        let base = self.session_frames;
        self.ensure_capture(user_id, base);
        assert(self@ =~= before.speaking(ssrc, user_id));
    }

    /// Notes that a speaker left.
    pub fn note_disconnect(&mut self, user_id: u64)
        requires
            old(self).wf(),
        ensures
            final(self).wf(),
            final(self)@ == old(self)@.left(user_id),
    {
        proof {
            lemma_left_keeps_wf(self@, user_id);
        }
        let ghost before = self@;
        let ghost limits = self@.limits;
        if let Some(i) = self.find_capture(user_id) {
            let mut capture = self.captures.remove(i);
            assert(self@ =~= (SessionModel {
                captures: before.captures.remove(i as int),
                ..before
            }));
            let base_frame = capture.base_frame;
            if let Some(segment) = capture.buffer.flush() {
                self.enqueue_segment(user_id, base_frame, segment);
            }
        }
        let ghost mid = self@;
        if let Some(ssrc) = self.user_to_ssrc.remove(&user_id) {
            self.ssrc_to_user.remove(&ssrc);
        }
        assert(self@ =~= before.left(user_id));
    }

    /// Takes a tick in.
    pub fn handle_tick(&mut self, tick: &VoiceTick)
        requires
            old(self).wf(),
        ensures
            final(self).wf(),
            final(self)@ == old(self)@.ticked(voices(tick.speaking@), tick.silent@),
    {
        proof {
            lemma_ticked_keeps_wf(self@, voices(tick.speaking@), tick.silent@);
        }
        let ghost before = self@;
        if self.state != VoiceConnectionState::Listening {
            return;
        }
        self.session_frames = self.session_frames.saturating_add(VOICE_TICK_FRAMES as u64);
        let ghost start = self@;
        assert(start =~= (SessionModel {
            frames: discord_voice::sat(before.frames + VOICE_TICK_FRAMES),
            ..before
        }));
        if self.capture_suppressed {
            self.captures.clear();
            assert(self@.captures =~= Seq::empty());
            assert(self@ =~= before.ticked(voices(tick.speaking@), tick.silent@));
            return;
        }
        let ghost heard = voices(tick.speaking@);
        let mut i: usize = 0;
        assert(heard.take(0) =~= Seq::empty());
        while i < tick.speaking.len()
            invariant
                i <= tick.speaking@.len(),
                self.sound(),
                heard == voices(tick.speaking@),
                self@ == start.heard_all(heard.take(i as int)),
            decreases tick.speaking@.len() - i,
        {
            assert(heard.take(i + 1).drop_last() =~= heard.take(i as int));
            assert(heard.take(i + 1).last() == (
                tick.speaking@[i as int].ssrc,
                voice_samples(tick.speaking@[i as int].samples),
            ));
            self.hear(tick.speaking[i].ssrc, &tick.speaking[i].samples);
            i = i + 1;
        }
        assert(heard.take(heard.len() as int) =~= heard);
        let ghost mid = self@;
        let mut k: usize = 0;
        assert(tick.silent@.take(0) =~= Seq::empty());
        while k < tick.silent.len()
            invariant
                k <= tick.silent@.len(),
                self.sound(),
                self@ == mid.quiet_all(tick.silent@.take(k as int)),
            decreases tick.silent@.len() - k,
        {
            assert(tick.silent@.take(k + 1).drop_last() =~= tick.silent@.take(k as int));
            self.pause(tick.silent[k]);
            k = k + 1;
        }
        assert(tick.silent@.take(tick.silent@.len() as int) =~= tick.silent@);
    }
}

/// The result of transcribing a segment.
#[derive(Debug)]
pub struct CompletedSegment {
    pub speaker_id: u64,
    pub start_frame: u64,
    pub end_frame: u64,
    /// What was said, where transcription succeeded.
    pub transcript: Option<String>,
}

/// Whether an event says that a segment of a session was transcribed as a text.
pub open spec fn said_in(
    event: FinalTranscriptEvent,
    token: VoiceSessionToken,
    control_channel: u64,
    completed: CompletedSegment,
    text: Seq<char>,
) -> bool {
    &&& event.token == token
    &&& event.control_channel_id == control_channel
    &&& event.key == (TranscriptKey {
        speaker_id: completed.speaker_id,
        start_frame: completed.start_frame,
        end_frame: completed.end_frame,
    })
    &&& event.text@ == text
}

/// How a speaker is named in a transcript.
pub open spec fn speaker_name(speaker: u64) -> Seq<char> {
    "<@"@ + text::decimal(speaker as nat) + ">"@
}

impl SessionModel {
    /// Whether a text can stand in the transcript at all.
    pub open spec fn fits(self, text: Seq<char>) -> bool {
        discord_voice::utf8_len(text) <= self.max_text_bytes
    }

    /// How many of the oldest entries make room for a text.
    pub open spec fn evictions(self, text: Seq<char>) -> nat {
        discord_voice::eviction_count(
            self.transcript,
            discord_voice::utf8_len(text),
            self.max_entries,
            self.max_text_bytes,
        )
    }

    /// The session after a text was transcribed and joined the transcript.
    pub open spec fn transcribed(self, entry: TranscriptEntry) -> Self {
        let k = self.evictions(entry.text@);
        SessionModel {
            transcript: self.transcript.skip(k as int).push(entry),
            totals: TranscriptStoreStats {
                accepted_entries: discord_voice::sat(self.totals.accepted_entries + 1) as u64,
                evicted_entries: discord_voice::sat(self.totals.evicted_entries + k) as u64,
                evicted_text_bytes: discord_voice::sat(
                    self.totals.evicted_text_bytes + discord_voice::text_total(
                        self.transcript.take(k as int),
                    ),
                ) as u64,
                ..self.totals
            },
            in_flight: false,
            ..self
        }
    }
}

/// What becomes of a session when a transcription ends, and what is told of it. What was said joins
/// the transcript, where it fits, and a failed transcription is counted.
pub open spec fn job_completed(
    before: SessionModel,
    after: SessionModel,
    completed: CompletedSegment,
    token: VoiceSessionToken,
    event: Option<FinalTranscriptEvent>,
) -> bool {
    match completed.transcript {
        None => {
            &&& event is None
            &&& after == (SessionModel {
                in_flight: false,
                stt_failures: discord_voice::sat(before.stt_failures + 1),
                ..before
            })
        },
        Some(text) => if !before.fits(text@) {
            &&& event is None
            &&& after == (SessionModel {
                in_flight: false,
                totals: TranscriptStoreStats {
                    rejected_entries: discord_voice::sat(
                        before.totals.rejected_entries + 1,
                    ) as u64,
                    ..before.totals
                },
                drops: VoiceDropSnapshot {
                    transcripts: discord_voice::sat(
                        before.drops.transcripts + 1,
                    ) as u64,
                    ..before.drops
                },
                ..before
            })
        } else {
            let entry = after.transcript.last();
            &&& after == before.transcribed(entry)
            &&& entry.speaker_id == completed.speaker_id
            &&& entry.speaker_name@ == speaker_name(completed.speaker_id)
            &&& entry.start_frame == completed.start_frame
            &&& entry.end_frame == completed.end_frame
            &&& entry.text == text
            &&& !before.intents ==> event is None
            &&& before.intents ==> (event matches Some(event) && said_in(
                event,
                token,
                before.control_channel,
                completed,
                text@,
            ))
        },
    }
}

/// A session's condition.
#[derive(Debug, Clone)]
pub struct VoiceSessionStatus {
    pub guild_id: u64,
    pub voice_channel_id: u64,
    pub control_channel_id: u64,
    pub state: VoiceConnectionState,
    /// For how long speech was captured, in nanoseconds.
    pub elapsed_nanos: u128,
    pub transcript_entries: usize,
    pub transcript_bytes: usize,
    pub tracked_speakers: usize,
    pub ignored_speakers: u64,
    pub evicted_transcript_entries: u64,
    pub rejected_transcript_entries: u64,
    pub pending_segments: u64,
    pub stt_failures: u64,
    pub drops: VoiceDropSnapshot,
}

impl VoiceSessionStatus {
    pub fn is_active(&self) -> (r: bool)
        ensures
            r == self.state.active(),
    {
        self.state.is_active()
    }

    /// Whether this is the condition of a session at a time.
    pub open spec fn describes(self, guild: u64, session: SessionModel, now: u128) -> bool {
        &&& self.guild_id == guild
        &&& self.voice_channel_id == session.voice_channel
        &&& self.control_channel_id == session.control_channel
        &&& self.state == session.state
        &&& self.elapsed_nanos == session.elapsed(now)
        &&& self.transcript_entries == session.transcript.len()
        &&& self.transcript_bytes == discord_voice::text_total(session.transcript)
        &&& self.tracked_speakers == session.ssrc_to_user.len()
        &&& self.ignored_speakers == session.ignored_speakers
        &&& self.evicted_transcript_entries == session.totals.evicted_entries
        &&& self.rejected_transcript_entries == session.totals.rejected_entries
        &&& self.pending_segments == session.pending()
        &&& self.stt_failures == session.stt_failures
        &&& self.drops == session.drops
    }
}

impl SessionModel {
    /// For how long speech was captured: until now, or until capturing ended.
    pub open spec fn elapsed(self, now: u128) -> int {
        let end = match self.ended {
            Some(at) => at,
            None => now,
        };
        if end < self.started {
            0
        } else {
            end - self.started
        }
    }
}

impl VoiceSession {
    /// Whether a segment is being transcribed.
    pub fn has_job_in_flight(&self) -> (r: bool)
        ensures
            r == self@.in_flight,
    {
        self.job_in_flight
    }

    /// Hands out the next segment for transcription. One segment is transcribed at a time.
    pub fn take_job(&mut self) -> (r: Option<SegmentJob>)
        requires
            old(self).wf(),
        ensures
            final(self).wf(),
            match r {
                Some(job) => {
                    &&& !old(self)@.in_flight
                    &&& old(self)@.queue.len() > 0
                    &&& job@ == old(self)@.queue[0]
                    &&& final(self)@ == (SessionModel {
                        queue: old(self)@.queue.skip(1),
                        in_flight: true,
                        ..old(self)@
                    })
                },
                None => {
                    &&& old(self)@.in_flight || old(self)@.queue.len() == 0
                    &&& final(self)@ == old(self)@
                },
            },
    {
        if self.job_in_flight || self.queue.len() == 0 {
            return None;
        }
        let ghost before = self@;
        let job = self.queue.remove(0);
        self.job_in_flight = true;
        assert(self@.queue =~= before.queue.skip(1));
        Some(job)
    }

    /// Takes the result of a transcription in. What was said joins the transcript, where it fits,
    /// and is handed on. A failed transcription is counted.
    pub fn complete_job(&mut self, completed: CompletedSegment, token: VoiceSessionToken) -> (r:
        Option<FinalTranscriptEvent>)
        requires
            old(self).wf(),
            old(self)@.in_flight,
        ensures
            final(self).wf(),
            job_completed(old(self)@, final(self)@, completed, token, r),
    {
        let ghost before = self@;
        self.job_in_flight = false;
        let text = match completed.transcript {
            Some(text) => text,
            None => {
                self.stt_failures = self.stt_failures.saturating_add(1);
                return None;
            },
        };
        let mut speaker_name = String::from_str("<@");
        text::push_decimal(&mut speaker_name, completed.speaker_id);
        speaker_name.append(">");
        let said = text.clone();
        let outcome = self.transcript.push(
            TranscriptEntry {
                speaker_id: completed.speaker_id,
                speaker_name,
                start_frame: completed.start_frame,
                end_frame: completed.end_frame,
                text,
            },
        );
        if !outcome.accepted {
            self.drops.record_transcript();
            return None;
        }
        assert(self@.transcript.last().text == text);
        assert(self@ =~= before.transcribed(self@.transcript.last()));
        if !self.intents {
            return None;
        }
        Some(
            FinalTranscriptEvent {
                token,
                control_channel_id: self.control_channel_id,
                key: TranscriptKey {
                    speaker_id: completed.speaker_id,
                    start_frame: completed.start_frame,
                    end_frame: completed.end_frame,
                },
                text: said,
            },
        )
    }

    /// The session's condition.
    pub fn status(&self, guild_id: u64, now: u128) -> (r: VoiceSessionStatus)
        requires
            self.wf(),
        ensures
            r.describes(guild_id, self@, now),
    {
        let end = match self.ended_at {
            Some(at) => at,
            None => now,
        };
        let elapsed_nanos = if end < self.started_at {
            0
        } else {
            end - self.started_at
        };
        let stats = self.transcript.stats();
        VoiceSessionStatus {
            guild_id,
            voice_channel_id: self.voice_channel_id,
            control_channel_id: self.control_channel_id,
            state: self.state,
            elapsed_nanos,
            transcript_entries: self.transcript.len(),
            transcript_bytes: self.transcript.text_bytes(),
            tracked_speakers: self.ssrc_to_user.len(),
            ignored_speakers: self.ignored_speakers,
            evicted_transcript_entries: stats.evicted_entries,
            rejected_transcript_entries: stats.rejected_entries,
            pending_segments: self.pending_segments(),
            stt_failures: self.stt_failures,
            drops: self.drops.snapshot(),
        }
    }

    /// What was said in the session.
    pub fn transcript(&self) -> (r: &TranscriptStore)
        ensures
            r@ == self@.transcript,
            r.totals() == self@.totals,
    {
        &self.transcript
    }
}

/// While the bot speaks, ticks complete no segments and capture nothing: what the bot says is
/// never transcribed.
pub proof fn lemma_nothing_is_heard_while_the_bot_speaks(
    session: SessionModel,
    speaking: Seq<(u32, Option<Seq<i16>>)>,
    silent: Seq<u32>,
)
    requires
        session.suppressed,
    ensures
        session.ticked(speaking, silent).queue == session.queue,
        session.ticked(speaking, silent).drops == session.drops,
        session.state is Listening ==> session.ticked(speaking, silent).captures.len() == 0,
{
}

/// Where the bot started to speak again, the end of its earlier speech is not taken for the end
/// of the later one.
pub proof fn lemma_playbacks_are_told_apart(session: SessionModel)
    requires
        session.epoch + 2 <= u64::MAX,
    ensures
        session.playing().epoch != session.playing().playing().epoch,
        session.playing().suppressed,
        !session.playing().played().suppressed,
{
}

/// The time that speech was captured stands still once capturing ended, whatever comes after.
pub proof fn lemma_elapsed_time_freezes(
    session: SessionModel,
    state: VoiceConnectionState,
    now: u128,
    again: VoiceConnectionState,
    later: u128,
    a: u128,
    b: u128,
)
    ensures
        session.ending(state, now).elapsed(a) == session.ending(state, now).elapsed(b),
        session.ending(state, now).ending(again, later).elapsed(a) == session.ending(
            state,
            now,
        ).elapsed(a),
{
    let mid = session.ending(state, now);
    lemma_enqueued_all_keeps(
        SessionModel { captures: flushed_captures(session.captures, session.limits), ..session },
        flushed_segments(session.captures, session.limits),
    );
    lemma_enqueued_all_keeps(
        SessionModel { captures: flushed_captures(mid.captures, mid.limits), ..mid },
        flushed_segments(mid.captures, mid.limits),
    );
}

/// Once capturing ended, no more segments wait for transcription; those that come are counted as
/// dropped.
pub proof fn lemma_nothing_waits_after_the_end(
    session: SessionModel,
    items: Seq<(u64, u64, SegmentModel)>,
)
    requires
        !session.accepting,
    ensures
        session.enqueued_all(items).queue == session.queue,
        !session.enqueued_all(items).accepting,
        session.drops.segments + items.len() <= u64::MAX ==> session.enqueued_all(
            items,
        ).drops.segments == session.drops.segments + items.len(),
    decreases items.len(),
{
    if items.len() > 0 {
        lemma_nothing_waits_after_the_end(session, items.drop_last());
    }
}

/// Every completed segment waits for transcription or is counted as dropped.
pub proof fn lemma_segments_are_accounted_for(
    session: SessionModel,
    items: Seq<(u64, u64, SegmentModel)>,
)
    requires
        session.drops.segments + items.len() <= u64::MAX,
    ensures
        session.enqueued_all(items).queue.len() + session.enqueued_all(items).drops.segments
            == session.queue.len() + session.drops.segments + items.len(),
        session.enqueued_all(items).drops.segments <= session.drops.segments + items.len(),
    decreases items.len(),
{
    if items.len() > 0 {
        lemma_segments_are_accounted_for(session, items.drop_last());
    }
}

} // verus!
