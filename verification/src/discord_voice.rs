//! Capture of Discord voice: segmentation of decoded PCM, WAV encoding, a bounded transcript
//! window and overflow counters.
//!
//! Discord voice is decoded as interleaved, signed 16-bit, 48 kHz stereo PCM. A *frame* is one
//! sample for each of the two channels. Durations are counts of frames and never wall-clock
//! time, so a stalled executor does not change where silence ends a segment.

use std::collections::VecDeque;
use vstd::prelude::*;
use vstd::std_specs::iter::IteratorSpec;
use vstd::string::*;
use crate::bytes;
use crate::text;

verus! {

/// Discord's decoded voice sample rate.
pub const DISCORD_VOICE_SAMPLE_RATE_HZ: u32 = 48_000;

/// Discord's decoded voice channel count.
pub const DISCORD_VOICE_CHANNELS: u16 = 2;

/// `n`, or the largest `u64` where `n` is larger.
pub open spec fn sat(n: int) -> int {
    if n > u64::MAX {
        u64::MAX as int
    } else {
        n
    }
}

/// Why a capture configuration was refused.
#[derive(Debug, Clone, Copy, PartialEq, Eq, Structural)]
pub enum PcmCaptureConfigError {
    ZeroMinimumSpeech,
    ZeroTrailingSilence,
    ZeroMaximumSegment,
    MinimumSpeechExceedsMaximumSegment,
    FrameCountOverflow,
}

impl PcmCaptureConfigError {
    /// The text that describes the error.
    pub open spec fn text(self) -> Seq<char> {
        match self {
            PcmCaptureConfigError::ZeroMinimumSpeech => {
                "minimum speech duration must be non-zero"@
            },
            PcmCaptureConfigError::ZeroTrailingSilence => {
                "trailing silence duration must be non-zero"@
            },
            PcmCaptureConfigError::ZeroMaximumSegment => {
                "maximum segment duration must be non-zero"@
            },
            PcmCaptureConfigError::MinimumSpeechExceedsMaximumSegment => {
                "minimum speech duration cannot exceed maximum segment duration"@
            },
            PcmCaptureConfigError::FrameCountOverflow => {
                "configured duration is too large for this platform"@
            },
        }
    }

    /// Describes the error.
    pub fn message(&self) -> (s: String)
        ensures
            s@ == self.text(),
    {
        String::from_str(
            match self {
                PcmCaptureConfigError::ZeroMinimumSpeech => {
                    "minimum speech duration must be non-zero"
                },
                PcmCaptureConfigError::ZeroTrailingSilence => {
                    "trailing silence duration must be non-zero"
                },
                PcmCaptureConfigError::ZeroMaximumSegment => {
                    "maximum segment duration must be non-zero"
                },
                PcmCaptureConfigError::MinimumSpeechExceedsMaximumSegment => {
                    "minimum speech duration cannot exceed maximum segment duration"
                },
                PcmCaptureConfigError::FrameCountOverflow => {
                    "configured duration is too large for this platform"
                },
            },
        )
    }
}

/// What a capture goes by: a volume and three numbers of frames.
pub struct CaptureLimits {
    pub silence_threshold: int,
    pub minimum_speech: int,
    pub trailing_silence: int,
    pub maximum_segment: int,
}

impl CaptureLimits {
    pub open spec fn valid(self) -> bool {
        &&& 0 <= self.silence_threshold
        &&& 0 < self.minimum_speech <= self.maximum_segment
        &&& 0 < self.trailing_silence
    }

    /// A frame is speech when either channel is louder than the threshold.
    pub open spec fn is_speech(self, left: i16, right: i16) -> bool {
        magnitude(left) > self.silence_threshold || magnitude(right) > self.silence_threshold
    }

    /// Whether a frame of interleaved samples is speech.
    pub open spec fn speaks_at(self, samples: Seq<i16>, frame: int) -> bool {
        self.is_speech(samples[2 * frame], samples[2 * frame + 1])
    }

    /// How many frames of interleaved samples are speech.
    pub open spec fn speech_frames(self, samples: Seq<i16>) -> int
        decreases samples.len(),
    {
        if samples.len() < 2 {
            0
        } else {
            let n = samples.len() as int;
            self.speech_frames(samples.take(n - 2)) + if self.is_speech(
                samples[n - 2],
                samples[n - 1],
            ) {
                1int
            } else {
                0int
            }
        }
    }

    /// Whether one of as many frames from `from` on as make up the silence at the end of a segment
    /// is speech.
    pub open spec fn speaks_soon(self, samples: Seq<i16>, from: int) -> bool {
        exists|frame: int|
            from <= frame < from + self.trailing_silence && #[trigger] self.speaks_at(
                samples,
                frame,
            )
    }

    /// Whether every frame that is not speech is zero, and no run of such frames is long enough to
    /// have ended a segment.
    #[verifier::opaque]
    pub open spec fn gaps_are_short_and_zero(self, samples: Seq<i16>) -> bool {
        &&& forall|frame: int|
            0 <= frame < samples.len() as int / 2 && !#[trigger] self.speaks_at(samples, frame)
                ==> samples[2 * frame] == 0 && samples[2 * frame + 1] == 0
        &&& forall|from: int|
            0 <= from && from + self.trailing_silence <= samples.len() as int / 2
                ==> #[trigger] self.speaks_soon(samples, from)
    }
}

/// The absolute value of a sample.
pub open spec fn magnitude(sample: i16) -> int {
    if sample < 0 {
        -(sample as int)
    } else {
        sample as int
    }
}

/// Sample-count based voice segmentation configuration.
#[derive(Debug, Clone, Copy, PartialEq, Eq, Structural)]
pub struct PcmCaptureConfig {
    silence_threshold: u16,
    minimum_speech_frames: usize,
    trailing_silence_frames: usize,
    maximum_segment_frames: usize,
}

impl View for PcmCaptureConfig {
    type V = CaptureLimits;

    closed spec fn view(&self) -> CaptureLimits {
        CaptureLimits {
            silence_threshold: self.silence_threshold as int,
            minimum_speech: self.minimum_speech_frames as int,
            trailing_silence: self.trailing_silence_frames as int,
            maximum_segment: self.maximum_segment_frames as int,
        }
    }
}

/// The number of frames that a duration takes, rounded up to a complete frame.
pub open spec fn millis_as_frames(milliseconds: u32) -> int {
    (milliseconds * DISCORD_VOICE_SAMPLE_RATE_HZ + 999) / 1000
}

/// What is wrong with a configuration in frame counts.
pub open spec fn frame_counts_error(minimum_speech: int, trailing_silence: int, maximum: int) -> Option<
    PcmCaptureConfigError,
> {
    if minimum_speech == 0 {
        Some(PcmCaptureConfigError::ZeroMinimumSpeech)
    } else if trailing_silence == 0 {
        Some(PcmCaptureConfigError::ZeroTrailingSilence)
    } else if maximum == 0 {
        Some(PcmCaptureConfigError::ZeroMaximumSegment)
    } else if minimum_speech > maximum {
        Some(PcmCaptureConfigError::MinimumSpeechExceedsMaximumSegment)
    } else if maximum * 2 > usize::MAX {
        Some(PcmCaptureConfigError::FrameCountOverflow)
    } else {
        None
    }
}

impl PcmCaptureConfig {
    /// Whether the limits make sense and a longest segment fits in memory.
    pub closed spec fn wf(&self) -> bool {
        self@.valid() && self.maximum_segment_frames * 2 <= usize::MAX
    }

    /// What holds of every configuration.
    pub proof fn lemma_wf(&self)
        requires
            self.wf(),
        ensures
            self@.valid(),
            self@.maximum_segment * 2 <= usize::MAX,
    {
    }

    /// Creates a configuration from exact 48 kHz frame counts.
    pub fn from_frame_counts(
        silence_threshold: u16,
        minimum_speech_frames: usize,
        trailing_silence_frames: usize,
        maximum_segment_frames: usize,
    ) -> (r: Result<Self, PcmCaptureConfigError>)
        ensures
            match frame_counts_error(
                minimum_speech_frames as int,
                trailing_silence_frames as int,
                maximum_segment_frames as int,
            ) {
                Some(e) => r == Err::<Self, PcmCaptureConfigError>(e),
                None => r matches Ok(config) && config.wf() && config@ == (CaptureLimits {
                    silence_threshold: silence_threshold as int,
                    minimum_speech: minimum_speech_frames as int,
                    trailing_silence: trailing_silence_frames as int,
                    maximum_segment: maximum_segment_frames as int,
                }),
            },
    {
        if minimum_speech_frames == 0 {
            return Err(PcmCaptureConfigError::ZeroMinimumSpeech);
        }
        if trailing_silence_frames == 0 {
            return Err(PcmCaptureConfigError::ZeroTrailingSilence);
        }
        if maximum_segment_frames == 0 {
            return Err(PcmCaptureConfigError::ZeroMaximumSegment);
        }
        if minimum_speech_frames > maximum_segment_frames {
            return Err(PcmCaptureConfigError::MinimumSpeechExceedsMaximumSegment);
        }
        if maximum_segment_frames.checked_mul(2).is_none() {
            return Err(PcmCaptureConfigError::FrameCountOverflow);
        }
        Ok(
            PcmCaptureConfig {
                silence_threshold,
                minimum_speech_frames,
                trailing_silence_frames,
                maximum_segment_frames,
            },
        )
    }

    /// Creates a configuration from millisecond durations, each rounded up to a complete frame.
    pub fn from_millis(
        silence_threshold: u16,
        minimum_speech_ms: u32,
        trailing_silence_ms: u32,
        maximum_segment_ms: u32,
    ) -> (r: Result<Self, PcmCaptureConfigError>)
        ensures
            ({
                let minimum = millis_as_frames(minimum_speech_ms);
                let trailing = millis_as_frames(trailing_silence_ms);
                let maximum = millis_as_frames(maximum_segment_ms);
                if minimum > usize::MAX || trailing > usize::MAX || maximum > usize::MAX {
                    r == Err::<Self, PcmCaptureConfigError>(
                        PcmCaptureConfigError::FrameCountOverflow,
                    )
                } else {
                    match frame_counts_error(minimum, trailing, maximum) {
                        Some(e) => r == Err::<Self, PcmCaptureConfigError>(e),
                        None => r matches Ok(config) && config.wf() && config@ == (CaptureLimits {
                            silence_threshold: silence_threshold as int,
                            minimum_speech: minimum,
                            trailing_silence: trailing,
                            maximum_segment: maximum,
                        }),
                    }
                }
            }),
    {
        let minimum = match frames_from_millis(minimum_speech_ms) {
            Ok(frames) => frames,
            Err(e) => return Err(e),
        };
        let trailing = match frames_from_millis(trailing_silence_ms) {
            Ok(frames) => frames,
            Err(e) => return Err(e),
        };
        let maximum = match frames_from_millis(maximum_segment_ms) {
            Ok(frames) => frames,
            Err(e) => return Err(e),
        };
        Self::from_frame_counts(silence_threshold, minimum, trailing, maximum)
    }

    pub fn silence_threshold(&self) -> (r: u16)
        ensures
            r == self@.silence_threshold,
    {
        self.silence_threshold
    }

    pub fn minimum_speech_frames(&self) -> (r: usize)
        ensures
            r == self@.minimum_speech,
    {
        self.minimum_speech_frames
    }

    pub fn trailing_silence_frames(&self) -> (r: usize)
        ensures
            r == self@.trailing_silence,
    {
        self.trailing_silence_frames
    }

    pub fn maximum_segment_frames(&self) -> (r: usize)
        ensures
            r == self@.maximum_segment,
    {
        self.maximum_segment_frames
    }
}

impl Default for PcmCaptureConfig {
    /// A deliberately conservative starting point: at least 100 ms of speech, 2 s of trailing
    /// silence, 30 s at most.
    fn default() -> (r: Self)
        ensures
            r.wf(),
            r@ == (CaptureLimits {
                silence_threshold: 500,
                minimum_speech: 4_800,
                trailing_silence: 96_000,
                maximum_segment: 1_440_000,
            }),
    {
        PcmCaptureConfig {
            silence_threshold: 500,
            minimum_speech_frames: 4_800,
            trailing_silence_frames: 96_000,
            maximum_segment_frames: 1_440_000,
        }
    }
}

/// The number of frames that a duration takes.
fn frames_from_millis(milliseconds: u32) -> (r: Result<usize, PcmCaptureConfigError>)
    ensures
        if millis_as_frames(milliseconds) <= usize::MAX {
            r matches Ok(frames) && frames == millis_as_frames(milliseconds)
        } else {
            r == Err::<usize, PcmCaptureConfigError>(PcmCaptureConfigError::FrameCountOverflow)
        },
{
    assert(milliseconds * DISCORD_VOICE_SAMPLE_RATE_HZ <= 0xffff_ffff * 48_000) by (nonlinear_arith)
        requires
            milliseconds <= 0xffff_ffff,
            DISCORD_VOICE_SAMPLE_RATE_HZ == 48_000,
    ;
    let rounded_up: u64 = (milliseconds as u64 * DISCORD_VOICE_SAMPLE_RATE_HZ as u64 + 999) / 1000;
    if rounded_up > usize::MAX as u64 {
        return Err(PcmCaptureConfigError::FrameCountOverflow);
    }
    Ok(rounded_up as usize)
}

/// Why a PCM segment ended.
#[derive(Debug, Clone, Copy, PartialEq, Eq, Structural)]
pub enum SegmentBoundary {
    /// The configured number of silent frames followed speech.
    Silence,
    /// The configured hard maximum segment size was reached.
    MaximumDuration,
    /// The owner explicitly flushed the speaker buffer.
    Flush,
}

/// A segment as a mathematical value.
#[verifier::ext_equal]
pub struct SegmentModel {
    pub start: int,
    pub end: int,
    pub samples: Seq<i16>,
    pub boundary: SegmentBoundary,
}

/// One continuous, stereo PCM segment for one speaker.
#[derive(Debug, Clone, PartialEq, Eq)]
pub struct PcmSegment {
    /// Inclusive frame offset from the beginning of capture.
    pub start_frame: u64,
    /// Exclusive frame offset from the beginning of capture.
    pub end_frame: u64,
    /// Interleaved left/right signed 16-bit PCM samples.
    pub interleaved_samples: Vec<i16>,
    pub boundary: SegmentBoundary,
}

impl View for PcmSegment {
    type V = SegmentModel;

    open spec fn view(&self) -> SegmentModel {
        SegmentModel {
            start: self.start_frame as int,
            end: self.end_frame as int,
            samples: self.interleaved_samples@,
            boundary: self.boundary,
        }
    }
}

/// The segments of a vector as mathematical values.
pub open spec fn segment_models(segments: Seq<PcmSegment>) -> Seq<SegmentModel> {
    segments.map_values(|s: PcmSegment| s@)
}

/// Capture input errors.
#[derive(Debug, Clone, Copy, PartialEq, Eq, Structural)]
pub enum PcmCaptureError {
    NonStereoSampleCount { sample_count: usize },
}

impl PcmCaptureError {
    /// Describes the error.
    pub fn message(&self) -> (s: String)
        ensures
            match self {
                PcmCaptureError::NonStereoSampleCount { sample_count } => s@
                    == "interleaved stereo PCM requires an even sample count, got "@ + text::decimal(
                    *sample_count as nat,
                ),
            },
    {
        match self {
            PcmCaptureError::NonStereoSampleCount { sample_count } => {
                let mut s = String::from_str(
                    "interleaved stereo PCM requires an even sample count, got ",
                );
                text::push_decimal(&mut s, *sample_count as u64);
                s
            },
        }
    }
}

/// Cumulative accounting for one [`SpeakerPcmBuffer`].
///
/// Frames still in the active buffer are absent from both `emitted_frames` and
/// `ignored_frames`.
#[derive(Debug, Clone, Copy, PartialEq, Eq, Structural)]
pub struct PcmCaptureStats {
    pub received_frames: u64,
    pub emitted_frames: u64,
    pub ignored_frames: u64,
    pub emitted_segments: u64,
}

impl Default for PcmCaptureStats {
    fn default() -> (r: Self)
        ensures
            r == (PcmCaptureStats {
                received_frames: 0,
                emitted_frames: 0,
                ignored_frames: 0,
                emitted_segments: 0,
            }),
    {
        PcmCaptureStats {
            received_frames: 0,
            emitted_frames: 0,
            ignored_frames: 0,
            emitted_segments: 0,
        }
    }
}

/// The state of a capture as a mathematical value: the frames of the segment that is open and
/// what has been accounted so far.
#[verifier::ext_equal]
pub struct CaptureModel {
    /// Where the open segment started, if one is open.
    pub start: Option<int>,
    /// The samples of the open segment up to its last speech frame.
    pub samples: Seq<i16>,
    /// How many of its frames are speech.
    pub speech: int,
    /// How many silent frames followed the last speech frame.
    pub pending: int,
    pub received: int,
    pub emitted: int,
    pub ignored: int,
    pub segments: int,
}

/// The segments that a step completed, as a sequence.
pub open spec fn completed(segment: Option<SegmentModel>) -> Seq<SegmentModel> {
    match segment {
        Some(s) => seq![s],
        None => Seq::empty(),
    }
}

/// `n` silent frames.
pub open spec fn silent_samples(n: int) -> Seq<i16> {
    Seq::new((2 * n) as nat, |i: int| 0i16)
}

impl CaptureModel {
    /// The frames of the open segment up to its last speech frame.
    pub open spec fn stored(self) -> int {
        self.samples.len() as int / 2
    }

    /// The frames of the open segment, with the silence after its last speech frame.
    pub open spec fn buffered(self) -> int {
        self.stored() + self.pending
    }

    /// Ends the open segment, if there is one. The silence at its end is dropped. It is handed
    /// out if it holds enough speech.
    pub open spec fn finished(self, limits: CaptureLimits, boundary: SegmentBoundary) -> (
        CaptureModel,
        Option<SegmentModel>,
    ) {
        match self.start {
            None => (self, None),
            Some(start) => {
                let closed = CaptureModel {
                    start: None,
                    samples: Seq::empty(),
                    speech: 0,
                    pending: 0,
                    ..self
                };
                if self.speech >= limits.minimum_speech {
                    (
                        CaptureModel {
                            ignored: sat(self.ignored + self.pending),
                            emitted: sat(self.emitted + self.stored()),
                            segments: sat(self.segments + 1),
                            ..closed
                        },
                        Some(
                            SegmentModel {
                                start,
                                end: sat(start + self.stored()),
                                samples: self.samples,
                                boundary,
                            },
                        ),
                    )
                } else {
                    (CaptureModel { ignored: sat(self.ignored + self.buffered()), ..closed }, None)
                }
            },
        }
    }

    /// One silent frame: ignored where no segment is open, else counted toward the boundary.
    pub open spec fn after_silent_frame(self, limits: CaptureLimits) -> (
        CaptureModel,
        Option<SegmentModel>,
    ) {
        let heard = CaptureModel { received: sat(self.received + 1), ..self };
        if self.start is None {
            (CaptureModel { ignored: sat(self.ignored + 1), ..heard }, None)
        } else {
            let waiting = CaptureModel { pending: self.pending + 1, ..heard };
            if waiting.pending >= limits.trailing_silence {
                waiting.finished(limits, SegmentBoundary::Silence)
            } else if waiting.buffered() >= limits.maximum_segment {
                waiting.finished(limits, SegmentBoundary::MaximumDuration)
            } else {
                (waiting, None)
            }
        }
    }

    /// One speech frame: it opens a segment, or is stored after the silence before it.
    pub open spec fn after_speech_frame(self, limits: CaptureLimits, left: i16, right: i16) -> (
        CaptureModel,
        Option<SegmentModel>,
    ) {
        let spoken = CaptureModel {
            start: if self.start is None {
                Some(self.received)
            } else {
                self.start
            },
            samples: self.samples + silent_samples(self.pending) + seq![left, right],
            speech: self.speech + 1,
            pending: 0,
            received: sat(self.received + 1),
            ..self
        };
        if spoken.buffered() >= limits.maximum_segment {
            spoken.finished(limits, SegmentBoundary::MaximumDuration)
        } else {
            (spoken, None)
        }
    }

    /// One frame.
    pub open spec fn after_frame(self, limits: CaptureLimits, left: i16, right: i16) -> (
        CaptureModel,
        Option<SegmentModel>,
    ) {
        if limits.is_speech(left, right) {
            self.after_speech_frame(limits, left, right)
        } else {
            self.after_silent_frame(limits)
        }
    }

    /// `n` silent frames, one after the other.
    pub open spec fn after_silence(self, limits: CaptureLimits, n: int) -> (
        CaptureModel,
        Seq<SegmentModel>,
    )
        decreases n,
    {
        if n <= 0 {
            (self, Seq::empty())
        } else {
            let (before, done) = self.after_silence(limits, n - 1);
            let (now, segment) = before.after_silent_frame(limits);
            (now, done + completed(segment))
        }
    }

    /// The frames of interleaved stereo samples, one after the other.
    pub open spec fn after_samples(self, limits: CaptureLimits, samples: Seq<i16>) -> (
        CaptureModel,
        Seq<SegmentModel>,
    )
        decreases samples.len(),
    {
        if samples.len() < 2 {
            (self, Seq::empty())
        } else {
            let n = samples.len() as int;
            let (before, done) = self.after_samples(limits, samples.take(n - 2));
            let (now, segment) = before.after_frame(limits, samples[n - 2], samples[n - 1]);
            (now, done + completed(segment))
        }
    }
}

impl CaptureModel {
    /// What holds between two frames: an open segment starts and ends with speech, has only short
    /// gaps in between, which are zero, and is still below both of its boundaries, and, until a counter is full, every frame received has been
    /// emitted, ignored or buffered.
    pub open spec fn wf(self, limits: CaptureLimits) -> bool {
        &&& match self.start {
            None => self.samples.len() == 0 && self.speech == 0 && self.pending == 0,
            Some(start) => {
                &&& self.samples.len() >= 2
                &&& self.samples.len() % 2 == 0
                &&& limits.is_speech(self.samples[0], self.samples[1])
                &&& limits.is_speech(
                    self.samples[self.samples.len() - 2],
                    self.samples[self.samples.len() - 1],
                )
                &&& 0 < self.speech <= self.stored()
                &&& self.speech == limits.speech_frames(self.samples)
                &&& limits.gaps_are_short_and_zero(self.samples)
                &&& 0 <= self.pending < limits.trailing_silence
                &&& self.buffered() < limits.maximum_segment
                &&& 0 <= start <= u64::MAX
                &&& self.received < u64::MAX ==> start + self.buffered() == self.received
            },
        }
        &&& 0 <= self.received <= u64::MAX
        &&& 0 <= self.emitted <= u64::MAX
        &&& 0 <= self.ignored <= u64::MAX
        &&& 0 <= self.segments <= u64::MAX
        &&& self.received < u64::MAX ==> self.received == self.emitted + self.ignored
            + self.buffered()
    }

    /// What holds of every segment that is handed out: it is as long as its place says and not too
    /// long, holds enough speech, starts and ends with speech, and its gaps are short and zero.
    pub open spec fn sound_segment(limits: CaptureLimits, segment: SegmentModel) -> bool {
        let frames = segment.samples.len() as int / 2;
        &&& segment.samples.len() % 2 == 0
        &&& limits.minimum_speech <= limits.speech_frames(segment.samples) <= frames
            <= limits.maximum_segment
        &&& segment.end == sat(segment.start + frames)
        &&& limits.is_speech(segment.samples[0], segment.samples[1])
        &&& limits.is_speech(
            segment.samples[segment.samples.len() - 2],
            segment.samples[segment.samples.len() - 1],
        )
        &&& limits.gaps_are_short_and_zero(segment.samples)
    }

    /// The frame before which every segment handed out so far has ended.
    pub open spec fn frontier(self) -> int {
        match self.start {
            Some(start) => start,
            None => self.received,
        }
    }
}

/// Whether segments follow one another without overlapping, from one frame to another.
pub open spec fn in_order(from: int, segments: Seq<SegmentModel>, to: int) -> bool {
    &&& from <= to
    &&& forall|i: int|
        0 <= i < segments.len() ==> from <= (#[trigger] segments[i]).start <= segments[i].end <= to
    &&& forall|i: int, j: int|
        0 <= i < j < segments.len() ==> (#[trigger] segments[i]).end <= (
        #[trigger] segments[j]).start
}

proof fn lemma_in_order_appended(
    from: int,
    first: Seq<SegmentModel>,
    mid: int,
    second: Seq<SegmentModel>,
    to: int,
)
    requires
        in_order(from, first, mid),
        in_order(mid, second, to),
    ensures
        in_order(from, first + second, to),
{
    let all = first + second;
    assert forall|i: int| 0 <= i < all.len() implies from <= (#[trigger] all[i]).start
        <= all[i].end <= to by {
        if i >= first.len() {
            assert(all[i] == second[i - first.len()]);
        } else {
            assert(all[i] == first[i]);
        }
    }
    assert forall|i: int, j: int| 0 <= i < j < all.len() implies (#[trigger] all[i]).end <= (
    #[trigger] all[j]).start by {
        if i >= first.len() {
            assert(all[i] == second[i - first.len()]);
            assert(all[j] == second[j - first.len()]);
        } else if j >= first.len() {
            assert(all[i] == first[i]);
            assert(all[j] == second[j - first.len()]);
        } else {
            assert(all[i] == first[i]);
            assert(all[j] == first[j]);
        }
    }
}

proof fn lemma_silence_adds_no_speech(limits: CaptureLimits, samples: Seq<i16>, n: int)
    requires
        limits.valid(),
        0 <= n,
    ensures
        limits.speech_frames(samples + silent_samples(n)) == limits.speech_frames(samples),
    decreases n,
{
    let all = samples + silent_samples(n);
    if n == 0 {
        assert(all =~= samples);
    } else {
        lemma_silence_adds_no_speech(limits, samples, n - 1);
        assert(all.take(all.len() - 2) =~= samples + silent_samples(n - 1));
        assert(all[all.len() - 2] == 0 && all[all.len() - 1] == 0);
    }
}

/// A speech frame after a short silence adds one frame of speech and a gap that is short and zero.
proof fn lemma_speech_after_gap(
    limits: CaptureLimits,
    samples: Seq<i16>,
    pending: int,
    left: i16,
    right: i16,
)
    requires
        limits.valid(),
        samples.len() % 2 == 0,
        limits.gaps_are_short_and_zero(samples),
        samples.len() == 0 ==> pending == 0,
        samples.len() > 0 ==> limits.speaks_at(samples, samples.len() as int / 2 - 1),
        0 <= pending < limits.trailing_silence,
        limits.is_speech(left, right),
    ensures
        ({
            let spoken = samples + silent_samples(pending) + seq![left, right];
            &&& limits.speech_frames(spoken) == limits.speech_frames(samples) + 1
            &&& limits.gaps_are_short_and_zero(spoken)
        }),
{
    reveal(CaptureLimits::gaps_are_short_and_zero);
    let gap = samples + silent_samples(pending);
    let spoken = gap + seq![left, right];
    let stored = samples.len() as int / 2;
    let last = stored + pending;
    assert(spoken.take(spoken.len() - 2) =~= gap);
    lemma_silence_adds_no_speech(limits, samples, pending);
    assert(spoken.len() == 2 * last + 2);
    assert(spoken[2 * last] == left && spoken[2 * last + 1] == right);
    assert(limits.speaks_at(spoken, last));
    assert forall|f: int| 0 <= f < stored implies limits.speaks_at(spoken, f) == (
    #[trigger] limits.speaks_at(samples, f)) && spoken[2 * f] == samples[2 * f] && spoken[2 * f + 1]
        == samples[2 * f + 1] by {
        assert(spoken[2 * f] == samples[2 * f]);
        assert(spoken[2 * f + 1] == samples[2 * f + 1]);
    }
    assert forall|f: int|
        0 <= f < spoken.len() as int / 2 && !#[trigger] limits.speaks_at(
            spoken,
            f,
        ) implies spoken[2 * f] == 0 && spoken[2 * f + 1] == 0 by {
        if f < stored {
            assert(!limits.speaks_at(samples, f));
        } else {
            assert(f < last);
            assert(spoken[2 * f] == gap[2 * f] && spoken[2 * f + 1] == gap[2 * f + 1]);
        }
    }
    assert forall|from: int|
        0 <= from && from + limits.trailing_silence
            <= spoken.len() as int / 2 implies #[trigger] limits.speaks_soon(spoken, from) by {
        if from + limits.trailing_silence <= stored {
            assert(limits.speaks_soon(samples, from));
            let f = choose|f: int|
                from <= f < from + limits.trailing_silence && #[trigger] limits.speaks_at(
                    samples,
                    f,
                );
            assert(limits.speaks_at(spoken, f));
        } else if from + limits.trailing_silence > last {
            assert(limits.speaks_at(spoken, last));
        } else {
            assert(limits.speaks_at(samples, stored - 1));
            assert(limits.speaks_at(spoken, stored - 1));
        }
    }
}

/// Every frame keeps the invariant, and a segment that it completes is sound and starts where or
/// after those before it ended.
pub proof fn lemma_frame_keeps_wf(m: CaptureModel, limits: CaptureLimits, left: i16, right: i16)
    requires
        limits.valid(),
        m.wf(limits),
    ensures
        m.after_frame(limits, left, right).0.wf(limits),
        m.after_frame(limits, left, right).1 matches Some(segment) ==> CaptureModel::sound_segment(
            limits,
            segment,
        ),
        in_order(
            m.frontier(),
            completed(m.after_frame(limits, left, right).1),
            m.after_frame(limits, left, right).0.frontier(),
        ),
{
    let spoken = m.samples + silent_samples(m.pending) + seq![left, right];
    if limits.is_speech(left, right) {
        if m.start is None {
            assert(limits.gaps_are_short_and_zero(m.samples)) by {
                reveal(CaptureLimits::gaps_are_short_and_zero);
            }
        } else {
            assert(limits.speaks_at(m.samples, m.samples.len() as int / 2 - 1));
        }
        lemma_speech_after_gap(limits, m.samples, m.pending, left, right);
        assert(spoken.len() == m.samples.len() + 2 * m.pending + 2);
        assert(spoken[spoken.len() - 2] == left);
        assert(spoken[spoken.len() - 1] == right);
        if m.start is Some {
            assert(spoken[0] == m.samples[0] && spoken[1] == m.samples[1]);
        }
    }
}

/// Every silent frame keeps the invariant, and a segment that it completes is sound and starts
/// where or after those before it ended.
pub proof fn lemma_silent_frame_keeps_wf(m: CaptureModel, limits: CaptureLimits)
    requires
        limits.valid(),
        m.wf(limits),
    ensures
        m.after_silent_frame(limits).0.wf(limits),
        m.after_silent_frame(limits).1 matches Some(segment) ==> CaptureModel::sound_segment(
            limits,
            segment,
        ),
        in_order(
            m.frontier(),
            completed(m.after_silent_frame(limits).1),
            m.after_silent_frame(limits).0.frontier(),
        ),
{
}

/// A flush keeps the invariant and leaves nothing buffered, and what it hands out is sound and
/// starts where or after the segments before it ended.
pub proof fn lemma_flush_keeps_wf(m: CaptureModel, limits: CaptureLimits, boundary: SegmentBoundary)
    requires
        limits.valid(),
        m.wf(limits),
    ensures
        m.finished(limits, boundary).0.wf(limits),
        m.finished(limits, boundary).0.start is None,
        m.finished(limits, boundary).0.buffered() == 0,
        m.finished(limits, boundary).1 matches Some(segment) ==> CaptureModel::sound_segment(
            limits,
            segment,
        ),
        in_order(
            m.frontier(),
            completed(m.finished(limits, boundary).1),
            m.finished(limits, boundary).0.frontier(),
        ),
{
}

/// Any run of samples keeps the invariant, and the segments that it completes are sound and come in
/// order, after those handed out before.
pub proof fn lemma_samples_keep_wf(m: CaptureModel, limits: CaptureLimits, samples: Seq<i16>)
    requires
        limits.valid(),
        m.wf(limits),
    ensures
        m.after_samples(limits, samples).0.wf(limits),
        forall|i: int|
            0 <= i < m.after_samples(limits, samples).1.len() ==> CaptureModel::sound_segment(
                limits,
                #[trigger] m.after_samples(limits, samples).1[i],
            ),
        in_order(
            m.frontier(),
            m.after_samples(limits, samples).1,
            m.after_samples(limits, samples).0.frontier(),
        ),
    decreases samples.len(),
{
    if samples.len() >= 2 {
        let n = samples.len() as int;
        lemma_samples_keep_wf(m, limits, samples.take(n - 2));
        let (before, done) = m.after_samples(limits, samples.take(n - 2));
        lemma_frame_keeps_wf(before, limits, samples[n - 2], samples[n - 1]);
        let (now, segment) = before.after_frame(limits, samples[n - 2], samples[n - 1]);
        lemma_in_order_appended(
            m.frontier(),
            done,
            before.frontier(),
            completed(segment),
            now.frontier(),
        );
    }
}

/// Any number of silent frames keeps the invariant, and the segments that they complete are sound
/// and come in order, after those handed out before.
pub proof fn lemma_silence_keeps_wf(m: CaptureModel, limits: CaptureLimits, n: int)
    requires
        limits.valid(),
        m.wf(limits),
    ensures
        m.after_silence(limits, n).0.wf(limits),
        forall|i: int|
            0 <= i < m.after_silence(limits, n).1.len() ==> CaptureModel::sound_segment(
                limits,
                #[trigger] m.after_silence(limits, n).1[i],
            ),
        in_order(
            m.frontier(),
            m.after_silence(limits, n).1,
            m.after_silence(limits, n).0.frontier(),
        ),
    decreases n,
{
    if n > 0 {
        lemma_silence_keeps_wf(m, limits, n - 1);
        let (before, done) = m.after_silence(limits, n - 1);
        lemma_silent_frame_keeps_wf(before, limits);
        let (now, segment) = before.after_silent_frame(limits);
        lemma_in_order_appended(
            m.frontier(),
            done,
            before.frontier(),
            completed(segment),
            now.frontier(),
        );
    }
}

/// How the frames are spread over pushes makes no difference: pushing two runs of samples one
/// after the other does what one push of both does.
pub proof fn lemma_pushes_compose(m: CaptureModel, limits: CaptureLimits, a: Seq<i16>, b: Seq<i16>)
    requires
        a.len() % 2 == 0,
        b.len() % 2 == 0,
    ensures
        ({
            let (mid, first) = m.after_samples(limits, a);
            let (end, second) = mid.after_samples(limits, b);
            m.after_samples(limits, a + b) == (end, first + second)
        }),
    decreases b.len(),
{
    let (mid, first) = m.after_samples(limits, a);
    if b.len() < 2 {
        assert(a + b =~= a);
        assert(first + Seq::<SegmentModel>::empty() =~= first);
    } else {
        let n = b.len() as int;
        let ab = a + b;
        lemma_pushes_compose(m, limits, a, b.take(n - 2));
        assert(ab.take(ab.len() - 2) =~= a + b.take(n - 2));
        let (before, done) = mid.after_samples(limits, b.take(n - 2));
        let (end, segment) = before.after_frame(limits, b[n - 2], b[n - 1]);
        assert((first + done) + completed(segment) =~= first + (done + completed(segment)));
    }
}

/// The same holds of runs of silent frames.
pub proof fn lemma_silences_compose(m: CaptureModel, limits: CaptureLimits, a: int, b: int)
    requires
        0 <= a,
        0 <= b,
    ensures
        ({
            let (mid, first) = m.after_silence(limits, a);
            let (end, second) = mid.after_silence(limits, b);
            m.after_silence(limits, a + b) == (end, first + second)
        }),
    decreases b,
{
    let (mid, first) = m.after_silence(limits, a);
    if b == 0 {
        assert(first + Seq::<SegmentModel>::empty() =~= first);
    } else {
        lemma_silences_compose(m, limits, a, b - 1);
        let (before, done) = mid.after_silence(limits, b - 1);
        let (end, segment) = before.after_silent_frame(limits);
        assert((first + done) + completed(segment) =~= first + (done + completed(segment)));
    }
}

/// Counting silent frames does what pushing samples at or below the threshold does.
pub proof fn lemma_silence_is_quiet_samples(
    m: CaptureModel,
    limits: CaptureLimits,
    samples: Seq<i16>,
)
    requires
        samples.len() % 2 == 0,
        forall|i: int|
            0 <= i < samples.len() ==> magnitude(#[trigger] samples[i]) <= limits.silence_threshold,
    ensures
        m.after_silence(limits, samples.len() as int / 2) == m.after_samples(limits, samples),
    decreases samples.len(),
{
    if samples.len() >= 2 {
        lemma_silence_is_quiet_samples(m, limits, samples.take(samples.len() - 2));
    }
}

/// Silent frames while no segment is open are received and ignored.
proof fn lemma_idle_silence(m: CaptureModel, limits: CaptureLimits, n: int)
    requires
        0 <= n,
        m.start is None,
        0 <= m.received <= u64::MAX,
        0 <= m.ignored <= u64::MAX,
    ensures
        m.after_silence(limits, n) == (
            CaptureModel {
                received: sat(m.received + n),
                ignored: sat(m.ignored + n),
                ..m
            },
            Seq::<SegmentModel>::empty(),
        ),
    decreases n,
{
    if n > 0 {
        lemma_idle_silence(m, limits, n - 1);
        assert(Seq::<SegmentModel>::empty() + completed(None) =~= Seq::<SegmentModel>::empty());
    }
}

/// Silent frames below both boundaries are counted and change nothing else.
proof fn lemma_waiting_silence(m: CaptureModel, limits: CaptureLimits, n: int)
    requires
        0 <= n,
        m.start is Some,
        0 <= m.received <= u64::MAX,
        m.pending + n < limits.trailing_silence,
        m.buffered() + n < limits.maximum_segment,
    ensures
        m.after_silence(limits, n) == (
            CaptureModel { received: sat(m.received + n), pending: m.pending + n, ..m },
            Seq::<SegmentModel>::empty(),
        ),
    decreases n,
{
    if n > 0 {
        lemma_waiting_silence(m, limits, n - 1);
        assert(Seq::<SegmentModel>::empty() + completed(None) =~= Seq::<SegmentModel>::empty());
    }
}

/// Sample-count based segmenter for one Discord speaker.
///
/// Keep one instance per Discord user/SSRC mapping. Inactive leading silence and too-short
/// bursts are ignored. Trailing silence is the boundary signal but is trimmed from emitted audio.
#[derive(Debug)]
pub struct SpeakerPcmBuffer {
    config: PcmCaptureConfig,
    samples: Vec<i16>,
    segment_start_frame: Option<u64>,
    speech_frames: usize,
    /// Silent frames after the last stored speech frame. They are stored as zeros only if speech
    /// resumes before the boundary.
    pending_silence_frames: usize,
    stats: PcmCaptureStats,
}

impl View for SpeakerPcmBuffer {
    type V = CaptureModel;

    closed spec fn view(&self) -> CaptureModel {
        CaptureModel {
            start: match self.segment_start_frame {
                Some(start) => Some(start as int),
                None => None,
            },
            samples: self.samples@,
            speech: self.speech_frames as int,
            pending: self.pending_silence_frames as int,
            received: self.stats.received_frames as int,
            emitted: self.stats.emitted_frames as int,
            ignored: self.stats.ignored_frames as int,
            segments: self.stats.emitted_segments as int,
        }
    }
}

/// The segment that a call handed out, as a mathematical value.
pub open spec fn segment_model(segment: Option<PcmSegment>) -> Option<SegmentModel> {
    match segment {
        Some(s) => Some(s@),
        None => None,
    }
}

impl SpeakerPcmBuffer {
    /// The limits the buffer was made with.
    pub closed spec fn limits(&self) -> CaptureLimits {
        self.config@
    }

    /// The configuration the buffer was made with.
    pub closed spec fn configuration(&self) -> PcmCaptureConfig {
        self.config
    }

    pub closed spec fn wf(&self) -> bool {
        &&& self.config.wf()
        &&& self@.wf(self.config@)
    }

    pub fn new(config: PcmCaptureConfig) -> (r: Self)
        requires
            config.wf(),
        ensures
            r.wf(),
            r.configuration() == config,
            r.limits() == config@,
            r@ == (CaptureModel {
                start: None,
                samples: Seq::empty(),
                speech: 0,
                pending: 0,
                received: 0,
                emitted: 0,
                ignored: 0,
                segments: 0,
            }),
    {
        SpeakerPcmBuffer {
            config,
            samples: Vec::new(),
            segment_start_frame: None,
            speech_frames: 0,
            pending_silence_frames: 0,
            stats: PcmCaptureStats::default(),
        }
    }

    pub fn config(&self) -> (r: PcmCaptureConfig)
        ensures
            r == self.configuration(),
    {
        self.config
    }

    pub fn stats(&self) -> (r: PcmCaptureStats)
        ensures
            r.received_frames == self@.received,
            r.emitted_frames == self@.emitted,
            r.ignored_frames == self@.ignored,
            r.emitted_segments == self@.segments,
    {
        self.stats
    }

    pub fn buffered_frames(&self) -> (r: usize)
        requires
            self.wf(),
        ensures
            r == self@.buffered(),
    {
        self.stored_frames() + self.pending_silence_frames
    }

    pub fn is_active(&self) -> (r: bool)
        ensures
            r == (self@.start is Some),
    {
        self.segment_start_frame.is_some()
    }

    /// The samples that are stored for the open segment.
    pub fn samples(&self) -> (r: &Vec<i16>)
        ensures
            r@ == self@.samples,
    {
        &self.samples
    }

    /// Pushes decoded, interleaved stereo PCM and returns every completed segment.
    ///
    /// An odd number of samples is refused and changes nothing.
    pub fn push_interleaved_stereo(&mut self, interleaved_samples: &[i16]) -> (r: Result<
        Vec<PcmSegment>,
        PcmCaptureError,
    >)
        requires
            old(self).wf(),
        ensures
            final(self).wf(),
            final(self).configuration() == old(self).configuration(),
            final(self).limits() == old(self).limits(),
            if interleaved_samples@.len() % 2 == 0 {
                r matches Ok(segments) && (final(self)@, segment_models(segments@)) == old(
                    self,
                )@.after_samples(old(self).limits(), interleaved_samples@)
            } else {
                &&& r == Err::<Vec<PcmSegment>, PcmCaptureError>(
                    PcmCaptureError::NonStereoSampleCount {
                        sample_count: interleaved_samples@.len() as usize,
                    },
                )
                &&& final(self)@ == old(self)@
            },
    {
        if interleaved_samples.len() % 2 != 0 {
            return Err(
                PcmCaptureError::NonStereoSampleCount { sample_count: interleaved_samples.len() },
            );
        }
        let mut completed_segments: Vec<PcmSegment> = Vec::new();
        let mut i: usize = 0;
        let ghost limits = self.limits();
        let ghost initial = self@;
        assert(segment_models(completed_segments@) =~= Seq::empty());
        while i < interleaved_samples.len()
            invariant
                i <= interleaved_samples@.len(),
                i % 2 == 0,
                interleaved_samples@.len() % 2 == 0,
                self.wf(),
                self.limits() == limits,
                self.configuration() == old(self).configuration(),
                (self@, segment_models(completed_segments@)) == initial.after_samples(
                    limits,
                    interleaved_samples@.take(i as int),
                ),
            decreases interleaved_samples@.len() - i,
        {
            let left = interleaved_samples[i];
            let right = interleaved_samples[i + 1];
            let ghost before = completed_segments@;
            let ghost next = interleaved_samples@.take(i + 2);
            assert(next.take(next.len() - 2) =~= interleaved_samples@.take(i as int));
            let segment = self.push_frame(left, right);
            let ghost model = segment_model(segment);
            match segment {
                Some(segment) => {
                    completed_segments.push(segment);
                    assert(segment_models(completed_segments@) =~= segment_models(before)
                        + completed(model));
                },
                None => {
                    assert(segment_models(before) + completed(model) =~= segment_models(before));
                },
            }
            i = i + 2;
        }
        assert(interleaved_samples@.take(interleaved_samples@.len() as int)
            =~= interleaved_samples@);
        Ok(completed_segments)
    }

    /// Advances capture by one stereo frame.
    fn push_frame(&mut self, left: i16, right: i16) -> (r: Option<PcmSegment>)
        requires
            old(self).wf(),
        ensures
            final(self).wf(),
            final(self).configuration() == old(self).configuration(),
            (final(self)@, segment_model(r)) == old(self)@.after_frame(
                old(self).limits(),
                left,
                right,
            ),
    {
        proof {
            lemma_frame_keeps_wf(self@, self.limits(), left, right);
        }
        if !is_louder(left, self.config.silence_threshold) && !is_louder(
            right,
            self.config.silence_threshold,
        ) {
            proof {
                reveal_with_fuel(CaptureModel::after_silence, 2);
            }
            let segment = self.push_silence_frames(1);
            proof {
                let (now, one) = old(self)@.after_silent_frame(old(self).limits());
                assert(Seq::<SegmentModel>::empty() + completed(one) =~= completed(one));
                assert(completed(one) == completed(segment_model(segment)));
                if one is Some {
                    assert(completed(one)[0] == one->0);
                    assert(completed(segment_model(segment))[0] == segment_model(segment)->0);
                }
            }
            return segment;
        }
        let ghost limits = self.limits();
        let frame_index = self.stats.received_frames;
        self.stats.received_frames = self.stats.received_frames.saturating_add(1);
        if self.segment_start_frame.is_none() {
            self.segment_start_frame = Some(frame_index);
            assert(self.samples@ =~= old(self).samples@ + silent_samples(0));
        } else {
            self.materialize_pending_silence();
        }
        self.samples.push(left);
        self.samples.push(right);
        assert(self.samples@ =~= old(self)@.samples + silent_samples(old(self)@.pending)
            + seq![left, right]);
        self.speech_frames = self.speech_frames + 1;
        if self.samples.len() / 2 + self.pending_silence_frames
            >= self.config.maximum_segment_frames {
            self.finish_segment(SegmentBoundary::MaximumDuration)
        } else {
            None
        }
    }

    /// Advances capture by silent stereo frames without a zero-filled PCM buffer.
    ///
    /// At most one segment can complete: after the open segment ends, all remaining frames are
    /// leading silence and are ignored.
    #[verifier::spinoff_prover]
    #[verifier::rlimit(40)]
    pub fn push_silence_frames(&mut self, frame_count: usize) -> (r: Option<PcmSegment>)
        requires
            old(self).wf(),
        ensures
            final(self).wf(),
            final(self).configuration() == old(self).configuration(),
            final(self).limits() == old(self).limits(),
            (final(self)@, completed(segment_model(r))) == old(self)@.after_silence(
                old(self).limits(),
                frame_count as int,
            ),
    {
        let ghost limits = self.limits();
        let ghost start = self@;
        proof {
            lemma_silence_keeps_wf(start, limits, frame_count as int);
        }
        if frame_count == 0 {
            return None;
        }
        if self.segment_start_frame.is_none() {
            proof {
                lemma_idle_silence(start, limits, frame_count as int);
            }
            self.account_inactive_silence(frame_count);
            return None;
        }
        let until_silence = self.config.trailing_silence_frames - self.pending_silence_frames;
        let until_maximum = self.config.maximum_segment_frames - self.buffered_frames();
        let until_boundary = if until_silence < until_maximum {
            until_silence
        } else {
            until_maximum
        };
        let consumed = if frame_count < until_boundary {
            frame_count
        } else {
            until_boundary
        };
        proof {
            lemma_waiting_silence(start, limits, consumed - 1);
            lemma_silence_keeps_wf(start, limits, consumed as int);
            let (_, one) = start.after_silence(limits, consumed - 1).0.after_silent_frame(limits);
            assert(Seq::<SegmentModel>::empty() + completed(one) =~= completed(one));
        }
        self.pending_silence_frames = self.pending_silence_frames + consumed;
        self.stats.received_frames = self.stats.received_frames.saturating_add(consumed as u64);
        let segment = if self.pending_silence_frames >= self.config.trailing_silence_frames {
            self.finish_segment(SegmentBoundary::Silence)
        } else if self.samples.len() / 2 + self.pending_silence_frames
            >= self.config.maximum_segment_frames {
            self.finish_segment(SegmentBoundary::MaximumDuration)
        } else {
            None
        };
        let ghost mid = self@;
        assert((mid, completed(segment_model(segment))) == start.after_silence(
            limits,
            consumed as int,
        ));
        proof {
            let rest = frame_count - consumed;
            lemma_silences_compose(start, limits, consumed as int, rest);
            if rest > 0 {
                lemma_idle_silence(mid, limits, rest);
            }
            assert(completed(segment_model(segment)) + Seq::<SegmentModel>::empty() =~= completed(
                segment_model(segment),
            ));
        }
        self.account_inactive_silence(frame_count - consumed);
        segment
    }

    /// Finalizes a partial segment, trimming any silence already accumulated. Too-short speech
    /// bursts are discarded.
    pub fn flush(&mut self) -> (r: Option<PcmSegment>)
        requires
            old(self).wf(),
        ensures
            final(self).wf(),
            final(self).configuration() == old(self).configuration(),
            final(self).limits() == old(self).limits(),
            (final(self)@, segment_model(r)) == old(self)@.finished(
                old(self).limits(),
                SegmentBoundary::Flush,
            ),
    {
        proof {
            lemma_flush_keeps_wf(self@, self.limits(), SegmentBoundary::Flush);
        }
        self.finish_segment(SegmentBoundary::Flush)
    }

    fn finish_segment(&mut self, boundary: SegmentBoundary) -> (r: Option<PcmSegment>)
        requires
            old(self)@.start is Some ==> old(self)@.samples.len() >= 2,
            old(self)@.buffered() <= usize::MAX,
        ensures
            final(self).config == old(self).config,
            (final(self)@, segment_model(r)) == old(self)@.finished(old(self).limits(), boundary),
    {
        let start_frame = match self.segment_start_frame {
            Some(start_frame) => start_frame,
            None => return None,
        };
        let kept_frames = self.samples.len() / 2;
        let ignored_trailing_frames = self.pending_silence_frames;
        let buffered_frames = kept_frames + ignored_trailing_frames;
        let qualifies = self.speech_frames >= self.config.minimum_speech_frames && kept_frames > 0;
        let mut samples: Vec<i16> = Vec::new();
        std::mem::swap(&mut samples, &mut self.samples);
        self.segment_start_frame = None;
        self.speech_frames = 0;
        self.pending_silence_frames = 0;
        if !qualifies {
            self.stats.ignored_frames = self.stats.ignored_frames.saturating_add(
                buffered_frames as u64,
            );
            return None;
        }
        self.stats.ignored_frames = self.stats.ignored_frames.saturating_add(
            ignored_trailing_frames as u64,
        );
        self.stats.emitted_frames = self.stats.emitted_frames.saturating_add(kept_frames as u64);
        self.stats.emitted_segments = self.stats.emitted_segments.saturating_add(1);
        let end_frame = start_frame.saturating_add(kept_frames as u64);
        Some(PcmSegment { start_frame, end_frame, interleaved_samples: samples, boundary })
    }

    fn stored_frames(&self) -> (r: usize)
        ensures
            r == self@.stored(),
    {
        self.samples.len() / 2
    }

    fn materialize_pending_silence(&mut self)
        requires
            old(self).samples@.len() + 2 * old(self).pending_silence_frames <= usize::MAX,
        ensures
            *final(self) == (SpeakerPcmBuffer {
                samples: final(self).samples,
                pending_silence_frames: 0,
                ..*old(self)
            }),
            final(self).samples@ == old(self).samples@ + silent_samples(
                old(self).pending_silence_frames as int,
            ),
    {
        if self.pending_silence_frames == 0 {
            assert(self.samples@ =~= self.samples@ + silent_samples(0));
            return;
        }
        let length = self.samples.len() + self.pending_silence_frames * 2;
        self.samples.resize(length, 0);
        assert(self.samples@ =~= old(self).samples@ + silent_samples(
            old(self).pending_silence_frames as int,
        ));
        self.pending_silence_frames = 0;
    }

    fn account_inactive_silence(&mut self, frame_count: usize)
        ensures
            final(self).config == old(self).config,
            final(self)@ == (CaptureModel {
                received: sat(old(self)@.received + frame_count),
                ignored: sat(old(self)@.ignored + frame_count),
                ..old(self)@
            }),
    {
        self.stats.received_frames = self.stats.received_frames.saturating_add(frame_count as u64);
        self.stats.ignored_frames = self.stats.ignored_frames.saturating_add(frame_count as u64);
    }
}

/// Whether a sample is louder than a threshold.
fn is_louder(sample: i16, threshold: u16) -> (r: bool)
    ensures
        r == (magnitude(sample) > threshold),
{
    let wide = sample as i32;
    let magnitude = if wide < 0 {
        -wide
    } else {
        wide
    };
    magnitude > threshold as i32
}

/// WAV encoding errors.
#[derive(Debug, Clone, Copy, PartialEq, Eq, Structural)]
pub enum WavEncodeError {
    ZeroChannels,
    SamplesNotChannelAligned { sample_count: usize, channels: u16 },
    BlockAlignOverflow,
    ByteRateOverflow,
    DataTooLarge,
}

impl WavEncodeError {
    /// The text that describes the error.
    pub open spec fn text(self) -> Seq<char> {
        match self {
            WavEncodeError::ZeroChannels => "WAV channel count must be non-zero"@,
            WavEncodeError::SamplesNotChannelAligned { sample_count, channels } => {
                text::decimal(sample_count as nat) + " samples are not aligned to "@ + text::decimal(
                    channels as nat,
                ) + " channels"@
            },
            WavEncodeError::BlockAlignOverflow => "WAV block alignment exceeds u16"@,
            WavEncodeError::ByteRateOverflow => "WAV byte rate exceeds u32"@,
            WavEncodeError::DataTooLarge => "WAV data exceeds the RIFF 32-bit size limit"@,
        }
    }

    /// Describes the error.
    pub fn message(&self) -> (s: String)
        ensures
            s@ == self.text(),
    {
        match self {
            WavEncodeError::ZeroChannels => String::from_str("WAV channel count must be non-zero"),
            WavEncodeError::SamplesNotChannelAligned { sample_count, channels } => {
                let mut s = text::decimal_string(*sample_count as u64);
                s.append(" samples are not aligned to ");
                text::push_decimal(&mut s, *channels as u64);
                s.append(" channels");
                s
            },
            WavEncodeError::BlockAlignOverflow => String::from_str(
                "WAV block alignment exceeds u16",
            ),
            WavEncodeError::ByteRateOverflow => String::from_str("WAV byte rate exceeds u32"),
            WavEncodeError::DataTooLarge => String::from_str(
                "WAV data exceeds the RIFF 32-bit size limit",
            ),
        }
    }
}

/// A sample's two's complement as an unsigned number.
pub open spec fn sample_bits(sample: i16) -> int {
    if sample < 0 {
        sample + 65536
    } else {
        sample as int
    }
}

/// The samples in little-endian order, two bytes each.
pub open spec fn pcm_bytes(samples: Seq<i16>) -> Seq<u8>
    decreases samples.len(),
{
    if samples.len() == 0 {
        Seq::empty()
    } else {
        pcm_bytes(samples.drop_last()) + bytes::le16(sample_bits(samples.last()))
    }
}

/// The 44 bytes before the samples of a PCM WAV file, with the lengths of the file after its first
/// eight bytes and of its samples as they are declared.
#[verifier::opaque]
pub open spec fn declared_header(
    riff_len: int,
    data_len: int,
    sample_rate_hz: int,
    channels: int,
) -> Seq<u8> {
    bytes::tag('R', 'I', 'F', 'F') + bytes::le32(riff_len) + bytes::tag('W', 'A', 'V', 'E')
        + bytes::tag('f', 'm', 't', ' ') + bytes::le32(16) + bytes::le16(1) + bytes::le16(channels)
        + bytes::le32(sample_rate_hz) + bytes::le32(sample_rate_hz * (channels * 2)) + bytes::le16(
        channels * 2,
    ) + bytes::le16(16) + bytes::tag('d', 'a', 't', 'a') + bytes::le32(data_len)
}

/// The header of a PCM WAV file whose length is known.
pub open spec fn wav_header(data_len: int, sample_rate_hz: int, channels: int) -> Seq<u8> {
    declared_header(36 + data_len, data_len, sample_rate_hz, channels)
}

/// A PCM WAV stream of 16-bit samples whose length was not known when its header was written.
pub open spec fn wav_stream(
    samples: Seq<i16>,
    riff_len: int,
    sample_rate_hz: int,
    channels: int,
) -> Seq<u8> {
    declared_header(riff_len, 0xffff_ffff, sample_rate_hz, channels) + pcm_bytes(samples)
}

/// A PCM WAV file of 16-bit samples.
pub open spec fn wav_file(samples: Seq<i16>, sample_rate_hz: int, channels: int) -> Seq<u8> {
    wav_header(2 * samples.len() as int, sample_rate_hz, channels) + pcm_bytes(samples)
}

/// Why samples cannot be written as a WAV file.
pub open spec fn wav_error(sample_count: nat, sample_rate_hz: u32, channels: u16) -> Option<
    WavEncodeError,
> {
    if channels == 0 {
        Some(WavEncodeError::ZeroChannels)
    } else if sample_count % (channels as nat) != 0 {
        Some(
            WavEncodeError::SamplesNotChannelAligned {
                sample_count: sample_count as usize,
                channels,
            },
        )
    } else if channels * 2 > u16::MAX {
        Some(WavEncodeError::BlockAlignOverflow)
    } else if sample_rate_hz * (channels * 2) > u32::MAX {
        Some(WavEncodeError::ByteRateOverflow)
    } else if 36 + 2 * sample_count > u32::MAX || 44 + 2 * sample_count > usize::MAX {
        Some(WavEncodeError::DataTooLarge)
    } else {
        None
    }
}

/// Two bytes are written for each sample.
pub proof fn lemma_pcm_bytes_len(samples: Seq<i16>)
    ensures
        pcm_bytes(samples).len() == 2 * samples.len(),
    decreases samples.len(),
{
    if samples.len() > 0 {
        lemma_pcm_bytes_len(samples.drop_last());
    }
}

/// Encodes interleaved signed 16-bit PCM into a little-endian RIFF/WAV file: the canonical
/// 44-byte PCM header, then the sample bytes.
pub fn encode_pcm_s16le_wav(interleaved_samples: &[i16], sample_rate_hz: u32, channels: u16) -> (r:
    Result<Vec<u8>, WavEncodeError>)
    ensures
        match wav_error(interleaved_samples@.len(), sample_rate_hz, channels) {
            Some(e) => r == Err::<Vec<u8>, WavEncodeError>(e),
            None => r matches Ok(wav) && wav@ == wav_file(
                interleaved_samples@,
                sample_rate_hz as int,
                channels as int,
            ),
        },
{
    if channels == 0 {
        return Err(WavEncodeError::ZeroChannels);
    }
    if interleaved_samples.len() % channels as usize != 0 {
        return Err(
            WavEncodeError::SamplesNotChannelAligned {
                sample_count: interleaved_samples.len(),
                channels,
            },
        );
    }
    let block_align: u16 = match channels.checked_mul(2) {
        Some(block_align) => block_align,
        None => return Err(WavEncodeError::BlockAlignOverflow),
    };
    let byte_rate: u32 = match sample_rate_hz.checked_mul(block_align as u32) {
        Some(byte_rate) => byte_rate,
        None => return Err(WavEncodeError::ByteRateOverflow),
    };
    let length: usize = match interleaved_samples.len().checked_mul(2) {
        Some(length) => length,
        None => return Err(WavEncodeError::DataTooLarge),
    };
    if length as u64 > 0xffff_ffff - 36 || length > usize::MAX - 44 {
        return Err(WavEncodeError::DataTooLarge);
    }
    let data_len: u32 = length as u32;
    let mut wav: Vec<u8> = Vec::with_capacity(44 + length);
    bytes::push_tag(&mut wav, 'R', 'I', 'F', 'F');
    bytes::push_le32(&mut wav, 36 + data_len);
    bytes::push_tag(&mut wav, 'W', 'A', 'V', 'E');
    bytes::push_tag(&mut wav, 'f', 'm', 't', ' ');
    bytes::push_le32(&mut wav, 16);
    bytes::push_le16(&mut wav, 1);
    bytes::push_le16(&mut wav, channels);
    bytes::push_le32(&mut wav, sample_rate_hz);
    bytes::push_le32(&mut wav, byte_rate);
    bytes::push_le16(&mut wav, block_align);
    bytes::push_le16(&mut wav, 16);
    bytes::push_tag(&mut wav, 'd', 'a', 't', 'a');
    bytes::push_le32(&mut wav, data_len);
    let ghost header = wav_header(length as int, sample_rate_hz as int, channels as int);
    assert(wav@ =~= header) by {
        reveal(declared_header);
    }
    let mut i: usize = 0;
    assert(interleaved_samples@.take(0) =~= Seq::empty());
    assert(wav@ =~= header + pcm_bytes(interleaved_samples@.take(0)));
    while i < interleaved_samples.len()
        invariant
            i <= interleaved_samples@.len(),
            wav@ == header + pcm_bytes(interleaved_samples@.take(i as int)),
        decreases interleaved_samples@.len() - i,
    {
        let sample = interleaved_samples[i] as i32;
        let bits: u16 = if sample < 0 {
            (sample + 65536) as u16
        } else {
            sample as u16
        };
        bytes::push_le16(&mut wav, bits);
        proof {
            let next = interleaved_samples@.take(i + 1);
            assert(next.drop_last() =~= interleaved_samples@.take(i as int));
            assert(wav@ =~= header + pcm_bytes(next));
        }
        i = i + 1;
    }
    assert(interleaved_samples@.take(interleaved_samples@.len() as int) =~= interleaved_samples@);
    Ok(wav)
}

/// A number of 48 kHz frames in whole milliseconds.
pub open spec fn frames_as_millis(frames: int) -> int {
    sat(frames * 1000) / 48_000
}

/// A number of 48 kHz frames in whole milliseconds.
fn frames_to_millis(frames: u64) -> (r: u64)
    ensures
        r == frames_as_millis(frames as int),
{
    match frames.checked_mul(1_000) {
        Some(product) => product / DISCORD_VOICE_SAMPLE_RATE_HZ as u64,
        None => u64::MAX / DISCORD_VOICE_SAMPLE_RATE_HZ as u64,
    }
}

impl PcmSegment {
    pub fn frame_count(&self) -> (r: usize)
        ensures
            r == self.interleaved_samples@.len() / 2,
    {
        self.interleaved_samples.len() / DISCORD_VOICE_CHANNELS as usize
    }

    pub fn duration_millis(&self) -> (r: u64)
        ensures
            r == frames_as_millis(self.interleaved_samples@.len() as int / 2),
    {
        frames_to_millis(self.frame_count() as u64)
    }

    /// Encodes this segment as a standard little-endian PCM WAV file.
    pub fn to_wav_bytes(&self) -> (r: Result<Vec<u8>, WavEncodeError>)
        ensures
            match wav_error(
                self.interleaved_samples@.len(),
                DISCORD_VOICE_SAMPLE_RATE_HZ,
                DISCORD_VOICE_CHANNELS,
            ) {
                Some(e) => r == Err::<Vec<u8>, WavEncodeError>(e),
                None => r matches Ok(wav) && wav@ == wav_file(
                    self.interleaved_samples@,
                    48_000,
                    2,
                ),
            },
    {
        encode_pcm_s16le_wav(
            self.interleaved_samples.as_slice(),
            DISCORD_VOICE_SAMPLE_RATE_HZ,
            DISCORD_VOICE_CHANNELS,
        )
    }
}

/// One successful transcript segment, timed relative to the voice session.
///
/// `start_frame` and `end_frame` use the same 48 kHz timeline as [`PcmSegment`].
#[derive(Debug, Clone, PartialEq, Eq)]
pub struct TranscriptEntry {
    pub speaker_id: u64,
    pub speaker_name: String,
    pub start_frame: u64,
    pub end_frame: u64,
    pub text: String,
}

/// The number of bytes that a text takes in UTF-8.
pub open spec fn utf8_len(s: Seq<char>) -> nat {
    vstd::utf8::encode_utf8(s).len()
}

impl TranscriptEntry {
    pub fn text_bytes(&self) -> (r: usize)
        ensures
            r == utf8_len(self.text@),
    {
        self.text.as_str().as_bytes().len()
    }

    pub fn start_millis(&self) -> (r: u64)
        ensures
            r == frames_as_millis(self.start_frame as int),
    {
        frames_to_millis(self.start_frame)
    }

    pub fn end_millis(&self) -> (r: u64)
        ensures
            r == frames_as_millis(self.end_frame as int),
    {
        frames_to_millis(self.end_frame)
    }
}

/// Invalid limits for [`TranscriptStore`].
#[derive(Debug, Clone, Copy, PartialEq, Eq, Structural)]
pub enum TranscriptStoreError {
    ZeroMaximumEntries,
    ZeroMaximumTextBytes,
}

impl TranscriptStoreError {
    /// Describes the error.
    pub fn message(&self) -> (s: String)
        ensures
            s@ == match self {
                TranscriptStoreError::ZeroMaximumEntries => {
                    "transcript maximum entry count must be non-zero"@
                },
                TranscriptStoreError::ZeroMaximumTextBytes => {
                    "transcript maximum text byte count must be non-zero"@
                },
            },
    {
        String::from_str(
            match self {
                TranscriptStoreError::ZeroMaximumEntries => {
                    "transcript maximum entry count must be non-zero"
                },
                TranscriptStoreError::ZeroMaximumTextBytes => {
                    "transcript maximum text byte count must be non-zero"
                },
            },
        )
    }
}

/// Per-push result from [`TranscriptStore::push`].
#[derive(Debug, Clone, Copy, PartialEq, Eq, Structural)]
pub struct TranscriptPushOutcome {
    pub accepted: bool,
    pub evicted_entries: u64,
    pub evicted_text_bytes: u64,
}

impl Default for TranscriptPushOutcome {
    fn default() -> (r: Self)
        ensures
            r == (TranscriptPushOutcome {
                accepted: false,
                evicted_entries: 0,
                evicted_text_bytes: 0,
            }),
    {
        TranscriptPushOutcome { accepted: false, evicted_entries: 0, evicted_text_bytes: 0 }
    }
}

/// Cumulative bounded-store accounting.
#[derive(Debug, Clone, Copy, PartialEq, Eq, Structural)]
pub struct TranscriptStoreStats {
    pub accepted_entries: u64,
    pub rejected_entries: u64,
    pub evicted_entries: u64,
    pub evicted_text_bytes: u64,
}

impl Default for TranscriptStoreStats {
    fn default() -> (r: Self)
        ensures
            r == (TranscriptStoreStats {
                accepted_entries: 0,
                rejected_entries: 0,
                evicted_entries: 0,
                evicted_text_bytes: 0,
            }),
    {
        TranscriptStoreStats {
            accepted_entries: 0,
            rejected_entries: 0,
            evicted_entries: 0,
            evicted_text_bytes: 0,
        }
    }
}

/// The bytes of transcript text that the entries hold.
pub open spec fn text_total(entries: Seq<TranscriptEntry>) -> nat
    decreases entries.len(),
{
    if entries.len() == 0 {
        0
    } else {
        text_total(entries.drop_last()) + utf8_len(entries.last().text@)
    }
}

/// Whether one more entry with `incoming` bytes of text fits.
pub open spec fn has_room(
    entries: Seq<TranscriptEntry>,
    incoming: nat,
    maximum_entries: nat,
    maximum_text_bytes: nat,
) -> bool {
    entries.len() < maximum_entries && text_total(entries) + incoming <= maximum_text_bytes
}

/// How many of the oldest entries go so that one with `incoming` bytes of text fits.
pub open spec fn eviction_count(
    entries: Seq<TranscriptEntry>,
    incoming: nat,
    maximum_entries: nat,
    maximum_text_bytes: nat,
) -> nat
    decreases entries.len(),
{
    if entries.len() == 0 || has_room(entries, incoming, maximum_entries, maximum_text_bytes) {
        0
    } else {
        1 + eviction_count(entries.skip(1), incoming, maximum_entries, maximum_text_bytes)
    }
}

proof fn lemma_text_total_front(entries: Seq<TranscriptEntry>)
    requires
        entries.len() > 0,
    ensures
        text_total(entries) == utf8_len(entries[0].text@) + text_total(entries.skip(1)),
    decreases entries.len(),
{
    if entries.len() == 1 {
        assert(entries.drop_last() =~= Seq::empty());
        assert(entries.skip(1) =~= Seq::empty());
    } else {
        lemma_text_total_front(entries.drop_last());
        assert(entries.drop_last().skip(1) =~= entries.skip(1).drop_last());
    }
}

/// An entry is made room for by evicting as few of the oldest entries as possible.
pub proof fn lemma_evictions_are_least(
    entries: Seq<TranscriptEntry>,
    incoming: nat,
    maximum_entries: nat,
    maximum_text_bytes: nat,
)
    requires
        0 < maximum_entries,
        incoming <= maximum_text_bytes,
    ensures
        ({
            let k = eviction_count(entries, incoming, maximum_entries, maximum_text_bytes);
            &&& k <= entries.len()
            &&& has_room(entries.skip(k as int), incoming, maximum_entries, maximum_text_bytes)
            &&& forall|j: int|
                0 <= j < k ==> !has_room(
                    #[trigger] entries.skip(j),
                    incoming,
                    maximum_entries,
                    maximum_text_bytes,
                )
        }),
    decreases entries.len(),
{
    assert(entries.skip(0) =~= entries);
    if entries.len() != 0 && !has_room(entries, incoming, maximum_entries, maximum_text_bytes) {
        let rest = entries.skip(1);
        lemma_evictions_are_least(rest, incoming, maximum_entries, maximum_text_bytes);
        let k = eviction_count(rest, incoming, maximum_entries, maximum_text_bytes);
        assert(rest.skip(k as int) =~= entries.skip(k + 1int));
        assert forall|j: int| 0 <= j < k + 1 implies !has_room(
            #[trigger] entries.skip(j),
            incoming,
            maximum_entries,
            maximum_text_bytes,
        ) by {
            if j > 0 {
                assert(entries.skip(j) =~= rest.skip(j - 1));
            }
        }
    }
}

/// A transcript window as a mathematical value.
#[verifier::ext_equal]
pub struct TranscriptModel {
    pub entries: Seq<TranscriptEntry>,
    pub maximum_entries: nat,
    pub maximum_text_bytes: nat,
    pub totals: TranscriptStoreStats,
}

impl TranscriptModel {
    /// Whether an entry is not larger than the whole window.
    pub open spec fn accepts(self, entry: TranscriptEntry) -> bool {
        utf8_len(entry.text@) <= self.maximum_text_bytes
    }

    /// How many of the oldest entries go for an entry that is accepted.
    pub open spec fn evictions(self, entry: TranscriptEntry) -> nat {
        eviction_count(
            self.entries,
            utf8_len(entry.text@),
            self.maximum_entries,
            self.maximum_text_bytes,
        )
    }

    /// The window after an entry was offered. One that is accepted stands at its end; one that is
    /// rejected is only counted.
    pub open spec fn pushed(self, entry: TranscriptEntry) -> Self {
        if self.accepts(entry) {
            let k = self.evictions(entry) as int;
            TranscriptModel {
                entries: self.entries.skip(k).push(entry),
                totals: TranscriptStoreStats {
                    accepted_entries: sat(self.totals.accepted_entries + 1) as u64,
                    evicted_entries: sat(self.totals.evicted_entries + k) as u64,
                    evicted_text_bytes: sat(
                        self.totals.evicted_text_bytes + text_total(self.entries.take(k)),
                    ) as u64,
                    ..self.totals
                },
                ..self
            }
        } else {
            TranscriptModel {
                totals: TranscriptStoreStats {
                    rejected_entries: sat(self.totals.rejected_entries + 1) as u64,
                    ..self.totals
                },
                ..self
            }
        }
    }

    /// The window after entries were offered one after the other.
    pub open spec fn pushed_all(self, entries: Seq<TranscriptEntry>) -> Self
        decreases entries.len(),
    {
        if entries.len() == 0 {
            self
        } else {
            self.pushed_all(entries.drop_last()).pushed(entries.last())
        }
    }

    /// Those of the entries offered that are accepted.
    pub open spec fn accepted_of(self, entries: Seq<TranscriptEntry>) -> Seq<TranscriptEntry>
        decreases entries.len(),
    {
        if entries.len() == 0 {
            Seq::empty()
        } else {
            let before = self.accepted_of(entries.drop_last());
            if self.accepts(entries.last()) {
                before.push(entries.last())
            } else {
                before
            }
        }
    }

    /// Until a counter is full: every entry offered was accepted or rejected, every entry accepted
    /// is held or was evicted, and so is every byte of text accepted. What the window held and had
    /// counted before is set off, so this goes for a window that was cleared as well.
    pub proof fn lemma_pushes_are_accounted_for(self, offered: Seq<TranscriptEntry>)
        requires
            0 < self.maximum_entries,
        ensures
            ({
                let after = self.pushed_all(offered);
                let accepted = self.accepted_of(offered);
                &&& after.totals.accepted_entries < u64::MAX ==> after.totals.accepted_entries
                    == self.totals.accepted_entries + accepted.len()
                &&& after.totals.accepted_entries < u64::MAX && after.totals.rejected_entries
                    < u64::MAX ==> after.totals.accepted_entries + after.totals.rejected_entries
                    == self.totals.accepted_entries + self.totals.rejected_entries + offered.len()
                &&& after.totals.evicted_entries < u64::MAX ==> self.entries.len() + accepted.len()
                    == after.entries.len() + after.totals.evicted_entries
                    - self.totals.evicted_entries
                &&& after.totals.evicted_text_bytes < u64::MAX ==> text_total(self.entries)
                    + text_total(accepted) == text_total(after.entries)
                    + after.totals.evicted_text_bytes - self.totals.evicted_text_bytes
            }),
        decreases offered.len(),
    {
        if offered.len() > 0 {
            let entry = offered.last();
            let before = self.pushed_all(offered.drop_last());
            let accepted = self.accepted_of(offered.drop_last());
            self.lemma_pushes_are_accounted_for(offered.drop_last());
            self.lemma_bounds_stay(offered.drop_last());
            if self.accepts(entry) {
                lemma_evictions_are_least(
                    before.entries,
                    utf8_len(entry.text@),
                    before.maximum_entries,
                    before.maximum_text_bytes,
                );
                let k = before.evictions(entry) as int;
                lemma_text_total_split(before.entries, k);
                assert(accepted.push(entry).drop_last() =~= accepted);
                let kept = before.entries.skip(k);
                assert(kept.push(entry).drop_last() =~= kept);
            }
        }
    }

    /// A window that started empty, with nothing counted, holds what it accepted and did not
    /// evict, until a counter is full.
    pub proof fn lemma_fresh_window_accounts(self, offered: Seq<TranscriptEntry>)
        requires
            0 < self.maximum_entries,
            self.entries.len() == 0,
            self.totals == (TranscriptStoreStats {
                accepted_entries: 0,
                rejected_entries: 0,
                evicted_entries: 0,
                evicted_text_bytes: 0,
            }),
        ensures
            ({
                let after = self.pushed_all(offered);
                let totals = after.totals;
                &&& totals.accepted_entries < u64::MAX && totals.rejected_entries < u64::MAX
                    ==> totals.accepted_entries + totals.rejected_entries == offered.len()
                &&& totals.accepted_entries < u64::MAX && totals.evicted_entries < u64::MAX
                    ==> totals.accepted_entries == totals.evicted_entries + after.entries.len()
                &&& totals.evicted_text_bytes < u64::MAX ==> totals.evicted_text_bytes + text_total(
                    after.entries,
                ) == text_total(self.accepted_of(offered))
            }),
    {
        self.lemma_pushes_are_accounted_for(offered);
    }

    proof fn lemma_bounds_stay(self, offered: Seq<TranscriptEntry>)
        ensures
            self.pushed_all(offered).maximum_entries == self.maximum_entries,
            self.pushed_all(offered).maximum_text_bytes == self.maximum_text_bytes,
        decreases offered.len(),
    {
        if offered.len() > 0 {
            self.lemma_bounds_stay(offered.drop_last());
        }
    }
}

proof fn lemma_text_total_split(entries: Seq<TranscriptEntry>, k: int)
    requires
        0 <= k <= entries.len(),
    ensures
        text_total(entries) == text_total(entries.take(k)) + text_total(entries.skip(k)),
    decreases k,
{
    if k == 0 {
        assert(entries.take(0) =~= Seq::empty());
        assert(entries.skip(0) =~= entries);
    } else {
        lemma_text_total_split(entries, k - 1);
        lemma_text_total_front(entries.skip(k - 1));
        assert(entries.skip(k - 1).skip(1) =~= entries.skip(k));
        assert(entries.take(k).drop_last() =~= entries.take(k - 1));
    }
}

/// A transcript window bounded by both entry count and transcript text bytes.
///
/// The oldest entries are evicted before a new entry is accepted. An entry that is larger than
/// the whole window is rejected without evicting anything. Byte accounting covers transcript
/// text only, not speaker display metadata.
#[derive(Debug)]
pub struct TranscriptStore {
    entries: VecDeque<TranscriptEntry>,
    maximum_entries: usize,
    maximum_text_bytes: usize,
    text_bytes: usize,
    stats: TranscriptStoreStats,
}

impl View for TranscriptStore {
    type V = Seq<TranscriptEntry>;

    closed spec fn view(&self) -> Seq<TranscriptEntry> {
        self.entries@
    }
}

impl TranscriptStore {
    pub closed spec fn max_entries(&self) -> nat {
        self.maximum_entries as nat
    }

    pub closed spec fn max_text_bytes(&self) -> nat {
        self.maximum_text_bytes as nat
    }

    pub closed spec fn totals(&self) -> TranscriptStoreStats {
        self.stats
    }

    /// The store as a mathematical value.
    pub open spec fn model(&self) -> TranscriptModel {
        TranscriptModel {
            entries: self@,
            maximum_entries: self.max_entries(),
            maximum_text_bytes: self.max_text_bytes(),
            totals: self.totals(),
        }
    }

    pub closed spec fn wf(&self) -> bool {
        &&& 0 < self.maximum_entries
        &&& 0 < self.maximum_text_bytes
        &&& self.text_bytes == text_total(self@)
        &&& self@.len() <= self.maximum_entries
        &&& self.text_bytes <= self.maximum_text_bytes
    }

    /// Both bounds hold of a store at all times.
    pub proof fn lemma_bounded(&self)
        requires
            self.wf(),
        ensures
            0 < self.max_entries(),
            0 < self.max_text_bytes(),
            self@.len() <= self.max_entries(),
            text_total(self@) <= self.max_text_bytes(),
    {
    }

    pub fn new(maximum_entries: usize, maximum_text_bytes: usize) -> (r: Result<
        Self,
        TranscriptStoreError,
    >)
        ensures
            if maximum_entries == 0 {
                r matches Err(e) && e == TranscriptStoreError::ZeroMaximumEntries
            } else if maximum_text_bytes == 0 {
                r matches Err(e) && e == TranscriptStoreError::ZeroMaximumTextBytes
            } else {
                r matches Ok(store) && {
                    &&& store.wf()
                    &&& store@ == Seq::<TranscriptEntry>::empty()
                    &&& store.max_entries() == maximum_entries
                    &&& store.max_text_bytes() == maximum_text_bytes
                    &&& store.totals() == (TranscriptStoreStats {
                        accepted_entries: 0,
                        rejected_entries: 0,
                        evicted_entries: 0,
                        evicted_text_bytes: 0,
                    })
                }
            },
    {
        if maximum_entries == 0 {
            return Err(TranscriptStoreError::ZeroMaximumEntries);
        }
        if maximum_text_bytes == 0 {
            return Err(TranscriptStoreError::ZeroMaximumTextBytes);
        }
        Ok(
            TranscriptStore {
                entries: VecDeque::new(),
                maximum_entries,
                maximum_text_bytes,
                text_bytes: 0,
                stats: TranscriptStoreStats::default(),
            },
        )
    }

    /// Accepts an entry at the end of the window, or rejects it if it can never fit.
    pub fn push(&mut self, entry: TranscriptEntry) -> (r: TranscriptPushOutcome)
        requires
            old(self).wf(),
        ensures
            final(self).wf(),
            final(self).model() == old(self).model().pushed(entry),
            r.accepted == old(self).model().accepts(entry),
            r.accepted ==> r.evicted_entries == old(self).model().evictions(entry)
                && r.evicted_text_bytes == text_total(old(self)@.take(r.evicted_entries as int)),
            !r.accepted ==> r.evicted_entries == 0 && r.evicted_text_bytes == 0,
    {
        let incoming_bytes = entry.text_bytes();
        if incoming_bytes > self.maximum_text_bytes {
            self.stats.rejected_entries = self.stats.rejected_entries.saturating_add(1);
            return TranscriptPushOutcome {
                accepted: false,
                evicted_entries: 0,
                evicted_text_bytes: 0,
            };
        }
        let mut evicted_entries: u64 = 0;
        let mut evicted_text_bytes: u64 = 0;
        let ghost before = self@;
        let ghost max_entries = self.max_entries();
        let ghost max_text_bytes = self.max_text_bytes();
        let ghost k = eviction_count(before, incoming_bytes as nat, max_entries, max_text_bytes);
        proof {
            assert(before.skip(0) =~= before);
            assert(before.take(0) =~= Seq::empty());
            lemma_evictions_are_least(
                before,
                incoming_bytes as nat,
                max_entries,
                max_text_bytes,
            );
        }
        while self.entries.len() >= self.maximum_entries || self.text_bytes
            > self.maximum_text_bytes - incoming_bytes
            invariant
                self.wf(),
                self.max_entries() == max_entries,
                self.max_text_bytes() == max_text_bytes,
                self.stats == old(self).stats,
                incoming_bytes <= self.maximum_text_bytes,
                evicted_entries <= k,
                k <= before.len() <= max_entries,
                self@ == before.skip(evicted_entries as int),
                has_room(
                    before.skip(k as int),
                    incoming_bytes as nat,
                    max_entries,
                    max_text_bytes,
                ),
                forall|j: int|
                    0 <= j < k ==> !has_room(
                        #[trigger] before.skip(j),
                        incoming_bytes as nat,
                        max_entries,
                        max_text_bytes,
                    ),
                evicted_text_bytes == text_total(before.take(evicted_entries as int)),
                evicted_text_bytes + self.text_bytes <= usize::MAX,
            decreases self@.len(),
        {
            assert(!has_room(
                before.skip(evicted_entries as int),
                incoming_bytes as nat,
                max_entries,
                max_text_bytes,
            ));
            assert(evicted_entries < k);
            let ghost now = self@;
            match self.entries.pop_front() {
                Some(evicted) => {
                    proof {
                        lemma_text_total_front(now);
                        assert(self.entries@ =~= now.skip(1));
                        assert(now.skip(1) =~= before.skip(evicted_entries + 1));
                        let next = before.take(evicted_entries + 1);
                        assert(next.drop_last() =~= before.take(evicted_entries as int));
                        assert(next.last() == now[0]);
                    }
                    let evicted_bytes = evicted.text_bytes();
                    self.text_bytes = self.text_bytes - evicted_bytes;
                    evicted_entries = evicted_entries + 1;
                    evicted_text_bytes = evicted_text_bytes + evicted_bytes as u64;
                },
                None => {
                    assert(false);
                },
            }
        }
        assert(evicted_entries == k) by {
            if evicted_entries < k {
                assert(!has_room(
                    before.skip(evicted_entries as int),
                    incoming_bytes as nat,
                    max_entries,
                    max_text_bytes,
                ));
            }
        }
        self.text_bytes = self.text_bytes + incoming_bytes;
        self.entries.push_back(entry);
        assert(self@.drop_last() =~= before.skip(k as int));
        self.stats.accepted_entries = self.stats.accepted_entries.saturating_add(1);
        self.stats.evicted_entries = self.stats.evicted_entries.saturating_add(evicted_entries);
        self.stats.evicted_text_bytes = self.stats.evicted_text_bytes.saturating_add(
            evicted_text_bytes,
        );
        TranscriptPushOutcome { accepted: true, evicted_entries, evicted_text_bytes }
    }

    /// The entries of the window, oldest first.
    pub fn entries(&self) -> (it: std::collections::vec_deque::Iter<'_, TranscriptEntry>)
        ensures
            it.remaining() == self@.as_ref(),
    {
        self.entries.iter()
    }

    /// The entry at a place of the window.
    pub fn entry(&self, i: usize) -> (r: &TranscriptEntry)
        requires
            i < self@.len(),
        ensures
            *r == self@[i as int],
    {
        &self.entries[i]
    }

    pub fn len(&self) -> (r: usize)
        ensures
            r == self@.len(),
    {
        self.entries.len()
    }

    pub fn is_empty(&self) -> (r: bool)
        ensures
            r == (self@.len() == 0),
    {
        self.entries.len() == 0
    }

    pub fn text_bytes(&self) -> (r: usize)
        requires
            self.wf(),
        ensures
            r == text_total(self@),
    {
        self.text_bytes
    }

    pub fn stats(&self) -> (r: TranscriptStoreStats)
        ensures
            r == self.totals(),
    {
        self.stats
    }

    /// Clears the current window while preserving cumulative store statistics.
    pub fn clear(&mut self)
        requires
            old(self).wf(),
        ensures
            final(self).wf(),
            final(self)@ == Seq::<TranscriptEntry>::empty(),
            final(self).totals() == old(self).totals(),
            final(self).max_entries() == old(self).max_entries(),
            final(self).max_text_bytes() == old(self).max_text_bytes(),
    {
        self.entries.clear();
        self.text_bytes = 0;
    }
}

/// Snapshot of work discarded because an external bounded queue was full.
#[derive(Debug, Clone, Copy, PartialEq, Eq, Structural)]
pub struct VoiceDropSnapshot {
    pub pcm_chunks: u64,
    pub pcm_frames: u64,
    pub segments: u64,
    pub transcripts: u64,
}

/// A snapshot in which nothing was discarded.
pub open spec fn no_drops() -> VoiceDropSnapshot {
    VoiceDropSnapshot { pcm_chunks: 0, pcm_frames: 0, segments: 0, transcripts: 0 }
}

impl Default for VoiceDropSnapshot {
    fn default() -> (r: Self)
        ensures
            r == no_drops(),
    {
        VoiceDropSnapshot { pcm_chunks: 0, pcm_frames: 0, segments: 0, transcripts: 0 }
    }
}

/// Saturating counters for bounded worker-queue overflow.
///
/// This type does not own a queue. Call the relevant method when a bounded queue rejects an
/// item. Callers on several threads share one behind a lock, so each increment is in exactly one
/// snapshot.
#[derive(Debug)]
pub struct VoiceDropCounters {
    counts: VoiceDropSnapshot,
}

impl View for VoiceDropCounters {
    type V = VoiceDropSnapshot;

    closed spec fn view(&self) -> VoiceDropSnapshot {
        self.counts
    }
}

impl Default for VoiceDropCounters {
    fn default() -> (r: Self)
        ensures
            r@ == no_drops(),
    {
        VoiceDropCounters { counts: VoiceDropSnapshot::default() }
    }
}

impl VoiceDropCounters {
    pub fn record_pcm_chunk(&mut self, frame_count: u64)
        ensures
            final(self)@ == (VoiceDropSnapshot {
                pcm_chunks: sat(old(self)@.pcm_chunks + 1) as u64,
                pcm_frames: sat(old(self)@.pcm_frames + frame_count) as u64,
                ..old(self)@
            }),
    {
        saturating_add_to(&mut self.counts.pcm_chunks, 1);
        saturating_add_to(&mut self.counts.pcm_frames, frame_count);
    }

    pub fn record_segment(&mut self)
        ensures
            final(self)@ == (VoiceDropSnapshot {
                segments: sat(old(self)@.segments + 1) as u64,
                ..old(self)@
            }),
    {
        saturating_add_to(&mut self.counts.segments, 1);
    }

    pub fn record_transcript(&mut self)
        ensures
            final(self)@ == (VoiceDropSnapshot {
                transcripts: sat(old(self)@.transcripts + 1) as u64,
                ..old(self)@
            }),
    {
        saturating_add_to(&mut self.counts.transcripts, 1);
    }

    pub fn snapshot(&self) -> (r: VoiceDropSnapshot)
        ensures
            r == self@,
    {
        self.counts
    }

    /// Returns the current snapshot and resets all counters.
    pub fn take_snapshot(&mut self) -> (r: VoiceDropSnapshot)
        ensures
            r == old(self)@,
            final(self)@ == no_drops(),
    {
        let counts = self.counts;
        self.counts = VoiceDropSnapshot::default();
        counts
    }
}

/// Adds to a counter, which stays at its largest value once it is full.
pub fn saturating_add_to(counter: &mut u64, amount: u64)
    ensures
        *final(counter) == sat(*old(counter) + amount),
{
    *counter = counter.saturating_add(amount);
}

impl SpeakerPcmBuffer {
    /// What holds of every buffer: it goes by the limits of its configuration, its state is sound
    /// under them, and it is active exactly when it holds frames.
    pub proof fn lemma_wf(&self)
        requires
            self.wf(),
        ensures
            self.configuration().wf(),
            self.limits() == self.configuration()@,
            self.limits().valid(),
            self@.wf(self.limits()),
            self@.start is Some <==> self@.buffered() > 0,
    {
    }

    /// Until a counter is full, every frame received has been emitted, ignored or is still
    /// buffered; with nothing buffered, as after a flush, it has been emitted or ignored.
    pub proof fn lemma_frames_conserved(&self)
        requires
            self.wf(),
        ensures
            self@.received < u64::MAX ==> self@.received == self@.emitted + self@.ignored
                + self@.buffered(),
            self@.received < u64::MAX && self@.start is None ==> self@.received == self@.emitted
                + self@.ignored,
    {
    }

    /// What a buffer holds is below both boundaries, so a longer segment never builds up.
    pub proof fn lemma_buffer_bounded(&self)
        requires
            self.wf(),
        ensures
            self.limits().valid(),
            self@.buffered() < self.limits().maximum_segment,
            self@.pending < self.limits().trailing_silence,
    {
    }
}

} // verus!
