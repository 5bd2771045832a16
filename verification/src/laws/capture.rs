//! Voice capture: which frames are speech, and which segments come of them.

use vstd::prelude::*;
use crate::discord_voice;
use crate::discord_voice::{
    CaptureLimits, CaptureModel, PcmCaptureConfigError, SegmentBoundary, SegmentModel,
};

verus! {

/// Whether a frame of interleaved samples has a sample above a threshold or below its negative.
pub open spec fn loud(threshold: int, s: Seq<i16>, frame: int) -> bool {
    ||| s[2 * frame] > threshold
    ||| s[2 * frame] < -threshold
    ||| s[2 * frame + 1] > threshold
    ||| s[2 * frame + 1] < -threshold
}

/// How many of the first `n` frames are loud.
pub open spec fn loud_count(threshold: int, s: Seq<i16>, n: int) -> int
    decreases n,
{
    if n <= 0 {
        0
    } else {
        loud_count(threshold, s, n - 1) + if loud(threshold, s, n - 1) {
            1int
        } else {
            0int
        }
    }
}

/// The first `n` frames, with zeros for those that are not loud.
pub open spec fn cleaned(threshold: int, s: Seq<i16>, n: int) -> Seq<i16> {
    Seq::new(
        (2 * n) as nat,
        |i: int|
            if loud(threshold, s, i / 2) {
                s[i]
            } else {
                0i16
            },
    )
}

/// Whether one of `run` frames from `a` on is loud.
pub open spec fn speaks_within(threshold: int, s: Seq<i16>, a: int, run: int) -> bool {
    exists|f: int| a <= f < a + run && #[trigger] loud(threshold, s, f)
}

/// Whether no `run` frames in a row among the first `n` are all quiet.
pub open spec fn keeps_speaking(threshold: int, run: int, s: Seq<i16>, n: int) -> bool {
    forall|a: int| 0 <= a && a + run <= n ==> #[trigger] speaks_within(threshold, s, a, run)
}

/// Whether no segment is open and the counters are not full.
pub open spec fn idle(m: CaptureModel) -> bool {
    &&& m.start is None
    &&& m.samples.len() == 0
    &&& m.speech == 0
    &&& m.pending == 0
    &&& 0 <= m.received
    &&& 0 <= m.emitted <= m.received
    &&& 0 <= m.ignored <= m.received
    &&& 0 <= m.segments <= m.received
}

/// Loudness is exact and symmetric: a frame is speech where a sample is above the threshold or
/// below its negative, and a wave is as loud as its mirror image.
pub proof fn lemma_loudness_is_symmetric(limits: CaptureLimits, left: i16, right: i16)
    requires
        0 <= limits.silence_threshold,
    ensures
        limits.is_speech(left, right) <==> left > limits.silence_threshold || left
            < -limits.silence_threshold || right > limits.silence_threshold || right
            < -limits.silence_threshold,
        limits.is_speech(left, right) == limits.is_speech(right, left),
        left > i16::MIN && right > i16::MIN ==> limits.is_speech(left, right)
            == limits.is_speech((0 - left) as i16, (0 - right) as i16),
        discord_voice::magnitude(left) == left || discord_voice::magnitude(left) == 0 - left,
        discord_voice::magnitude(left) >= 0,
{
}

/// Quiet frames before speech are received and ignored.
pub proof fn lemma_leading_silence_is_ignored(
    m: CaptureModel,
    limits: CaptureLimits,
    s: Seq<i16>,
)
    requires
        limits.valid(),
        idle(m),
        s.len() % 2 == 0,
        m.received + s.len() as int / 2 < u64::MAX,
        forall|f: int|
            0 <= f < s.len() as int / 2 ==> !#[trigger] loud(limits.silence_threshold, s, f),
    ensures
        m.after_samples(limits, s) == (
            CaptureModel {
                received: m.received + s.len() as int / 2,
                ignored: m.ignored + s.len() as int / 2,
                ..m
            },
            Seq::<SegmentModel>::empty(),
        ),
    decreases s.len(),
{
    let none = Seq::<SegmentModel>::empty();
    if s.len() >= 2 {
        let n = s.len() as int / 2;
        let before = s.take(2 * n - 2);
        assert forall|f: int| 0 <= f < before.len() as int / 2 implies !#[trigger] loud(
            limits.silence_threshold,
            before,
            f,
        ) by {
            assert(before[2 * f] == s[2 * f] && before[2 * f + 1] == s[2 * f + 1]);
            assert(!loud(limits.silence_threshold, s, f));
        }
        lemma_leading_silence_is_ignored(m, limits, before);
        assert(!loud(limits.silence_threshold, s, n - 1));
        lemma_loudness_is_symmetric(limits, s[2 * n - 2], s[2 * n - 1]);
        assert(none + discord_voice::completed(None) =~= none);
    }
}

/// Speech opens a segment at its first frame. The segment keeps every loud frame as it was heard
/// and a zero frame for every other up to the last loud one; silence behind that waits.
pub proof fn lemma_speech_is_kept_as_heard(
    m: CaptureModel,
    limits: CaptureLimits,
    s: Seq<i16>,
    n: int,
) -> (k: int)
    requires
        limits.valid(),
        idle(m),
        1 <= n,
        2 * n <= s.len(),
        n < limits.maximum_segment,
        m.received + n < u64::MAX,
        loud(limits.silence_threshold, s, 0),
        keeps_speaking(limits.silence_threshold, limits.trailing_silence, s, n),
    ensures
        0 <= k < n,
        loud(limits.silence_threshold, s, k),
        forall|f: int| k < f < n ==> !#[trigger] loud(limits.silence_threshold, s, f),
        m.after_samples(limits, s.take(2 * n)) == (
            CaptureModel {
                start: Some(m.received),
                samples: cleaned(limits.silence_threshold, s, k + 1),
                speech: loud_count(limits.silence_threshold, s, n),
                pending: n - 1 - k,
                received: m.received + n,
                ..m
            },
            Seq::<SegmentModel>::empty(),
        ),
    decreases n,
{
    let t = limits.silence_threshold;
    let none = Seq::<SegmentModel>::empty();
    let now = s.take(2 * n);
    let last = n - 1;
    assert(now.take(2 * n - 2) =~= s.take(2 * n - 2));
    assert(now[2 * n - 2] == s[2 * last] && now[2 * n - 1] == s[2 * last + 1]);
    lemma_loudness_is_symmetric(limits, s[2 * last], s[2 * last + 1]);
    assert(none + discord_voice::completed(None) =~= none);
    if n == 1 {
        assert(s.take(0).len() == 0);
        assert(m.after_samples(limits, now.take(0)) == (m, none));
        assert(m.samples + discord_voice::silent_samples(0) + seq![s[0], s[1]] =~= cleaned(
            t,
            s,
            1,
        ));
        reveal_with_fuel(loud_count, 2);
        0
    } else {
        let k = lemma_speech_is_kept_as_heard(m, limits, s, n - 1);
        let open = m.after_samples(limits, s.take(2 * n - 2)).0;
        if loud(t, s, last) {
            let spoken = open.samples + discord_voice::silent_samples(open.pending) + seq![
                s[2 * last],
                s[2 * last + 1],
            ];
            assert(spoken =~= cleaned(t, s, n)) by {
                assert(spoken.len() == 2 * n);
                assert forall|i: int| 0 <= i < 2 * n implies spoken[i] == cleaned(t, s, n)[i] by {
                    if i < 2 * (k + 1) {
                    } else if i < 2 * last {
                        assert(!loud(t, s, i / 2));
                    }
                }
            }
            last
        } else {
            if open.pending + 1 >= limits.trailing_silence {
                let a = n - limits.trailing_silence;
                assert(speaks_within(t, s, a, limits.trailing_silence));
                assert(false);
            }
            assert(open.samples.len() as int / 2 == k + 1);
            k
        }
    }
}

/// The segment that a burst of speech comes to: what was kept up to its last loud frame, where
/// enough of it is loud.
pub open spec fn burst_segments(
    m: CaptureModel,
    limits: CaptureLimits,
    s: Seq<i16>,
    n: int,
    k: int,
    boundary: SegmentBoundary,
) -> Seq<SegmentModel> {
    if loud_count(limits.silence_threshold, s, n) >= limits.minimum_speech {
        seq![
            SegmentModel {
                start: m.received,
                end: m.received + k + 1,
                samples: cleaned(limits.silence_threshold, s, k + 1),
                boundary,
            },
        ]
    } else {
        Seq::empty()
    }
}

/// A capture whose burst has ended: `kept` frames of it were handed out, or all were ignored.
pub open spec fn burst_over(
    m: CaptureModel,
    heard: int,
    kept: int,
    enough: bool,
) -> CaptureModel {
    CaptureModel {
        received: m.received + heard,
        emitted: if enough {
            m.emitted + kept
        } else {
            m.emitted
        },
        ignored: if enough {
            m.ignored + heard - kept
        } else {
            m.ignored + heard
        },
        segments: if enough {
            m.segments + 1
        } else {
            m.segments
        },
        ..m
    }
}

/// A flush hands out what was said so far, without the silence behind it, if it is long enough.
pub proof fn lemma_flush_hands_out_what_was_said(
    m: CaptureModel,
    limits: CaptureLimits,
    s: Seq<i16>,
    n: int,
) -> (k: int)
    requires
        limits.valid(),
        idle(m),
        1 <= n,
        2 * n <= s.len(),
        n < limits.maximum_segment,
        m.received + n < u64::MAX,
        loud(limits.silence_threshold, s, 0),
        keeps_speaking(limits.silence_threshold, limits.trailing_silence, s, n),
    ensures
        0 <= k < n,
        loud(limits.silence_threshold, s, k),
        forall|f: int| k < f < n ==> !#[trigger] loud(limits.silence_threshold, s, f),
        ({
            let open = m.after_samples(limits, s.take(2 * n)).0;
            let (after, segment) = open.finished(limits, SegmentBoundary::Flush);
            &&& discord_voice::completed(segment) == burst_segments(
                m,
                limits,
                s,
                n,
                k,
                SegmentBoundary::Flush,
            )
            &&& after == burst_over(
                m,
                n,
                k + 1,
                loud_count(limits.silence_threshold, s, n) >= limits.minimum_speech,
            )
        }),
        m.finished(limits, SegmentBoundary::Flush) == (m, None::<SegmentModel>),
{
    let k = lemma_speech_is_kept_as_heard(m, limits, s, n);
    let open = m.after_samples(limits, s.take(2 * n)).0;
    assert(open.samples.len() as int / 2 == k + 1);
    let after = open.finished(limits, SegmentBoundary::Flush).0;
    assert(after =~= burst_over(
        m,
        n,
        k + 1,
        loud_count(limits.silence_threshold, s, n) >= limits.minimum_speech,
    ));
    k
}

/// A segment ends when it is as long as it may be: of so many frames without a long silence, it
/// holds what was said up to the last loud one.
pub proof fn lemma_long_speech_is_cut(
    m: CaptureModel,
    limits: CaptureLimits,
    s: Seq<i16>,
) -> (k: int)
    requires
        limits.valid(),
        idle(m),
        s.len() == 2 * limits.maximum_segment,
        m.received + limits.maximum_segment < u64::MAX,
        loud(limits.silence_threshold, s, 0),
        keeps_speaking(
            limits.silence_threshold,
            limits.trailing_silence,
            s,
            limits.maximum_segment,
        ),
    ensures
        0 <= k < limits.maximum_segment,
        loud(limits.silence_threshold, s, k),
        forall|f: int|
            k < f < limits.maximum_segment ==> !#[trigger] loud(limits.silence_threshold, s, f),
        m.after_samples(limits, s) == (
            burst_over(
                m,
                limits.maximum_segment,
                k + 1,
                loud_count(limits.silence_threshold, s, limits.maximum_segment)
                    >= limits.minimum_speech,
            ),
            burst_segments(
                m,
                limits,
                s,
                limits.maximum_segment,
                k,
                SegmentBoundary::MaximumDuration,
            ),
        ),
{
    let t = limits.silence_threshold;
    let n = limits.maximum_segment;
    let last = n - 1;
    let none = Seq::<SegmentModel>::empty();
    lemma_loudness_is_symmetric(limits, s[2 * last], s[2 * last + 1]);
    let (open, k0) = if n == 1 {
        reveal_with_fuel(loud_count, 2);
        assert(s.take(0).len() == 0);
        (m, -1int)
    } else {
        let k0 = lemma_speech_is_kept_as_heard(m, limits, s, n - 1);
        (m.after_samples(limits, s.take(2 * n - 2)).0, k0)
    };
    let k = if loud(t, s, last) {
        last
    } else {
        k0
    };
    if loud(t, s, last) {
        let spoken = open.samples + discord_voice::silent_samples(open.pending) + seq![
            s[2 * last],
            s[2 * last + 1],
        ];
        assert(spoken =~= cleaned(t, s, n)) by {
            assert(spoken.len() == 2 * n);
            assert forall|i: int| 0 <= i < 2 * n implies spoken[i] == cleaned(t, s, n)[i] by {
                if i < 2 * (k0 + 1) {
                } else if i < 2 * last {
                    assert(!loud(t, s, i / 2));
                }
            }
        }
    } else {
        if open.pending + 1 >= limits.trailing_silence {
            let a = n - limits.trailing_silence;
            assert(speaks_within(t, s, a, limits.trailing_silence));
            assert(false);
        }
        assert(open.samples.len() as int / 2 == k + 1);
    }
    let (after, segments) = m.after_samples(limits, s);
    let enough = loud_count(t, s, n) >= limits.minimum_speech;
    assert(after =~= burst_over(m, n, k + 1, enough));
    assert(segments =~= burst_segments(m, limits, s, n, k, SegmentBoundary::MaximumDuration));
    k
}

/// Silence ends a segment: what was said comes out as soon as the silence behind it is long
/// enough, or the segment as long as it may be, and the silence is no part of it.
pub proof fn lemma_silence_ends_a_segment(
    m: CaptureModel,
    limits: CaptureLimits,
    s: Seq<i16>,
    n: int,
    quiet: int,
)
    requires
        limits.valid(),
        idle(m),
        1 <= n,
        n < limits.maximum_segment,
        1 <= quiet <= limits.trailing_silence,
        n + quiet <= limits.maximum_segment,
        quiet == limits.trailing_silence || n + quiet == limits.maximum_segment,
        s.len() == 2 * (n + quiet),
        m.received + n + quiet < u64::MAX,
        loud(limits.silence_threshold, s, 0),
        loud(limits.silence_threshold, s, n - 1),
        forall|f: int| n <= f < n + quiet ==> !#[trigger] loud(limits.silence_threshold, s, f),
        keeps_speaking(limits.silence_threshold, limits.trailing_silence, s, n + quiet - 1),
    ensures
        m.after_samples(limits, s) == (
            burst_over(
                m,
                n + quiet,
                n,
                loud_count(limits.silence_threshold, s, n) >= limits.minimum_speech,
            ),
            burst_segments(
                m,
                limits,
                s,
                n,
                n - 1,
                if quiet == limits.trailing_silence {
                    SegmentBoundary::Silence
                } else {
                    SegmentBoundary::MaximumDuration
                },
            ),
        ),
{
    let t = limits.silence_threshold;
    let all = n + quiet;
    let k = lemma_speech_is_kept_as_heard(m, limits, s, all - 1);
    assert(k == n - 1) by {
        if k > n - 1 {
            assert(!loud(t, s, k));
        }
        if k < n - 1 {
            assert(!loud(t, s, n - 1));
        }
    }
    lemma_quiet_adds_nothing(t, s, n, all - 1);
    let open = m.after_samples(limits, s.take(2 * all - 2)).0;
    let last = all - 1;
    assert(!loud(t, s, last));
    lemma_loudness_is_symmetric(limits, s[2 * last], s[2 * last + 1]);
    assert(open.samples.len() as int / 2 == n);
    let (after, segments) = m.after_samples(limits, s);
    let enough = loud_count(t, s, n) >= limits.minimum_speech;
    assert(after =~= burst_over(m, all, n, enough));
    assert(segments =~= burst_segments(
        m,
        limits,
        s,
        n,
        n - 1,
        if quiet == limits.trailing_silence {
            SegmentBoundary::Silence
        } else {
            SegmentBoundary::MaximumDuration
        },
    ));
}

proof fn lemma_quiet_adds_nothing(t: int, s: Seq<i16>, n: int, to: int)
    requires
        0 <= n <= to,
        forall|f: int| n <= f < to ==> !#[trigger] loud(t, s, f),
    ensures
        loud_count(t, s, to) == loud_count(t, s, n),
    decreases to,
{
    if n < to {
        lemma_quiet_adds_nothing(t, s, n, to - 1);
        assert(!loud(t, s, to - 1));
    }
}

/// A millisecond is 48 frames.
pub proof fn lemma_a_millisecond_is_48_frames(milliseconds: u32)
    ensures
        discord_voice::millis_as_frames(milliseconds) == 48 * milliseconds,
{
}

/// A configuration is accepted where every duration is positive, speech that is long enough fits
/// into a segment, and a segment fits into memory. The first condition that fails is named.
pub proof fn lemma_sensible_configurations(minimum: int, trailing: int, maximum: int)
    requires
        0 <= minimum,
        0 <= trailing,
        0 <= maximum,
    ensures
        ({
            let error = discord_voice::frame_counts_error(minimum, trailing, maximum);
            &&& error is None <==> minimum > 0 && trailing > 0 && minimum <= maximum && 2 * maximum
                <= usize::MAX
            &&& error == Some(PcmCaptureConfigError::ZeroMinimumSpeech) <==> minimum == 0
            &&& error == Some(PcmCaptureConfigError::ZeroTrailingSilence) <==> minimum > 0
                && trailing == 0
            &&& error == Some(PcmCaptureConfigError::ZeroMaximumSegment) <==> minimum > 0
                && trailing > 0 && maximum == 0
            &&& error == Some(PcmCaptureConfigError::MinimumSpeechExceedsMaximumSegment) <==> minimum
                > maximum && trailing > 0 && maximum > 0
            &&& error == Some(PcmCaptureConfigError::FrameCountOverflow) <==> 0 < minimum
                <= maximum && trailing > 0 && 2 * maximum > usize::MAX
        }),
{
}

} // verus!
