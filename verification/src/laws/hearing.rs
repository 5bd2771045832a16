//! What callers get of a capture, of a transcript and of an answer.

use vstd::prelude::*;
use vstd::string::*;
use crate::discord_voice;
use crate::discord_voice::{
    PcmCaptureConfig, PcmCaptureConfigError, PcmCaptureError, PcmCaptureStats, PcmSegment,
    SegmentBoundary, SpeakerPcmBuffer, TranscriptEntry, TranscriptPushOutcome, TranscriptStore,
    TranscriptStoreError, VoiceDropCounters, VoiceDropSnapshot,
};
use crate::discord_voice_intent::language;
use crate::discord_voice_intent::language::Confirmation;
use crate::discord_voice_runtime::rendering;
use crate::laws::capture;
use crate::laws::capture::{cleaned, idle, keeps_speaking, loud, loud_count};
use crate::laws::characters::{all_in, any_case_of};
use crate::laws::intents;
use crate::laws::recordings::up_to_the_limit;
use crate::laws::transcripts;
use crate::text;
use crate::text::CharClass;

verus! {

/// Samples that are not stereo are refused and change nothing; others never are.
pub proof fn lemma_only_stereo_is_heard(
    b: &mut SpeakerPcmBuffer,
    s: &[i16],
    r: Result<Vec<PcmSegment>, PcmCaptureError>,
)
    requires
        old(b).wf(),
        call_ensures(SpeakerPcmBuffer::push_interleaved_stereo, (b, s), r),
    ensures
        r is Ok <==> s@.len() % 2 == 0,
        r is Err ==> final(b)@ == old(b)@ && r->Err_0->sample_count == s@.len() as usize,
        final(b).limits() == old(b).limits(),
{
}

/// While nobody speaks, quiet frames are counted and ignored, and no segment comes of them.
pub proof fn lemma_quiet_frames_are_ignored(
    b: &mut SpeakerPcmBuffer,
    s: &[i16],
    r: Result<Vec<PcmSegment>, PcmCaptureError>,
)
    requires
        old(b).wf(),
        idle(old(b)@),
        s@.len() % 2 == 0,
        old(b)@.received + s@.len() / 2 < u64::MAX,
        forall|f: int|
            0 <= f < s@.len() / 2 ==> !#[trigger] loud(old(b).limits().silence_threshold, s@, f),
        call_ensures(SpeakerPcmBuffer::push_interleaved_stereo, (b, s), r),
    ensures
        r is Ok,
        r->Ok_0@.len() == 0,
        idle(final(b)@),
        final(b)@.received == old(b)@.received + s@.len() / 2,
        final(b)@.ignored == old(b)@.ignored + s@.len() / 2,
        final(b)@.emitted == old(b)@.emitted,
{
    old(b).lemma_wf();
    capture::lemma_leading_silence_is_ignored(old(b)@, old(b).limits(), s@);
    assert(discord_voice::segment_models(r->Ok_0@).len() == r->Ok_0@.len());
}

/// Speech that is flushed is handed out as it was heard, from its first loud frame to its last,
/// with its place on the timeline, if enough of it is loud; otherwise it is ignored.
pub proof fn lemma_speech_is_handed_out(
    b: &mut SpeakerPcmBuffer,
    s: &[i16],
    r: Result<Vec<PcmSegment>, PcmCaptureError>,
    c: &mut SpeakerPcmBuffer,
    out: Option<PcmSegment>,
    n: int,
) -> (k: int)
    requires
        old(b).wf(),
        idle(old(b)@),
        1 <= n < old(b).limits().maximum_segment,
        s@.len() == 2 * n,
        old(b)@.received + n < u64::MAX,
        loud(old(b).limits().silence_threshold, s@, 0),
        keeps_speaking(
            old(b).limits().silence_threshold,
            old(b).limits().trailing_silence,
            s@,
            n,
        ),
        call_ensures(SpeakerPcmBuffer::push_interleaved_stereo, (b, s), r),
        *old(c) == *final(b),
        call_ensures(SpeakerPcmBuffer::flush, (c,), out),
    ensures
        r is Ok,
        r->Ok_0@.len() == 0,
        0 <= k < n,
        loud(old(b).limits().silence_threshold, s@, k),
        forall|f: int| k < f < n ==> !#[trigger] loud(old(b).limits().silence_threshold, s@, f),
        out is Some <==> loud_count(old(b).limits().silence_threshold, s@, n)
            >= old(b).limits().minimum_speech,
        out is Some ==> {
            &&& out->0@.start == old(b)@.received
            &&& out->0@.end == old(b)@.received + k + 1
            &&& out->0@.samples == cleaned(old(b).limits().silence_threshold, s@, k + 1)
            &&& out->0@.boundary == SegmentBoundary::Flush
        },
        idle(final(c)@),
        final(c)@.received == old(b)@.received + n,
{
    old(b).lemma_wf();
    let limits = old(b).limits();
    assert(s@.take(2 * n) =~= s@);
    let j = capture::lemma_speech_is_kept_as_heard(old(b)@, limits, s@, n);
    let k = capture::lemma_flush_hands_out_what_was_said(old(b)@, limits, s@, n);
    assert(discord_voice::segment_models(r->Ok_0@).len() == r->Ok_0@.len());
    let done = discord_voice::completed(discord_voice::segment_model(out));
    assert(done == capture::burst_segments(old(b)@, limits, s@, n, k, SegmentBoundary::Flush));
    if out is Some {
        assert(done[0] == out->0@);
    } else {
        assert(done.len() == 0);
    }
    k
}

/// It makes no difference in how many pieces samples are heard.
pub proof fn lemma_pieces_make_no_difference(
    one: &mut SpeakerPcmBuffer,
    two: &mut SpeakerPcmBuffer,
    three: &mut SpeakerPcmBuffer,
    a: &[i16],
    b: &[i16],
    all: &[i16],
    first: Result<Vec<PcmSegment>, PcmCaptureError>,
    second: Result<Vec<PcmSegment>, PcmCaptureError>,
    whole: Result<Vec<PcmSegment>, PcmCaptureError>,
)
    requires
        old(one).wf(),
        a@.len() % 2 == 0,
        b@.len() % 2 == 0,
        all@ == a@ + b@,
        call_ensures(SpeakerPcmBuffer::push_interleaved_stereo, (one, a), first),
        *old(two) == *final(one),
        call_ensures(SpeakerPcmBuffer::push_interleaved_stereo, (two, b), second),
        *old(three) == *old(one),
        call_ensures(SpeakerPcmBuffer::push_interleaved_stereo, (three, all), whole),
    ensures
        final(three)@ == final(two)@,
        discord_voice::segment_models(whole->Ok_0@) == discord_voice::segment_models(
            first->Ok_0@,
        ) + discord_voice::segment_models(second->Ok_0@),
{
    discord_voice::lemma_pushes_compose(old(one)@, old(one).limits(), a@, b@);
}

/// A buffer is made for a configuration and has heard nothing. What it tells is what it has heard,
/// handed out and ignored.
pub proof fn lemma_new_buffers_have_heard_nothing(
    config: PcmCaptureConfig,
    b: &SpeakerPcmBuffer,
    made: SpeakerPcmBuffer,
    stats: PcmCaptureStats,
    active: bool,
)
    requires
        config.wf(),
        call_ensures(SpeakerPcmBuffer::new, (config,), made),
        *b == made,
        call_ensures(SpeakerPcmBuffer::stats, (b,), stats),
        call_ensures(SpeakerPcmBuffer::is_active, (b,), active),
    ensures
        idle(made@),
        made.limits() == config@,
        !active,
        stats.received_frames == 0 && stats.emitted_frames == 0 && stats.ignored_frames == 0
            && stats.emitted_segments == 0,
{
}

/// A configuration is given in milliseconds, of 48 frames each.
pub proof fn lemma_configurations_are_in_milliseconds(
    threshold: u16,
    minimum: u32,
    trailing: u32,
    maximum: u32,
    r: Result<PcmCaptureConfig, PcmCaptureConfigError>,
)
    requires
        call_ensures(PcmCaptureConfig::from_millis, (threshold, minimum, trailing, maximum), r),
        96 * maximum <= usize::MAX,
        48 * minimum <= usize::MAX,
        48 * trailing <= usize::MAX,
    ensures
        r is Ok <==> 0 < minimum <= maximum && trailing > 0,
        r is Ok ==> {
            &&& r->Ok_0@.silence_threshold == threshold
            &&& r->Ok_0@.minimum_speech == 48 * minimum
            &&& r->Ok_0@.trailing_silence == 48 * trailing
            &&& r->Ok_0@.maximum_segment == 48 * maximum
        },
        minimum == 0 ==> r->Err_0 is ZeroMinimumSpeech,
        minimum > 0 && trailing == 0 ==> r->Err_0 is ZeroTrailingSilence,
        minimum > 0 && trailing > 0 && maximum == 0 ==> r->Err_0 is ZeroMaximumSegment,
        trailing > 0 && 0 < maximum < minimum ==> r->Err_0 is MinimumSpeechExceedsMaximumSegment,
{
    capture::lemma_a_millisecond_is_48_frames(minimum);
    capture::lemma_a_millisecond_is_48_frames(trailing);
    capture::lemma_a_millisecond_is_48_frames(maximum);
}

/// A segment's frames are half its samples, and 48 of them are a millisecond.
pub proof fn lemma_segments_have_a_length(segment: &PcmSegment, frames: usize, millis: u64)
    requires
        call_ensures(PcmSegment::frame_count, (segment,), frames),
        call_ensures(PcmSegment::duration_millis, (segment,), millis),
        segment.interleaved_samples@.len() * 500 <= u64::MAX,
    ensures
        2 * frames <= segment.interleaved_samples@.len() <= 2 * frames + 1,
        48 * millis <= frames < 48 * (millis + 1),
{
    transcripts::lemma_frames_in_milliseconds(segment.interleaved_samples@.len() as int / 2);
}

/// An entry's times are the milliseconds of its first and last frame, and its size is that of its
/// text in UTF-8.
pub proof fn lemma_entries_have_times(entry: &TranscriptEntry, start: u64, end: u64, size: usize)
    requires
        call_ensures(TranscriptEntry::start_millis, (entry,), start),
        call_ensures(TranscriptEntry::end_millis, (entry,), end),
        call_ensures(TranscriptEntry::text_bytes, (entry,), size),
        entry.start_frame * 1000 <= u64::MAX,
        entry.end_frame * 1000 <= u64::MAX,
    ensures
        48 * start <= entry.start_frame < 48 * (start + 1),
        48 * end <= entry.end_frame < 48 * (end + 1),
        size == vstd::utf8::encode_utf8(entry.text@).len(),
{
    transcripts::lemma_frames_in_milliseconds(entry.start_frame as int);
    transcripts::lemma_frames_in_milliseconds(entry.end_frame as int);
}

/// A transcript needs room for at least one entry and one byte, and is empty at first.
pub proof fn lemma_transcripts_have_room(
    entries: usize,
    size: usize,
    r: Result<TranscriptStore, TranscriptStoreError>,
)
    requires
        call_ensures(TranscriptStore::new, (entries, size), r),
    ensures
        r is Ok <==> entries > 0 && size > 0,
        entries == 0 ==> r->Err_0 is ZeroMaximumEntries,
        entries > 0 && size == 0 ==> r->Err_0 is ZeroMaximumTextBytes,
        r is Ok ==> {
            &&& r->Ok_0@.len() == 0
            &&& r->Ok_0.max_entries() == entries
            &&& r->Ok_0.max_text_bytes() == size
            &&& r->Ok_0.totals().accepted_entries == 0
            &&& r->Ok_0.totals().evicted_entries == 0
        },
{
}

/// A new entry stands last, and only as many of the oldest go as make room for it. One that is
/// larger than the whole transcript is refused, and none goes for it.
pub proof fn lemma_the_newest_entries_stay(
    t: &mut TranscriptStore,
    entry: TranscriptEntry,
    r: TranscriptPushOutcome,
)
    requires
        old(t).wf(),
        call_ensures(TranscriptStore::push, (t, entry), r),
        old(t).totals().accepted_entries < u64::MAX,
        old(t).totals().rejected_entries < u64::MAX,
        old(t).totals().evicted_entries + old(t)@.len() < u64::MAX,
    ensures
        r.accepted <==> vstd::utf8::encode_utf8(entry.text@).len() <= old(t).max_text_bytes(),
        r.accepted ==> {
            let k = r.evicted_entries as int;
            &&& 0 <= k <= old(t)@.len()
            &&& final(t)@ == old(t)@.skip(k).push(entry)
            &&& final(t)@.len() <= old(t).max_entries()
            &&& k > 0 ==> old(t)@.len() - (k - 1) >= old(t).max_entries()
                || discord_voice::text_total(old(t)@.skip(k - 1)) + vstd::utf8::encode_utf8(
                entry.text@,
            ).len() > old(t).max_text_bytes()
            &&& final(t).totals().accepted_entries == old(t).totals().accepted_entries + 1
            &&& final(t).totals().evicted_entries == old(t).totals().evicted_entries + k
        },
        !r.accepted ==> {
            &&& final(t)@ == old(t)@
            &&& r.evicted_entries == 0
            &&& final(t).totals().rejected_entries == old(t).totals().rejected_entries + 1
        },
        final(t).max_entries() == old(t).max_entries(),
        final(t).max_text_bytes() == old(t).max_text_bytes(),
{
    old(t).lemma_bounded();
    let k = transcripts::lemma_window_keeps_the_newest(old(t).model(), entry);
    if r.accepted {
        assert(final(t).model().totals.evicted_entries == old(t).model().totals.evicted_entries
            + k);
        assert(final(t)@ == old(t)@.skip(k).push(entry));
        assert(r.evicted_entries == k);
    }
}

/// Clearing a transcript leaves its totals and its limits.
pub proof fn lemma_cleared_transcripts_remember_their_totals(t: &mut TranscriptStore)
    requires
        old(t).wf(),
        call_ensures(TranscriptStore::clear, (t,), ()),
    ensures
        final(t)@.len() == 0,
        final(t).totals() == old(t).totals(),
        final(t).max_entries() == old(t).max_entries(),
{
}

/// A transcript is rendered in time: an entry that starts behind all others is shown below them,
/// with its time, its speaker and its words.
pub proof fn lemma_transcripts_are_shown_in_time(
    one: &TranscriptStore,
    more: &TranscriptStore,
    entry: TranscriptEntry,
    r: String,
    s: String,
    at: u64,
    time: String,
)
    requires
        call_ensures(rendering::render_transcript, (one,), r),
        call_ensures(rendering::render_transcript, (more,), s),
        more@ == one@.push(entry),
        more.totals().evicted_entries == one.totals().evicted_entries,
        call_ensures(TranscriptEntry::start_millis, (&entry,), at),
        call_ensures(rendering::format_timestamp, (at,), time),
        forall|i: int| 0 <= i < one@.len() ==> (#[trigger] one@[i]).start_frame < entry.start_frame,
    ensures
        s@ == r@ + "["@ + time@ + "] "@ + entry.speaker_name@ + ": "@ + entry.text@ + "\n"@,
{
    transcripts::lemma_later_entries_are_shown_below(one@, entry, one.totals().evicted_entries);
}

/// Two entries are rendered alike whichever came in first, unless they agree in time and speaker.
pub proof fn lemma_rendering_depends_on_time_only(
    one: &TranscriptStore,
    other: &TranscriptStore,
    a: TranscriptEntry,
    b: TranscriptEntry,
    r: String,
    s: String,
)
    requires
        call_ensures(rendering::render_transcript, (one,), r),
        call_ensures(rendering::render_transcript, (other,), s),
        one@ == seq![a, b],
        other@ == seq![b, a],
        one.totals().evicted_entries == other.totals().evicted_entries,
        a.start_frame != b.start_frame || a.end_frame != b.end_frame || a.speaker_id
            != b.speaker_id,
    ensures
        r@ == s@,
{
    reveal_with_fuel(rendering::in_order, 3);
    reveal_with_fuel(rendering::place_of, 3);
    assert(seq![a, b].drop_last() =~= seq![a]);
    assert(seq![b, a].drop_last() =~= seq![b]);
    assert(seq![a].drop_last() =~= Seq::<TranscriptEntry>::empty());
    assert(seq![b].drop_last() =~= Seq::<TranscriptEntry>::empty());
    let none = Seq::<TranscriptEntry>::empty();
    assert(none.insert(0, a) =~= seq![a]);
    assert(none.insert(0, b) =~= seq![b]);
    assert(rendering::in_order(seq![a]) == seq![a]);
    assert(rendering::in_order(seq![b]) == seq![b]);
    assert(rendering::in_order(seq![a, b]) =~= rendering::in_order(seq![b, a]));
}

/// Times are shown as hours, minutes, seconds and milliseconds.
pub proof fn lemma_times_are_written(
    hours: nat,
    minutes: nat,
    seconds: nat,
    milliseconds: nat,
    at: u64,
    r: String,
)
    requires
        minutes < 60,
        seconds < 60,
        milliseconds < 1000,
        at == hours * 3_600_000 + minutes * 60_000 + seconds * 1_000 + milliseconds,
        call_ensures(rendering::format_timestamp, (at,), r),
    ensures
        r@ == rendering::padded(hours, 2) + ":"@ + rendering::padded(minutes, 2) + ":"@
            + rendering::padded(seconds, 2) + "."@ + rendering::padded(milliseconds, 3),
{
    transcripts::lemma_times_are_shown(hours, minutes, seconds, milliseconds);
}

/// What is lost is counted by its kind: chunks with their frames, segments and transcripts. A
/// count that is taken starts over.
pub proof fn lemma_losses_are_counted(
    a: &mut VoiceDropCounters,
    b: &mut VoiceDropCounters,
    c: &mut VoiceDropCounters,
    d: &mut VoiceDropCounters,
    frames: u64,
    taken: VoiceDropSnapshot,
)
    requires
        call_ensures(VoiceDropCounters::record_pcm_chunk, (a, frames), ()),
        *old(b) == *final(a),
        call_ensures(VoiceDropCounters::record_segment, (b,), ()),
        *old(c) == *final(b),
        call_ensures(VoiceDropCounters::record_transcript, (c,), ()),
        *old(d) == *final(c),
        call_ensures(VoiceDropCounters::take_snapshot, (d,), taken),
    ensures
        taken.pcm_chunks == up_to_the_limit(old(a)@.pcm_chunks + 1),
        taken.pcm_frames == up_to_the_limit(old(a)@.pcm_frames + frames),
        taken.segments == up_to_the_limit(old(a)@.segments + 1),
        taken.transcripts == up_to_the_limit(old(a)@.transcripts + 1),
        final(d)@.pcm_chunks == 0 && final(d)@.pcm_frames == 0 && final(d)@.segments == 0
            && final(d)@.transcripts == 0,
{
}

/// An answer is taken for what it says, whatever its case and whatever white space and punctuation
/// surround it: `yes` and `confirm` confirm, `no` and `cancel` do not.
pub proof fn lemma_answers_are_understood(
    content: &str,
    r: Confirmation,
    word: Seq<char>,
    x: Seq<char>,
    a: Seq<char>,
    u: Seq<char>,
    w: Seq<char>,
    v: Seq<char>,
    b: Seq<char>,
    y: Seq<char>,
)
    requires
        call_ensures(language::classify_confirmation, (content,), r),
        content@ == x + a + u + w + v + b + y,
        all_in(x, CharClass::White),
        all_in(u, CharClass::White),
        all_in(v, CharClass::White),
        all_in(y, CharClass::White),
        all_in(a, CharClass::ConfirmationPunctuation),
        all_in(b, CharClass::ConfirmationPunctuation),
        any_case_of(w, word),
    ensures
        word == "yes"@ || word == "y"@ || word == "correct"@ || word == "confirm"@ || word == "對"@
            || word == "对"@ || word == "是"@ || word == "是的"@ || word == "好"@ || word == "好的"@
            || word == "沒錯"@ || word == "没错"@ ==> r is Affirmative,
        word == "no"@ || word == "nope"@ || word == "cancel"@ || word == "取消"@ || word == "不要"@
            || word == "不是"@ || word == "不對"@ || word == "不对"@ ==> r is Negative,
{
    intents::lemma_answers_mean_what_they_say(word, x, a, u, w, v, b, y);
}

/// Silence that is told is silence that is heard: frames that are not loud make the same of a
/// capture, whatever their samples are.
pub proof fn lemma_told_silence_is_heard_silence(
    b: &mut SpeakerPcmBuffer,
    c: &mut SpeakerPcmBuffer,
    n: usize,
    quiet: &[i16],
    r: Option<PcmSegment>,
    s: Result<Vec<PcmSegment>, PcmCaptureError>,
)
    requires
        old(b).wf(),
        *old(c) == *old(b),
        quiet@.len() == 2 * n,
        forall|i: int|
            0 <= i < quiet@.len() ==> -old(b).limits().silence_threshold <= #[trigger] quiet@[i]
                <= old(b).limits().silence_threshold,
        call_ensures(SpeakerPcmBuffer::push_silence_frames, (b, n), r),
        call_ensures(SpeakerPcmBuffer::push_interleaved_stereo, (c, quiet), s),
    ensures
        final(b)@ == final(c)@,
        s is Ok,
        r is None ==> s->Ok_0@.len() == 0,
        r is Some ==> s->Ok_0@.len() == 1 && s->Ok_0@[0]@ == r->0@,
{
    old(b).lemma_wf();
    discord_voice::lemma_silence_is_quiet_samples(old(b)@, old(b).limits(), quiet@);
    let models = discord_voice::segment_models(s->Ok_0@);
    assert(models.len() == s->Ok_0@.len());
    if r is Some {
        assert(models == seq![r->0@]);
        assert(models[0] == s->Ok_0@[0]@);
    }
}

/// A configuration in frames is taken where every limit is positive and the least speech fits in
/// the longest segment.
pub proof fn lemma_configurations_in_frames(
    threshold: u16,
    minimum: usize,
    trailing: usize,
    maximum: usize,
    r: Result<PcmCaptureConfig, PcmCaptureConfigError>,
)
    requires
        call_ensures(
            PcmCaptureConfig::from_frame_counts,
            (threshold, minimum, trailing, maximum),
            r,
        ),
    ensures
        r is Ok <==> 0 < minimum <= maximum && trailing > 0 && 2 * maximum <= usize::MAX,
        r is Ok ==> {
            &&& r->Ok_0@.silence_threshold == threshold
            &&& r->Ok_0@.minimum_speech == minimum
            &&& r->Ok_0@.trailing_silence == trailing
            &&& r->Ok_0@.maximum_segment == maximum
        },
{
}

/// What a configuration tells is what it was made with.
pub proof fn lemma_configurations_are_told(
    config: &PcmCaptureConfig,
    threshold: u16,
    minimum: usize,
    trailing: usize,
    maximum: usize,
)
    requires
        call_ensures(PcmCaptureConfig::silence_threshold, (config,), threshold),
        call_ensures(PcmCaptureConfig::minimum_speech_frames, (config,), minimum),
        call_ensures(PcmCaptureConfig::trailing_silence_frames, (config,), trailing),
        call_ensures(PcmCaptureConfig::maximum_segment_frames, (config,), maximum),
    ensures
        threshold == config@.silence_threshold,
        minimum == config@.minimum_speech,
        trailing == config@.trailing_silence,
        maximum == config@.maximum_segment,
{
}

/// Every frame that was heard was handed out, ignored, or is still held.
pub proof fn lemma_frames_are_accounted_for(
    b: &SpeakerPcmBuffer,
    stats: PcmCaptureStats,
    held: usize,
    active: bool,
)
    requires
        b.wf(),
        call_ensures(SpeakerPcmBuffer::stats, (b,), stats),
        call_ensures(SpeakerPcmBuffer::buffered_frames, (b,), held),
        call_ensures(SpeakerPcmBuffer::is_active, (b,), active),
        stats.received_frames < u64::MAX,
    ensures
        stats.received_frames == stats.emitted_frames + stats.ignored_frames + held,
        active <==> held > 0,
{
    b.lemma_wf();
    b.lemma_frames_conserved();
}

/// A counter grows by what is added to it, and stays at its largest value once it is there.
pub proof fn lemma_counters_stay_full(counter: &mut u64, amount: u64)
    requires
        call_ensures(discord_voice::saturating_add_to, (counter, amount), ()),
    ensures
        *old(counter) + amount <= u64::MAX ==> *final(counter) == *old(counter) + amount,
        *old(counter) + amount > u64::MAX ==> *final(counter) == u64::MAX,
{
}

/// Reading the losses leaves them counted; taking them starts over from none.
pub proof fn lemma_losses_are_read_or_taken(
    a: &VoiceDropCounters,
    b: &mut VoiceDropCounters,
    read: VoiceDropSnapshot,
    taken: VoiceDropSnapshot,
    left: VoiceDropSnapshot,
)
    requires
        *old(b) == *a,
        call_ensures(VoiceDropCounters::snapshot, (a,), read),
        call_ensures(VoiceDropCounters::take_snapshot, (b,), taken),
        call_ensures(VoiceDropCounters::snapshot, (final(b),), left),
    ensures
        read == taken,
        left.pcm_chunks == 0,
        left.pcm_frames == 0,
        left.segments == 0,
        left.transcripts == 0,
{
}

/// A store of transcripts is empty when it holds no entry.
pub proof fn lemma_stores_are_empty_without_entries(
    store: &TranscriptStore,
    n: usize,
    r: bool,
)
    requires
        call_ensures(TranscriptStore::len, (store,), n),
        call_ensures(TranscriptStore::is_empty, (store,), r),
    ensures
        n == store@.len(),
        r <==> n == 0,
{
}

} // verus!
