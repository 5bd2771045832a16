//! A voice session: who is heard, what is kept of them and what becomes of it.

use vstd::prelude::*;
use vstd::string::*;
use crate::discord_voice;
use crate::discord_voice::{
    PcmSegment, SegmentBoundary, SegmentModel, TranscriptPushOutcome, TranscriptStore,
};
use crate::discord_voice_intent::FinalTranscriptEvent;
use crate::discord_voice_runtime::session;
use crate::discord_voice_runtime::session::{
    CompletedSegment, SegmentJob, SessionModel, SpeakerModel, VoiceConnectionState, VoiceSession,
    VoiceSessionStatus, VoiceTick,
};
use crate::discord_voice_runtime::VoiceSessionToken;
use crate::text;

verus! {

/// Whether a speaker has a capture.
pub open spec fn records(captures: Seq<SpeakerModel>, user: u64) -> bool {
    exists|i: int| 0 <= i < captures.len() && (#[trigger] captures[i]).user == user
}

/// A sum that stays at the largest number it can hold.
pub open spec fn up_to_the_limit(n: int) -> int {
    if n < 0x1_0000_0000_0000_0000 {
        n
    } else {
        0xffff_ffff_ffff_ffff
    }
}

proof fn lemma_index(captures: Seq<SpeakerModel>, user: u64)
    ensures
        session::capture_index(captures, user) is Some <==> records(captures, user),
        session::capture_index(captures, user) is Some ==> {
            let i = session::capture_index(captures, user)->0;
            0 <= i < captures.len() && captures[i].user == user
        },
    decreases captures.len(),
{
    if captures.len() > 0 {
        let rest = captures.drop_last();
        lemma_index(rest, user);
        if records(rest, user) {
            let i = choose|i: int| 0 <= i < rest.len() && (#[trigger] rest[i]).user == user;
            assert(captures[i].user == user);
        }
        if captures.last().user == user {
            assert(captures[captures.len() - 1].user == user);
        }
        if records(captures, user) && captures.last().user != user {
            let i = choose|i: int| 0 <= i < captures.len() && (#[trigger] captures[i]).user == user;
            assert(rest[i].user == user);
        }
    }
}

/// A session that is being joined listens once it is joined, and only then.
pub proof fn lemma_joined_sessions_listen(s: &mut VoiceSession, r: bool)
    requires
        old(s).wf(),
        call_ensures(VoiceSession::listen, (s,), r),
    ensures
        r <==> old(s)@.state is Connecting,
        r ==> final(s)@.state is Listening,
        !r ==> final(s)@.state == old(s)@.state,
        final(s)@.queue == old(s)@.queue,
        final(s)@.captures == old(s)@.captures,
        final(s)@.accepting == old(s)@.accepting,
{
}

/// While the bot speaks nothing is captured, and what was captured in part is gone. Only a session
/// that listens can speak, and each speech has a number of its own.
pub proof fn lemma_the_bot_is_not_recorded(
    s: &mut VoiceSession,
    r: Option<u64>,
    during: &mut VoiceSession,
    tick: &VoiceTick,
)
    requires
        old(s).wf(),
        call_ensures(VoiceSession::begin_playback, (s,), r),
        *old(during) == *final(s),
        call_ensures(VoiceSession::handle_tick, (during, tick), ()),
    ensures
        r is Some <==> old(s)@.state is Listening,
        r is Some ==> {
            &&& final(s)@.suppressed
            &&& final(s)@.captures.len() == 0
            &&& r->0 == final(s)@.epoch
            &&& old(s)@.epoch < u64::MAX ==> r->0 == old(s)@.epoch + 1
            &&& final(during)@.captures.len() == 0
            &&& final(during)@.queue == old(s)@.queue
            &&& final(during)@.frames == up_to_the_limit(old(s)@.frames + 960)
        },
        r is None ==> final(s)@ == old(s)@,
{
}

/// Capturing goes on when the latest speech has ended; the end of an earlier one changes nothing.
pub proof fn lemma_recording_resumes(s: &mut VoiceSession, epoch: u64, r: bool)
    requires
        old(s).wf(),
        call_ensures(VoiceSession::finish_playback, (s, epoch), r),
    ensures
        r <==> epoch == old(s)@.epoch,
        r ==> !final(s)@.suppressed && final(s)@.captures.len() == 0,
        !r ==> final(s)@ == old(s)@,
        final(s)@.queue == old(s)@.queue,
        final(s)@.epoch == old(s)@.epoch,
{
}

/// A tick is 20 ms, which are 960 frames. It counts only while the session listens.
pub proof fn lemma_ticks_are_counted(s: &mut VoiceSession, tick: &VoiceTick)
    requires
        old(s).wf(),
        call_ensures(VoiceSession::handle_tick, (s, tick), ()),
    ensures
        old(s)@.state is Listening ==> final(s)@.frames == up_to_the_limit(old(s)@.frames + 960),
        !(old(s)@.state is Listening) ==> final(s)@ == old(s)@,
        old(s)@.suppressed && old(s)@.state is Listening ==> final(s)@.captures.len() == 0,
        final(s)@.ssrc_to_user == old(s)@.ssrc_to_user,
        final(s)@.transcript == old(s)@.transcript,
        final(s)@.state == old(s)@.state,
{
    lemma_tick_frame(old(s)@, session::voices(tick.speaking@), tick.silent@);
}

proof fn lemma_tick_frame(s: SessionModel, voices: Seq<(u32, Option<Seq<i16>>)>, silent: Seq<u32>)
    ensures
        ({
            let after = s.ticked(voices, silent);
            &&& s.state is Listening ==> after.frames == up_to_the_limit(s.frames + 960)
            &&& after.ssrc_to_user == s.ssrc_to_user
            &&& after.transcript == s.transcript
            &&& after.state == s.state
        }),
{
    if s.state is Listening {
        let t = SessionModel { frames: discord_voice::sat(s.frames + 960), ..s };
        lemma_heard_all_frame(t, voices);
        lemma_quiet_all_frame(t.heard_all(voices), silent);
    }
}

proof fn lemma_heard_frame(s: SessionModel, ssrc: u32, samples: Option<Seq<i16>>)
    ensures
        s.heard(ssrc, samples) == (SessionModel {
            captures: s.heard(ssrc, samples).captures,
            queue: s.heard(ssrc, samples).queue,
            drops: s.heard(ssrc, samples).drops,
            ..s
        }),
{
    if s.ssrc_to_user.contains_key(ssrc) && samples is Some {
        let user = s.ssrc_to_user[ssrc];
        let t = s.with_capture(user, s.tick_start());
        if samples->0.len() % 2 == 0 {
            let i = session::capture_index(t.captures, user)->0;
            let before = t.captures[i];
            let (capture, segments) = before.capture.after_samples(t.limits, samples->0);
            let u = SessionModel {
                captures: t.captures.update(i, SpeakerModel { capture, ..before }),
                ..t
            };
            session::lemma_enqueued_all_keeps(u, session::owned_by(user, before.base, segments));
        }
    }
}

proof fn lemma_quiet_frame(s: SessionModel, ssrc: u32)
    ensures
        s.quiet(ssrc) == (SessionModel {
            captures: s.quiet(ssrc).captures,
            queue: s.quiet(ssrc).queue,
            drops: s.quiet(ssrc).drops,
            ..s
        }),
{
    if s.ssrc_to_user.contains_key(ssrc) {
        let user = s.ssrc_to_user[ssrc];
        let t = s.with_capture(user, s.tick_start());
        let i = session::capture_index(t.captures, user)->0;
        let before = t.captures[i];
        let (capture, segments) = before.capture.after_silence(t.limits, 960);
        let u = SessionModel {
            captures: t.captures.update(i, SpeakerModel { capture, ..before }),
            ..t
        };
        session::lemma_enqueued_all_keeps(u, session::owned_by(user, before.base, segments));
    }
}

proof fn lemma_heard_all_frame(s: SessionModel, voices: Seq<(u32, Option<Seq<i16>>)>)
    ensures
        s.heard_all(voices) == (SessionModel {
            captures: s.heard_all(voices).captures,
            queue: s.heard_all(voices).queue,
            drops: s.heard_all(voices).drops,
            ..s
        }),
    decreases voices.len(),
{
    if voices.len() > 0 {
        lemma_heard_all_frame(s, voices.drop_last());
        lemma_heard_frame(s.heard_all(voices.drop_last()), voices.last().0, voices.last().1);
    }
}

proof fn lemma_quiet_all_frame(s: SessionModel, ssrcs: Seq<u32>)
    ensures
        s.quiet_all(ssrcs) == (SessionModel {
            captures: s.quiet_all(ssrcs).captures,
            queue: s.quiet_all(ssrcs).queue,
            drops: s.quiet_all(ssrcs).drops,
            ..s
        }),
    decreases ssrcs.len(),
{
    if ssrcs.len() > 0 {
        lemma_quiet_all_frame(s, ssrcs.drop_last());
        lemma_quiet_frame(s.quiet_all(ssrcs.drop_last()), ssrcs.last());
    }
}

/// A voice is added to its own speaker's capture. A stream whose speaker is not known is not heard,
/// a voice that could not be decoded is left out, and everybody else's capture is as it was. Who is
/// heard for the first time has a capture that begins with the tick.
pub proof fn lemma_voices_are_kept_apart(
    s: SessionModel,
    ssrc: u32,
    samples: Option<Seq<i16>>,
    i: int,
)
    requires
        s.captures_wf(),
    ensures
        !s.ssrc_to_user.contains_key(ssrc) || samples is None ==> s.heard(ssrc, samples) == s,
        0 <= i < s.captures.len() && (!s.ssrc_to_user.contains_key(ssrc) || s.captures[i].user
            != s.ssrc_to_user[ssrc]) ==> s.heard(ssrc, samples).captures[i] == s.captures[i],
        s.ssrc_to_user.contains_key(ssrc) && samples is Some && samples->0.len() % 2 == 0 && 0 <= i
            < s.captures.len() && s.captures[i].user == s.ssrc_to_user[ssrc] ==> {
            let after = s.heard(ssrc, samples).captures;
            &&& after.len() == s.captures.len()
            &&& after[i].user == s.captures[i].user
            &&& after[i].base == s.captures[i].base
            &&& after[i].capture == s.captures[i].capture.after_samples(s.limits, samples->0).0
        },
        s.ssrc_to_user.contains_key(ssrc) && samples is Some && !records(
            s.captures,
            s.ssrc_to_user[ssrc],
        ) ==> {
            let after = s.heard(ssrc, samples).captures;
            &&& after.len() == s.captures.len() + 1
            &&& after.last().user == s.ssrc_to_user[ssrc]
            &&& s.frames >= 960 ==> after.last().base as int == s.frames - 960 || s.frames
                > u64::MAX
            &&& s.frames < 960 ==> after.last().base == 0
        },
{
    if s.ssrc_to_user.contains_key(ssrc) && samples is Some {
        let user = s.ssrc_to_user[ssrc];
        lemma_index(s.captures, user);
        let t = s.with_capture(user, s.tick_start());
        lemma_index(t.captures, user);
        if !records(s.captures, user) {
            assert(t.captures.last().user == user);
            let k = session::capture_index(t.captures, user)->0;
            if k < s.captures.len() {
                assert(s.captures[k].user == user);
            }
        } else {
            let k = session::capture_index(s.captures, user)->0;
            if 0 <= i < s.captures.len() && s.captures[i].user == user {
                assert(i == k);
            }
        }
        if samples->0.len() % 2 == 0 {
            let k = session::capture_index(t.captures, user)->0;
            let before = t.captures[k];
            let (capture, segments) = before.capture.after_samples(t.limits, samples->0);
            let u = SessionModel {
                captures: t.captures.update(k, SpeakerModel { capture, ..before }),
                ..t
            };
            session::lemma_enqueued_all_keeps(u, session::owned_by(user, before.base, segments));
        }
    }
}

/// A stream that is silent for a tick gives its own speaker's capture 960 frames of silence, and
/// nobody else's.
pub proof fn lemma_silence_is_kept_apart(s: SessionModel, ssrc: u32, i: int)
    requires
        s.captures_wf(),
    ensures
        !s.ssrc_to_user.contains_key(ssrc) ==> s.quiet(ssrc) == s,
        0 <= i < s.captures.len() && (!s.ssrc_to_user.contains_key(ssrc) || s.captures[i].user
            != s.ssrc_to_user[ssrc]) ==> s.quiet(ssrc).captures[i] == s.captures[i],
        s.ssrc_to_user.contains_key(ssrc) && 0 <= i < s.captures.len() && s.captures[i].user
            == s.ssrc_to_user[ssrc] ==> {
            let after = s.quiet(ssrc).captures;
            &&& after.len() == s.captures.len()
            &&& after[i].user == s.captures[i].user
            &&& after[i].base == s.captures[i].base
            &&& after[i].capture == s.captures[i].capture.after_silence(s.limits, 960).0
        },
{
    if s.ssrc_to_user.contains_key(ssrc) {
        let user = s.ssrc_to_user[ssrc];
        lemma_index(s.captures, user);
        let t = s.with_capture(user, s.tick_start());
        lemma_index(t.captures, user);
        if records(s.captures, user) {
            let k = session::capture_index(s.captures, user)->0;
            if 0 <= i < s.captures.len() && s.captures[i].user == user {
                assert(i == k);
            }
        } else {
            assert(t.captures.last().user == user);
            let k = session::capture_index(t.captures, user)->0;
            if k < s.captures.len() {
                assert(s.captures[k].user == user);
            }
        }
        let k = session::capture_index(t.captures, user)->0;
        let before = t.captures[k];
        let (capture, segments) = before.capture.after_silence(t.limits, 960);
        let u = SessionModel {
            captures: t.captures.update(k, SpeakerModel { capture, ..before }),
            ..t
        };
        session::lemma_enqueued_all_keeps(u, session::owned_by(user, before.base, segments));
    }
}

/// A tick takes its voices in their order and then its silent streams in theirs.
pub proof fn lemma_ticks_are_taken_in_order(
    s: SessionModel,
    voices: Seq<(u32, Option<Seq<i16>>)>,
    voice: (u32, Option<Seq<i16>>),
    silent: Seq<u32>,
    last: u32,
)
    requires
        s.state is Listening,
        !s.suppressed,
    ensures
        s.ticked(voices, silent.push(last)) == s.ticked(voices, silent).quiet(last),
        s.ticked(voices.push(voice), Seq::empty()) == s.ticked(voices, Seq::empty()).heard(
            voice.0,
            voice.1,
        ),
        s.ticked(Seq::empty(), Seq::empty()) == (SessionModel {
            frames: up_to_the_limit(s.frames + 960),
            ..s
        }),
{
    assert(silent.push(last).drop_last() =~= silent);
    assert(voices.push(voice).drop_last() =~= voices);
}

/// A completed segment waits in line behind all that wait, at its place on the session's timeline,
/// as long as segments are taken in and there is room. Otherwise it is dropped and counted.
pub proof fn lemma_segments_wait_in_line(s: SessionModel, item: (u64, u64, SegmentModel))
    ensures
        s.accepting && s.queue.len() < s.capacity ==> {
            let after = s.enqueued(item);
            &&& after.queue.drop_last() == s.queue
            &&& after.queue.len() == s.queue.len() + 1
            &&& after.queue.last().speaker == item.0
            &&& after.queue.last().start == up_to_the_limit(item.1 + item.2.start)
            &&& after.queue.last().end == up_to_the_limit(item.1 + item.2.end)
            &&& after.queue.last().segment == item.2
            &&& after.drops == s.drops
        },
        !(s.accepting && s.queue.len() < s.capacity) ==> {
            let after = s.enqueued(item);
            &&& after.queue == s.queue
            &&& after.drops.segments == up_to_the_limit(s.drops.segments + 1)
            &&& after.drops.transcripts == s.drops.transcripts
        },
{
    if s.accepting && s.queue.len() < s.capacity {
        assert(s.enqueued(item).queue.drop_last() =~= s.queue);
    }
}

/// A segment's place on the session's timeline is its place in the speaker's, behind where that
/// began.
pub proof fn lemma_timelines_are_joined(base: u64, segment: &PcmSegment, r: (u64, u64))
    requires
        call_ensures(session::session_segment_range, (base, segment), r),
    ensures
        r.0 == up_to_the_limit(base + segment.start_frame),
        r.1 == up_to_the_limit(base + segment.end_frame),
{
}

/// A speaker who is seen on a stream is heard there: the stream is theirs and they have no other.
/// At most 25 speakers are followed; one more is not heard and is counted.
pub proof fn lemma_speakers_are_followed(
    s: &mut VoiceSession,
    ssrc: u32,
    user: u64,
    other: u32,
    someone: u64,
)
    requires
        old(s).wf(),
        call_ensures(VoiceSession::note_speaking, (s, ssrc, user), ()),
    ensures
        !(old(s)@.state is Connecting || old(s)@.state is Listening) ==> final(s)@ == old(s)@,
        ({
            let known = old(s)@.user_to_ssrc.contains_key(user);
            let full = old(s)@.user_to_ssrc.len() >= 25;
            let joined = old(s)@.state is Connecting || old(s)@.state is Listening;
            &&& joined && !known && full ==> {
                &&& final(s)@.ssrc_to_user == old(s)@.ssrc_to_user
                &&& final(s)@.captures == old(s)@.captures
                &&& final(s)@.ignored_speakers == up_to_the_limit(old(s)@.ignored_speakers + 1)
            }
            &&& joined && (known || !full) ==> {
                &&& final(s)@.ssrc_to_user.contains_key(ssrc)
                &&& final(s)@.ssrc_to_user[ssrc] == user
                &&& final(s)@.user_to_ssrc.contains_key(user)
                &&& final(s)@.user_to_ssrc[user] == ssrc
                &&& records(final(s)@.captures, user)
                &&& final(s)@.ignored_speakers == old(s)@.ignored_speakers
                &&& other != ssrc && final(s)@.ssrc_to_user.contains_key(other)
                    ==> final(s)@.ssrc_to_user[other] != user && old(s)@.ssrc_to_user.contains_key(
                    other,
                ) && final(s)@.ssrc_to_user[other] == old(s)@.ssrc_to_user[other]
                &&& other != ssrc && old(s)@.ssrc_to_user.contains_key(other)
                    && old(s)@.ssrc_to_user[other] != user ==> final(s)@.ssrc_to_user.contains_key(
                    other,
                )
                &&& records(old(s)@.captures, user) ==> final(s)@.captures == old(s)@.captures
                &&& !records(old(s)@.captures, user) ==> final(s)@.captures.last().user == user
                    && final(s)@.captures.drop_last() == old(s)@.captures
                &&& !records(old(s)@.captures, user) && 0 <= old(s)@.frames <= u64::MAX
                    ==> final(s)@.captures.last().base == old(s)@.frames && {
                    let fresh = final(s)@.captures.last().capture;
                    fresh.start is None && fresh.samples.len() == 0 && fresh.received == 0
                        && fresh.emitted == 0 && fresh.ignored == 0
                }
            }
        }),
        final(s)@.queue == old(s)@.queue,
        final(s)@.frames == old(s)@.frames,
{
    old(s).lemma_wf();
    let before = old(s)@;
    lemma_index(before.captures, user);
    let t = before.with_capture(user, before.frames as u64);
    lemma_index(t.captures, user);
    if !records(before.captures, user) {
        assert(t.captures.last().user == user);
        assert(t.captures.drop_last() =~= before.captures);
        assert(t.captures[t.captures.len() - 1].user == user);
    }
}

/// A speaker who leaves is not followed and has no capture any more; what was captured of them
/// waits to be transcribed if it is speech.
pub proof fn lemma_speakers_who_leave_are_forgotten(s: &mut VoiceSession, user: u64, ssrc: u32)
    requires
        old(s).wf(),
        call_ensures(VoiceSession::note_disconnect, (s, user), ()),
    ensures
        !final(s)@.user_to_ssrc.contains_key(user),
        final(s)@.ssrc_to_user.contains_key(ssrc) ==> final(s)@.ssrc_to_user[ssrc] != user,
        old(s)@.ssrc_to_user.contains_key(ssrc) && old(s)@.ssrc_to_user[ssrc] != user
            ==> final(s)@.ssrc_to_user.contains_key(ssrc) && final(s)@.ssrc_to_user[ssrc]
            == old(s)@.ssrc_to_user[ssrc],
        !records(final(s)@.captures, user),
        records(old(s)@.captures, user) ==> final(s)@.captures.len() == old(s)@.captures.len() - 1,
        !records(old(s)@.captures, user) ==> final(s)@.captures == old(s)@.captures
            && final(s)@.queue == old(s)@.queue,
        final(s)@.queue.len() >= old(s)@.queue.len(),
        forall|i: int|
            0 <= i < old(s)@.captures.len() && (#[trigger] old(s)@.captures[i]).user == user ==> {
                let heard = old(s)@.captures[i];
                let cut = heard.capture.finished(old(s)@.limits, SegmentBoundary::Flush).1;
                &&& cut is None ==> final(s)@.queue == old(s)@.queue
                &&& cut is Some && old(s)@.accepting && old(s)@.queue.len() < old(s)@.capacity ==> {
                    &&& final(s)@.queue.drop_last() == old(s)@.queue
                    &&& final(s)@.queue.last().speaker == user
                    &&& final(s)@.queue.last().segment == cut->0
                    &&& final(s)@.queue.last().start == up_to_the_limit(heard.base + cut->0.start)
                }
            },
        final(s)@.transcript == old(s)@.transcript,
        final(s)@.state == old(s)@.state,
{
    old(s).lemma_wf();
    final(s).lemma_wf();
    let before = old(s)@;
    lemma_index(before.captures, user);
    if records(before.captures, user) {
        let i = session::capture_index(before.captures, user)->0;
        let left = before.captures.remove(i);
        assert(final(s)@.captures == left);
        if records(left, user) {
            let j = choose|j: int| 0 <= j < left.len() && (#[trigger] left[j]).user == user;
            if j < i {
                assert(left[j] == before.captures[j]);
            } else {
                assert(left[j] == before.captures[j + 1]);
            }
        }
        let cut = before.captures[i].capture.finished(before.limits, SegmentBoundary::Flush).1;
        if cut is Some {
            let gone = SessionModel { captures: left, ..before };
            lemma_segments_wait_in_line(gone, (user, before.captures[i].base, cut->0));
        }
        assert forall|j: int|
            0 <= j < before.captures.len() && (#[trigger] before.captures[j]).user
                == user implies j == i by {}
    }
}

/// When capturing ends, nothing more is taken in, and the session is in the state that it was
/// given. When it ended first, counts.
pub proof fn lemma_captures_end(s: &mut VoiceSession, state: VoiceConnectionState, now: u128)
    requires
        old(s).wf(),
        call_ensures(VoiceSession::end_capture, (s, state, now), ()),
    ensures
        final(s)@.state == state,
        !final(s)@.accepting,
        old(s)@.ended is None ==> final(s)@.ended == Some(now),
        old(s)@.ended is Some ==> final(s)@.ended == old(s)@.ended,
        final(s)@.transcript == old(s)@.transcript,
        final(s)@.started == old(s)@.started,
        final(s)@.queue.len() >= old(s)@.queue.len(),
        final(s)@.queue.take(old(s)@.queue.len() as int) == old(s)@.queue,
{
    let before = old(s)@;
    let items = session::flushed_segments(before.captures, before.limits);
    let t = SessionModel {
        captures: session::flushed_captures(before.captures, before.limits),
        ..before
    };
    session::lemma_enqueued_all_keeps(t, items);
    lemma_line_grows(t, items);
}

proof fn lemma_line_grows(s: SessionModel, items: Seq<(u64, u64, SegmentModel)>)
    ensures
        s.enqueued_all(items).queue.len() >= s.queue.len(),
        s.enqueued_all(items).queue.take(s.queue.len() as int) == s.queue,
    decreases items.len(),
{
    if items.len() == 0 {
        assert(s.queue.take(s.queue.len() as int) =~= s.queue);
    } else {
        lemma_line_grows(s, items.drop_last());
        let before = s.enqueued_all(items.drop_last());
        let after = s.enqueued_all(items);
        assert(after.queue.take(s.queue.len() as int) =~= before.queue.take(s.queue.len() as int));
    }
}

/// What everybody said so far waits to be transcribed when capturing ends, one segment for each
/// speaker that has one, in the order of the captures.
pub proof fn lemma_everybody_is_flushed(
    captures: Seq<SpeakerModel>,
    one: SpeakerModel,
    limits: crate::discord_voice::CaptureLimits,
)
    ensures
        session::flushed_segments(Seq::empty(), limits).len() == 0,
        ({
            let cut = one.capture.finished(limits, SegmentBoundary::Flush).1;
            let all = session::flushed_segments(captures.push(one), limits);
            let before = session::flushed_segments(captures, limits);
            &&& cut is None ==> all == before
            &&& cut is Some ==> all == before.push((one.user, one.base, cut->0))
        }),
{
    assert(captures.push(one).drop_last() =~= captures);
}

/// A restored connection has new streams: nobody is followed and nobody has a capture until they
/// speak again. A session that does not listen is left as it is.
pub proof fn lemma_restored_connections_start_over(s: &mut VoiceSession, r: bool)
    requires
        old(s).wf(),
        call_ensures(VoiceSession::reconnect, (s,), r),
    ensures
        r <==> old(s)@.state is Connecting || old(s)@.state is Listening,
        old(s)@.state is Listening ==> {
            &&& final(s)@.captures.len() == 0
            &&& forall|ssrc: u32| !#[trigger] final(s)@.ssrc_to_user.contains_key(ssrc)
            &&& forall|user: u64| !#[trigger] final(s)@.user_to_ssrc.contains_key(user)
            &&& final(s)@.queue.len() >= old(s)@.queue.len()
        },
        !(old(s)@.state is Listening) ==> final(s)@ == old(s)@,
        final(s)@.state == old(s)@.state,
        final(s)@.frames == old(s)@.frames,
        final(s)@.transcript == old(s)@.transcript,
{
    let before = old(s)@;
    let items = session::flushed_segments(before.captures, before.limits);
    let t = SessionModel {
        captures: session::flushed_captures(before.captures, before.limits),
        ..before
    };
    session::lemma_enqueued_all_keeps(t, items);
    lemma_line_grows(t, items);
}

/// Segments are transcribed one at a time, the one that has waited longest first.
pub proof fn lemma_first_come_first_served(
    s: &mut VoiceSession,
    r: Option<SegmentJob>,
    again: &mut VoiceSession,
    second: Option<SegmentJob>,
)
    requires
        old(s).wf(),
        call_ensures(VoiceSession::take_job, (s,), r),
        *old(again) == *final(s),
        call_ensures(VoiceSession::take_job, (again,), second),
    ensures
        r is Some <==> !old(s)@.in_flight && old(s)@.queue.len() > 0,
        r is Some ==> {
            &&& r->0@ == old(s)@.queue[0]
            &&& final(s)@.queue.len() == old(s)@.queue.len() - 1
            &&& forall|i: int|
                0 <= i < final(s)@.queue.len() ==> #[trigger] final(s)@.queue[i] == old(
                    s,
                )@.queue[i + 1]
            &&& final(s)@.in_flight
        },
        r is None ==> final(s)@ == old(s)@,
        second is None,
{
}

/// What was said joins the transcript under the speaker's mention and with its place on the
/// timeline, and is told once where intents are listened for.
pub proof fn lemma_transcriptions_are_kept(
    s: &mut VoiceSession,
    done: CompletedSegment,
    token: VoiceSessionToken,
    r: Option<FinalTranscriptEvent>,
)
    requires
        old(s).wf(),
        old(s)@.in_flight,
        call_ensures(VoiceSession::complete_job, (s, done, token), r),
    ensures
        !final(s)@.in_flight,
        final(s)@.queue == old(s)@.queue,
        final(s)@.state == old(s)@.state,
        done.transcript is None ==> {
            &&& r is None
            &&& final(s)@.transcript == old(s)@.transcript
            &&& final(s)@.stt_failures == up_to_the_limit(old(s)@.stt_failures + 1)
        },
        done.transcript is Some ==> final(s)@.stt_failures == old(s)@.stt_failures,
        done.transcript is Some && discord_voice::utf8_len(done.transcript->0@)
            > old(s)@.max_text_bytes ==> {
            &&& r is None
            &&& final(s)@.transcript == old(s)@.transcript
            &&& final(s)@.totals.rejected_entries == up_to_the_limit(
                old(s)@.totals.rejected_entries + 1,
            )
            &&& final(s)@.drops.transcripts == up_to_the_limit(old(s)@.drops.transcripts + 1)
        },
        done.transcript is Some && discord_voice::utf8_len(done.transcript->0@)
            <= old(s)@.max_text_bytes ==> {
            let entry = final(s)@.transcript.last();
            &&& final(s)@.transcript.len() > 0
            &&& entry.speaker_id == done.speaker_id
            &&& entry.speaker_name@ == "<@"@ + text::decimal(done.speaker_id as nat) + ">"@
            &&& entry.start_frame == done.start_frame
            &&& entry.end_frame == done.end_frame
            &&& entry.text@ == done.transcript->0@
            &&& r is Some <==> old(s)@.intents
            &&& r is Some ==> {
                &&& r->0.token == token
                &&& r->0.control_channel_id == old(s)@.control_channel
                &&& r->0.key.speaker_id == done.speaker_id
                &&& r->0.key.start_frame == done.start_frame
                &&& r->0.key.end_frame == done.end_frame
                &&& r->0.text@ == done.transcript->0@
            }
            &&& final(s)@.totals.accepted_entries == up_to_the_limit(
                old(s)@.totals.accepted_entries + 1,
            )
            &&& final(s)@.drops == old(s)@.drops
        },
{
}

/// What is told of a session: where it is, its state, what was said and by how many, and what was
/// lost. Time runs until capturing ends.
pub proof fn lemma_sessions_are_described(
    s: &VoiceSession,
    guild: u64,
    now: u128,
    r: VoiceSessionStatus,
)
    requires
        s.wf(),
        call_ensures(VoiceSession::status, (s, guild, now), r),
    ensures
        r.guild_id == guild,
        r.voice_channel_id == s@.voice_channel,
        r.control_channel_id == s@.control_channel,
        r.state == s@.state,
        r.transcript_entries == s@.transcript.len(),
        r.tracked_speakers == s@.ssrc_to_user.len(),
        r.ignored_speakers == s@.ignored_speakers,
        r.evicted_transcript_entries == s@.totals.evicted_entries,
        r.rejected_transcript_entries == s@.totals.rejected_entries,
        r.stt_failures == s@.stt_failures,
        r.drops == s@.drops,
        s@.queue.len() < u64::MAX ==> r.pending_segments == s@.queue.len() + if s@.in_flight {
            1int
        } else {
            0int
        },
        s@.ended is None && now >= s@.started ==> s@.started + r.elapsed_nanos == now,
        s@.ended is Some && s@.ended->0 >= s@.started ==> s@.started + r.elapsed_nanos
            == s@.ended->0,
{
}

/// How many segments wait: those in line and the one that is being transcribed.
pub proof fn lemma_waiting_segments_are_counted(s: &VoiceSession, r: u64)
    requires
        call_ensures(VoiceSession::pending_segments, (s,), r),
        s@.queue.len() < u64::MAX,
    ensures
        s@.in_flight ==> r == s@.queue.len() + 1,
        !s@.in_flight ==> r == s@.queue.len(),
{
}

/// A session is active while it is joined or about to be.
pub proof fn lemma_joined_sessions_are_active(state: &VoiceConnectionState, r: bool)
    requires
        call_ensures(VoiceConnectionState::is_active, (state,), r),
    ensures
        *state is Connecting || *state is Listening ==> r,
        *state is Stopping || *state is Stopped || *state is Expired || *state is Failed ==> !r,
{
}

/// What a session tells of a speaker: whether they have a capture, and whose a stream is.
pub proof fn lemma_speakers_are_told(
    s: &VoiceSession,
    user: u64,
    ssrc: u32,
    has: bool,
    owner: Option<u64>,
    count: usize,
)
    requires
        call_ensures(VoiceSession::has_capture, (s, user), has),
        call_ensures(VoiceSession::speaker_of, (s, ssrc), owner),
        call_ensures(VoiceSession::capture_count, (s,), count),
    ensures
        has <==> records(s@.captures, user),
        owner is Some <==> s@.ssrc_to_user.contains_key(ssrc),
        owner is Some ==> owner->0 == s@.ssrc_to_user[ssrc],
        count == s@.captures.len(),
{
    lemma_index(s@.captures, user);
}

/// A session that is stopping reaches the state it is given; any other keeps its own.
pub proof fn lemma_stopping_ends(
    s: &mut VoiceSession,
    state: VoiceConnectionState,
    r: bool,
)
    requires
        old(s).wf(),
        call_ensures(VoiceSession::settle, (s, state), r),
    ensures
        r <==> old(s)@.state is Stopping,
        r ==> final(s)@.state == state,
        !r ==> final(s)@.state == old(s)@.state,
        final(s)@.transcript == old(s)@.transcript,
        final(s)@.queue == old(s)@.queue,
{
}

/// A new session is about to be joined, takes segments in and has heard nobody.
pub proof fn lemma_new_sessions_are_empty(
    id: u64,
    voice: u64,
    control: u64,
    now: u128,
    config: discord_voice::PcmCaptureConfig,
    store: discord_voice::TranscriptStore,
    capacity: usize,
    intents: bool,
    s: VoiceSession,
)
    requires
        config.wf(),
        store.wf(),
        call_ensures(
            VoiceSession::new,
            (id, voice, control, now, config, store, capacity, intents),
            s,
        ),
    ensures
        s@.id == id,
        s@.voice_channel == voice,
        s@.control_channel == control,
        s@.started == now,
        s@.ended is None,
        s@.state is Connecting,
        s@.accepting && !s@.in_flight && !s@.suppressed,
        s@.captures.len() == 0 && s@.queue.len() == 0,
        s@.frames == 0 && s@.epoch == 0 && s@.stt_failures == 0 && s@.ignored_speakers == 0,
        s@.transcript == store@,
        s@.capacity == capacity,
        s@.limits == config@,
        s@.intents == intents,
        forall|ssrc: u32| !#[trigger] s@.ssrc_to_user.contains_key(ssrc),
{
}

/// What was said joins the transcript as it would join any: the oldest entries make room for it.
pub proof fn lemma_transcriptions_make_room(
    s: &mut VoiceSession,
    done: CompletedSegment,
    token: VoiceSessionToken,
    r: Option<FinalTranscriptEvent>,
    store: &mut TranscriptStore,
    outcome: TranscriptPushOutcome,
)
    requires
        old(s).wf(),
        old(s)@.in_flight,
        done.transcript is Some,
        discord_voice::utf8_len(done.transcript->0@) <= old(s)@.max_text_bytes,
        call_ensures(VoiceSession::complete_job, (s, done, token), r),
        old(store).wf(),
        old(store)@ == old(s)@.transcript,
        old(store).max_entries() == old(s)@.max_entries,
        old(store).max_text_bytes() == old(s)@.max_text_bytes,
        old(store).totals() == old(s)@.totals,
        call_ensures(TranscriptStore::push, (store, final(s)@.transcript.last()), outcome),
    ensures
        outcome.accepted,
        final(s)@.transcript == final(store)@,
        final(s)@.totals == final(store).totals(),
{
}

/// A session tells whether it is deaf while it speaks, and whether a segment of it is being
/// transcribed: it is from when the segment is handed out until its transcription comes back.
pub proof fn lemma_sessions_tell_what_they_do(s: &VoiceSession, deaf: bool, busy: bool)
    requires
        call_ensures(VoiceSession::capture_suppressed, (s,), deaf),
        call_ensures(VoiceSession::has_job_in_flight, (s,), busy),
    ensures
        deaf <==> s@.suppressed,
        busy <==> s@.in_flight,
{
}

} // verus!
