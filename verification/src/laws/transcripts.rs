//! Transcripts: the order and the text in which they are shown, and what a bounded window keeps.

use vstd::prelude::*;
use vstd::string::*;
use crate::discord_voice;
use crate::discord_voice::{TranscriptEntry, TranscriptModel};
use crate::discord_voice_runtime::rendering;
use crate::text;

verus! {

/// A transcript is shown in the order in which it was said: start frames never decrease, entries
/// that start together are ordered by where they end, and then by their speakers. Nothing is lost
/// or added.
pub proof fn lemma_transcript_is_in_time(entries: Seq<TranscriptEntry>)
    ensures
        ({
            let shown = rendering::in_order(entries);
            &&& shown.len() == entries.len()
            &&& shown.to_multiset() == entries.to_multiset()
            &&& forall|i: int, j: int|
                0 <= i < j < shown.len() ==> (#[trigger] shown[i]).start_frame <= (
                #[trigger] shown[j]).start_frame
            &&& forall|i: int, j: int|
                0 <= i < j < shown.len() && (#[trigger] shown[i]).start_frame == (
                #[trigger] shown[j]).start_frame ==> shown[i].end_frame <= shown[j].end_frame
            &&& forall|i: int, j: int|
                0 <= i < j < shown.len() && (#[trigger] shown[i]).start_frame == (
                #[trigger] shown[j]).start_frame && shown[i].end_frame == shown[j].end_frame
                    ==> shown[i].speaker_id <= shown[j].speaker_id
        }),
{
    rendering::lemma_entries_are_ordered(entries);
    let shown = rendering::in_order(entries);
    assert forall|i: int, j: int| 0 <= i < j < shown.len() implies rendering::comes_first(
        #[trigger] shown[i],
        #[trigger] shown[j],
    ) by {}
}

/// An entry that was said after all others is shown behind them, and so the text of a transcript
/// only grows while its entries come in time.
pub proof fn lemma_later_entries_are_shown_below(
    entries: Seq<TranscriptEntry>,
    entry: TranscriptEntry,
    evicted: u64,
)
    requires
        forall|i: int|
            0 <= i < entries.len() ==> (#[trigger] entries[i]).start_frame < entry.start_frame,
    ensures
        rendering::rendered(entries.push(entry), evicted) == rendering::rendered(entries, evicted)
            + "["@ + rendering::timestamp(
            discord_voice::frames_as_millis(entry.start_frame as int),
        ) + "] "@ + entry.speaker_name@ + ": "@ + entry.text@ + "\n"@,
{
    let before = rendering::in_order(entries);
    assert(entries.push(entry).drop_last() =~= entries);
    rendering::lemma_entries_are_ordered(entries);
    if before.len() > 0 {
        let last = before[before.len() - 1];
        assert(before.contains(last));
        before.to_multiset_ensures();
        entries.to_multiset_ensures();
        assert(before.to_multiset().contains(last));
        assert(entries.contains(last));
    }
    assert(rendering::place_of(before, entry) == before.len());
    let after = rendering::in_order(entries.push(entry));
    assert(after =~= before.push(entry));
    assert(after.drop_last() =~= before);
    assert(rendering::rendered(entries.push(entry), evicted) =~= rendering::rendered(
        entries,
        evicted,
    ) + "["@ + rendering::timestamp(discord_voice::frames_as_millis(entry.start_frame as int))
        + "] "@ + entry.speaker_name@ + ": "@ + entry.text@ + "\n"@);
}

/// A transcript without entries is empty. Where entries were evicted, a notice with their number
/// stands before what is shown otherwise.
pub proof fn lemma_evictions_are_told(entries: Seq<TranscriptEntry>, evicted: u64)
    ensures
        rendering::rendered(Seq::empty(), 0) == Seq::<char>::empty(),
        evicted > 0 ==> rendering::rendered(entries, evicted)
            == "[OpenAB retained a bounded transcript window; "@ + text::decimal(evicted as nat)
            + " earlier entries were evicted.]\n"@ + rendering::rendered(entries, 0),
{
    let empty = Seq::<TranscriptEntry>::empty();
    assert(rendering::rendered(empty, 0) =~= Seq::<char>::empty());
    assert(rendering::rendered(entries, 0) =~= rendering::entry_lines(
        rendering::in_order(entries),
    ));
}

/// Entries with the same times and the same speaker keep the order in which they came.
pub proof fn lemma_ties_keep_their_order(entries: Seq<TranscriptEntry>, like: TranscriptEntry)
    ensures
        rendering::in_order(entries).filter(
            |e: TranscriptEntry|
                e.start_frame == like.start_frame && e.end_frame == like.end_frame && e.speaker_id
                    == like.speaker_id,
        ) == entries.filter(
            |e: TranscriptEntry|
                e.start_frame == like.start_frame && e.end_frame == like.end_frame && e.speaker_id
                    == like.speaker_id,
        ),
{
    let fields = |e: TranscriptEntry|
        e.start_frame == like.start_frame && e.end_frame == like.end_frame && e.speaker_id
            == like.speaker_id;
    let tied = |e: TranscriptEntry|
        rendering::comes_first(e, like) && rendering::comes_first(like, e);
    rendering::lemma_order_is_stable(entries, like);
    assert forall|e: TranscriptEntry| #[trigger] fields(e) == tied(e) by {}
    assert(fields =~= tied);
}

/// A number is padded with zeros in front, and only where it is short.
pub proof fn lemma_padding(n: nat, width: nat)
    ensures
        ({
            let written = rendering::padded(n, width);
            let digits = text::decimal(n);
            let zeros = written.len() - digits.len();
            &&& digits.len() <= written.len()
            &&& written.len() == width || written.len() == digits.len() && digits.len() > width
            &&& written.skip(zeros) == digits
            &&& forall|i: int| 0 <= i < zeros ==> (#[trigger] written[i]) as int == 48
        }),
{
    let written = rendering::padded(n, width);
    let digits = text::decimal(n);
    assert(written.skip(written.len() - digits.len()) =~= digits);
}

/// A time is shown as hours, minutes, seconds and milliseconds.
pub proof fn lemma_times_are_shown(hours: nat, minutes: nat, seconds: nat, milliseconds: nat)
    requires
        minutes < 60,
        seconds < 60,
        milliseconds < 1000,
    ensures
        rendering::timestamp(
            hours * 3_600_000 + minutes * 60_000 + seconds * 1_000 + milliseconds as int,
        ) == rendering::padded(hours, 2) + ":"@ + rendering::padded(minutes, 2) + ":"@
            + rendering::padded(seconds, 2) + "."@ + rendering::padded(milliseconds, 3),
{
    let total = hours * 3_600_000 + minutes * 60_000 + seconds * 1_000 + milliseconds as int;
    let whole = hours * 3_600 + minutes * 60 + seconds;
    assert(total / 1_000 == whole);
    assert(total % 1_000 == milliseconds);
    assert(whole / 3_600 == hours);
    assert(whole % 3_600 == minutes * 60 + seconds);
    assert((minutes * 60 + seconds) / 60 == minutes);
    assert(whole % 60 == seconds);
}

/// Frames are told in whole milliseconds, 48 frames each.
pub proof fn lemma_frames_in_milliseconds(frames: int)
    requires
        0 <= frames,
        frames * 1000 <= u64::MAX,
    ensures
        48 * discord_voice::frames_as_millis(frames) <= frames,
        frames < 48 * (discord_voice::frames_as_millis(frames) + 1),
{
}

/// A window keeps the newest entries: one that is not larger than the whole window comes in at its
/// end and pushes out the oldest, as few as possible; a larger one changes nothing that is kept.
pub proof fn lemma_window_keeps_the_newest(window: TranscriptModel, entry: TranscriptEntry) -> (k:
    int)
    requires
        window.maximum_entries > 0,
        window.entries.len() <= window.maximum_entries,
        window.totals.accepted_entries < u64::MAX,
        window.totals.rejected_entries < u64::MAX,
        window.totals.evicted_entries + window.entries.len() <= u64::MAX,
    ensures
        0 <= k <= window.entries.len(),
        ({
            let size = vstd::utf8::encode_utf8(entry.text@).len();
            let after = window.pushed(entry);
            &&& after.maximum_entries == window.maximum_entries
            &&& after.maximum_text_bytes == window.maximum_text_bytes
            &&& size <= window.maximum_text_bytes ==> {
                &&& after.entries == window.entries.skip(k).push(entry)
                &&& after.entries.len() <= window.maximum_entries
                &&& discord_voice::text_total(after.entries) <= window.maximum_text_bytes
                &&& k > 0 ==> window.entries.len() - (k - 1) >= window.maximum_entries
                    || discord_voice::text_total(window.entries.skip(k - 1)) + size
                    > window.maximum_text_bytes
                &&& after.totals.accepted_entries == window.totals.accepted_entries + 1
                &&& after.totals.rejected_entries == window.totals.rejected_entries
                &&& after.totals.evicted_entries == window.totals.evicted_entries + k
            }
            &&& size > window.maximum_text_bytes ==> {
                &&& k == 0
                &&& after.entries == window.entries
                &&& after.totals.accepted_entries == window.totals.accepted_entries
                &&& after.totals.rejected_entries == window.totals.rejected_entries + 1
                &&& after.totals.evicted_entries == window.totals.evicted_entries
            }
        }),
{
    let size = vstd::utf8::encode_utf8(entry.text@).len();
    if window.accepts(entry) {
        lemma_evicted(window.entries, size, window.maximum_entries, window.maximum_text_bytes);
        let k = window.evictions(entry) as int;
        let kept = window.entries.skip(k);
        assert(kept.push(entry).drop_last() =~= kept);
        k
    } else {
        0
    }
}

proof fn lemma_evicted(
    entries: Seq<TranscriptEntry>,
    incoming: nat,
    maximum_entries: nat,
    maximum_text_bytes: nat,
)
    requires
        maximum_entries > 0,
        incoming <= maximum_text_bytes,
    ensures
        ({
            let k = discord_voice::eviction_count(
                entries,
                incoming,
                maximum_entries,
                maximum_text_bytes,
            ) as int;
            &&& 0 <= k <= entries.len()
            &&& entries.skip(k).len() < maximum_entries
            &&& discord_voice::text_total(entries.skip(k)) + incoming <= maximum_text_bytes
            &&& k > 0 ==> entries.skip(k - 1).len() >= maximum_entries || discord_voice::text_total(
                entries.skip(k - 1),
            ) + incoming > maximum_text_bytes
        }),
    decreases entries.len(),
{
    assert(entries.skip(0) =~= entries);
    if entries.len() > 0 && !discord_voice::has_room(
        entries,
        incoming,
        maximum_entries,
        maximum_text_bytes,
    ) {
        let rest = entries.skip(1);
        lemma_evicted(rest, incoming, maximum_entries, maximum_text_bytes);
        let j = discord_voice::eviction_count(
            rest,
            incoming,
            maximum_entries,
            maximum_text_bytes,
        ) as int;
        assert(rest.skip(j) =~= entries.skip(j + 1));
        if j > 0 {
            assert(rest.skip(j - 1) =~= entries.skip(j));
        }
    }
}

/// The bytes of a transcript are those of its texts.
pub proof fn lemma_text_bytes_add_up(entries: Seq<TranscriptEntry>, entry: TranscriptEntry)
    ensures
        discord_voice::text_total(Seq::empty()) == 0,
        discord_voice::text_total(entries.push(entry)) == discord_voice::text_total(entries)
            + vstd::utf8::encode_utf8(entry.text@).len(),
{
    assert(entries.push(entry).drop_last() =~= entries);
}

} // verus!
