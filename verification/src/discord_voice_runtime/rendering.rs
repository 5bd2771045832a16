//! The transcript of a session as text.

use vstd::prelude::*;
use vstd::string::*;
use crate::discord_voice;
use crate::discord_voice::{TranscriptEntry, TranscriptStore};
use crate::text;

verus! {

/// A number with leading zeros, so that it has at least `width` digits.
pub open spec fn padded(n: nat, width: nat) -> Seq<char> {
    let digits = text::decimal(n);
    if digits.len() >= width {
        digits
    } else {
        Seq::new((width - digits.len()) as nat, |i: int| '0') + digits
    }
}

/// A time as hours, minutes, seconds and milliseconds.
pub open spec fn timestamp(milliseconds: int) -> Seq<char> {
    let seconds = milliseconds / 1_000;
    padded((seconds / 3_600) as nat, 2) + ":"@ + padded(((seconds % 3_600) / 60) as nat, 2) + ":"@
        + padded((seconds % 60) as nat, 2) + "."@ + padded((milliseconds % 1_000) as nat, 3)
}

fn push_padded(out: &mut String, n: u64, width: usize)
    ensures
        final(out)@ == old(out)@ + padded(n as nat, width as nat),
{
    let ghost start = out@;
    let digits = text::decimal_string(n);
    let length = digits.as_str().unicode_len();
    let mut i: usize = length;
    assert(out@ =~= start + Seq::new(0, |j: int| '0'));
    while i < width
        invariant
            length <= i,
            i <= width || length > width,
            length <= width ==> i <= width,
            i > length ==> i <= width,
            out@ == start + Seq::new((i - length) as nat, |j: int| '0'),
        decreases width - i,
    {
        out.push('0');
        i = i + 1;
        assert(out@ =~= start + Seq::new((i - length) as nat, |j: int| '0'));
    }
    out.append(digits.as_str());
    assert(out@ =~= start + padded(n as nat, width as nat));
}

/// Writes a time as hours, minutes, seconds and milliseconds.
pub fn format_timestamp(milliseconds: u64) -> (r: String)
    ensures
        r@ == timestamp(milliseconds as int),
{
    let total_seconds = milliseconds / 1_000;
    let mut out = String::new();
    push_padded(&mut out, total_seconds / 3_600, 2);
    out.append(":");
    push_padded(&mut out, (total_seconds % 3_600) / 60, 2);
    out.append(":");
    push_padded(&mut out, total_seconds % 60, 2);
    out.append(".");
    push_padded(&mut out, milliseconds % 1_000, 3);
    assert(out@ =~= timestamp(milliseconds as int));
    out
}

/// Whether an entry may stand before another: it started earlier, or ended earlier, or its speaker
/// comes first.
pub open spec fn comes_first(a: TranscriptEntry, b: TranscriptEntry) -> bool {
    a.start_frame < b.start_frame || a.start_frame == b.start_frame && (a.end_frame < b.end_frame
        || a.end_frame == b.end_frame && a.speaker_id <= b.speaker_id)
}

fn may_precede(a: &TranscriptEntry, b: &TranscriptEntry) -> (r: bool)
    ensures
        r == comes_first(*a, *b),
{
    a.start_frame < b.start_frame || a.start_frame == b.start_frame && (a.end_frame < b.end_frame
        || a.end_frame == b.end_frame && a.speaker_id <= b.speaker_id)
}

/// Where an entry belongs among ordered entries: behind all that may stand before it.
pub open spec fn place_of(ordered: Seq<TranscriptEntry>, entry: TranscriptEntry) -> int
    decreases ordered.len(),
{
    if ordered.len() == 0 || comes_first(ordered.last(), entry) {
        ordered.len() as int
    } else {
        place_of(ordered.drop_last(), entry)
    }
}

/// Entries in order. Entries that may stand in either order keep theirs.
pub open spec fn in_order(entries: Seq<TranscriptEntry>) -> Seq<TranscriptEntry>
    decreases entries.len(),
{
    if entries.len() == 0 {
        Seq::empty()
    } else {
        let before = in_order(entries.drop_last());
        before.insert(place_of(before, entries.last()), entries.last())
    }
}

/// Each entry may stand before all that follow it.
pub open spec fn ordered(entries: Seq<TranscriptEntry>) -> bool {
    forall|i: int, j: int|
        0 <= i < j < entries.len() ==> comes_first(#[trigger] entries[i], #[trigger] entries[j])
}

proof fn lemma_place_of(list: Seq<TranscriptEntry>, entry: TranscriptEntry)
    requires
        ordered(list),
    ensures
        0 <= place_of(list, entry) <= list.len(),
        forall|i: int| 0 <= i < place_of(list, entry) ==> comes_first(#[trigger] list[i], entry),
        forall|i: int|
            place_of(list, entry) <= i < list.len() ==> !comes_first(#[trigger] list[i], entry),
    decreases list.len(),
{
    if list.len() > 0 && !comes_first(list.last(), entry) {
        lemma_place_of(list.drop_last(), entry);
        let k = place_of(list, entry);
        assert forall|i: int| 0 <= i < k implies comes_first(#[trigger] list[i], entry) by {
            assert(list.drop_last()[i] == list[i]);
        }
        assert forall|i: int| k <= i < list.len() implies !comes_first(
            #[trigger] list[i],
            entry,
        ) by {
            if i < list.len() - 1 {
                assert(list.drop_last()[i] == list[i]);
            }
        }
    }
}

/// The entries of a transcript stand in the order in which they were said, and none is lost or
/// made up.
pub proof fn lemma_entries_are_ordered(entries: Seq<TranscriptEntry>)
    ensures
        ordered(in_order(entries)),
        in_order(entries).to_multiset() == entries.to_multiset(),
        in_order(entries).len() == entries.len(),
    decreases entries.len(),
{
    broadcast use vstd::seq_lib::group_to_multiset_ensures;

    if entries.len() > 0 {
        let before = in_order(entries.drop_last());
        let last = entries.last();
        lemma_entries_are_ordered(entries.drop_last());
        lemma_place_of(before, last);
        let k = place_of(before, last);
        let after = before.insert(k, last);
        assert forall|i: int, j: int| 0 <= i < j < after.len() implies comes_first(
            #[trigger] after[i],
            #[trigger] after[j],
        ) by {
            let a = if i < k {
                i
            } else {
                i - 1
            };
            let b = if j < k {
                j
            } else {
                j - 1
            };
            if i != k {
                assert(after[i] == before[a]);
            }
            if j != k {
                assert(after[j] == before[b]);
            }
        }
        assert(entries =~= entries.drop_last().push(last));
    }
}

/// Entries with the same times and speaker keep the order in which they were transcribed.
pub proof fn lemma_order_is_stable(entries: Seq<TranscriptEntry>, like: TranscriptEntry)
    ensures
        in_order(entries).filter(|e: TranscriptEntry| comes_first(e, like) && comes_first(like, e))
            == entries.filter(|e: TranscriptEntry| comes_first(e, like) && comes_first(like, e)),
    decreases entries.len(),
{
    let same = |e: TranscriptEntry| comes_first(e, like) && comes_first(like, e);
    reveal(Seq::filter);
    if entries.len() > 0 {
        let before = in_order(entries.drop_last());
        let last = entries.last();
        lemma_order_is_stable(entries.drop_last(), like);
        lemma_entries_are_ordered(entries.drop_last());
        lemma_place_of(before, last);
        let k = place_of(before, last);
        let after = before.insert(k, last);
        let front = before.take(k);
        let back = before.skip(k);
        assert(before =~= front + back);
        assert(after =~= front.push(last) + back);
        Seq::filter_distributes_over_add(front, back, same);
        Seq::filter_distributes_over_add(front.push(last), back, same);
        assert(front.push(last).drop_last() =~= front);
        if same(last) {
            assert forall|i: int| 0 <= i < back.len() implies !same(#[trigger] back[i]) by {
                assert(back[i] == before[k + i]);
            }
            lemma_nothing_selected(back, same);
            assert(before.filter(same) =~= front.filter(same));
            assert(after.filter(same) =~= front.filter(same).push(last));
        } else {
            assert(after.filter(same) =~= before.filter(same));
        }
    }
}

proof fn lemma_nothing_selected(
    entries: Seq<TranscriptEntry>,
    chosen: spec_fn(TranscriptEntry) -> bool,
)
    requires
        forall|i: int| 0 <= i < entries.len() ==> !chosen(#[trigger] entries[i]),
    ensures
        entries.filter(chosen) == Seq::<TranscriptEntry>::empty(),
    decreases entries.len(),
{
    reveal(Seq::filter);
    if entries.len() > 0 {
        assert(!chosen(entries[entries.len() - 1]));
        assert forall|i: int| 0 <= i < entries.drop_last().len() implies !chosen(
            #[trigger] entries.drop_last()[i],
        ) by {
            assert(entries.drop_last()[i] == entries[i]);
        }
        lemma_nothing_selected(entries.drop_last(), chosen);
    }
}

/// The line that shows an entry.
pub open spec fn entry_line(entry: TranscriptEntry) -> Seq<char> {
    "["@ + timestamp(discord_voice::frames_as_millis(entry.start_frame as int)) + "] "@
        + entry.speaker_name@ + ": "@ + entry.text@ + "\n"@
}

/// One line for each entry.
pub open spec fn entry_lines(entries: Seq<TranscriptEntry>) -> Seq<char>
    decreases entries.len(),
{
    if entries.len() == 0 {
        Seq::empty()
    } else {
        entry_lines(entries.drop_last()) + entry_line(entries.last())
    }
}

/// A transcript as text. It starts with a notice where earlier entries are missing.
pub open spec fn rendered(entries: Seq<TranscriptEntry>, evicted: u64) -> Seq<char> {
    let notice = if evicted > 0 {
        "[OpenAB retained a bounded transcript window; "@ + text::decimal(evicted as nat)
            + " earlier entries were evicted.]\n"@
    } else {
        Seq::empty()
    };
    notice + entry_lines(in_order(entries))
}

/// The entries behind references.
pub open spec fn referred(entries: Seq<&TranscriptEntry>) -> Seq<TranscriptEntry> {
    entries.map_values(|e: &TranscriptEntry| *e)
}

fn insert_in_order<'a>(list: &mut Vec<&'a TranscriptEntry>, entry: &'a TranscriptEntry)
    requires
        ordered(referred(old(list)@)),
    ensures
        referred(final(list)@) == referred(old(list)@).insert(
            place_of(referred(old(list)@), *entry),
            *entry,
        ),
{
    let ghost before = referred(list@);
    let mut k: usize = list.len();
    assert(before.take(before.len() as int) =~= before);
    while k > 0 && !may_precede(list[k - 1], entry)
        invariant
            k <= list@.len(),
            before == referred(list@),
            place_of(before, *entry) == place_of(before.take(k as int), *entry),
        decreases k,
    {
        assert(before.take(k as int).last() == *list@[k - 1]);
        assert(before.take(k as int).drop_last() =~= before.take(k - 1));
        k = k - 1;
    }
    assert(k > 0 ==> before.take(k as int).last() == *list@[k - 1]);
    proof {
        lemma_place_of(before, *entry);
    }
    assert(place_of(before, *entry) == k);
    list.insert(k, entry);
    assert(referred(list@) =~= before.insert(k as int, *entry));
}

/// Writes a transcript as text.
pub fn render_transcript(store: &TranscriptStore) -> (r: String)
    ensures
        r@ == rendered(store@, store.totals().evicted_entries),
{
    let ghost all = store@;
    let mut sorted: Vec<&TranscriptEntry> = Vec::new();
    assert(referred(sorted@) =~= Seq::empty());
    assert(all.take(0) =~= Seq::empty());
    let mut next: usize = 0;
    while next < store.len()
        invariant
            all == store@,
            next <= all.len(),
            referred(sorted@) == in_order(all.take(next as int)),
        decreases all.len() - next,
    {
        let entry = store.entry(next);
        proof {
            assert(all.take(next + 1).drop_last() =~= all.take(next as int));
            assert(all.take(next + 1).last() == *entry);
            lemma_entries_are_ordered(all.take(next as int));
        }
        insert_in_order(&mut sorted, entry);
        next = next + 1;
    }
    assert(all.take(all.len() as int) =~= all);
    let evicted = store.stats().evicted_entries;
    let mut output = String::new();
    if evicted > 0 {
        output.append("[OpenAB retained a bounded transcript window; ");
        text::push_decimal(&mut output, evicted);
        output.append(" earlier entries were evicted.]\n");
    }
    let ghost notice = output@;
    let ghost lines = in_order(all);
    let mut i: usize = 0;
    assert(lines.take(0) =~= Seq::empty());
    assert(notice + entry_lines(lines.take(0)) =~= notice);
    while i < sorted.len()
        invariant
            i <= sorted@.len(),
            referred(sorted@) == lines,
            output@ == notice + entry_lines(lines.take(i as int)),
        decreases sorted@.len() - i,
    {
        let entry = sorted[i];
        assert(lines.take(i + 1).drop_last() =~= lines.take(i as int));
        assert(lines.take(i + 1).last() == *entry);
        let time = format_timestamp(entry.start_millis());
        output.append("[");
        output.append(time.as_str());
        output.append("] ");
        output.append(entry.speaker_name.as_str());
        output.append(": ");
        output.append(entry.text.as_str());
        output.append("\n");
        assert(output@ =~= notice + entry_lines(lines.take(i + 1)));
        i = i + 1;
    }
    assert(lines.take(lines.len() as int) =~= lines);
    output
}

} // verus!
