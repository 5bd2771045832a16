//! How a turn is shown: its tool calls, its text, and what stands in for missing text.

use vstd::prelude::*;
use vstd::string::*;
use crate::acp::protocol::TurnResult;
use crate::text;
use crate::text::CharClass;

verus! {

/// How tool calls are shown.
#[derive(Debug, Clone, Copy, PartialEq, Eq, Structural)]
pub enum ToolDisplay {
    /// One line for each call.
    Full,
    /// One line with the numbers of calls.
    Compact,
    /// Not at all.
    Off,
}

/// Up to how many calls are shown one by one while a turn runs.
pub const TOOL_COLLAPSE_THRESHOLD: usize = 3;

/// What is shown for a turn that failed silently.
pub const SILENT_FAILURE_MSG: &'static str = "⚠️ The agent did not produce a response. This usually indicates a backend configuration issue — not an intentional empty reply. Please try again later.";

/// What a character of a title is shown as: titles are on one line and hold no backticks.
pub open spec fn title_char(c: char) -> Seq<char> {
    if c == '\r' {
        Seq::empty()
    } else if c == '\n' {
        " ; "@
    } else if c == '`' {
        seq!['\'']
    } else {
        seq![c]
    }
}

/// A title as it is shown.
pub open spec fn shown_title(title: Seq<char>) -> Seq<char>
    decreases title.len(),
{
    if title.len() == 0 {
        Seq::empty()
    } else {
        shown_title(title.drop_last()) + title_char(title.last())
    }
}

/// Prepares a title to be shown.
pub fn sanitize_title(title: &str) -> (r: String)
    ensures
        r@ == shown_title(title@),
{
    let chars = text::to_chars(title);
    let mut out = String::new();
    let mut i: usize = 0;
    assert(chars@.take(0) =~= Seq::empty());
    assert(out@ =~= Seq::empty());
    while i < chars.len()
        invariant
            i <= chars@.len(),
            out@ == shown_title(chars@.take(i as int)),
        decreases chars@.len() - i,
    {
        let ghost before = out@;
        let c = chars[i];
        assert(chars@.take(i + 1).drop_last() =~= chars@.take(i as int));
        if c == '\r' {
            assert(out@ =~= before + title_char(c));
        } else if c == '\n' {
            out.append(" ; ");
        } else if c == '`' {
            out.push('\'');
            assert(out@ =~= before + title_char(c));
        } else {
            out.push(c);
            assert(out@ =~= before + title_char(c));
        }
        i = i + 1;
    }
    assert(chars@.take(chars@.len() as int) =~= title@);
    out
}

#[derive(Debug, Clone, Copy, PartialEq, Eq, Structural)]
pub enum ToolState {
    Running,
    Completed,
    Failed,
}

/// A tool call as it is shown.
#[derive(Debug, Clone, PartialEq, Eq)]
pub struct ToolEntry {
    pub id: String,
    pub title: String,
    pub state: ToolState,
}

/// A shown tool call as a mathematical value.
#[verifier::ext_equal]
pub struct EntryModel {
    pub id: Seq<char>,
    pub title: Seq<char>,
    pub state: ToolState,
}

pub open spec fn entry_models(tools: Seq<ToolEntry>) -> Seq<EntryModel> {
    tools.map_values(|t: ToolEntry| t.model())
}

impl EntryModel {
    /// The line that shows a call.
    pub open spec fn line(self) -> Seq<char> {
        match self.state {
            ToolState::Running => "🔧 `"@ + self.title + "`..."@,
            ToolState::Completed => "✅ `"@ + self.title + "`"@,
            ToolState::Failed => "❌ `"@ + self.title + "`"@,
        }
    }
}

impl ToolEntry {
    pub open spec fn model(self) -> EntryModel {
        EntryModel { id: self.id@, title: self.title@, state: self.state }
    }

    pub fn render(&self) -> (r: String)
        ensures
            r@ == self.model().line(),
    {
        let icon = match self.state {
            ToolState::Running => "🔧 `",
            ToolState::Completed => "✅ `",
            ToolState::Failed => "❌ `",
        };
        let suffix = match self.state {
            ToolState::Running => "`...",
            _ => "`",
        };
        String::from_str(icon).concat(self.title.as_str()).concat(suffix)
    }
}

/// The calls in a state, in order.
pub open spec fn in_state(tools: Seq<EntryModel>, state: ToolState) -> Seq<EntryModel>
    decreases tools.len(),
{
    if tools.len() == 0 {
        Seq::empty()
    } else if tools.last().state == state {
        in_state(tools.drop_last(), state).push(tools.last())
    } else {
        in_state(tools.drop_last(), state)
    }
}

/// The calls that are over, in order.
pub open spec fn finished(tools: Seq<EntryModel>) -> Seq<EntryModel>
    decreases tools.len(),
{
    if tools.len() == 0 {
        Seq::empty()
    } else if tools.last().state != ToolState::Running {
        finished(tools.drop_last()).push(tools.last())
    } else {
        finished(tools.drop_last())
    }
}

/// One line for each call.
pub open spec fn lines(tools: Seq<EntryModel>) -> Seq<char>
    decreases tools.len(),
{
    if tools.len() == 0 {
        Seq::empty()
    } else {
        lines(tools.drop_last()) + tools.last().line() + "\n"@
    }
}

/// A number of calls behind an icon, if there are any.
pub open spec fn tally(icon: Seq<char>, n: nat) -> Seq<Seq<char>> {
    if n > 0 {
        seq![icon + text::decimal(n)]
    } else {
        Seq::empty()
    }
}

/// How many calls ended in which way.
pub open spec fn finished_tally(tools: Seq<EntryModel>) -> Seq<Seq<char>> {
    tally("✅ "@, in_state(tools, ToolState::Completed).len()) + tally(
        "❌ "@,
        in_state(tools, ToolState::Failed).len(),
    )
}

/// How many calls are in which state.
pub open spec fn full_tally(tools: Seq<EntryModel>) -> Seq<Seq<char>> {
    finished_tally(tools) + tally("🔧 "@, in_state(tools, ToolState::Running).len())
}

/// What is shown of finished calls while a turn runs.
pub open spec fn finished_part(tools: Seq<EntryModel>) -> Seq<char> {
    if finished(tools).len() <= 3 {
        lines(finished(tools))
    } else {
        text::joined(finished_tally(tools), " · "@) + " tool(s) completed\n"@
    }
}

/// What is shown of running calls: the last few.
pub open spec fn running_part(tools: Seq<EntryModel>) -> Seq<char> {
    let running = in_state(tools, ToolState::Running);
    if running.len() <= 3 {
        lines(running)
    } else {
        "🔧 "@ + text::decimal((running.len() - 3) as nat) + " more running\n"@ + lines(
            running.skip(running.len() - 3),
        )
    }
}

/// What is shown of the tool calls of a turn.
pub open spec fn tool_part(tools: Seq<EntryModel>, streaming: bool, display: ToolDisplay) -> Seq<
    char,
> {
    if tools.len() == 0 {
        Seq::empty()
    } else {
        match display {
            ToolDisplay::Off => Seq::empty(),
            ToolDisplay::Compact => if full_tally(tools).len() > 0 {
                text::joined(full_tally(tools), " · "@) + " tool(s)\n"@
            } else {
                Seq::empty()
            },
            ToolDisplay::Full => if streaming {
                finished_part(tools) + running_part(tools)
            } else {
                lines(tools)
            },
        }
    }
}

/// A turn as it is shown: its tool calls, a blank line, and its text without white space at the
/// end.
pub open spec fn displayed(
    tools: Seq<EntryModel>,
    body: Seq<char>,
    streaming: bool,
    display: ToolDisplay,
) -> Seq<char> {
    let head = tool_part(tools, streaming, display);
    let tail = text::trimmed_end(body, CharClass::White);
    if head.len() > 0 {
        head + "\n"@ + tail
    } else {
        tail
    }
}

fn push_lines(out: &mut String, tools: &Vec<&ToolEntry>, from: usize)
    requires
        from <= tools@.len(),
    ensures
        final(out)@ == old(out)@ + lines(entries(tools@).skip(from as int)),
{
    let ghost start = out@;
    let ghost all = entries(tools@).skip(from as int);
    let mut i: usize = from;
    assert(all.take(0) =~= Seq::empty());
    assert(start + lines(all.take(0)) =~= start);
    while i < tools.len()
        invariant
            from <= i <= tools@.len(),
            all == entries(tools@).skip(from as int),
            out@ == start + lines(all.take(i - from)),
        decreases tools@.len() - i,
    {
        let ghost next = all.take(i + 1 - from);
        assert(next.drop_last() =~= all.take(i - from));
        assert(next.last() == tools@[i as int].model());
        let line = tools[i].render();
        out.append(line.as_str());
        out.append("\n");
        assert(out@ =~= start + lines(next));
        i = i + 1;
    }
    assert(all.take(all.len() as int) =~= all);
}

/// The entries behind references.
pub open spec fn entries(tools: Seq<&ToolEntry>) -> Seq<EntryModel> {
    tools.map_values(|t: &ToolEntry| t.model())
}

fn select_state(tools: &Vec<ToolEntry>, state: ToolState) -> (r: Vec<&ToolEntry>)
    ensures
        entries(r@) == in_state(entry_models(tools@), state),
{
    let mut found: Vec<&ToolEntry> = Vec::new();
    let mut i: usize = 0;
    let ghost all = entry_models(tools@);
    assert(all.take(0) =~= Seq::empty());
    assert(entries(found@) =~= Seq::empty());
    while i < tools.len()
        invariant
            i <= tools@.len(),
            all == entry_models(tools@),
            entries(found@) == in_state(all.take(i as int), state),
        decreases tools@.len() - i,
    {
        assert(all.take(i + 1).drop_last() =~= all.take(i as int));
        assert(all.take(i + 1).last() == tools@[i as int].model());
        if tools[i].state == state {
            let ghost before = found@;
            found.push(&tools[i]);
            assert(entries(found@) =~= entries(before).push(tools@[i as int].model()));
        }
        i = i + 1;
    }
    assert(all.take(all.len() as int) =~= all);
    found
}

fn select_finished(tools: &Vec<ToolEntry>) -> (r: Vec<&ToolEntry>)
    ensures
        entries(r@) == finished(entry_models(tools@)),
{
    let mut found: Vec<&ToolEntry> = Vec::new();
    let mut i: usize = 0;
    let ghost all = entry_models(tools@);
    assert(all.take(0) =~= Seq::empty());
    assert(entries(found@) =~= Seq::empty());
    while i < tools.len()
        invariant
            i <= tools@.len(),
            all == entry_models(tools@),
            entries(found@) == finished(all.take(i as int)),
        decreases tools@.len() - i,
    {
        assert(all.take(i + 1).drop_last() =~= all.take(i as int));
        assert(all.take(i + 1).last() == tools@[i as int].model());
        if tools[i].state != ToolState::Running {
            let ghost before = found@;
            found.push(&tools[i]);
            assert(entries(found@) =~= entries(before).push(tools@[i as int].model()));
        }
        i = i + 1;
    }
    assert(all.take(all.len() as int) =~= all);
    found
}

fn all_entries(tools: &Vec<ToolEntry>) -> (r: Vec<&ToolEntry>)
    ensures
        entries(r@) == entry_models(tools@),
{
    let mut found: Vec<&ToolEntry> = Vec::new();
    let mut i: usize = 0;
    while i < tools.len()
        invariant
            i <= tools@.len(),
            found@.len() == i,
            forall|j: int| 0 <= j < i ==> *(#[trigger] found@[j]) == tools@[j],
        decreases tools@.len() - i,
    {
        found.push(&tools[i]);
        i = i + 1;
    }
    assert(entries(found@) =~= entry_models(tools@));
    found
}

fn push_tally(parts: &mut Vec<String>, icon: &str, n: usize)
    ensures
        text::strings(final(parts)@) == text::strings(old(parts)@) + tally(icon@, n as nat),
{
    let ghost before = parts@;
    if n > 0 {
        let mut part = String::from_str(icon);
        text::push_decimal(&mut part, n as u64);
        parts.push(part);
    }
    assert(text::strings(parts@) =~= text::strings(before) + tally(icon@, n as nat));
}

/// Shows a turn.
pub fn compose_display(
    tool_lines: &Vec<ToolEntry>,
    body: &str,
    streaming: bool,
    tool_display: ToolDisplay,
) -> (r: String)
    ensures
        r@ == displayed(entry_models(tool_lines@), body@, streaming, tool_display),
{
    let mut output = compose_tools(tool_lines, streaming, tool_display);
    if !output.as_str().is_empty() {
        output.append("\n");
    }
    let chars = text::to_chars(body);
    let ghost head = output@;
    text::push_chars(&mut output, text::trim_end(chars.as_slice(), CharClass::White));
    assert(tool_part(entry_models(tool_lines@), streaming, tool_display).len() == 0 ==> output@
        =~= text::trimmed_end(body@, CharClass::White));
    output
}

fn compose_tools(tool_lines: &Vec<ToolEntry>, streaming: bool, tool_display: ToolDisplay) -> (r:
    String)
    ensures
        r@ == tool_part(entry_models(tool_lines@), streaming, tool_display),
{
    let mut output = String::new();
    assert(output@ =~= Seq::empty());
    if tool_lines.len() == 0 || tool_display == ToolDisplay::Off {
        return output;
    }
    let done = select_state(tool_lines, ToolState::Completed);
    let failed = select_state(tool_lines, ToolState::Failed);
    let running = select_state(tool_lines, ToolState::Running);
    let mut parts: Vec<String> = Vec::new();
    assert(text::strings(parts@) =~= Seq::empty());
    push_tally(&mut parts, "✅ ", done.len());
    push_tally(&mut parts, "❌ ", failed.len());
    assert(text::strings(parts@) =~= finished_tally(entry_models(tool_lines@)));
    match tool_display {
        ToolDisplay::Compact => {
            push_tally(&mut parts, "🔧 ", running.len());
            assert(text::strings(parts@) =~= full_tally(entry_models(tool_lines@)));
            if parts.len() > 0 {
                let joined = text::join(parts.as_slice(), " · ");
                return joined.concat(" tool(s)\n");
            }
        },
        ToolDisplay::Full => {
            if streaming {
                let over = select_finished(tool_lines);
                if over.len() <= TOOL_COLLAPSE_THRESHOLD {
                    push_lines(&mut output, &over, 0);
                    assert(entries(over@).skip(0) =~= entries(over@));
                } else {
                    output = text::join(parts.as_slice(), " · ").concat(" tool(s) completed\n");
                }
                assert(output@ =~= finished_part(entry_models(tool_lines@)));
                if running.len() <= TOOL_COLLAPSE_THRESHOLD {
                    push_lines(&mut output, &running, 0);
                    assert(entries(running@).skip(0) =~= entries(running@));
                } else {
                    let hidden = running.len() - TOOL_COLLAPSE_THRESHOLD;
                    output.append("🔧 ");
                    text::push_decimal(&mut output, hidden as u64);
                    output.append(" more running\n");
                    push_lines(&mut output, &running, hidden);
                }
                assert(output@ =~= finished_part(entry_models(tool_lines@)) + running_part(entry_models(tool_lines@)));
            } else {
                let all = all_entries(tool_lines);
                push_lines(&mut output, &all, 0);
                assert(entries(all@).skip(0) =~= entry_models(tool_lines@));
                assert(output@ =~= lines(entry_models(tool_lines@)));
            }
        },
        ToolDisplay::Off => {},
    }
    output
}

/// What is shown of a turn without output.
pub open spec fn empty_turn_text(error: Option<Seq<char>>, result: TurnResult) -> Seq<char> {
    match error {
        Some(e) => "⚠️ "@ + e,
        None => if result.silent_failure() {
            SILENT_FAILURE_MSG@
        } else {
            "_(no response)_"@
        },
    }
}

/// Says why a turn has no output.
pub fn classify_empty_turn(response_error: Option<&str>, turn_result: &TurnResult) -> (r: String)
    ensures
        r@ == empty_turn_text(text::opt_str(response_error), *turn_result),
{
    match response_error {
        Some(error) => String::from_str("⚠️ ").concat(error),
        None => if turn_result.is_silent_failure() {
            String::from_str(SILENT_FAILURE_MSG)
        } else {
            String::from_str("_(no response)_")
        },
    }
}

} // verus!
