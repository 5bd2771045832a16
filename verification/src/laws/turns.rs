//! Prompt turns: what the agent's events make of a turn, and what is delivered and recorded.

use vstd::prelude::*;
use vstd::string::*;
use crate::acp::protocol::{ConfigOption, TurnResult};
use crate::acp_turn::{ExecutionOutcome, ObservedToolCall, ObservedToolCallStatus, UnknownReason};
use crate::acp_turn_driver::display;
use crate::acp_turn_driver::display::{EntryModel, ToolDisplay, ToolState};
use crate::acp_turn_driver::directives;
use crate::acp_turn_driver::tools;
use crate::acp_turn_driver::tools::CallModel;
use crate::acp_turn_driver::turn;
use crate::acp_turn_driver::turn::{
    AcpEvent, Progress, Span, StreamNeed, TerminalObservation, TurnDeliveryContext, TurnModel,
    TurnResponse,
};
use crate::acp_turn::TurnTicket;
use crate::laws::characters;
use crate::laws::characters::any_case_of;
use crate::text;

verus! {

/// Whether the call with an id stands at `at` in the record, or is not there and `at` is the end.
pub open spec fn recorded_at(calls: Seq<CallModel>, id: Seq<char>, at: int) -> bool {
    &&& 0 <= at <= calls.len()
    &&& at < calls.len() ==> calls[at].id == id
    &&& forall|j: int| 0 <= j < at ==> (#[trigger] calls[j]).id != id
}

/// Whether the call with an id stands at `at` in the list, or is not there and `at` is the end.
pub open spec fn shown_at(entries: Seq<EntryModel>, id: Seq<char>, at: int) -> bool {
    &&& 0 <= at <= entries.len()
    &&& at < entries.len() ==> entries[at].id == id
    &&& forall|j: int| 0 <= j < at ==> (#[trigger] entries[j]).id != id
}

/// A call is looked up by its id: it is found where it stands, and not where it is not there.
pub proof fn lemma_call_found(calls: Seq<CallModel>, id: Seq<char>, at: int)
    requires
        recorded_at(calls, id, at),
    ensures
        tools::call_index(calls, id) == if at < calls.len() {
            Some(at)
        } else {
            None
        },
    decreases calls.len(),
{
    if calls.len() > 0 {
        let front = calls.drop_last();
        if at < calls.len() - 1 {
            assert(front[at] == calls[at]);
            lemma_call_found(front, id, at);
        } else {
            assert forall|j: int| 0 <= j < front.len() implies (#[trigger] front[j]).id != id by {
                assert(front[j] == calls[j]);
            }
            lemma_call_found(front, id, front.len() as int);
        }
    }
}

proof fn lemma_entry_found(entries: Seq<EntryModel>, id: Seq<char>, at: int)
    requires
        shown_at(entries, id, at),
    ensures
        tools::entry_index(entries, id) == if at < entries.len() {
            Some(at)
        } else {
            None
        },
    decreases entries.len(),
{
    if entries.len() > 0 {
        let front = entries.drop_last();
        if at < entries.len() - 1 {
            assert(front[at] == entries[at]);
            lemma_entry_found(front, id, at);
        } else {
            assert forall|j: int| 0 <= j < front.len() implies (#[trigger] front[j]).id != id by {
                assert(front[j] == entries[j]);
            }
            lemma_entry_found(front, id, front.len() as int);
        }
    }
}

/// A tool call ends as the agent reports it: it is completed, in the record and in what is shown,
/// where the status says "completed", and failed where it says anything else. Other calls stay as
/// they were, and so does all else but where the answer starts.
pub proof fn lemma_tool_calls_end_as_reported(
    turn: TurnModel,
    id: String,
    title: String,
    status: String,
    record: int,
    list: int,
)
    requires
        turn.terminal is None,
        turn.setup_error is None,
        recorded_at(turn.calls, id@, record),
        shown_at(turn.tools, id@, list),
    ensures
        ({
            let after = turn.after(AcpEvent::ToolDone { id, title, status });
            &&& record < after.calls.len()
            &&& after.calls[record].id == id@
            &&& after.calls[record].status == ObservedToolCallStatus::Completed <==> status@
                == "completed"@
            &&& after.calls[record].status == ObservedToolCallStatus::Failed <==> status@
                != "completed"@
            &&& after.calls.len() == if record < turn.calls.len() {
                turn.calls.len()
            } else {
                turn.calls.len() + 1
            }
            &&& forall|j: int|
                0 <= j < turn.calls.len() && j != record ==> (#[trigger] after.calls[j])
                    == turn.calls[j]
            &&& title@.len() == 0 && record < turn.calls.len() ==> after.calls[record].title
                == turn.calls[record].title
            &&& title@.len() > 0 || record == turn.calls.len() ==> after.calls[record].title
                == display::shown_title(title@)
            &&& list < turn.tools.len() || title@.len() > 0 ==> {
                &&& list < after.tools.len()
                &&& after.tools[list].id == id@
                &&& after.tools[list].state == ToolState::Completed <==> status@ == "completed"@
                &&& after.tools[list].state == ToolState::Failed <==> status@ != "completed"@
                &&& title@.len() > 0 ==> after.tools[list].title == display::shown_title(title@)
                &&& title@.len() == 0 ==> after.tools[list].title == turn.tools[list].title
                &&& after.tools.len() == if list < turn.tools.len() {
                    turn.tools.len()
                } else {
                    turn.tools.len() + 1
                }
            }
            &&& list == turn.tools.len() && title@.len() == 0 ==> after.tools == turn.tools
            &&& forall|j: int|
                0 <= j < turn.tools.len() && j != list ==> (#[trigger] after.tools[j])
                    == turn.tools[j]
            &&& after.answer_start == vstd::utf8::encode_utf8(turn.text).len()
            &&& after.agent_answer_start == vstd::utf8::encode_utf8(turn.agent_text).len()
            &&& after == (TurnModel {
                calls: after.calls,
                tools: after.tools,
                answer_start: after.answer_start,
                agent_answer_start: after.agent_answer_start,
                ..turn
            })
        }),
{
    lemma_call_found(turn.calls, id@, record);
    lemma_entry_found(turn.tools, id@, list);
}

/// A tool call that starts is recorded as started, and shown as running where it has a title.
/// Nothing else changes.
pub proof fn lemma_tool_calls_start(
    turn: TurnModel,
    id: String,
    title: String,
    record: int,
    list: int,
)
    requires
        turn.terminal is None,
        turn.setup_error is None,
        recorded_at(turn.calls, id@, record),
        shown_at(turn.tools, id@, list),
    ensures
        ({
            let after = turn.after(AcpEvent::ToolStart { id, title });
            &&& record < after.calls.len()
            &&& after.calls[record].id == id@
            &&& after.calls[record].status == ObservedToolCallStatus::Started
            &&& after.calls.len() == if record < turn.calls.len() {
                turn.calls.len()
            } else {
                turn.calls.len() + 1
            }
            &&& title@.len() == 0 && record < turn.calls.len() ==> after.calls[record].title
                == turn.calls[record].title
            &&& title@.len() > 0 || record == turn.calls.len() ==> after.calls[record].title
                == display::shown_title(title@)
            &&& forall|j: int|
                0 <= j < turn.calls.len() && j != record ==> (#[trigger] after.calls[j])
                    == turn.calls[j]
            &&& title@.len() == 0 ==> after.tools == turn.tools
            &&& title@.len() > 0 ==> {
                &&& list < after.tools.len()
                &&& after.tools[list] == (EntryModel {
                    id: id@,
                    title: display::shown_title(title@),
                    state: ToolState::Running,
                })
                &&& after.tools.len() == if list < turn.tools.len() {
                    turn.tools.len()
                } else {
                    turn.tools.len() + 1
                }
                &&& forall|j: int|
                    0 <= j < turn.tools.len() && j != list ==> (#[trigger] after.tools[j])
                        == turn.tools[j]
            }
            &&& after == (TurnModel { calls: after.calls, tools: after.tools, ..turn })
        }),
{
    lemma_call_found(turn.calls, id@, record);
    lemma_entry_found(turn.tools, id@, list);
}

/// Text is collected as it is written, and nothing else changes. Two texts in a row are one text.
/// Thinking, settings and what is not heeded change nothing.
pub proof fn lemma_text_is_collected(
    turn: TurnModel,
    one: String,
    other: String,
    both: String,
    options: Vec<ConfigOption>,
)
    requires
        turn.terminal is None,
        turn.setup_error is None,
        both@ == one@ + other@,
    ensures
        turn.after(AcpEvent::Text(one)).text == turn.text + one@,
        turn.after(AcpEvent::Text(one)).agent_text == turn.agent_text + one@,
        turn.after(AcpEvent::Text(one)) == (TurnModel {
            text: turn.text + one@,
            agent_text: turn.agent_text + one@,
            ..turn
        }),
        turn.after(AcpEvent::Text(one)).after(AcpEvent::Text(other)) == turn.after(
            AcpEvent::Text(both),
        ),
        turn.after(AcpEvent::Thinking) == turn,
        turn.after(AcpEvent::ConfigUpdate { options }) == turn,
        turn.after(AcpEvent::Unheeded) == turn,
{
    assert(turn.text + one@ + other@ =~= turn.text + both@);
    assert(turn.agent_text + one@ + other@ =~= turn.agent_text + both@);
}

/// A turn starts with nothing but the notice of a new session, where there is one.
pub proof fn lemma_turns_start_empty(ticket: TurnTicket, context: TurnDeliveryContext)
    ensures
        ({
            let turn = TurnModel::started(ticket, context);
            &&& turn.ticket == ticket
            &&& turn.context == context
            &&& context.reset ==> turn.text == directives::SESSION_RESET_NOTICE@
            &&& !context.reset ==> turn.text.len() == 0
            &&& turn.agent_text.len() == 0
            &&& turn.tools.len() == 0
            &&& turn.calls.len() == 0
            &&& turn.answer_start == 0
            &&& turn.agent_answer_start == 0
            &&& turn.terminal is None
            &&& turn.setup_error is None
            &&& turn.response_error is None
            &&& turn.placeholder is None
            &&& turn.pending.len() == 0
            &&& !turn.stream_open
            &&& !turn.stream_failed
            &&& !turn.abandoned
        }),
        context.first_content() is Some <==> context.streaming && !context.native,
        context.first_content() is Some && !context.reset ==> context.first_content() == Some("…"@),
        context.first_content() is Some && context.reset ==> context.first_content() == Some(
            directives::SESSION_RESET_NOTICE@ + "…"@,
        ),
        context.keeps_full_text() <==> context.streaming || context.narration_display,
{
}

/// A turn is cancelled where the reason why it stopped is "cancelled" or "canceled", in any case,
/// and not otherwise.
pub proof fn lemma_cancellation_is_named(result: TurnResult)
    ensures
        turn::cancelled(result) <==> result.stop_reason is Some && (any_case_of(
            result.stop_reason->0@,
            "cancelled"@,
        ) || any_case_of(result.stop_reason->0@, "canceled"@)),
{
    reveal_strlit("cancelled");
    reveal_strlit("canceled");
    if result.stop_reason is Some {
        characters::lemma_lower_case(result.stop_reason->0@, "cancelled"@);
        characters::lemma_lower_case(result.stop_reason->0@, "canceled"@);
    }
}

/// The response to its prompt ends a running turn: an error with an error, a result with success
/// or cancellation, and neither with the lack of a result. The rest of the turn stays as it is.
pub proof fn lemma_responses_end_turns(turn: TurnModel, response: TurnResponse)
    requires
        turn.terminal is None,
        turn.setup_error is None,
    ensures
        ({
            let after = turn.after_response(turn.ticket.request(), response);
            &&& after == (TurnModel {
                terminal: after.terminal,
                response_error: after.response_error,
                ..turn
            })
            &&& response matches TurnResponse::Error { shown, audited } ==> {
                &&& after.response_error == Some(shown@)
                &&& after.terminal == Some(
                    TerminalObservation::Unknown(UnknownReason::AcpError { error: audited }),
                )
            }
            &&& response matches TurnResponse::Result(result) ==> {
                &&& after.response_error == turn.response_error
                &&& after.terminal == Some(TerminalObservation::Cancelled(result))
                    <==> result.stop_reason is Some && (any_case_of(
                    result.stop_reason->0@,
                    "cancelled"@,
                ) || any_case_of(result.stop_reason->0@, "canceled"@))
                &&& after.terminal == Some(TerminalObservation::Succeeded(result)) || after.terminal
                    == Some(TerminalObservation::Cancelled(result))
            }
            &&& response is Nothing ==> {
                &&& after.response_error == turn.response_error
                &&& after.terminal == Some(
                    TerminalObservation::Unknown(UnknownReason::MissingResult),
                )
            }
        }),
{
    if response is Result {
        lemma_cancellation_is_named(response->Result_0);
    }
}

/// A turn that gets no response ends when the agent is gone, when its cancellation may be lost, or
/// when it takes longer than it may, and goes on otherwise. Why it ended is told, and its request
/// is abandoned.
pub proof fn lemma_turns_end_without_response(
    turn: TurnModel,
    cancel_lost: bool,
    alive: bool,
    elapsed: Span,
)
    requires
        turn.terminal is None,
        turn.setup_error is None,
    ensures
        ({
            let limit = turn.context.prompt_hard_timeout;
            let late = elapsed.secs * 1_000_000_000 + elapsed.nanos > limit.secs * 1_000_000_000
                + limit.nanos;
            let ticked = turn.after_tick(cancel_lost, alive, elapsed);
            let left = turn.after_disconnect(cancel_lost);
            let lost = |error: Seq<char>, reason: UnknownReason|
                TurnModel {
                    response_error: Some(error),
                    terminal: Some(TerminalObservation::Unknown(reason)),
                    abandoned: true,
                    ..turn
                };
            &&& !cancel_lost && alive && !late ==> ticked == turn
            &&& cancel_lost ==> ticked == lost(
                "ACP cancellation delivery was indeterminate; agent terminated"@,
                UnknownReason::CancelWriteIndeterminate,
            ) && left == ticked
            &&& !cancel_lost && !alive ==> ticked == lost(
                "Agent process died"@,
                UnknownReason::AgentDied,
            )
            &&& !cancel_lost && alive && late ==> ticked == lost(
                "Agent exceeded hard timeout ("@ + text::decimal(limit.secs as nat) + "s)"@,
                UnknownReason::HardTimeout { seconds: limit.secs },
            )
            &&& !cancel_lost ==> left == lost(
                "Agent process exited unexpectedly"@,
                UnknownReason::AgentExited,
            )
        }),
{
}

/// What a turn has done is known to be success only where it succeeded and gave an answer, and
/// known to be cancelled only where it was. Whenever it is not known to be success, the calls that
/// were observed are kept.
pub proof fn lemma_success_needs_an_answer(
    terminal: TerminalObservation,
    answered: bool,
    calls: Vec<ObservedToolCall>,
)
    ensures
        ({
            let outcome = turn::execution_of(terminal, answered, calls);
            &&& outcome is Succeeded <==> terminal is Succeeded && answered
            &&& outcome is Cancelled <==> terminal is Cancelled
            &&& outcome matches ExecutionOutcome::Succeeded { turn_result } ==> terminal
                == TerminalObservation::Succeeded(turn_result)
            &&& outcome matches ExecutionOutcome::Cancelled { turn_result, observed_tool_calls }
                ==> terminal == TerminalObservation::Cancelled(turn_result) && observed_tool_calls
                == calls
            &&& !(outcome is Succeeded) && !(outcome is Cancelled) ==> {
                &&& outcome matches ExecutionOutcome::OutcomeUnknown { reason, observed_tool_calls }
                &&& observed_tool_calls == calls
                &&& terminal is Succeeded ==> reason == UnknownReason::MissingOutput
                &&& terminal matches TerminalObservation::Unknown(why) ==> reason == why
            }
        }),
{
}

/// Without a response a turn has no result; otherwise it ended as it was observed to.
pub proof fn lemma_turns_end_as_observed(turn: TurnModel)
    ensures
        turn.terminal is Some ==> turn.observation() == turn.terminal->0,
        turn.terminal is None ==> turn.observation() == TerminalObservation::Unknown(
            UnknownReason::MissingResult,
        ),
        turn.observation() matches TerminalObservation::Succeeded(result) ==> turn.result()
            == result,
        turn.observation() matches TerminalObservation::Cancelled(result) ==> turn.result()
            == result,
        turn.observation() is Unknown ==> turn.result().stop_reason is None
            && turn.result().output_tokens is None && turn.result().input_tokens is None
            && turn.result().total_tokens is None,
        turn.over() <==> turn.terminal is Some || turn.setup_error is Some,
{
}

/// Progress is shown while a tool with a title is used and while the agent thinks, which it does
/// after each tool. Settings are passed on. After the end of a turn nothing is.
pub proof fn lemma_progress_is_told(turn: TurnModel, event: AcpEvent)
    ensures
        turn.terminal is Some || turn.setup_error is Some ==> turn.progress(event)
            == Progress::Unchanged && turn.stream_need(event) == StreamNeed::Nothing
            && turn.display_after(event) is None && turn.options_after(event) is None,
        turn.terminal is None && turn.setup_error is None ==> {
            &&& turn.progress(event) is Thinking <==> event is Thinking || event is ToolDone
            &&& event matches AcpEvent::ToolStart { id, title } ==> {
                &&& title@.len() > 0 ==> turn.progress(event) == Progress::Tool { title }
                &&& title@.len() == 0 ==> turn.progress(event) == Progress::Unchanged
            }
            &&& event is Text || event is ConfigUpdate || event is Unheeded ==> turn.progress(event)
                == Progress::Unchanged
            &&& event matches AcpEvent::ConfigUpdate { options } ==> turn.options_after(event)
                == Some(options)
            &&& !(event is ConfigUpdate) ==> turn.options_after(event) is None
        },
{
}

/// A native stream is written to where it is open, opened for the first text, and not tried again
/// where it could not be opened. A platform without native streams needs none.
pub proof fn lemma_streams_are_opened_once(turn: TurnModel, event: AcpEvent)
    requires
        turn.terminal is None,
        turn.setup_error is None,
    ensures
        turn.stream_need(event) == StreamNeed::Writing <==> event is Text && turn.context.native
            && turn.stream_open,
        turn.stream_need(event) == StreamNeed::Opening <==> event is Text && turn.context.native
            && !turn.stream_open && !turn.stream_failed,
{
}

/// The edited message follows a turn: it shows the turn as the event left it, after each tool that
/// is shown or ends, and after each text unless the platform streams it.
pub proof fn lemma_edited_message_follows(turn: TurnModel, event: AcpEvent)
    requires
        turn.terminal is None,
        turn.setup_error is None,
    ensures
        turn.placeholder is None ==> turn.display_after(event) is None,
        turn.placeholder is Some ==> {
            let after = turn.after(event);
            let shown = Some(
                display::displayed(after.tools, after.text, true, turn.context.tool_display),
            );
            &&& event is Text && !turn.context.native ==> turn.display_after(event) == shown
            &&& event is Text && turn.context.native ==> turn.display_after(event) is None
            &&& event is ToolDone ==> turn.display_after(event) == shown
            &&& event matches AcpEvent::ToolStart { id, title } ==> turn.display_after(event)
                == if title@.len() > 0 {
                shown
            } else {
                None
            }
            &&& event is Thinking || event is ConfigUpdate || event is Unheeded
                ==> turn.display_after(event) is None
        },
{
}

/// Titles are on one line: line feeds become separators, carriage returns vanish, backticks become
/// apostrophes, and every other character is shown as it is.
pub proof fn lemma_titles_are_shown(one: Seq<char>, c: char)
    ensures
        display::shown_title(Seq::empty()) == Seq::<char>::empty(),
        display::shown_title(one.push(c)) == display::shown_title(one) + (if c as int == 13 {
            Seq::empty()
        } else if c as int == 10 {
            seq![' ', ';', ' ']
        } else if c as int == 96 {
            seq!['\'']
        } else {
            seq![c]
        }),
        forall|i: int|
            0 <= i < display::shown_title(one).len() ==> {
                let shown = (#[trigger] display::shown_title(one)[i]) as int;
                shown != 10 && shown != 13 && shown != 96
            },
    decreases one.len(),
{
    reveal_strlit(" ; ");
    assert(" ; "@ =~= seq![' ', ';', ' ']);
    assert(one.push(c).drop_last() =~= one);
    if one.len() > 0 {
        let front = one.drop_last();
        lemma_titles_are_shown(front, one.last());
        assert(one =~= front.push(one.last()));
        let shown = display::shown_title(one);
        let before = display::shown_title(front);
        assert forall|i: int| 0 <= i < shown.len() implies {
            let code = (#[trigger] shown[i]) as int;
            code != 10 && code != 13 && code != 96
        } by {
            if i < before.len() {
                assert(shown[i] == before[i]);
                assert(before[i] as int != 10);
            }
        }
    }
}

/// A call is shown by its state and its title.
pub proof fn lemma_calls_are_shown(entry: EntryModel)
    ensures
        entry.state == ToolState::Completed ==> entry.line() == "✅ `"@ + entry.title + "`"@,
        entry.state == ToolState::Failed ==> entry.line() == "❌ `"@ + entry.title + "`"@,
        entry.state == ToolState::Running ==> entry.line() == "🔧 `"@ + entry.title + "`..."@,
{
}

/// Calls are shown one on each line, in their order.
pub proof fn lemma_lines(entries: Seq<EntryModel>, entry: EntryModel)
    ensures
        display::lines(Seq::empty()) == Seq::<char>::empty(),
        display::lines(entries.push(entry)) == display::lines(entries) + entry.line() + "\n"@,
{
    assert(entries.push(entry).drop_last() =~= entries);
}

/// Calls are sorted by their states, in their order.
pub proof fn lemma_calls_are_sorted(entries: Seq<EntryModel>, entry: EntryModel, state: ToolState)
    ensures
        display::in_state(Seq::empty(), state) == Seq::<EntryModel>::empty(),
        display::finished(Seq::empty()) == Seq::<EntryModel>::empty(),
        display::in_state(entries.push(entry), state) == if entry.state == state {
            display::in_state(entries, state).push(entry)
        } else {
            display::in_state(entries, state)
        },
        display::finished(entries.push(entry)) == if entry.state == ToolState::Completed
            || entry.state == ToolState::Failed {
            display::finished(entries).push(entry)
        } else {
            display::finished(entries)
        },
{
    assert(entries.push(entry).drop_last() =~= entries);
}

/// What is delivered of a turn's calls: each on its line where they are shown in full, their
/// numbers where they are shown briefly, and nothing where they are not shown. The text follows
/// after an empty line, without white space at its end.
pub proof fn lemma_turns_are_displayed(
    entries: Seq<EntryModel>,
    body: Seq<char>,
    blank: Seq<char>,
    streaming: bool,
)
    requires
        characters::all_in(blank, text::CharClass::White),
        body.len() > 0 ==> !text::CharClass::White.has(body[body.len() - 1]),
    ensures
        display::displayed(entries, body + blank, streaming, ToolDisplay::Off) == body,
        entries.len() == 0 ==> forall|shown: ToolDisplay|
            #[trigger] display::displayed(entries, body + blank, streaming, shown) == body,
        entries.len() > 0 ==> display::displayed(entries, body + blank, false, ToolDisplay::Full)
            == display::lines(entries) + "\n"@ + body,
        entries.len() > 0 ==> display::displayed(
            entries,
            body + blank,
            streaming,
            ToolDisplay::Compact,
        ) == text::joined(display::full_tally(entries), " · "@) + " tool(s)\n"@ + "\n"@ + body,
{
    lemma_trim_end(body, blank);
    reveal_strlit("\n");
    reveal_strlit(" tool(s)\n");
    if entries.len() > 0 {
        assert(display::lines(entries).len() > 0);
        lemma_some_state(entries);
    }
}

proof fn lemma_trim_end(body: Seq<char>, blank: Seq<char>)
    requires
        characters::all_in(blank, text::CharClass::White),
        body.len() > 0 ==> !text::CharClass::White.has(body[body.len() - 1]),
    ensures
        text::trimmed_end(body + blank, text::CharClass::White) == body,
    decreases blank.len(),
{
    if blank.len() == 0 {
        assert(body + blank =~= body);
    } else {
        assert((body + blank).last() == blank[blank.len() - 1]);
        assert((body + blank).drop_last() =~= body + blank.drop_last());
        assert forall|i: int| 0 <= i < blank.drop_last().len() implies text::CharClass::White.has(
            #[trigger] blank.drop_last()[i],
        ) by {
            assert(blank.drop_last()[i] == blank[i]);
        }
        lemma_trim_end(body, blank.drop_last());
    }
}

proof fn lemma_some_state(entries: Seq<EntryModel>)
    requires
        entries.len() > 0,
    ensures
        display::full_tally(entries).len() > 0,
{
    let last = entries.last();
    assert(display::in_state(entries, last.state).len() > 0);
}

/// The numbers of calls: completed, failed and running ones, each only where there are some.
pub proof fn lemma_tallies(entries: Seq<EntryModel>)
    ensures
        ({
            let completed = display::in_state(entries, ToolState::Completed).len();
            let failed = display::in_state(entries, ToolState::Failed).len();
            let running = display::in_state(entries, ToolState::Running).len();
            let some = |icon: Seq<char>, n: nat|
                if n > 0 {
                    seq![icon + text::decimal(n)]
                } else {
                    Seq::<Seq<char>>::empty()
                };
            &&& display::finished_tally(entries) == some("✅ "@, completed) + some("❌ "@, failed)
            &&& display::full_tally(entries) == some("✅ "@, completed) + some("❌ "@, failed)
                + some("🔧 "@, running)
            &&& display::finished(entries).len() == completed + failed
            &&& entries.len() == completed + failed + running
        }),
    decreases entries.len(),
{
    if entries.len() > 0 {
        lemma_tallies(entries.drop_last());
    }
}

/// While a turn runs, up to three finished and three running calls are shown line by line. More
/// finished ones are only counted, and of more running ones the last three are shown.
pub proof fn lemma_running_turns_are_displayed(entries: Seq<EntryModel>)
    requires
        entries.len() > 0,
    ensures
        ({
            let over = display::finished(entries);
            let running = display::in_state(entries, ToolState::Running);
            let n = running.len() as int;
            &&& display::tool_part(entries, true, ToolDisplay::Full) == display::finished_part(
                entries,
            ) + display::running_part(entries)
            &&& over.len() <= 3 ==> display::finished_part(entries) == display::lines(over)
            &&& over.len() > 3 ==> display::finished_part(entries) == text::joined(
                display::finished_tally(entries),
                " · "@,
            ) + " tool(s) completed\n"@
            &&& n <= 3 ==> display::running_part(entries) == display::lines(running)
            &&& n > 3 ==> display::running_part(entries) == "🔧 "@ + text::decimal((n - 3) as nat)
                + " more running\n"@ + running[n - 3].line() + "\n"@ + running[n - 2].line() + "\n"@
                + running[n - 1].line() + "\n"@
        }),
{
    let running = display::in_state(entries, ToolState::Running);
    let n = running.len() as int;
    if n > 3 {
        let last = running.skip(n - 3);
        let two = last.drop_last();
        let one = two.drop_last();
        assert(one.drop_last() =~= Seq::empty());
        reveal_with_fuel(display::lines, 4);
        assert(display::lines(last) =~= running[n - 3].line() + "\n"@ + running[n - 2].line()
            + "\n"@ + running[n - 1].line() + "\n"@);
        assert(display::running_part(entries) =~= "🔧 "@ + text::decimal((n - 3) as nat)
            + " more running\n"@ + running[n - 3].line() + "\n"@ + running[n - 2].line() + "\n"@
            + running[n - 1].line() + "\n"@);
    }
}

/// An error stands before what is delivered. Where nothing is, the error is all there is, or a
/// notice that there was no answer; an agent that ended normally without writing a token has
/// failed.
pub proof fn lemma_errors_are_delivered(turn: TurnModel)
    ensures
        turn.outcome_text().len() > 0 && turn.response_error is None ==> turn.content()
            == turn.outcome_text(),
        turn.outcome_text().len() > 0 && turn.response_error is Some ==> turn.content() == "⚠️ "@
            + turn.response_error->0 + "\n\n"@ + turn.outcome_text(),
        turn.outcome_text().len() == 0 && turn.response_error is Some ==> turn.content() == "⚠️ "@
            + turn.response_error->0,
        turn.outcome_text().len() == 0 && turn.response_error is None ==> {
            let silent = turn.result().stop_reason is Some && turn.result().stop_reason->0@
                == "end_turn"@ && turn.result().output_tokens == Some(0u64);
            &&& silent ==> turn.content() == display::SILENT_FAILURE_MSG@
            &&& !silent ==> turn.content() == "_(no response)_"@
        },
{
}

/// What is delivered for a turn that neither streams nor narrates: its calls as they are set to be
/// shown, and what the agent wrote after its last call.
pub proof fn lemma_answers_are_delivered(turn: TurnModel)
    requires
        !turn.context.streaming,
        !turn.context.narration_display,
    ensures
        ({
            let answer = directives::from_offset(turn.text, turn.answer_start);
            &&& turn.answer_start != 0 && !turn.context.reset ==> turn.outcome_text()
                == display::displayed(turn.tools, answer, false, turn.context.tool_display)
            &&& turn.answer_start > 0 && turn.context.reset ==> turn.outcome_text()
                == display::displayed(
                turn.tools,
                directives::SESSION_RESET_NOTICE@ + answer,
                false,
                turn.context.tool_display,
            )
            &&& turn.answer_start == 0 ==> turn.outcome_text() == display::displayed(
                turn.tools,
                directives::parsed_output(turn.text, None).1,
                false,
                turn.context.tool_display,
            )
        }),
        turn.reply_to() == directives::parsed_output(turn.text, None).0,
{
    assert(turn.text.skip(0) =~= turn.text);
}

/// What is delivered for a turn that streams or narrates: its calls as they are set to be shown,
/// and all that the agent wrote, without the directives at its start.
pub proof fn lemma_narration_is_delivered(turn: TurnModel)
    requires
        turn.context.streaming || turn.context.narration_display,
    ensures
        turn.outcome_text() == display::displayed(
            turn.tools,
            directives::parsed_output(turn.text, None).1,
            false,
            turn.context.tool_display,
        ),
        turn.reply_to() == directives::parsed_output(turn.text, None).0,
{
}

/// Progress is shown in words.
pub proof fn lemma_progress_in_words(title: String)
    ensures
        Progress::Unchanged.status() is None,
        Progress::Thinking.status() == Some("Thinking…"@),
        (Progress::Tool { title }).status() == Some("Using "@ + title@ + "…"@),
{
}

} // verus!
