//! What callers get of the driver of prompt turns and of the delivery of their answers.

use vstd::prelude::*;
use vstd::string::*;
use crate::acp::connection::{AcpConnection, ContentBlock};
use crate::acp::protocol::{JsonRpcMessage, JsonRpcRequest, TurnResult};
use crate::acp_turn::{
    ExecutionOutcome, LegacyDispatchDisposition, ObservedToolCall, ObservedToolCallStatus,
    TurnCompletion, TurnStartError, TurnTicket, UnknownReason,
};
use crate::acp_turn_driver::delivery;
use crate::acp_turn_driver::delivery::{CommandModel, Delivery, DeliveryCommand, EditLoop, EditNeed};
use crate::acp_turn_driver::directives;
use crate::acp_turn_driver::directives::OutputDirectives;
use crate::acp_turn_driver::display;
use crate::acp_turn_driver::display::{ToolDisplay, ToolEntry};
use crate::acp_turn_driver::mentions;
use crate::acp_turn_driver::tools;
use crate::acp_turn_driver::turn;
use crate::acp_turn_driver::turn::{
    AcpEvent, AcpTurnDriver, FinishedTurn, Progress, ResponseContent, Span, TerminalObservation,
    TurnDeliveryContext, TurnEnd, TurnResponse, TurnStep,
};
use crate::laws::answers;
use crate::laws::characters;
use crate::laws::characters::any_case_of;
use crate::laws::turns;
use crate::laws::turns::{recorded_at, shown_at};
use crate::text;

verus! {

/// Whether a turn goes on.
pub open spec fn goes_on(d: AcpTurnDriver) -> bool {
    d.terminal is None && d.delivery_setup_error is None
}

/// A tool call is recorded and shown as completed exactly when the agent says `completed`, and as
/// failed whatever else it says. No other call is touched by that.
pub proof fn lemma_ended_calls_are_recorded(
    d: &mut AcpTurnDriver,
    id: String,
    title: String,
    status: String,
    r: TurnStep,
    record: int,
    list: int,
)
    requires
        goes_on(*old(d)),
        call_ensures(AcpTurnDriver::on_event, (d, AcpEvent::ToolDone { id, title, status }), r),
        recorded_at(tools::call_models(old(d).observed_tools@), id@, record),
        shown_at(display::entry_models(old(d).tool_lines@), id@, list),
    ensures
        record < final(d).observed_tools@.len(),
        final(d).observed_tools@[record].id@ == id@,
        status@ == "completed"@ ==> final(d).observed_tools@[record].status is Completed,
        status@ != "completed"@ ==> final(d).observed_tools@[record].status is Failed,
        list < old(d).tool_lines@.len() ==> {
            &&& status@ == "completed"@ ==> final(d).tool_lines@[list].state is Completed
            &&& status@ != "completed"@ ==> final(d).tool_lines@[list].state is Failed
        },
        forall|j: int|
            0 <= j < old(d).observed_tools@.len() && j != record ==> (
            #[trigger] final(d).observed_tools@[j]).status == old(d).observed_tools@[j].status,
        final(d).text_buf@ == old(d).text_buf@,
        r.progress is Thinking,
{
    turns::lemma_tool_calls_end_as_reported(old(d).model(), id, title, status, record, list);
    let before = tools::call_models(old(d).observed_tools@);
    let after = tools::call_models(final(d).observed_tools@);
    assert(final(d).model().calls == after);
    assert(final(d).model().tools == display::entry_models(final(d).tool_lines@));
    assert(after.len() == final(d).observed_tools@.len());
    assert(before.len() == old(d).observed_tools@.len());
    assert(after[record].id == final(d).observed_tools@[record].id@);
    assert(after[record].status == final(d).observed_tools@[record].status);
    if list < old(d).tool_lines@.len() {
        let shown = display::entry_models(final(d).tool_lines@);
        assert(display::entry_models(old(d).tool_lines@).len() == old(d).tool_lines@.len());
        assert(shown[list].state == final(d).tool_lines@[list].state);
    }
    assert forall|j: int| 0 <= j < old(d).observed_tools@.len() && j != record implies (
    #[trigger] final(d).observed_tools@[j]).status == old(d).observed_tools@[j].status by {
        assert(after[j] == before[j]);
    }
}

/// A tool call that starts is recorded as started, and shown as running under its title.
pub proof fn lemma_started_calls_are_recorded(
    d: &mut AcpTurnDriver,
    id: String,
    title: String,
    r: TurnStep,
    record: int,
    list: int,
)
    requires
        goes_on(*old(d)),
        title@.len() > 0,
        call_ensures(AcpTurnDriver::on_event, (d, AcpEvent::ToolStart { id, title }), r),
        recorded_at(tools::call_models(old(d).observed_tools@), id@, record),
        shown_at(display::entry_models(old(d).tool_lines@), id@, list),
    ensures
        record < final(d).observed_tools@.len(),
        final(d).observed_tools@[record].id@ == id@,
        final(d).observed_tools@[record].status is Started,
        list < final(d).tool_lines@.len(),
        final(d).tool_lines@[list].id@ == id@,
        final(d).tool_lines@[list].state is Running,
        final(d).text_buf@ == old(d).text_buf@,
        r.progress == (Progress::Tool { title }),
{
    turns::lemma_tool_calls_start(old(d).model(), id, title, record, list);
    let after = tools::call_models(final(d).observed_tools@);
    let shown = display::entry_models(final(d).tool_lines@);
    assert(final(d).model().calls == after);
    assert(final(d).model().tools == shown);
    assert(after[record].id == final(d).observed_tools@[record].id@);
    assert(after[record].status == final(d).observed_tools@[record].status);
    assert(shown[list].state == final(d).tool_lines@[list].state);
    assert(shown[list].id == final(d).tool_lines@[list].id@);
}

/// What the agent writes is collected in its order; a native stream gets it as well.
pub proof fn lemma_words_are_collected(d: &mut AcpTurnDriver, words: String, r: TurnStep)
    requires
        goes_on(*old(d)),
        call_ensures(AcpTurnDriver::on_event, (d, AcpEvent::Text(words)), r),
    ensures
        final(d).text_buf@ == old(d).text_buf@ + words@,
        final(d).agent_text_buf@ == old(d).agent_text_buf@ + words@,
        final(d).answer_start == old(d).answer_start,
        goes_on(*final(d)),
        r.stream is Writing <==> old(d).context.native && old(d).stream_open,
        r.stream is Opening <==> old(d).context.native && !old(d).stream_open && !old(
            d,
        ).stream_begin_failed,
{
}

/// What comes after the end of a turn does not count.
pub proof fn lemma_late_events_do_not_count(d: &mut AcpTurnDriver, event: AcpEvent, r: TurnStep)
    requires
        !goes_on(*old(d)),
        call_ensures(AcpTurnDriver::on_event, (d, event), r),
    ensures
        final(d).model() == old(d).model(),
        r.progress is Unchanged,
        r.stream is Nothing,
        r.display is None,
        r.options is None,
{
}

/// A turn starts with nothing, or with the notice that its session was started anew.
pub proof fn lemma_turns_begin(ticket: TurnTicket, context: TurnDeliveryContext, d: AcpTurnDriver)
    requires
        call_ensures(AcpTurnDriver::new, (ticket, context), d),
    ensures
        d.ticket == ticket,
        d.context == context,
        goes_on(d),
        context.reset ==> d.text_buf@ == "⚠️ _Session expired, starting fresh..._\n\n"@,
        !context.reset ==> d.text_buf@.len() == 0,
        d.agent_text_buf@.len() == 0,
        d.tool_lines@.len() == 0,
        d.observed_tools@.len() == 0,
        d.answer_start == 0,
        !d.stream_open && !d.stream_begin_failed && !d.request_abandoned,
        d.placeholder is None && d.response_error is None,
{
    assert(display::entry_models(d.tool_lines@) == d.model().tools);
    assert(display::entry_models(d.tool_lines@).len() == d.tool_lines@.len());
    assert(tools::call_models(d.observed_tools@) == d.model().calls);
    assert(tools::call_models(d.observed_tools@).len() == d.observed_tools@.len());
}

/// A message is put up for an answer that is edited into it, and says so with three dots.
pub proof fn lemma_placeholders(d: &AcpTurnDriver, r: Option<String>)
    requires
        call_ensures(AcpTurnDriver::placeholder_text, (d,), r),
    ensures
        r is Some <==> d.context.streaming && !d.context.native,
        r is Some && !d.context.reset ==> r->0@ == "…"@,
        r is Some && d.context.reset ==> r->0@ == "⚠️ _Session expired, starting fresh..._\n\n"@
            + "…"@,
{
}

/// What is written to a native stream goes out at least 400 milliseconds apart, in its order and
/// all of it: what went out now and what is still held back are what was held back and what came.
pub proof fn lemma_streams_are_flushed(
    d: &mut AcpTurnDriver,
    words: &str,
    since: u128,
    r: Option<String>,
)
    requires
        call_ensures(AcpTurnDriver::stream_text, (d, words, since), r),
    ensures
        r is Some <==> old(d).stream_open && since >= 400 && (old(d).native_pending@
            + words@).len() > 0,
        old(d).stream_open && r is Some ==> r->0@ + final(d).native_pending@
            == old(d).native_pending@ + words@,
        old(d).stream_open && r is None ==> final(d).native_pending@ == old(d).native_pending@
            + words@,
        r is Some ==> final(d).native_pending@.len() == 0,
        !old(d).stream_open ==> final(d).native_pending@ == old(d).native_pending@,
        final(d).text_buf@ == old(d).text_buf@,
{
    if r is Some {
        assert(r->0@ + final(d).native_pending@ =~= r->0@);
    }
}

/// A stream that was opened is open; one that could not be is not tried again.
pub proof fn lemma_streams_open(d: &mut AcpTurnDriver, opened: bool)
    requires
        call_ensures(AcpTurnDriver::stream_opened, (d, opened), ()),
    ensures
        opened ==> final(d).stream_open && final(d).stream_begin_failed
            == old(d).stream_begin_failed,
        !opened ==> final(d).stream_begin_failed && final(d).stream_open == old(d).stream_open,
        final(d).text_buf@ == old(d).text_buf@,
        final(d).terminal == old(d).terminal,
{
}

/// A turn whose message cannot be put up is over, and its prompt is given up.
pub proof fn lemma_failed_placeholders_end_turns(
    d: &mut AcpTurnDriver,
    e: &mut AcpTurnDriver,
    id: String,
    error: String,
)
    requires
        call_ensures(AcpTurnDriver::placeholder_ready, (d, id), ()),
        call_ensures(AcpTurnDriver::placeholder_failed, (e, error), ()),
    ensures
        final(d).placeholder is Some && final(d).placeholder->0@ == id@,
        final(d).model().over() == old(d).model().over(),
        !goes_on(*final(e)),
        final(e).delivery_setup_error is Some && final(e).delivery_setup_error->0@ == error@,
        final(e).request_abandoned,
{
}

/// Only the response to its own prompt ends a turn: an error in failure, a result in success unless
/// it says that the turn was cancelled, and anything else with nothing known.
pub proof fn lemma_turns_end_by_their_response(
    d: &mut AcpTurnDriver,
    id: u64,
    response: TurnResponse,
)
    requires
        goes_on(*old(d)),
        call_ensures(AcpTurnDriver::on_response, (d, id, response), ()),
    ensures
        id != old(d).ticket.request() ==> final(d).model() == old(d).model(),
        id == old(d).ticket.request() ==> {
            &&& final(d).terminal is Some
            &&& response is Error ==> final(d).response_error is Some
                && final(d).response_error->0@ == response->shown@
                && final(d).terminal->0 is Unknown
            &&& response is Result ==> {
                let reason = response->Result_0.stop_reason;
                let stopped = reason is Some && (any_case_of(reason->0@, "cancelled"@)
                    || any_case_of(reason->0@, "canceled"@));
                &&& stopped ==> final(d).terminal == Some(
                    TerminalObservation::Cancelled(response->Result_0),
                )
                &&& !stopped ==> final(d).terminal == Some(
                    TerminalObservation::Succeeded(response->Result_0),
                )
            }
            &&& response is Nothing ==> final(d).terminal == Some(
                TerminalObservation::Unknown(UnknownReason::MissingResult),
            )
        },
        final(d).text_buf@ == old(d).text_buf@,
{
    turns::lemma_responses_end_turns(old(d).model(), response);
}

/// A turn ends without a response when its agent is gone or its time is over, and its prompt is
/// given up. Otherwise a look at the clock changes nothing.
pub proof fn lemma_turns_end_by_the_clock(
    d: &mut AcpTurnDriver,
    e: &mut AcpTurnDriver,
    lost: bool,
    alive: bool,
    elapsed: Span,
)
    requires
        goes_on(*old(d)),
        goes_on(*old(e)),
        call_ensures(AcpTurnDriver::on_tick, (d, lost, alive, elapsed), ()),
        call_ensures(AcpTurnDriver::on_disconnect, (e, lost), ()),
    ensures
        ({
            let limit = old(d).context.prompt_hard_timeout;
            let late = elapsed.secs * 1_000_000_000 + elapsed.nanos > limit.secs * 1_000_000_000
                + limit.nanos;
            &&& goes_on(*final(d)) <==> !lost && alive && !late
            &&& goes_on(*final(d)) ==> final(d).model() == old(d).model()
            &&& !goes_on(*final(d)) ==> final(d).request_abandoned
            &&& lost ==> final(d).terminal == Some(
                TerminalObservation::Unknown(UnknownReason::CancelWriteIndeterminate),
            )
            &&& !lost && !alive ==> final(d).terminal == Some(
                TerminalObservation::Unknown(UnknownReason::AgentDied),
            )
            &&& !lost && alive && late ==> final(d).terminal == Some(
                TerminalObservation::Unknown(UnknownReason::HardTimeout { seconds: limit.secs }),
            )
        }),
        !goes_on(*final(e)),
        final(e).request_abandoned,
        lost ==> final(e).terminal == Some(
            TerminalObservation::Unknown(UnknownReason::CancelWriteIndeterminate),
        ),
        !lost ==> final(e).terminal == Some(
            TerminalObservation::Unknown(UnknownReason::AgentExited),
        ) && final(e).response_error->0@ == "Agent process exited unexpectedly"@,
{
    turns::lemma_turns_end_without_response(old(d).model(), lost, alive, elapsed);
    turns::lemma_turns_end_without_response(old(e).model(), lost, true, elapsed);
}

/// A turn has succeeded when its response says so and there is an answer; what it is spoken as is
/// that answer, and what is told of it is what was observed.
pub proof fn lemma_turns_are_finished(d: AcpTurnDriver, r: TurnEnd)
    requires
        call_ensures(AcpTurnDriver::finish, (d,), r),
    ensures
        r is Deliver <==> d.delivery_setup_error is None,
        r is Deliver ==> {
            let done = r->Deliver_0;
            &&& done.ticket == d.ticket
            &&& done.execution is Succeeded <==> d.terminal is Some && d.terminal->0 is Succeeded
                && !text::blank(done.speech_text@)
            &&& done.execution is Cancelled <==> d.terminal is Some && d.terminal->0 is Cancelled
            &&& d.terminal is None ==> done.execution is OutcomeUnknown
                && done.execution->reason is MissingResult
            &&& done.execution is OutcomeUnknown
                ==> done.execution->OutcomeUnknown_observed_tool_calls == d.observed_tools
            &&& done.placeholder == d.placeholder
            &&& done.native == d.context.native
            &&& done.stream_open == d.stream_open
            &&& done.native_pending == d.native_pending
        },
        r is SetupFailed ==> {
            let done = r->SetupFailed_0;
            &&& done.ticket == d.ticket
            &&& done.execution is OutcomeUnknown
            &&& done.output is None
            &&& done.delivery is Failed
            &&& done.delivery->Failed_error@
                == "platform delivery setup failed after the ACP turn started"@
            &&& !done.delivery->partially_delivered
            &&& done.legacy_dispatch is Failed
            &&& done.legacy_dispatch->error@ == d.delivery_setup_error->0@
        },
{
}

/// The answer of a turn with tool calls is what the agent wrote after the last of them.
pub proof fn lemma_answers_follow_the_last_call(
    d: AcpTurnDriver,
    r: TurnEnd,
    before: Seq<char>,
    after: Seq<char>,
)
    requires
        call_ensures(AcpTurnDriver::finish, (d,), r),
        r is Deliver,
        d.agent_text_buf@ == before + after,
        d.agent_answer_start == vstd::utf8::encode_utf8(before).len(),
        d.agent_answer_start > 0,
    ensures
        r->Deliver_0.speech_text@ == after,
{
    answers::lemma_cut_behind(before, after);
}

/// An answer that was put out with nothing to show says what is wrong: the error, or that the
/// agent gave no answer.
pub proof fn lemma_empty_turns_are_explained(
    error: Option<&str>,
    result: &TurnResult,
    r: String,
)
    requires
        call_ensures(display::classify_empty_turn, (error, result), r),
    ensures
        error is Some ==> r@ == "⚠️ "@ + error->0@,
        error is None && result.stop_reason is Some && result.stop_reason->0@ == "end_turn"@
            && result.output_tokens == Some(0u64) ==> r@
            == "⚠️ The agent did not produce a response. This usually indicates a backend configuration issue — not an intentional empty reply. Please try again later."@,
        error is None && !(result.stop_reason is Some && result.stop_reason->0@ == "end_turn"@
            && result.output_tokens == Some(0u64)) ==> r@ == "_(no response)_"@,
{
}

/// What is shown of the state of a call.
pub proof fn lemma_calls_have_signs(entry: &ToolEntry, r: String)
    requires
        call_ensures(ToolEntry::render, (entry,), r),
    ensures
        entry.state is Running ==> r@ == "🔧 `"@ + entry.title@ + "`..."@,
        entry.state is Completed ==> r@ == "✅ `"@ + entry.title@ + "`"@,
        entry.state is Failed ==> r@ == "❌ `"@ + entry.title@ + "`"@,
{
}

/// Without tool calls, or where they are not displayed, a turn is shown as its text without the
/// white space at its end.
pub proof fn lemma_plain_turns_are_shown(
    entries: &Vec<ToolEntry>,
    body: &str,
    streaming: bool,
    shown: ToolDisplay,
    r: String,
)
    requires
        call_ensures(display::compose_display, (entries, body, streaming, shown), r),
        entries@.len() == 0 || shown is Off,
    ensures
        r@ == text::trimmed_end(body@, text::CharClass::White),
{
    assert(display::entry_models(entries@).len() == entries@.len());
}

/// A turn with one call that is over is shown with the line of the call, a blank line and its text.
pub proof fn lemma_finished_turns_are_shown(
    entries: &Vec<ToolEntry>,
    entry: &ToolEntry,
    line: String,
    body: &str,
    r: String,
)
    requires
        call_ensures(display::compose_display, (entries, body, false, ToolDisplay::Full), r),
        call_ensures(ToolEntry::render, (entry,), line),
        entries@.len() == 1,
        entries@[0] == *entry,
    ensures
        r@ == line@ + "\n"@ + "\n"@ + text::trimmed_end(body@, text::CharClass::White),
{
    let models = display::entry_models(entries@);
    assert(models.len() == 1);
    assert(models[0] == entry.model());
    assert(models.drop_last() =~= Seq::empty());
    assert(models.last() == entry.model());
    assert(display::lines(models.drop_last()) =~= Seq::<char>::empty());
    assert(display::lines(models) =~= line@ + "\n"@);
    reveal_strlit("\n");
}

/// The mentions of a message are those that stand in it outside of code, each once.
pub proof fn lemma_mentions_are_extracted(content: &str, r: Vec<String>, somebody: bool)
    requires
        call_ensures(mentions::extract_mentions, (content,), r),
        call_ensures(mentions::contains_bot_mention, (content,), somebody),
    ensures
        forall|i: int, j: int| 0 <= i < j < r@.len() ==> (#[trigger] r@[i])@ != (#[trigger] r@[j])@,
        somebody <==> exists|k: int| mentions::is_mention_at(content@, k),
        text::strings(r@) == mentions::scan(text::pieces(content@, '\n')).1,
{
    let found = text::strings(r@);
    answers::lemma_mentions_are_found_once(text::pieces(content@, '\n'));
    assert(found.len() == r@.len());
    assert forall|i: int, j: int| 0 <= i < j < r@.len() implies (#[trigger] r@[i])@ != (
    #[trigger] r@[j])@ by {
        assert(found[i] == r@[i]@);
        assert(found[j] == r@[j]@);
    }
}

/// An answer that holds no directive is delivered as it is, and replies to nobody.
pub proof fn lemma_plain_answers_are_delivered(content: &str, r: (OutputDirectives, String))
    requires
        call_ensures(directives::parse_output_directives, (content,), r),
        ({
            let first = text::trimmed_white(directives::first_line(content@));
            first.len() < 2 || first[0] != '[' || first[1] != '['
        }),
    ensures
        r.0.reply_to is None,
        r.1@ == content@,
{
    answers::lemma_plain_answers_are_left_alone(content@, None);
}

/// A reply directive names the message that the rest replies to.
pub proof fn lemma_replies_are_directed(
    content: &str,
    id: Seq<char>,
    rest: Seq<char>,
    r: (OutputDirectives, String),
)
    requires
        call_ensures(directives::parse_output_directives, (content,), r),
        content@ == "[[reply_to:"@ + id + "]]\n"@ + rest,
        1 <= id.len() <= 64,
        forall|i: int|
            0 <= i < id.len() ==> {
                let n = (#[trigger] id[i]) as int;
                48 <= n <= 57 || 65 <= n <= 90 || 97 <= n <= 122 || n == 45 || n == 46 || n == 95
            },
        ({
            let first = text::trimmed_white(directives::first_line(rest));
            first.len() < 2 || first[0] != '[' || first[1] != '['
        }),
    ensures
        r.0.reply_to is Some,
        r.0.reply_to->0@ == id,
        r.1@ == rest,
{
    reveal_strlit("reply_to");
    let none = Seq::<char>::empty();
    characters::lemma_white_space(id[0]);
    characters::lemma_white_space(id[id.len() - 1]);
    characters::lemma_white_space('r');
    characters::lemma_white_space('o');
    characters::lemma_trimming_bares(none, id, none, text::CharClass::White);
    characters::lemma_trimming_bares(none, "reply_to"@, none, text::CharClass::White);
    assert(none + id + none =~= id);
    assert(none + "reply_to"@ + none =~= "reply_to"@);
    answers::lemma_message_ids(id);
    assert(answers::free_of("reply_to"@, ':'));
    assert(answers::free_of("reply_to"@, ']'));
    assert(answers::free_of("reply_to"@, '\n'));
    assert(answers::free_of(id, ']')) by {
        assert forall|i: int| 0 <= i < id.len() implies #[trigger] id[i] != ']' by {}
    }
    assert(answers::free_of(id, '\n')) by {
        assert forall|i: int| 0 <= i < id.len() implies #[trigger] id[i] != '\n' by {}
    }
    assert(answers::free_of(none, '\n'));
    answers::lemma_directives_are_taken_away("reply_to"@, id, none, rest, None);
    answers::lemma_plain_answers_are_left_alone(rest, Some(id));
    reveal_strlit("[[");
    reveal_strlit(":");
    reveal_strlit("]]");
    reveal_strlit("\n");
    reveal_strlit("[[reply_to:");
    reveal_strlit("]]\n");
    assert("[["@ + "reply_to"@ + ":"@ =~= "[[reply_to:"@);
    assert("]]"@ + none + "\n"@ =~= "]]\n"@);
    assert("[["@ + "reply_to"@ + ":"@ + id + "]]"@ + none + "\n"@ + rest =~= content@);
}

/// A delivery is planned for the parts of an answer, in their order, and nothing of it is shown
/// yet unless a stream is open or a message was put up.
pub proof fn lemma_deliveries_are_planned(
    done: FinishedTurn,
    content: String,
    chunks: Vec<String>,
    platform: &str,
    r: Delivery,
)
    requires
        call_ensures(Delivery::plan, (done, content, chunks, platform), r),
        !done.native,
        chunks@.len() > 0,
    ensures
        r.ticket == done.ticket,
        r.execution == done.execution,
        r.display_text == content,
        r.speech_text == done.speech_text,
        !r.failed,
        r.content_delivered <==> done.stream_open || done.placeholder is Some,
        r.commands@.len() == chunks@.len(),
        forall|i: int|
            1 <= i < chunks@.len() ==> (#[trigger] r.commands@[i]).model() == CommandModel::Send(
                chunks@[i]@,
                false,
            ),
        done.reply_to is Some ==> r.commands@[0].model() == CommandModel::Reply(
            chunks@[0]@,
            done.reply_to->0@,
            done.placeholder is Some,
        ),
        done.reply_to is None && done.placeholder is None ==> r.commands@[0].model()
            == CommandModel::Send(chunks@[0]@, false),
        done.reply_to is None && done.placeholder is Some && platform@ != "discord"@
            && done.placeholder->0@ != "draft"@ ==> r.commands@[0].model() == CommandModel::Edit(
            chunks@[0]@,
        ),
{
    let parts = text::strings(chunks@);
    assert(parts.len() == chunks@.len());
    answers::lemma_streams_are_finished(done, content@, parts, platform@);
    answers::lemma_first_part_leads(
        text::opt_text(done.placeholder),
        text::opt_text(done.reply_to),
        platform@ == "discord"@ && exists|k: int| mentions::is_mention_at(content@, k),
        parts,
    );
    let plan = delivery::command_models(r.commands@);
    assert(r.model().commands == plan);
    assert(plan.len() == r.commands@.len());
    assert(plan[0] == r.commands@[0].model());
    assert(parts[0] == chunks@[0]@);
    assert forall|i: int| 1 <= i < chunks@.len() implies (#[trigger] r.commands@[i]).model()
        == CommandModel::Send(chunks@[i]@, false) by {
        assert(plan[i] == r.commands@[i].model());
        assert(parts[i] == chunks@[i]@);
    }
}

/// A delivery has succeeded when none of its commands failed; otherwise it tells whether anything
/// of the answer can be seen.
pub proof fn lemma_deliveries_are_judged(d: Delivery, r: TurnCompletion)
    requires
        call_ensures(Delivery::complete, (d,), r),
    ensures
        r.delivery is Delivered <==> !d.failed,
        r.delivery is Failed <==> d.failed,
        r.delivery is Failed ==> r.delivery->partially_delivered == d.content_delivered
            && r.delivery->Failed_error@
            == "streaming finalization had delivery failures; user view is incomplete"@,
        r.legacy_dispatch is Succeeded <==> !d.failed,
        r.execution == d.execution,
        r.ticket == d.ticket,
        r.output is Some,
        r.output->0.display_text == d.display_text,
        r.output->0.speech_text == d.speech_text,
        r.output->0.voice_brief is None,
{
}

/// A part that is sent counts as delivered, and a failed one as a failure; a failed edit is made
/// up for by a new message.
pub proof fn lemma_outcomes_are_reported(d: &mut Delivery, ok: bool)
    requires
        call_ensures(Delivery::report, (d, ok), ()),
        old(d).commands@.len() > 0,
    ensures
        old(d).commands@[0] is Send || old(d).commands@[0] is Reply || old(d).commands@[0] is Finish
            ==> final(d).content_delivered == (old(d).content_delivered || ok) && final(d).failed
            == (old(d).failed || !ok),
        old(d).commands@[0] is Delete ==> final(d).failed == old(d).failed
            && final(d).content_delivered == old(d).content_delivered,
        old(d).commands@[0] is Edit && ok ==> final(d).content_delivered && final(d).failed
            == old(d).failed,
        old(d).commands@[0] is Edit && !ok ==> {
            &&& final(d).failed == old(d).failed
            &&& final(d).commands@.len() == old(d).commands@.len() + 1
            &&& final(d).commands@[0] is Delete
            &&& final(d).commands@[1].model() == CommandModel::Send(
                old(d).commands@[0]->Edit_text@,
                false,
            )
        },
        final(d).display_text == old(d).display_text,
        final(d).execution == old(d).execution,
{
    let before = delivery::command_models(old(d).commands@);
    let after = delivery::command_models(final(d).commands@);
    assert(old(d).model().commands == before);
    assert(final(d).model().commands == after);
    assert(before[0] == old(d).commands@[0].model());
    assert(before.len() == old(d).commands@.len());
    assert(after.len() == final(d).commands@.len());
    answers::lemma_deliveries_go_on(old(d).model(), ok);
    if old(d).commands@[0] is Edit && !ok {
        assert(after[0] == final(d).commands@[0].model());
        assert(after[1] == final(d).commands@[1].model());
    }
}

/// A message is edited when its content changed, up to a hundred characters short of what it can
/// hold, and no longer after three failures in a row.
pub proof fn lemma_edits_are_bounded(
    e: &EditLoop,
    content: &str,
    limit: usize,
    need: EditNeed,
    f: &mut EditLoop,
    shown: String,
    ok: bool,
    more: bool,
)
    requires
        limit >= 100,
        call_ensures(EditLoop::need, (e, content, limit), need),
        old(f).consecutive_failures < 3,
        call_ensures(EditLoop::edited, (f, shown, ok), more),
    ensures
        need is Nothing <==> content@ == e.last@,
        content@ != e.last@ && content@.len() + 100 <= limit ==> need is Whole,
        content@ != e.last@ && content@.len() + 100 > limit ==> need is Tail && need->0 + 100
            == limit,
        ok ==> more && final(f).last@ == shown@ && final(f).consecutive_failures == 0,
        !ok ==> final(f).last == old(f).last && final(f).consecutive_failures
            == old(f).consecutive_failures + 1,
        !ok ==> (more <==> old(f).consecutive_failures < 2),
{
}

/// Mentions are repeated on Discord, in every part that lacks one and has room for it; no other
/// platform's parts are touched.
pub proof fn lemma_parts_are_finished(
    content: &str,
    platform: &str,
    chunks: Vec<String>,
    limit: usize,
    r: Vec<String>,
    room: usize,
)
    requires
        call_ensures(delivery::finish_chunks, (content, platform, chunks, limit), r),
        call_ensures(delivery::chunk_limit, (content, platform, limit), room),
    ensures
        r@.len() == chunks@.len(),
        platform@ != "discord"@ || chunks@.len() <= 1 ==> forall|i: int|
            0 <= i < chunks@.len() ==> (#[trigger] r@[i])@ == chunks@[i]@,
        platform@ != "discord"@ ==> room == limit,
        room <= limit,
        platform@ == "discord"@ ==> forall|i: int|
            0 <= i < chunks@.len() ==> chunks@[i]@.is_prefix_of((#[trigger] r@[i])@),
{
    let parts = text::strings(chunks@);
    let out = text::strings(r@);
    assert(parts.len() == chunks@.len());
    assert(out.len() == r@.len());
    assert(out == delivery::final_chunks(content@, platform@, parts, limit as int));
    assert forall|i: int| 0 <= i < chunks@.len() implies chunks@[i]@.is_prefix_of((
    #[trigger] r@[i])@) by {
        assert(out[i] == r@[i]@);
        assert(parts[i] == chunks@[i]@);
    }
    if platform@ != "discord"@ || chunks@.len() <= 1 {
        assert forall|i: int| 0 <= i < chunks@.len() implies (#[trigger] r@[i])@ == chunks@[i]@ by {
            assert(out[i] == r@[i]@);
            assert(parts[i] == chunks@[i]@);
        }
    }
    lemma_footer_is_not_negative(mentions::mentions_of(content@));
}

proof fn lemma_footer_is_not_negative(found: Seq<Seq<char>>)
    ensures
        mentions::footer_len(found) >= 0,
        mentions::mention_bytes(found) >= 0,
    decreases found.len(),
{
    if found.len() > 0 {
        lemma_footer_is_not_negative(found.drop_last());
    }
}

/// A prompt that could not be sent is an error; one that may have been read is a turn of which
/// nothing is known.
pub proof fn lemma_failed_starts_are_told(
    failure: TurnStartError,
    r: Result<TurnCompletion, String>,
)
    requires
        call_ensures(turn::start_failure, (failure,), r),
    ensures
        failure is NotStarted <==> r is Err,
        r is Err ==> r->Err_0 == failure->NotStarted_error,
        r is Ok ==> {
            &&& r->Ok_0.ticket == failure->ticket
            &&& r->Ok_0.execution is OutcomeUnknown
            &&& r->Ok_0.execution->reason is PromptWriteIndeterminate
            &&& r->Ok_0.output is None
            &&& r->Ok_0.delivery is NotAttempted
            &&& r->Ok_0.legacy_dispatch == (LegacyDispatchDisposition::Failed {
                error: failure->WriteIndeterminate_error,
            })
        },
{
}

/// A turn that starts takes the notice of a reset with it.
pub proof fn lemma_starts_take_the_reset(
    c: &mut AcpConnection,
    blocks: &Vec<ContentBlock>,
    now_ms: u64,
    r: (bool, Result<(TurnTicket, JsonRpcRequest), TurnStartError>),
)
    requires
        call_ensures(turn::start_turn, (c, blocks, now_ms), r),
    ensures
        r.0 == old(c).session_reset,
        !final(c).session_reset,
        r.1 is Ok <==> !old(c).poisoned && old(c).acp_session_id is Some && (
        old(c).turn.phase is Idle || old(c).turn.phase is Finished),
        r.1 is Ok ==> r.1->Ok_0.0.request() == r.1->Ok_0.1.id && final(c).turn.phase is InFlight,
{
}

/// What of a response ends the turn: its error, which is told to users but kept out of the record
/// but for its code, or else its result.
pub proof fn lemma_errors_are_kept_out_of_records(
    message: &JsonRpcMessage,
    r: ResponseContent<'_>,
)
    requires
        call_ensures(turn::response_content, (message,), r),
    ensures
        message.error is Some <==> r is Error,
        r is Error ==> *r->shown == message.error->0 && r->audited.code == message.error->0.code
            && r->audited.message@.len() == 0 && r->audited.data is None,
        r is Result <==> message.error is None && message.result is Some,
        r is Result ==> *r->Result_0 == message.result->0,
{
}

/// One span exceeds another when it lasts longer, in seconds and nanoseconds together.
pub proof fn lemma_spans_are_compared(a: &Span, b: &Span, r: bool)
    requires
        call_ensures(Span::exceeds, (a, b), r),
    ensures
        r <==> a.secs * 1_000_000_000 + a.nanos > b.secs * 1_000_000_000 + b.nanos,
{
}

/// The words for the progress of a turn.
pub proof fn lemma_progress_has_words(p: &Progress, r: Option<String>)
    requires
        call_ensures(Progress::status_text, (p,), r),
    ensures
        *p is Unchanged <==> r is None,
        *p is Thinking ==> r->0@ == "Thinking…"@,
        *p is Tool ==> r->0@ == "Using "@ + p->title@ + "…"@,
{
}

/// What may be spoken of a turn: the answer of a success that was delivered, and nothing else.
pub proof fn lemma_only_successes_are_spoken(
    done: &TurnCompletion,
    speech: Option<&str>,
    brief: Option<&str>,
)
    requires
        call_ensures(TurnCompletion::eligible_speech_text, (done,), speech),
        call_ensures(TurnCompletion::eligible_voice_brief, (done,), brief),
    ensures
        speech is Some <==> done.execution is Succeeded && done.delivery is Delivered
            && done.output is Some && !text::blank(done.output->0.speech_text@),
        speech is Some ==> speech->0@ == done.output->0.speech_text@,
        brief is Some <==> done.execution is Succeeded && done.delivery is Delivered
            && done.output is Some && done.output->0.voice_brief is Some && !text::blank(
            done.output->0.voice_brief->0@,
        ),
        brief is Some ==> brief->0@ == done.output->0.voice_brief->0@,
{
}

/// What a turn has done is what its end says, and a success needs an answer.
pub proof fn lemma_executions_are_classified(
    terminal: TerminalObservation,
    answered: bool,
    calls: Vec<ObservedToolCall>,
    r: ExecutionOutcome,
)
    requires
        call_ensures(turn::classify_execution, (terminal, answered, calls), r),
    ensures
        r is Succeeded <==> terminal is Succeeded && answered,
        r is Cancelled <==> terminal is Cancelled,
        r is OutcomeUnknown <==> terminal is Unknown || terminal is Succeeded && !answered,
        terminal is Succeeded && !answered ==> r->reason is MissingOutput,
        terminal is Unknown ==> r->reason == terminal->Unknown_0,
        r is OutcomeUnknown ==> r->OutcomeUnknown_observed_tool_calls == calls,
        r is Cancelled ==> r->Cancelled_observed_tool_calls == calls && r->Cancelled_turn_result
            == terminal->Cancelled_0,
        r is Succeeded ==> r->Succeeded_turn_result == terminal->Succeeded_0,
{
}

/// A turn was cancelled when its result says so, in either spelling and any case.
pub proof fn lemma_cancellations_are_recognised(result: &TurnResult, r: bool)
    requires
        call_ensures(turn::is_cancelled, (result,), r),
    ensures
        r <==> result.stop_reason is Some && (any_case_of(
            result.stop_reason->0@,
            "cancelled"@,
        ) || any_case_of(result.stop_reason->0@, "canceled"@)),
{
    turns::lemma_cancellation_is_named(*result);
}

/// A turn is over when it has ended or its message could not be put up, and its prompt is given up
/// when it was.
pub proof fn lemma_ends_are_known(d: &AcpTurnDriver, over: bool, given_up: bool)
    requires
        call_ensures(AcpTurnDriver::is_over, (d,), over),
        call_ensures(AcpTurnDriver::must_abandon, (d,), given_up),
    ensures
        over <==> !goes_on(*d),
        given_up == d.request_abandoned,
{
}

/// A call is recorded once under its id: a later observation of it changes its state, and its
/// title where it brings one; a new one stands last.
pub proof fn lemma_observations_are_recorded(
    calls: &mut Vec<ObservedToolCall>,
    id: &str,
    title: &str,
    status: ObservedToolCallStatus,
    at: int,
)
    requires
        call_ensures(tools::observe_tool_call, (calls, id, title, status), ()),
        recorded_at(tools::call_models(old(calls)@), id@, at),
    ensures
        at < final(calls)@.len(),
        final(calls)@[at].id@ == id@,
        final(calls)@[at].status == status,
        final(calls)@.len() == if at < old(calls)@.len() {
            old(calls)@.len()
        } else {
            old(calls)@.len() + 1
        },
        title@.len() == 0 && at < old(calls)@.len() ==> final(calls)@[at].title@
            == old(calls)@[at].title@,
        title@.len() > 0 ==> final(calls)@[at].title@ == display::shown_title(title@),
        forall|j: int|
            0 <= j < old(calls)@.len() && j != at ==> (#[trigger] final(calls)@[j]).status
                == old(calls)@[j].status && final(calls)@[j].id@ == old(calls)@[j].id@,
{
    let before = tools::call_models(old(calls)@);
    let after = tools::call_models(final(calls)@);
    turns::lemma_call_found(before, id@, at);
    assert(before.len() == old(calls)@.len());
    assert(after.len() == final(calls)@.len());
    assert(after[at].id == final(calls)@[at].id@);
    assert(after[at].status == final(calls)@[at].status);
    assert(after[at].title == final(calls)@[at].title@);
    if at < before.len() {
        assert(before[at].title == old(calls)@[at].title@);
    }
    assert forall|j: int| 0 <= j < old(calls)@.len() && j != at implies (
    #[trigger] final(calls)@[j]).status == old(calls)@[j].status && final(calls)@[j].id@
        == old(calls)@[j].id@ by {
        assert(after[j] == before[j]);
    }
}

/// Titles are shown in one line and without backticks.
pub proof fn lemma_titles_are_tamed(title: &str, r: String, i: int)
    requires
        call_ensures(display::sanitize_title, (title,), r),
        0 <= i < r@.len(),
    ensures
        r@[i] as int != 10,
        r@[i] as int != 13,
        r@[i] as int != 96,
{
    turns::lemma_titles_are_shown(title@, 'a');
}

/// What is delivered of a text is all of it, or what follows the answer's start.
pub proof fn lemma_answers_are_cut_out(
    full: &str,
    before: Seq<char>,
    after: Seq<char>,
    start: usize,
    keep: bool,
    r: &str,
)
    requires
        call_ensures(directives::select_delivery_text, (full, start, keep), r),
        full@ == before + after,
        start == vstd::utf8::encode_utf8(before).len(),
    ensures
        keep ==> r@ == full@,
        !keep ==> r@ == after,
{
    answers::lemma_cut_behind(before, after);
}

/// The message to reply to is named at the start of the whole text. A body that starts later is
/// delivered as it is.
pub proof fn lemma_deliveries_are_split(
    full: &str,
    before: Seq<char>,
    after: Seq<char>,
    start: usize,
    r: (OutputDirectives, String),
    whole: (OutputDirectives, String),
    kept: (OutputDirectives, String),
)
    requires
        call_ensures(directives::split_delivery, (full, start, false), r),
        call_ensures(directives::split_delivery, (full, start, true), kept),
        call_ensures(directives::parse_output_directives, (full,), whole),
        full@ == before + after,
        start == vstd::utf8::encode_utf8(before).len(),
        start > 0,
    ensures
        r.0.reply_to is Some <==> whole.0.reply_to is Some,
        r.0.reply_to is Some ==> r.0.reply_to->0@ == whole.0.reply_to->0@,
        r.1@ == after,
        kept.1@ == whole.1@,
        kept.0.reply_to is Some <==> whole.0.reply_to is Some,
{
    answers::lemma_cut_behind(before, after);
    assert(text::opt_text(r.0.reply_to) == text::opt_text(whole.0.reply_to));
    assert(text::opt_text(kept.0.reply_to) == text::opt_text(whole.0.reply_to));
}

/// The notice of a new session is put back where the answer was cut out of its text.
pub proof fn lemma_notices_are_put_back(
    reset: bool,
    keep: bool,
    start: usize,
    body: String,
    r: String,
)
    requires
        call_ensures(directives::finalize_body, (reset, keep, start, body), r),
    ensures
        reset && !keep && start > 0 ==> r@ == "⚠️ _Session expired, starting fresh..._\n\n"@
            + body@,
        !(reset && !keep && start > 0) ==> r@ == body@,
{
    answers::lemma_notice_is_put_back(reset, keep, start as int, body@);
}

/// The next command of a delivery is its first, while it has any.
pub proof fn lemma_commands_come_in_order(d: &Delivery, r: Option<&DeliveryCommand>)
    requires
        call_ensures(Delivery::next_command, (d,), r),
    ensures
        r is Some <==> d.commands@.len() > 0,
        r is Some ==> r->0.model() == d.commands@[0].model(),
{
    let commands = delivery::command_models(d.commands@);
    assert(commands.len() == d.commands@.len());
    if d.commands@.len() > 0 {
        assert(commands[0] == d.commands@[0].model());
    }
}

/// A character is found where it stands first.
pub proof fn lemma_characters_are_found(s: &[char], c: char, r: usize)
    requires
        call_ensures(directives::find_char, (s, c), r),
    ensures
        r <= s@.len(),
        r < s@.len() ==> s@[r as int] == c,
        forall|i: int| 0 <= i < r ==> #[trigger] s@[i] != c,
{
    lemma_not_before(s@, c);
}

proof fn lemma_not_before(s: Seq<char>, c: char)
    ensures
        forall|i: int|
            0 <= i < directives::position_of(s, c) && i < s.len() ==> #[trigger] s[i] != c,
    decreases s.len(),
{
    if s.len() > 0 && s[0] != c {
        let rest = s.skip(1);
        lemma_not_before(rest, c);
        assert forall|i: int| 0 <= i < directives::position_of(s, c) && i < s.len() implies
            #[trigger] s[i] != c by {
            if i > 0 {
                assert(rest[i - 1] != c);
            }
        }
    }
}

/// The success or error that is told is what the turn came to.
pub proof fn lemma_dispositions_are_results(
    d: LegacyDispatchDisposition,
    r: Result<(), String>,
)
    requires
        call_ensures(LegacyDispatchDisposition::into_result, (d,), r),
    ensures
        d is Succeeded <==> r is Ok,
        d is Failed ==> r->Err_0 == d->error,
{
}

/// A prompt that failed to start leaves the connection as it was, unless it may have been read:
/// then its turn is over.
pub proof fn lemma_failed_starts_are_cleaned_up(
    c: &mut AcpConnection,
    failure: TurnStartError,
    now_ms: u64,
    r: Result<TurnCompletion, String>,
    same: Result<TurnCompletion, String>,
)
    requires
        call_ensures(turn::end_failed_start, (c, failure, now_ms), r),
        call_ensures(turn::start_failure, (failure,), same),
    ensures
        r is Ok <==> same is Ok,
        r is Err ==> r->Err_0 == same->Err_0 && *final(c) == *old(c),
        r is Ok ==> r->Ok_0.ticket == same->Ok_0.ticket,
        r is Ok && failure->ticket.connection() == old(c).connection_id
            && old(c).turn.phase is InFlight && old(c).turn.phase->InFlight_request_id
            == failure->ticket.request() ==> final(c).turn.phase is Finished
            && !final(c).activity.busy(),
{
}

/// The parts of a message stay as many as they were, and each of them gets the mentions that it
/// lacks. A message in one part, or without mentions, is left as it is.
pub proof fn lemma_mentions_are_repeated_in_every_part(
    chunks: Vec<String>,
    found: &Vec<String>,
    limit: usize,
    r: Vec<String>,
    i: int,
)
    requires
        call_ensures(mentions::propagate_mentions_to_chunks, (chunks, found, limit), r),
        0 <= i < chunks@.len(),
    ensures
        r@.len() == chunks@.len(),
        found@.len() == 0 || chunks@.len() == 1 ==> r@[i]@ == chunks@[i]@,
        found@.len() > 0 && chunks@.len() > 1 ==> r@[i]@ == mentions::with_mentions(
            chunks@[i]@,
            text::strings(found@),
            limit as int,
        ),
{
    let parts = text::strings(chunks@);
    let out = text::strings(r@);
    assert(parts.len() == chunks@.len() && out.len() == r@.len());
    assert(text::strings(found@).len() == found@.len());
    assert(out[i] == r@[i]@);
    assert(parts[i] == chunks@[i]@);
}

/// The room that is kept for mentions is that of their line: the line feed or space before each of
/// them, and their own bytes.
pub proof fn lemma_room_is_kept_for_mentions(
    fewer: &Vec<String>,
    more: &Vec<String>,
    one: String,
    n: usize,
    m: usize,
)
    requires
        more@ == fewer@.push(one),
        call_ensures(mentions::mention_footer_len, (fewer,), n),
        call_ensures(mentions::mention_footer_len, (more,), m),
    ensures
        fewer@.len() == 0 ==> n == 0,
        ({
            let room = n + 1 + vstd::utf8::encode_utf8(one@).len();
            &&& room < usize::MAX ==> m == room
            &&& room >= usize::MAX ==> m == usize::MAX
        }),
{
    let all = text::strings(fewer@);
    assert(text::strings(more@) =~= all.push(one@));
    assert(all.push(one@).drop_last() =~= all);
    lemma_footer_is_not_negative(all);
}

} // verus!
