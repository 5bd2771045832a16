//! The connection to an agent: its requests, its turns and how they are cancelled.

use vstd::prelude::*;
use vstd::string::*;
use crate::acp::connection;
use crate::acp::connection::{
    Abandonment, AcpConnection, CancelRejection, ContentBlock, Routing, SessionActivity,
    TurnCancelState, TurnPhase,
};
use crate::acp::protocol::{ConfigOption, JsonRpcMessage, JsonRpcRequest, TurnResult};
use crate::acp_turn::{TurnStartError, TurnTicket};
use crate::json::{Json, JsonModel};

verus! {

/// Whether a turn is under way, whatever was tried to end it.
pub open spec fn under_way(phase: TurnPhase) -> bool {
    !(phase is Idle) && !(phase is Finished)
}

/// Whether a ticket is the one of the turn that a connection is at.
pub open spec fn current(c: AcpConnection, ticket: TurnTicket) -> bool {
    &&& ticket.connection() == c.connection_id
    &&& match c.turn.phase {
        TurnPhase::Idle => false,
        TurnPhase::InFlight { request_id, .. } => request_id == ticket.request(),
        TurnPhase::CancelRequested { request_id, .. } => request_id == ticket.request(),
        TurnPhase::CancelWriteIndeterminate { request_id } => request_id == ticket.request(),
        TurnPhase::Finished { request_id } => request_id == ticket.request(),
    }
}

/// The message that asks an agent to stop a session's turn.
pub open spec fn stop_message(session_id: Seq<char>) -> JsonModel {
    JsonModel::Object(
        seq![
            ("jsonrpc"@, JsonModel::Text("2.0"@)),
            ("method"@, JsonModel::Text("session/cancel"@)),
            ("params"@, JsonModel::Object(seq![("sessionId"@, JsonModel::Text(session_id))])),
        ],
    )
}

/// Requests have the numbers of a row: each takes the next, waits for its response under it, and
/// leaves all other requests waiting. Behind the last number the row begins again.
pub proof fn lemma_requests_are_numbered(
    c: &mut AcpConnection,
    method: &str,
    params: Json,
    r: JsonRpcRequest,
)
    requires
        call_ensures(AcpConnection::request, (c, method, params), r),
    ensures
        r.id == old(c).next_id,
        r.method@ == method@,
        r.params == params,
        old(c).next_id < u64::MAX ==> final(c).next_id == old(c).next_id + 1,
        old(c).next_id == u64::MAX ==> final(c).next_id == 0,
        final(c).pending@.contains(r.id),
        forall|id: u64|
            id != r.id ==> (final(c).pending@.contains(id) <==> #[trigger] old(c).pending@.contains(
                id,
            )),
        final(c).turn == old(c).turn,
        final(c).poisoned == old(c).poisoned,
        final(c).subscribed == old(c).subscribed,
        final(c).acp_session_id == old(c).acp_session_id,
{
}

/// A connection takes a prompt exactly when it has a session, no turn is under way and no write
/// to the agent went wrong. Otherwise nothing of it changes but that the prompt of a turn under way
/// uses up a number.
pub proof fn lemma_prompts_start_turns(
    c: &mut AcpConnection,
    blocks: &Vec<ContentBlock>,
    now_ms: u64,
    r: Result<(TurnTicket, JsonRpcRequest), TurnStartError>,
)
    requires
        call_ensures(AcpConnection::session_prompt_typed, (c, blocks, now_ms), r),
    ensures
        r is Ok <==> !old(c).poisoned && old(c).acp_session_id is Some && !under_way(
            old(c).turn.phase,
        ),
        r is Ok ==> {
            &&& current(*final(c), r->Ok_0.0)
            &&& final(c).turn.phase is InFlight
            &&& final(c).turn.phase->InFlight_session_id == old(c).acp_session_id->0
            &&& r->Ok_0.0.request() == r->Ok_0.1.id
            &&& r->Ok_0.1.id == old(c).next_id
            &&& r->Ok_0.1.method@ == "session/prompt"@
            &&& final(c).pending@.contains(r->Ok_0.1.id)
            &&& final(c).subscribed
            &&& final(c).activity.last() == now_ms
            &&& final(c).activity.busy()
        },
        r is Err ==> {
            &&& r->Err_0 is NotStarted
            &&& final(c).turn == old(c).turn
            &&& final(c).pending == old(c).pending
            &&& final(c).subscribed == old(c).subscribed
            &&& final(c).activity == old(c).activity
        },
        old(c).poisoned ==> r->Err_0->NotStarted_error@
            == "ACP connection is unusable after an indeterminate prompt write"@,
        !old(c).poisoned && old(c).acp_session_id is None ==> r->Err_0->NotStarted_error@
            == "no session"@,
        !old(c).poisoned && old(c).acp_session_id is Some && under_way(old(c).turn.phase)
            ==> r->Err_0->NotStarted_error@ == "an ACP turn is already in flight"@,
        final(c).poisoned == old(c).poisoned,
        final(c).acp_session_id == old(c).acp_session_id,
        final(c).connection_id == old(c).connection_id,
{
}

/// A prompt names the session and holds its blocks in their order: a text with its words, an
/// image with its data and its type.
pub proof fn lemma_prompts_hold_their_blocks(
    c: &mut AcpConnection,
    blocks: &Vec<ContentBlock>,
    now_ms: u64,
    r: Result<(TurnTicket, JsonRpcRequest), TurnStartError>,
    i: int,
)
    requires
        call_ensures(AcpConnection::session_prompt_typed, (c, blocks, now_ms), r),
        r is Ok,
        0 <= i < blocks@.len(),
    ensures
        r->Ok_0.1.params@ is Object,
        r->Ok_0.1.params@->Object_0.len() == 2,
        r->Ok_0.1.params@->Object_0[0] == (
            "sessionId"@,
            JsonModel::Text(old(c).acp_session_id->0@),
        ),
        r->Ok_0.1.params@->Object_0[1].0 == "prompt"@,
        r->Ok_0.1.params@->Object_0[1].1 is List,
        r->Ok_0.1.params@->Object_0[1].1->List_0.len() == blocks@.len(),
        blocks@[i] is Text ==> r->Ok_0.1.params@->Object_0[1].1->List_0[i] == JsonModel::Object(
            seq![
                ("type"@, JsonModel::Text("text"@)),
                ("text"@, JsonModel::Text(blocks@[i]->text@)),
            ],
        ),
        blocks@[i] is Image ==> r->Ok_0.1.params@->Object_0[1].1->List_0[i] == JsonModel::Object(
            seq![
                ("type"@, JsonModel::Text("image"@)),
                ("data"@, JsonModel::Text(blocks@[i]->data@)),
                ("mimeType"@, JsonModel::Text(blocks@[i]->media_type@)),
            ],
        ),
{
}

/// A turn can be cancelled once, while it is in flight, with its own ticket and no other: the
/// agent is told the turn's session. Every other attempt changes nothing.
pub proof fn lemma_turns_are_cancelled_once(
    c: &mut AcpConnection,
    ticket: &TurnTicket,
    r: Result<Json, CancelRejection>,
    again: &mut AcpConnection,
    second: Result<Json, CancelRejection>,
)
    requires
        call_ensures(AcpConnection::begin_cancel, (c, ticket), r),
        call_ensures(AcpConnection::begin_cancel, (again, ticket), second),
        *old(again) == *final(c),
    ensures
        r is Ok <==> current(*old(c), *ticket) && old(c).turn.phase is InFlight,
        r is Ok ==> {
            &&& r->Ok_0@ == stop_message(old(c).turn.phase->InFlight_session_id@)
            &&& final(c).turn.phase is CancelRequested
            &&& current(*final(c), *ticket)
            &&& second == Err::<Json, CancelRejection>(CancelRejection::Duplicate)
        },
        r is Err ==> *final(c) == *old(c),
        second is Err,
        final(c).pending == old(c).pending,
        final(c).poisoned == old(c).poisoned,
        final(c).subscribed == old(c).subscribed,
        final(c).activity == old(c).activity,
{
}

/// Why a turn is not cancelled: the ticket is of another connection, there was no turn yet, the
/// ticket is of an earlier turn, or the turn of the ticket is past cancelling.
pub proof fn lemma_refused_cancellations_are_explained(
    c: &mut AcpConnection,
    ticket: &TurnTicket,
    r: Result<Json, CancelRejection>,
)
    requires
        call_ensures(AcpConnection::begin_cancel, (c, ticket), r),
    ensures
        ticket.connection() != old(c).connection_id ==> r->Err_0 is DifferentConnection,
        ticket.connection() == old(c).connection_id && old(c).turn.phase is Idle ==> r->Err_0
            is NoActiveTurn,
        ticket.connection() == old(c).connection_id && !(old(c).turn.phase is Idle) && !current(
            *old(c),
            *ticket,
        ) ==> r->Err_0 is StaleRequest,
        current(*old(c), *ticket) && old(c).turn.phase is CancelRequested ==> r->Err_0 is Duplicate,
        current(*old(c), *ticket) && old(c).turn.phase is CancelWriteIndeterminate ==> r->Err_0
            is WriteIndeterminate,
        current(*old(c), *ticket) && old(c).turn.phase is Finished ==> r->Err_0 is Finished,
{
}

/// What a refused cancellation says.
pub proof fn lemma_refusals_in_words(rejection: &CancelRejection, s: String)
    requires
        call_ensures(CancelRejection::message, (rejection,), s),
    ensures
        rejection is DifferentConnection ==> s@
            == "turn ticket belongs to a different ACP connection"@,
        rejection is NoActiveTurn ==> s@ == "there is no active ACP turn to cancel"@,
        rejection is StaleRequest ==> s@ == "turn ticket is stale"@,
        rejection is Duplicate ==> s@ == "cancellation was already requested for this turn"@,
        rejection is WriteIndeterminate ==> s@
            == "the previous cancellation write had an indeterminate outcome"@,
        rejection is Finished ==> s@ == "ACP turn has already finished"@,
{
}

/// A cancellation that may not have reached the agent makes the connection unusable, and the turn
/// that was being cancelled cannot be cancelled again.
pub proof fn lemma_failed_cancellations_poison(c: &mut AcpConnection, ticket: &TurnTicket)
    requires
        call_ensures(AcpConnection::cancel_write_failed, (c, ticket), ()),
    ensures
        final(c).poisoned,
        current(*old(c), *ticket) && old(c).turn.phase is CancelRequested ==> {
            &&& final(c).turn.phase is CancelWriteIndeterminate
            &&& current(*final(c), *ticket)
        },
        !(current(*old(c), *ticket) && old(c).turn.phase is CancelRequested) ==> final(c).turn
            == old(c).turn,
        final(c).pending == old(c).pending,
        final(c).acp_session_id == old(c).acp_session_id,
{
}

/// That a cancellation may not have reached the agent is known of the turn of a ticket exactly
/// when its phase says so.
pub proof fn lemma_indeterminate_cancellations_are_known(
    c: &AcpConnection,
    ticket: &TurnTicket,
    r: bool,
)
    requires
        call_ensures(AcpConnection::cancel_write_is_indeterminate, (c, ticket), r),
    ensures
        r <==> current(*c, *ticket) && c.turn.phase is CancelWriteIndeterminate,
{
}

/// A prompt that may not have reached the agent makes the connection unusable; its request waits
/// no longer and its turn is not over.
pub proof fn lemma_failed_prompts_poison(
    c: &mut AcpConnection,
    ticket: &TurnTicket,
    error: String,
    r: TurnStartError,
)
    requires
        call_ensures(AcpConnection::prompt_write_failed, (c, ticket, error), r),
    ensures
        final(c).poisoned,
        !final(c).pending@.contains(ticket.request()),
        forall|id: u64|
            id != ticket.request() ==> (final(c).pending@.contains(id)
                <==> #[trigger] old(c).pending@.contains(id)),
        final(c).turn == old(c).turn,
        r is WriteIndeterminate,
        r->ticket == *ticket,
        r->WriteIndeterminate_error == error,
{
}

/// The end of a turn is taken from its own ticket only: then the turn is finished, its request
/// waits no longer, nobody listens and the connection is idle since then.
pub proof fn lemma_turns_end_by_their_ticket(
    c: &mut AcpConnection,
    ticket: &TurnTicket,
    now_ms: u64,
    r: bool,
)
    requires
        call_ensures(AcpConnection::prompt_done_typed, (c, ticket, now_ms), r),
    ensures
        r <==> current(*old(c), *ticket),
        r ==> {
            &&& final(c).turn.phase is Finished
            &&& current(*final(c), *ticket)
            &&& !final(c).pending@.contains(ticket.request())
            &&& forall|id: u64|
                id != ticket.request() ==> (final(c).pending@.contains(id)
                    <==> #[trigger] old(c).pending@.contains(id))
            &&& !final(c).subscribed
            &&& !final(c).activity.busy()
            &&& final(c).activity.last() == now_ms
        },
        !r ==> *final(c) == *old(c),
        final(c).poisoned == old(c).poisoned,
        final(c).next_id == old(c).next_id,
{
}

/// The end of a turn without a ticket ends whatever turn there was.
pub proof fn lemma_any_turn_can_be_ended(c: &mut AcpConnection, now_ms: u64)
    requires
        call_ensures(AcpConnection::prompt_done, (c, now_ms), ()),
    ensures
        !under_way(final(c).turn.phase),
        final(c).turn.phase is Idle <==> old(c).turn.phase is Idle,
        forall|ticket: TurnTicket|
            current(*final(c), ticket) <==> #[trigger] current(*old(c), ticket),
        forall|ticket: TurnTicket|
            #[trigger] current(*old(c), ticket) ==> !final(c).pending@.contains(ticket.request()),
        !final(c).subscribed,
        !final(c).activity.busy(),
        final(c).activity.last() == now_ms,
        final(c).poisoned == old(c).poisoned,
{
}

/// An abandoned turn no longer waits for a response. If it was in flight, the agent is asked to
/// stop; otherwise it is over at once. Only the turn under way is abandoned, and only by its own
/// ticket.
pub proof fn lemma_turns_are_abandoned(c: &mut AcpConnection, ticket: &TurnTicket, r: Abandonment)
    requires
        call_ensures(AcpConnection::abandon_request_typed, (c, ticket), r),
    ensures
        r is NotCurrent <==> !(current(*old(c), *ticket) && under_way(old(c).turn.phase)),
        r is NotCurrent ==> *final(c) == *old(c),
        r is Cancel <==> current(*old(c), *ticket) && old(c).turn.phase is InFlight,
        r is Cancel ==> r->notification@ == stop_message(old(c).turn.phase->InFlight_session_id@)
            && final(c).turn.phase is CancelRequested,
        r is Done ==> final(c).turn.phase is Finished,
        !(r is NotCurrent) ==> !final(c).pending@.contains(ticket.request()) && current(
            *final(c),
            *ticket,
        ),
        final(c).poisoned == old(c).poisoned,
        final(c).subscribed == old(c).subscribed,
{
}

/// Once the cancellation of an abandoned turn was written, the turn is over; if the write failed,
/// the connection is unusable as well.
pub proof fn lemma_abandoned_turns_finish(c: &mut AcpConnection, ticket: &TurnTicket, written: bool)
    requires
        call_ensures(AcpConnection::abandon_finished, (c, ticket, written), ()),
    ensures
        current(*old(c), *ticket) ==> final(c).turn.phase is Finished && current(
            *final(c),
            *ticket,
        ),
        !current(*old(c), *ticket) ==> final(c).turn == old(c).turn,
        !written ==> final(c).poisoned,
        written ==> final(c).poisoned == old(c).poisoned,
        final(c).pending == old(c).pending,
{
}

/// A permission request is answered under its number and nobody else hears of it. A response
/// goes to the request that waits for it, which then waits no longer, and to a listener as well.
/// Anything else goes to a listener, if there is one.
pub proof fn lemma_messages_are_routed(c: &mut AcpConnection, message: &JsonRpcMessage, r: Routing)
    requires
        call_ensures(AcpConnection::route, (c, message), r),
    ensures
        message.method is Some && message.method->0@ == "session/request_permission"@ ==> {
            &&& *final(c) == *old(c)
            &&& message.id is Some <==> r is Reply
            &&& message.id is None <==> r is Drop
            &&& message.id is Some ==> r->Reply_id == message.id->0
        },
        !(message.method is Some && message.method->0@ == "session/request_permission"@) ==> {
            &&& !(r is Reply)
            &&& r is Resolve <==> message.id is Some && old(c).pending@.contains(message.id->0)
            &&& r is Resolve ==> {
                &&& r->Resolve_id == message.id->0
                &&& r->forward == old(c).subscribed
                &&& !final(c).pending@.contains(message.id->0)
                &&& forall|id: u64|
                    id != message.id->0 ==> (final(c).pending@.contains(id)
                        <==> #[trigger] old(c).pending@.contains(id))
            }
            &&& !(r is Resolve) ==> *final(c) == *old(c)
            &&& !(r is Resolve) ==> (r is Forward <==> old(c).subscribed)
        },
        final(c).turn == old(c).turn,
        final(c).subscribed == old(c).subscribed,
{
}

/// A permission request is answered with what its parameters are answered with by themselves.
pub proof fn lemma_permission_requests_are_replied_to(
    c: &mut AcpConnection,
    message: &JsonRpcMessage,
    r: Routing,
    answer: Json,
)
    requires
        call_ensures(AcpConnection::route, (c, message), r),
        message.method is Some && message.method->0@ == "session/request_permission"@,
        message.id is Some,
        message.params is Some,
        call_ensures(connection::build_permission_response, (Some(&message.params->0),), answer),
    ensures
        r->outcome@ == answer@,
{
}

/// When the agent's output ends, no request waits, nobody listens and the connection is dead.
pub proof fn lemma_closed_connections_are_dead(
    c: &mut AcpConnection,
    closed: &AcpConnection,
    alive: bool,
)
    requires
        call_ensures(AcpConnection::reader_closed, (c,), ()),
        *closed == *final(c),
        call_ensures(AcpConnection::alive, (closed,), alive),
    ensures
        !alive,
        forall|id: u64| !#[trigger] final(c).pending@.contains(id),
        !final(c).subscribed,
        final(c).turn == old(c).turn,
{
}

/// A connection is alive while its agent's output goes on and no write to it went wrong.
pub proof fn lemma_usable_connections_are_alive(c: &AcpConnection, alive: bool)
    requires
        call_ensures(AcpConnection::alive, (c,), alive),
    ensures
        c.poisoned ==> !alive,
        c.reader_finished ==> !alive,
        !c.poisoned && !c.reader_finished ==> alive,
{
}

/// The error that waiting requests get when the agent's output ends.
pub proof fn lemma_closing_is_told(r: JsonRpcMessage)
    requires
        call_ensures(AcpConnection::closed_error, (), r),
    ensures
        r.error is Some,
        r.error->0.code == -1,
        r.error->0.message@ == "connection closed"@,
        r.result is None,
        r.id is None,
{
}

/// A listener gets the id, the result and the error of a response, and not its method or its
/// parameters.
pub proof fn lemma_listeners_get_responses(message: &JsonRpcMessage, r: JsonRpcMessage)
    requires
        call_ensures(connection::subscriber_copy, (message,), r),
    ensures
        r.id == message.id,
        r.result is Some <==> message.result is Some,
        r.result is Some ==> r.result->0@ == message.result->0@,
        r.error is Some <==> message.error is Some,
        r.error is Some ==> r.error->0.code == message.error->0.code && r.error->0.message
            == message.error->0.message,
        r.method is None,
        r.params is None,
{
}

/// A new session is waited for four times as long as anything else.
pub proof fn lemma_new_sessions_take_longer(method: &str, other: &str, r: u64, s: u64)
    requires
        call_ensures(connection::response_timeout_secs, (method,), r),
        call_ensures(connection::response_timeout_secs, (other,), s),
        method@ == "session/new"@,
        other@ != "session/new"@,
    ensures
        r == 120,
        s == 30,
{
}

/// A session that was made is the one the agent named, with its settings; an answer that names
/// none is an error and changes nothing.
pub proof fn lemma_sessions_are_made(
    c: &mut AcpConnection,
    response: &JsonRpcMessage,
    options: Vec<ConfigOption>,
    r: Result<String, String>,
)
    requires
        call_ensures(AcpConnection::session_created, (c, response, options), r),
    ensures
        r is Ok <==> response.result is Some && response.result->0@.text_field("sessionId"@)
            is Some,
        r is Ok ==> {
            &&& Some(r->Ok_0@) == response.result->0@.text_field("sessionId"@)
            &&& final(c).acp_session_id == Some(r->Ok_0)
            &&& final(c).config_options == options
        },
        r is Err ==> r->Err_0@ == "no sessionId in session/new response"@ && *final(c) == *old(c),
        final(c).turn == old(c).turn,
        final(c).pending == old(c).pending,
{
}

/// A session is resumed unless the agent refuses; its settings are taken from an answer that has
/// a result.
pub proof fn lemma_sessions_are_resumed(
    c: &mut AcpConnection,
    session_id: &str,
    response: &JsonRpcMessage,
    options: Vec<ConfigOption>,
    r: Result<(), String>,
)
    requires
        call_ensures(AcpConnection::session_loaded, (c, session_id, response, options), r),
    ensures
        r is Err <==> response.error is Some,
        r is Err ==> r->Err_0@ == "session/load rejected"@ && *final(c) == *old(c),
        r is Ok ==> {
            &&& final(c).acp_session_id is Some
            &&& final(c).acp_session_id->0@ == session_id@
            &&& response.result is Some ==> final(c).config_options == options
            &&& response.result is None ==> final(c).config_options == old(c).config_options
        },
        final(c).turn == old(c).turn,
{
}

/// A setting that was chosen has its new value and all other settings keep theirs, in their order.
pub proof fn lemma_settings_are_chosen(
    c: &mut AcpConnection,
    config_id: &str,
    value: &str,
    i: int,
)
    requires
        call_ensures(AcpConnection::config_option_chosen, (c, config_id, value), ()),
        0 <= i < old(c).config_options@.len(),
    ensures
        final(c).config_options@.len() == old(c).config_options@.len(),
        final(c).config_options@[i].id@ == old(c).config_options@[i].id@,
        old(c).config_options@[i].id@ == config_id@ ==> final(c).config_options@[i].current_value@
            == value@,
        old(c).config_options@[i].id@ != config_id@ ==> final(c).config_options@[i].current_value@
            == old(c).config_options@[i].current_value@,
        final(c).turn == old(c).turn,
{
    let before = connection::option_models(old(c).config_options@);
    let after = connection::option_models(final(c).config_options@);
    assert(after.len() == before.len());
    assert(before[i] == (old(c).config_options@[i].id@, old(c).config_options@[i].current_value@));
    assert(after[i] == (
        final(c).config_options@[i].id@,
        final(c).config_options@[i].current_value@,
    ));
}

/// Choosing a setting needs a session: the agent is told the session, the setting and the value.
/// An agent that does not know the request gets the setting and the value as a slash command.
pub proof fn lemma_settings_are_asked_for(
    c: &mut AcpConnection,
    d: &mut AcpConnection,
    config_id: &str,
    value: &str,
    r: Result<JsonRpcRequest, String>,
    s: Result<JsonRpcRequest, String>,
)
    requires
        call_ensures(AcpConnection::set_config_option, (c, config_id, value), r),
        call_ensures(AcpConnection::set_config_option_fallback, (d, config_id, value), s),
    ensures
        r is Ok <==> old(c).acp_session_id is Some,
        s is Ok <==> old(d).acp_session_id is Some,
        r is Err ==> r->Err_0@ == "no session"@ && *final(c) == *old(c),
        s is Err ==> s->Err_0@ == "no session"@ && *final(d) == *old(d),
        r is Ok ==> {
            &&& r->Ok_0.method@ == "session/set_config_option"@
            &&& r->Ok_0.id == old(c).next_id
            &&& final(c).pending@.contains(r->Ok_0.id)
            &&& r->Ok_0.params@ == JsonModel::Object(
                seq![
                    ("sessionId"@, JsonModel::Text(old(c).acp_session_id->0@)),
                    ("configId"@, JsonModel::Text(config_id@)),
                    ("value"@, JsonModel::Text(value@)),
                ],
            )
        },
        s is Ok ==> {
            &&& s->Ok_0.method@ == "session/prompt"@
            &&& s->Ok_0.id == old(d).next_id
            &&& final(d).pending@.contains(s->Ok_0.id)
            &&& s->Ok_0.params@ == JsonModel::Object(
                seq![
                    ("sessionId"@, JsonModel::Text(old(d).acp_session_id->0@)),
                    (
                        "prompt"@,
                        JsonModel::List(
                            seq![
                                JsonModel::Object(
                                    seq![
                                        ("type"@, JsonModel::Text("text"@)),
                                        (
                                            "text"@,
                                            JsonModel::Text(
                                                "/"@ + config_id@ + " "@ + value@,
                                            ),
                                        ),
                                    ],
                                ),
                            ],
                        ),
                    ),
                ],
            )
        },
{
}

/// How a connection is opened: the agent is told the version of the protocol and who connects.
pub proof fn lemma_connections_are_opened(c: &mut AcpConnection, r: JsonRpcRequest)
    requires
        call_ensures(AcpConnection::initialize, (c,), r),
    ensures
        r.method@ == "initialize"@,
        r.id == old(c).next_id,
        final(c).pending@.contains(r.id),
        r.params@ == JsonModel::Object(
            seq![
                ("protocolVersion"@, JsonModel::Integer(1)),
                ("clientCapabilities"@, JsonModel::Object(Seq::empty())),
                (
                    "clientInfo"@,
                    JsonModel::Object(
                        seq![
                            ("name"@, JsonModel::Text("openab"@)),
                            ("version"@, JsonModel::Text("0.1.0"@)),
                        ],
                    ),
                ),
            ],
        ),
{
}

/// Sessions are made and resumed in a working directory, without servers of the client's own.
pub proof fn lemma_sessions_are_asked_for(
    c: &mut AcpConnection,
    d: &mut AcpConnection,
    session_id: &str,
    cwd: &str,
    r: JsonRpcRequest,
    s: JsonRpcRequest,
)
    requires
        call_ensures(AcpConnection::session_new, (c, cwd), r),
        call_ensures(AcpConnection::session_load, (d, session_id, cwd), s),
    ensures
        r.method@ == "session/new"@,
        r.id == old(c).next_id,
        final(c).pending@.contains(r.id),
        r.params@ == JsonModel::Object(
            seq![
                ("cwd"@, JsonModel::Text(cwd@)),
                ("mcpServers"@, JsonModel::List(Seq::empty())),
            ],
        ),
        s.method@ == "session/load"@,
        s.id == old(d).next_id,
        final(d).pending@.contains(s.id),
        s.params@ == JsonModel::Object(
            seq![
                ("sessionId"@, JsonModel::Text(session_id@)),
                ("cwd"@, JsonModel::Text(cwd@)),
                ("mcpServers"@, JsonModel::List(Seq::empty())),
            ],
        ),
{
}

/// An agent can resume sessions exactly when its capabilities say so.
pub proof fn lemma_capabilities_are_read(c: &mut AcpConnection, response: &JsonRpcMessage)
    requires
        call_ensures(AcpConnection::initialized, (c, response), ()),
    ensures
        final(c).supports_load_session <==> response.result is Some && response.result->0@.field(
            "agentCapabilities"@,
        ) is Some && response.result->0@.field("agentCapabilities"@)->0.field("loadSession"@)
            == Some(JsonModel::Bool(true)),
        final(c).acp_session_id == old(c).acp_session_id,
        final(c).turn == old(c).turn,
{
}

/// That a session was reset is told once.
pub proof fn lemma_resets_are_told_once(
    c: &mut AcpConnection,
    d: &mut AcpConnection,
    r: bool,
    s: bool,
)
    requires
        call_ensures(AcpConnection::take_session_reset, (c,), r),
        call_ensures(AcpConnection::take_session_reset, (d,), s),
        *old(d) == *final(c),
    ensures
        r == old(c).session_reset,
        !s,
        final(c).turn == old(c).turn,
{
}

/// A connection that was just made is idle since then, has no session and counts from one.
pub proof fn lemma_new_connections_are_unused(id: u128, now_ms: u64, c: AcpConnection)
    requires
        call_ensures(AcpConnection::new, (id, now_ms), c),
    ensures
        c.connection_id == id,
        c.next_id == 1,
        c.turn.phase is Idle,
        !c.poisoned && !c.reader_finished && !c.subscribed && !c.session_reset,
        c.acp_session_id is None,
        forall|id: u64| !#[trigger] c.pending@.contains(id),
        c.activity.last() == now_ms,
        !c.activity.busy(),
{
}

/// The age of an activity is the time since it was last touched, and none where the clock went
/// back.
pub proof fn lemma_activities_age(
    a: &mut SessionActivity,
    b: &SessionActivity,
    at: u64,
    now: u64,
    age: u64,
)
    requires
        call_ensures(SessionActivity::touch, (a, at), ()),
        *b == *final(a),
        call_ensures(SessionActivity::age, (b, now), age),
    ensures
        now >= at ==> at + age == now,
        now < at ==> age == 0,
        final(a).busy() == old(a).busy(),
{
}

/// An agent that ended its turn in the regular way without a single token of output failed
/// silently; no other did.
pub proof fn lemma_silent_failures(result: &TurnResult, r: bool)
    requires
        call_ensures(TurnResult::is_silent_failure, (result,), r),
    ensures
        r <==> result.stop_reason is Some && result.stop_reason->0@ == "end_turn"@
            && result.output_tokens == Some(0u64),
{
}

/// A turn begins only where none is under way, and ends by its own ticket.
pub proof fn lemma_one_turn_at_a_time(
    s: &mut TurnCancelState,
    id: u64,
    session: String,
    r: bool,
    before: &TurnCancelState,
    free: bool,
    t: &mut TurnCancelState,
    connection: u128,
    ticket: &TurnTicket,
    ended: bool,
)
    requires
        call_ensures(TurnCancelState::activate, (s, id, session), r),
        *before == *old(s),
        call_ensures(TurnCancelState::can_start, (before,), free),
        *old(t) == *final(s),
        call_ensures(TurnCancelState::finish, (t, connection, ticket), ended),
    ensures
        r == free,
        r <==> !under_way(old(s).phase),
        r ==> final(s).phase == (TurnPhase::InFlight { request_id: id, session_id: session }),
        !r ==> final(s).phase == old(s).phase,
        r ==> (ended <==> ticket.connection() == connection && ticket.request() == id),
        r && ended ==> final(t).phase == (TurnPhase::Finished { request_id: id }),
        !ended ==> final(t).phase == final(s).phase,
{
}

/// The ticket of the latest turn names its request on the connection, and tells whether the turn
/// is under way.
pub proof fn lemma_tickets_name_their_turn(
    s: &TurnCancelState,
    connection: u128,
    r: Option<TurnTicket>,
    open: bool,
    lost: bool,
)
    requires
        call_ensures(TurnCancelState::current_ticket, (s, connection), r),
        r is Some,
        call_ensures(TurnCancelState::is_open_for, (s, connection, &r->0), open),
        call_ensures(
            TurnCancelState::cancel_write_is_indeterminate,
            (s, connection, &r->0),
            lost,
        ),
    ensures
        !(s.phase is Idle),
        r->0.connection() == connection,
        s.phase is InFlight ==> r->0.request() == s.phase->InFlight_request_id,
        s.phase is CancelRequested ==> r->0.request() == s.phase->CancelRequested_request_id,
        s.phase is Finished ==> r->0.request() == s.phase->Finished_request_id,
        open <==> under_way(s.phase),
        lost <==> s.phase is CancelWriteIndeterminate,
{
}

/// A turn without a ticket is one that never was.
pub proof fn lemma_idle_connections_have_no_ticket(
    s: &TurnCancelState,
    connection: u128,
    r: Option<TurnTicket>,
)
    requires
        call_ensures(TurnCancelState::current_ticket, (s, connection), r),
    ensures
        r is None <==> s.phase is Idle,
{
}

/// A turn's state is cancelled as the connection's is: once, in flight and by its own ticket, and
/// then a failed write is remembered.
pub proof fn lemma_states_are_cancelled_once(
    s: &mut TurnCancelState,
    connection: u128,
    ticket: &TurnTicket,
    r: Result<String, CancelRejection>,
    t: &mut TurnCancelState,
    failed: bool,
)
    requires
        call_ensures(TurnCancelState::begin_cancel, (s, connection, ticket), r),
        *old(t) == *final(s),
        call_ensures(TurnCancelState::cancel_write_failed, (t, connection, ticket), failed),
    ensures
        r is Ok <==> old(s).phase is InFlight && ticket.connection() == connection
            && old(s).phase->InFlight_request_id == ticket.request(),
        r is Ok ==> r->Ok_0 == old(s).phase->InFlight_session_id && final(s).phase
            is CancelRequested && failed,
        r is Err ==> final(s).phase == old(s).phase,
        failed ==> final(t).phase == (TurnPhase::CancelWriteIndeterminate {
            request_id: ticket.request(),
        }),
        !failed ==> final(t).phase == final(s).phase,
        ticket.connection() != connection ==> r == Err::<String, CancelRejection>(
            CancelRejection::DifferentConnection,
        ),
{
}

/// A request is abandoned by its number as it is by a ticket for it.
pub proof fn lemma_requests_are_abandoned(
    c: &mut AcpConnection,
    id: u64,
    r: (TurnTicket, Abandonment),
)
    requires
        call_ensures(AcpConnection::abandon_request, (c, id), r),
    ensures
        r.0.connection() == old(c).connection_id,
        r.0.request() == id,
        r.1 is NotCurrent <==> !(current(*old(c), r.0) && under_way(old(c).turn.phase)),
        r.1 is NotCurrent ==> *final(c) == *old(c),
        r.1 is Cancel ==> old(c).turn.phase is InFlight && r.1->notification@ == stop_message(
            old(c).turn.phase->InFlight_session_id@,
        ),
        !(r.1 is NotCurrent) ==> !final(c).pending@.contains(id),
{
}

/// A prompt that could not be written ends the turn it began, if there was one.
pub proof fn lemma_unwritten_prompts_end_their_turn(
    c: &mut AcpConnection,
    failure: TurnStartError,
    now_ms: u64,
    r: String,
)
    requires
        call_ensures(AcpConnection::session_prompt_error, (c, failure, now_ms), r),
    ensures
        failure is NotStarted ==> r == failure->NotStarted_error && *final(c) == *old(c),
        failure is WriteIndeterminate ==> r == failure->WriteIndeterminate_error,
        failure is WriteIndeterminate && current(*old(c), failure->ticket) ==> {
            &&& final(c).turn.phase is Finished
            &&& !final(c).subscribed
            &&& !final(c).activity.busy()
            &&& !final(c).pending@.contains(failure->ticket.request())
        },
        failure is WriteIndeterminate && !current(*old(c), failure->ticket) ==> *final(c)
            == *old(c),
{
}

/// Settings are taken from an answer that has a result, and otherwise stay.
pub proof fn lemma_settings_are_replaced(
    c: &mut AcpConnection,
    d: &mut AcpConnection,
    response: &JsonRpcMessage,
    options: Vec<ConfigOption>,
)
    requires
        call_ensures(AcpConnection::update_config_options, (c, options), ()),
        call_ensures(AcpConnection::config_option_set, (d, response, options), ()),
    ensures
        final(c).config_options == options,
        response.result is Some ==> final(d).config_options == options,
        response.result is None ==> final(d).config_options == old(d).config_options,
        final(c).turn == old(c).turn,
        final(c).acp_session_id == old(c).acp_session_id,
        final(d).turn == old(d).turn,
        final(d).acp_session_id == old(d).acp_session_id,
{
}

/// Whether a connection is busy is what it was last told, and that changes no time.
pub proof fn lemma_activities_are_marked(
    a: &mut SessionActivity,
    b: &SessionActivity,
    busy: bool,
    told: bool,
    last: u64,
)
    requires
        call_ensures(SessionActivity::set_in_flight, (a, busy), ()),
        *b == *final(a),
        call_ensures(SessionActivity::in_flight, (b,), told),
        call_ensures(SessionActivity::last_active_ms, (b,), last),
    ensures
        told == busy,
        last == old(a).last(),
{
}

/// A turn stopped for a reason exactly when its result names that reason.
pub proof fn lemma_reasons_are_named(result: &TurnResult, reason: &str, r: bool)
    requires
        call_ensures(TurnResult::stop_reason_is, (result, reason), r),
    ensures
        result.stop_reason is None ==> !r,
        result.stop_reason is Some ==> (r <==> result.stop_reason->0@ == reason@),
{
}

} // verus!
