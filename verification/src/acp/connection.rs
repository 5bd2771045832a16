//! The state of a connection to one agent process: which turn is open, who may cancel it, which
//! requests wait for a response, and how permission requests are answered.

use std::collections::HashSet;
use vstd::prelude::*;
use vstd::string::*;
use crate::acp::protocol::{ConfigOption, JsonRpcError, JsonRpcMessage, JsonRpcRequest};
use crate::acp_turn::{TurnStartError, TurnTicket};
use crate::ids;
use crate::json;
use crate::json::{Json, Member};
use crate::text;

verus! {

/// The kind of a permission option.
pub open spec fn option_kind(option: json::JsonModel) -> Option<Seq<char>> {
    option.text_field("kind"@)
}

/// The id of a permission option.
pub open spec fn option_id(option: json::JsonModel) -> Option<Seq<char>> {
    option.text_field("optionId"@)
}

pub open spec fn is_reject_kind(kind: Option<Seq<char>>) -> bool {
    kind == Some("reject_once"@) || kind == Some("reject_always"@)
}

/// The first option of a kind.
pub open spec fn first_of_kind(options: Seq<json::JsonModel>, kind: Seq<char>) -> Option<
    json::JsonModel,
>
    decreases options.len(),
{
    if options.len() == 0 {
        None
    } else if option_kind(options[0]) == Some(kind) {
        Some(options[0])
    } else {
        first_of_kind(options.skip(1), kind)
    }
}

/// The first option that is not a rejection.
pub open spec fn first_not_reject(options: Seq<json::JsonModel>) -> Option<json::JsonModel>
    decreases options.len(),
{
    if options.len() == 0 {
        None
    } else if !is_reject_kind(option_kind(options[0])) {
        Some(options[0])
    } else {
        first_not_reject(options.skip(1))
    }
}

/// The option that a permission request is answered with: the first that allows always, else the
/// first that allows once, else the first that is not a rejection.
pub open spec fn best_option(options: Seq<json::JsonModel>) -> Option<json::JsonModel> {
    match first_of_kind(options, "allow_always"@) {
        Some(option) => Some(option),
        None => match first_of_kind(options, "allow_once"@) {
            Some(option) => Some(option),
            None => first_not_reject(options),
        },
    }
}

pub open spec fn best_option_id(options: Seq<json::JsonModel>) -> Option<Seq<char>> {
    match best_option(options) {
        Some(option) => option_id(option),
        None => None,
    }
}

/// Finds the first option of a kind.
fn find_kind<'a>(options: &'a Vec<Json>, kind: &str) -> (r: Option<&'a Json>)
    ensures
        json::opt_model(r) == first_of_kind(json::item_models(options@), kind@),
{
    let ghost models = json::item_models(options@);
    let mut i: usize = 0;
    assert(models.skip(0) =~= models);
    while i < options.len()
        invariant
            i <= options@.len(),
            models == json::item_models(options@),
            first_of_kind(models, kind@) == first_of_kind(models.skip(i as int), kind@),
        decreases options@.len() - i,
    {
        assert(models.skip(i as int)[0] == models[i as int]);
        assert(models.skip(i as int).skip(1) =~= models.skip(i + 1));
        let matched = match options[i].get_str("kind") {
            Some(found) => text::str_eq(found, kind),
            None => false,
        };
        if matched {
            return Some(&options[i]);
        }
        i = i + 1;
    }
    None
}

/// Finds the first option that is not a rejection.
fn find_not_reject(options: &Vec<Json>) -> (r: Option<&Json>)
    ensures
        json::opt_model(r) == first_not_reject(json::item_models(options@)),
{
    let ghost models = json::item_models(options@);
    let mut i: usize = 0;
    assert(models.skip(0) =~= models);
    while i < options.len()
        invariant
            i <= options@.len(),
            models == json::item_models(options@),
            first_not_reject(models) == first_not_reject(models.skip(i as int)),
        decreases options@.len() - i,
    {
        assert(models.skip(i as int)[0] == models[i as int]);
        assert(models.skip(i as int).skip(1) =~= models.skip(i + 1));
        let reject = match options[i].get_str("kind") {
            Some(found) => text::str_eq(found, "reject_once") || text::str_eq(
                found,
                "reject_always",
            ),
            None => false,
        };
        if !reject {
            return Some(&options[i]);
        }
        i = i + 1;
    }
    None
}

/// Picks the most permissive selectable permission option.
pub fn pick_best_option(options: &Vec<Json>) -> (r: Option<String>)
    ensures
        text::opt_text(r) == best_option_id(json::item_models(options@)),
{
    let best = match find_kind(options, "allow_always") {
        Some(option) => Some(option),
        None => match find_kind(options, "allow_once") {
            Some(option) => Some(option),
            None => find_not_reject(options),
        },
    };
    match best {
        Some(option) => match option.get_str("optionId") {
            Some(id) => Some(String::from_str(id)),
            None => None,
        },
        None => None,
    }
}

/// A rejection is never selected.
pub proof fn lemma_never_picks_rejection(options: Seq<json::JsonModel>)
    ensures
        best_option(options) matches Some(option) ==> !is_reject_kind(option_kind(option))
            && options.contains(option),
    decreases options.len(),
{
    reveal_strlit("allow_always");
    reveal_strlit("allow_once");
    reveal_strlit("reject_once");
    reveal_strlit("reject_always");
    assert("allow_always"@[0] != "reject_once"@[0] && "allow_always"@[0] != "reject_always"@[0]);
    assert("allow_once"@[0] != "reject_once"@[0] && "allow_once"@[0] != "reject_always"@[0]);
    lemma_first_of_kind_is_one(options, "allow_always"@);
    lemma_first_of_kind_is_one(options, "allow_once"@);
    lemma_first_not_reject_is_one(options);
}

proof fn lemma_first_of_kind_is_one(options: Seq<json::JsonModel>, kind: Seq<char>)
    ensures
        first_of_kind(options, kind) matches Some(option) ==> option_kind(option) == Some(kind)
            && options.contains(option),
    decreases options.len(),
{
    if options.len() > 0 {
        lemma_first_of_kind_is_one(options.skip(1), kind);
        assert(options.contains(options[0]));
        assert forall|option: json::JsonModel|
            options.skip(1).contains(option) implies options.contains(option) by {
            let i = choose|i: int| 0 <= i < options.len() - 1 && options.skip(1)[i] == option;
            assert(options[i + 1] == option);
        }
    }
}

proof fn lemma_first_not_reject_is_one(options: Seq<json::JsonModel>)
    ensures
        first_not_reject(options) matches Some(option) ==> !is_reject_kind(option_kind(option))
            && options.contains(option),
    decreases options.len(),
{
    if options.len() > 0 {
        lemma_first_not_reject_is_one(options.skip(1));
        assert(options.contains(options[0]));
        assert forall|option: json::JsonModel|
            options.skip(1).contains(option) implies options.contains(option) by {
            let i = choose|i: int| 0 <= i < options.len() - 1 && options.skip(1)[i] == option;
            assert(options[i + 1] == option);
        }
    }
}

/// The answer that selects an option.
pub open spec fn selected_outcome(id: Seq<char>) -> json::JsonModel {
    json::JsonModel::Object(
        seq![
            (
                "outcome"@,
                json::JsonModel::Object(
                    seq![
                        ("outcome"@, json::JsonModel::Text("selected"@)),
                        ("optionId"@, json::JsonModel::Text(id)),
                    ],
                ),
            ),
        ],
    )
}

/// The answer that selects nothing.
pub open spec fn cancelled_outcome() -> json::JsonModel {
    json::JsonModel::Object(
        seq![
            (
                "outcome"@,
                json::JsonModel::Object(seq![("outcome"@, json::JsonModel::Text("cancelled"@))]),
            ),
        ],
    )
}

/// The options of a permission request.
pub open spec fn offered_options(params: Option<json::JsonModel>) -> Option<Seq<json::JsonModel>> {
    match params {
        Some(p) => match p.field("options"@) {
            Some(options) => options.items(),
            None => None,
        },
        None => None,
    }
}

/// How a permission request is answered. Where no options are offered, the answer is the one
/// that agents without options understand.
pub open spec fn permission_response(params: Option<json::JsonModel>) -> json::JsonModel {
    match offered_options(params) {
        None => selected_outcome("allow_always"@),
        Some(options) => match best_option_id(options) {
            Some(id) => selected_outcome(id),
            None => cancelled_outcome(),
        },
    }
}

fn selected(id: &str) -> (r: Json)
    ensures
        r@ == selected_outcome(id@),
{
    Json::object1(
        "outcome",
        Json::object2("outcome", Json::string("selected"), "optionId", Json::string(id)),
    )
}

/// Builds the answer to a permission request.
pub fn build_permission_response(params: Option<&Json>) -> (r: Json)
    ensures
        r@ == permission_response(json::opt_model(params)),
{
    let options = match params {
        Some(p) => match p.get("options") {
            Some(options) => options.as_array(),
            None => None,
        },
        None => None,
    };
    match options {
        None => selected("allow_always"),
        Some(options) => match pick_best_option(options) {
            Some(id) => selected(id.as_str()),
            None => Json::object1(
                "outcome",
                Json::object1("outcome", Json::string("cancelled")),
            ),
        },
    }
}

/// Where the latest turn of a connection stands.
#[derive(Debug, Clone, PartialEq, Eq)]
pub enum TurnPhase {
    /// No turn was started yet.
    Idle,
    InFlight { request_id: u64, session_id: String },
    CancelRequested { request_id: u64, session_id: String },
    /// It is not known whether the agent received the cancellation.
    CancelWriteIndeterminate { request_id: u64 },
    Finished { request_id: u64 },
}

/// Why a cancellation was refused.
#[derive(Debug, Clone, Copy, PartialEq, Eq, Structural)]
pub enum CancelRejection {
    DifferentConnection,
    NoActiveTurn,
    StaleRequest,
    Duplicate,
    WriteIndeterminate,
    Finished,
}

impl CancelRejection {
    /// The text that describes the refusal.
    pub open spec fn text(self) -> Seq<char> {
        match self {
            CancelRejection::DifferentConnection => {
                "turn ticket belongs to a different ACP connection"@
            },
            CancelRejection::NoActiveTurn => "there is no active ACP turn to cancel"@,
            CancelRejection::StaleRequest => "turn ticket is stale"@,
            CancelRejection::Duplicate => "cancellation was already requested for this turn"@,
            CancelRejection::WriteIndeterminate => {
                "the previous cancellation write had an indeterminate outcome"@
            },
            CancelRejection::Finished => "ACP turn has already finished"@,
        }
    }

    /// Describes the refusal.
    pub fn message(&self) -> (s: String)
        ensures
            s@ == self.text(),
    {
        String::from_str(
            match self {
                CancelRejection::DifferentConnection => {
                    "turn ticket belongs to a different ACP connection"
                },
                CancelRejection::NoActiveTurn => "there is no active ACP turn to cancel",
                CancelRejection::StaleRequest => "turn ticket is stale",
                CancelRejection::Duplicate => "cancellation was already requested for this turn",
                CancelRejection::WriteIndeterminate => {
                    "the previous cancellation write had an indeterminate outcome"
                },
                CancelRejection::Finished => "ACP turn has already finished",
            },
        )
    }
}

impl TurnPhase {
    /// The request of the latest turn.
    pub open spec fn request(self) -> Option<u64> {
        match self {
            TurnPhase::Idle => None,
            TurnPhase::InFlight { request_id, .. } => Some(request_id),
            TurnPhase::CancelRequested { request_id, .. } => Some(request_id),
            TurnPhase::CancelWriteIndeterminate { request_id } => Some(request_id),
            TurnPhase::Finished { request_id } => Some(request_id),
        }
    }

    /// Whether a turn is under way.
    pub open spec fn is_open(self) -> bool {
        self is InFlight || self is CancelRequested || self is CancelWriteIndeterminate
    }

    /// Whether a ticket of a connection names the latest turn.
    pub open spec fn named_by(self, connection_id: u128, ticket: TurnTicket) -> bool {
        ticket.connection() == connection_id && self.request() == Some(ticket.request())
    }

    /// Why a cancellation with a ticket is refused.
    pub open spec fn cancel_rejection(self, connection_id: u128, ticket: TurnTicket) -> Option<
        CancelRejection,
    > {
        if ticket.connection() != connection_id {
            Some(CancelRejection::DifferentConnection)
        } else if self is Idle {
            Some(CancelRejection::NoActiveTurn)
        } else if self.request() != Some(ticket.request()) {
            Some(CancelRejection::StaleRequest)
        } else {
            match self {
                TurnPhase::CancelRequested { .. } => Some(CancelRejection::Duplicate),
                TurnPhase::CancelWriteIndeterminate { .. } => {
                    Some(CancelRejection::WriteIndeterminate)
                },
                TurnPhase::Finished { .. } => Some(CancelRejection::Finished),
                _ => None,
            }
        }
    }
}

/// The lifecycle of a connection's turns, as far as cancellation goes.
#[derive(Debug)]
pub struct TurnCancelState {
    pub phase: TurnPhase,
}

impl Default for TurnCancelState {
    fn default() -> (r: Self)
        ensures
            r.phase is Idle,
    {
        TurnCancelState { phase: TurnPhase::Idle }
    }
}

impl TurnCancelState {
    /// Whether a new turn may start: none is under way.
    pub fn can_start(&self) -> (r: bool)
        ensures
            r == !self.phase.is_open(),
    {
        match &self.phase {
            TurnPhase::Idle => true,
            TurnPhase::Finished { .. } => true,
            _ => false,
        }
    }

    /// Starts a turn, unless one is under way.
    pub fn activate(&mut self, request_id: u64, session_id: String) -> (r: bool)
        ensures
            r == !old(self).phase.is_open(),
            final(self).phase == if r {
                (TurnPhase::InFlight { request_id, session_id })
            } else {
                old(self).phase
            },
    {
        if !self.can_start() {
            return false;
        }
        self.phase = TurnPhase::InFlight { request_id, session_id };
        true
    }

    /// Marks the turn that a ticket names as being cancelled and returns its session.
    pub fn begin_cancel(&mut self, connection_id: u128, ticket: &TurnTicket) -> (r: Result<
        String,
        CancelRejection,
    >)
        ensures
            match old(self).phase.cancel_rejection(connection_id, *ticket) {
                Some(rejection) => {
                    &&& r == Err::<String, CancelRejection>(rejection)
                    &&& final(self).phase == old(self).phase
                },
                None => {
                    &&& old(self).phase matches TurnPhase::InFlight { request_id, session_id }
                    &&& r == Ok::<String, CancelRejection>(session_id)
                    &&& final(self).phase == (TurnPhase::CancelRequested {
                        request_id,
                        session_id,
                    })
                },
            },
    {
        if ticket.connection_id() != connection_id {
            return Err(CancelRejection::DifferentConnection);
        }
        let ticket_request_id = ticket.request_id();
        let session = match &self.phase {
            TurnPhase::Idle => return Err(CancelRejection::NoActiveTurn),
            TurnPhase::InFlight { request_id, session_id } => {
                if *request_id != ticket_request_id {
                    return Err(CancelRejection::StaleRequest);
                }
                session_id.clone()
            },
            TurnPhase::CancelRequested { request_id, .. } => {
                return Err(
                    if *request_id == ticket_request_id {
                        CancelRejection::Duplicate
                    } else {
                        CancelRejection::StaleRequest
                    },
                );
            },
            TurnPhase::CancelWriteIndeterminate { request_id } => {
                return Err(
                    if *request_id == ticket_request_id {
                        CancelRejection::WriteIndeterminate
                    } else {
                        CancelRejection::StaleRequest
                    },
                );
            },
            TurnPhase::Finished { request_id } => {
                return Err(
                    if *request_id == ticket_request_id {
                        CancelRejection::Finished
                    } else {
                        CancelRejection::StaleRequest
                    },
                );
            },
        };
        self.phase = TurnPhase::CancelRequested {
            request_id: ticket_request_id,
            session_id: session.clone(),
        };
        Ok(session)
    }

    /// Whether a ticket names the turn that is under way.
    pub fn is_open_for(&self, connection_id: u128, ticket: &TurnTicket) -> (r: bool)
        ensures
            r == (self.phase.is_open() && self.phase.named_by(connection_id, *ticket)),
    {
        if ticket.connection_id() != connection_id {
            return false;
        }
        let ticket_request_id = ticket.request_id();
        match &self.phase {
            TurnPhase::InFlight { request_id, .. } => *request_id == ticket_request_id,
            TurnPhase::CancelRequested { request_id, .. } => *request_id == ticket_request_id,
            TurnPhase::CancelWriteIndeterminate { request_id } => {
                *request_id == ticket_request_id
            },
            _ => false,
        }
    }

    /// The ticket of the latest turn.
    pub fn current_ticket(&self, connection_id: u128) -> (r: Option<TurnTicket>)
        ensures
            match r {
                Some(ticket) => self.phase.named_by(connection_id, ticket),
                None => self.phase is Idle,
            },
    {
        let request_id = match &self.phase {
            TurnPhase::Idle => return None,
            TurnPhase::InFlight { request_id, .. } => *request_id,
            TurnPhase::CancelRequested { request_id, .. } => *request_id,
            TurnPhase::CancelWriteIndeterminate { request_id } => *request_id,
            TurnPhase::Finished { request_id } => *request_id,
        };
        Some(TurnTicket::new(connection_id, request_id))
    }

    /// Records that a requested cancellation may not have reached the agent.
    pub fn cancel_write_failed(&mut self, connection_id: u128, ticket: &TurnTicket) -> (r: bool)
        ensures
            r == (old(self).phase is CancelRequested && old(self).phase.named_by(
                connection_id,
                *ticket,
            )),
            final(self).phase == if r {
                (TurnPhase::CancelWriteIndeterminate { request_id: ticket.request() })
            } else {
                old(self).phase
            },
    {
        if ticket.connection_id() != connection_id {
            return false;
        }
        let requested = match &self.phase {
            TurnPhase::CancelRequested { request_id, .. } => *request_id == ticket.request_id(),
            _ => false,
        };
        if requested {
            self.phase = TurnPhase::CancelWriteIndeterminate { request_id: ticket.request_id() };
        }
        requested
    }

    /// Whether the cancellation of the turn that a ticket names may not have reached the agent.
    pub fn cancel_write_is_indeterminate(&self, connection_id: u128, ticket: &TurnTicket) -> (r:
        bool)
        ensures
            r == (self.phase is CancelWriteIndeterminate && self.phase.named_by(
                connection_id,
                *ticket,
            )),
    {
        ticket.connection_id() == connection_id && match &self.phase {
            TurnPhase::CancelWriteIndeterminate { request_id } => {
                *request_id == ticket.request_id()
            },
            _ => false,
        }
    }

    /// Marks the turn that a ticket names as finished. A ticket of a turn that finished already
    /// is still accepted, so that cleanup can follow an abandoned request.
    pub fn finish(&mut self, connection_id: u128, ticket: &TurnTicket) -> (r: bool)
        ensures
            r == old(self).phase.named_by(connection_id, *ticket),
            final(self).phase == if r {
                (TurnPhase::Finished { request_id: ticket.request() })
            } else {
                old(self).phase
            },
    {
        if ticket.connection_id() != connection_id {
            return false;
        }
        let request_id = match &self.phase {
            TurnPhase::Idle => return false,
            TurnPhase::InFlight { request_id, .. } => *request_id,
            TurnPhase::CancelRequested { request_id, .. } => *request_id,
            TurnPhase::CancelWriteIndeterminate { request_id } => *request_id,
            TurnPhase::Finished { request_id } => *request_id,
        };
        if request_id != ticket.request_id() {
            return false;
        }
        self.phase = TurnPhase::Finished { request_id };
        true
    }
}

/// A ticket that does not name the latest turn cannot be used to cancel it: the only phase in
/// which a cancellation is accepted is the one of the named turn in flight.
pub proof fn lemma_cancel_needs_exact_ticket(
    phase: TurnPhase,
    connection_id: u128,
    ticket: TurnTicket,
)
    ensures
        phase.cancel_rejection(connection_id, ticket) is None <==> phase is InFlight
            && phase.named_by(connection_id, ticket),
        !phase.named_by(connection_id, ticket) ==> phase.cancel_rejection(
            connection_id,
            ticket,
        ) is Some,
{
}

/// A content block for the ACP prompt: either text or image.
#[derive(Debug, Clone, PartialEq, Eq)]
pub enum ContentBlock {
    Text { text: String },
    Image { media_type: String, data: String },
}

impl ContentBlock {
    pub open spec fn model(&self) -> json::JsonModel {
        match self {
            ContentBlock::Text { text } => json::JsonModel::Object(
                seq![
                    ("type"@, json::JsonModel::Text("text"@)),
                    ("text"@, json::JsonModel::Text(text@)),
                ],
            ),
            ContentBlock::Image { media_type, data } => json::JsonModel::Object(
                seq![
                    ("type"@, json::JsonModel::Text("image"@)),
                    ("data"@, json::JsonModel::Text(data@)),
                    ("mimeType"@, json::JsonModel::Text(media_type@)),
                ],
            ),
        }
    }

    pub fn to_json(&self) -> (r: Json)
        ensures
            r@ == self.model(),
    {
        match self {
            ContentBlock::Text { text } => Json::object2(
                "type",
                Json::string("text"),
                "text",
                Json::string(text.as_str()),
            ),
            ContentBlock::Image { media_type, data } => Json::object3(
                "type",
                Json::string("image"),
                "data",
                Json::string(data.as_str()),
                "mimeType",
                Json::string(media_type.as_str()),
            ),
        }
    }
}

/// When a session was last active, on a monotonic clock in milliseconds, and whether a prompt
/// turn is in flight. The clock is the caller's: wall-clock time could step and make an active
/// session look stale.
#[derive(Debug, Clone, Copy, PartialEq, Eq, Structural)]
pub struct SessionActivity {
    last_active_ms: u64,
    prompt_in_flight: bool,
}

impl SessionActivity {
    pub closed spec fn last(self) -> u64 {
        self.last_active_ms
    }

    pub closed spec fn busy(self) -> bool {
        self.prompt_in_flight
    }

    pub fn new(now_ms: u64) -> (r: Self)
        ensures
            r.last() == now_ms,
            !r.busy(),
    {
        SessionActivity { last_active_ms: now_ms, prompt_in_flight: false }
    }

    pub fn touch(&mut self, now_ms: u64)
        ensures
            final(self).last() == now_ms,
            final(self).busy() == old(self).busy(),
    {
        self.last_active_ms = now_ms;
    }

    pub fn set_in_flight(&mut self, in_flight: bool)
        ensures
            final(self).last() == old(self).last(),
            final(self).busy() == in_flight,
    {
        self.prompt_in_flight = in_flight;
    }

    /// When the last activity was observed.
    pub fn last_active_ms(&self) -> (r: u64)
        ensures
            r == self.last(),
    {
        self.last_active_ms
    }

    /// Milliseconds since the last observed activity, zero if that lies in the future.
    pub fn age(&self, now_ms: u64) -> (r: u64)
        ensures
            r == if now_ms >= self.last() {
                now_ms - self.last()
            } else {
                0
            },
    {
        now_ms.saturating_sub(self.last_active_ms)
    }

    pub fn in_flight(&self) -> (r: bool)
        ensures
            r == self.busy(),
    {
        self.prompt_in_flight
    }
}

/// What the reader of a connection does with a message.
#[derive(Debug, PartialEq, Eq)]
pub enum Routing {
    /// Send this response to the agent's permission request.
    Reply { id: u64, outcome: Json },
    /// Hand the message to the request that waits for it, and, if somebody is subscribed, a copy
    /// of its id, result and error to the subscriber.
    Resolve { id: u64, forward: bool },
    /// Hand the message to the subscriber.
    Forward,
    /// Do nothing with the message.
    Drop,
}

/// What is left to do after a request was abandoned.
#[derive(Debug, PartialEq, Eq)]
pub enum Abandonment {
    /// The ticket names no open turn; nothing changed.
    NotCurrent,
    /// The turn is finished; no cancellation is to be sent.
    Done,
    /// Send this cancellation, then report how the write went.
    Cancel { notification: Json },
}

/// The state of a connection to an agent process.
#[derive(Debug)]
pub struct AcpConnection {
    pub connection_id: u128,
    pub turn: TurnCancelState,
    /// Set when a write may have only partially reached the agent. Such a stream cannot be
    /// repaired and the connection must be replaced.
    pub poisoned: bool,
    pub next_id: u64,
    /// The requests that wait for a response.
    pub pending: HashSet<u64>,
    /// Whether somebody receives the messages of the current turn.
    pub subscribed: bool,
    pub reader_finished: bool,
    pub acp_session_id: Option<String>,
    pub supports_load_session: bool,
    pub config_options: Vec<ConfigOption>,
    pub activity: SessionActivity,
    pub session_reset: bool,
}

/// The next request id.
pub open spec fn following_id(id: u64) -> u64 {
    if id == u64::MAX {
        0
    } else {
        (id + 1) as u64
    }
}

/// The prompt of a turn, as it is sent.
pub open spec fn prompt_params(session_id: Seq<char>, blocks: Seq<ContentBlock>) -> json::JsonModel {
    json::JsonModel::Object(
        seq![
            ("sessionId"@, json::JsonModel::Text(session_id)),
            ("prompt"@, json::JsonModel::List(blocks.map_values(|b: ContentBlock| b.model()))),
        ],
    )
}

/// The notification that cancels the turn of a session.
pub open spec fn cancel_notification(session_id: Seq<char>) -> json::JsonModel {
    json::JsonModel::Object(
        seq![
            ("jsonrpc"@, json::JsonModel::Text("2.0"@)),
            ("method"@, json::JsonModel::Text("session/cancel"@)),
            (
                "params"@,
                json::JsonModel::Object(seq![("sessionId"@, json::JsonModel::Text(session_id))]),
            ),
        ],
    )
}

fn cancel_message(session_id: &str) -> (r: Json)
    ensures
        r@ == cancel_notification(session_id@),
{
    Json::object3(
        "jsonrpc",
        Json::string("2.0"),
        "method",
        Json::string("session/cancel"),
        "params",
        Json::object1("sessionId", Json::string(session_id)),
    )
}

/// Writes a notification as the line that is sent.
pub fn notification_text(notification: &Json) -> (r: Option<String>)
    ensures
        match r {
            Some(line) => json::written_json(notification@) == Some(line@),
            None => json::written_json(notification@) is None,
        },
{
    json::write_json(notification)
}

/// The id, result and error of a response, for its subscriber.
pub fn subscriber_copy(message: &JsonRpcMessage) -> (r: JsonRpcMessage)
    ensures
        r.id == message.id,
        r.method is None,
        json::owned_model(r.result) == json::owned_model(message.result),
        match message.error {
            Some(error) => {
                &&& r.error matches Some(copied)
                &&& copied.code == error.code
                &&& copied.message == error.message
                &&& json::owned_model(copied.data) == json::owned_model(error.data)
            },
            None => r.error is None,
        },
        r.params is None,
{
    let error = match &message.error {
        Some(error) => Some(
            JsonRpcError {
                code: error.code,
                message: error.message.clone(),
                data: json::copy_option(&error.data),
            },
        ),
        None => None,
    };
    JsonRpcMessage {
        id: message.id,
        method: None,
        result: json::copy_option(&message.result),
        error,
        params: None,
    }
}

/// How long a response is waited for.
pub fn response_timeout_secs(method: &str) -> (r: u64)
    ensures
        r == if method@ == "session/new"@ {
            120u64
        } else {
            30u64
        },
{
    if text::str_eq(method, "session/new") {
        120
    } else {
        30
    }
}

impl AcpConnection {
    /// Why a prompt cannot start.
    pub open spec fn start_refusal(self) -> Option<Seq<char>> {
        if self.poisoned {
            Some("ACP connection is unusable after an indeterminate prompt write"@)
        } else if self.acp_session_id is None {
            Some("no session"@)
        } else if self.turn.phase.is_open() {
            Some("an ACP turn is already in flight"@)
        } else {
            None
        }
    }

    /// Whether nothing has happened on a connection that was made at the given time.
    pub open spec fn unused_since(self, now_ms: u64) -> bool {
        &&& self.turn.phase is Idle
        &&& !self.poisoned
        &&& self.next_id == 1
        &&& self.pending@ == Set::<u64>::empty()
        &&& !self.subscribed
        &&& !self.reader_finished
        &&& self.acp_session_id is None
        &&& !self.supports_load_session
        &&& self.config_options@.len() == 0
        &&& self.activity.last() == now_ms
        &&& !self.activity.busy()
        &&& !self.session_reset
    }

    /// A connection to an agent that was just started.
    pub fn new(connection_id: u128, now_ms: u64) -> (r: Self)
        ensures
            r.connection_id == connection_id,
            r.unused_since(now_ms),
    {
        AcpConnection {
            connection_id,
            turn: TurnCancelState::default(),
            poisoned: false,
            next_id: 1,
            pending: HashSet::new(),
            subscribed: false,
            reader_finished: false,
            acp_session_id: None,
            supports_load_session: false,
            config_options: Vec::new(),
            activity: SessionActivity::new(now_ms),
            session_reset: false,
        }
    }

    /// A connection to an agent that was just started, with an id of its own. Which id that is,
    /// is left to chance.
    pub fn started(now_ms: u64) -> (r: Self)
        ensures
            ids::is_random_id(r.connection_id),
            r.unused_since(now_ms),
    {
        Self::new(ids::random_id(), now_ms)
    }

    fn take_id(&mut self) -> (id: u64)
        ensures
            id == old(self).next_id,
            *final(self) == (AcpConnection { next_id: following_id(id), ..*old(self) }),
    {
        let id = self.next_id;
        self.next_id = if id == u64::MAX {
            0
        } else {
            id + 1
        };
        id
    }

    /// Registers a request that waits for a response.
    pub fn request(&mut self, method: &str, params: Json) -> (r: JsonRpcRequest)
        ensures
            r.id == old(self).next_id,
            r.method@ == method@,
            r.params == params,
            final(self).pending@ == old(self).pending@.insert(r.id),
            *final(self) == (AcpConnection {
                next_id: following_id(r.id),
                pending: final(self).pending,
                ..*old(self)
            }),
    {
        let id = self.take_id();
        self.pending.insert(id);
        JsonRpcRequest { id, method: String::from_str(method), params }
    }

    /// Whether an attempt to start a prompt leaves `after` and gives `r`. It fails without a trace
    /// but for a request id, or subscribes, reserves a request and begins a turn.
    pub open spec fn starts_prompt(
        self,
        content_blocks: Seq<ContentBlock>,
        now_ms: u64,
        after: AcpConnection,
        r: Result<(TurnTicket, JsonRpcRequest), TurnStartError>,
    ) -> bool {
        match self.start_refusal() {
            Some(text) => {
                &&& r matches Err(TurnStartError::NotStarted { error })
                &&& error@ == text
                &&& after == (AcpConnection { next_id: after.next_id, ..self })
                &&& after.next_id == if self.poisoned || self.acp_session_id is None {
                    self.next_id
                } else {
                    following_id(self.next_id)
                }
            },
            None => {
                &&& r matches Ok((ticket, request))
                &&& ticket.connection() == self.connection_id
                &&& ticket.request() == self.next_id
                &&& request.id == self.next_id
                &&& request.method@ == "session/prompt"@
                &&& request.params@ == prompt_params(self.acp_session_id->0@, content_blocks)
                &&& after.turn.phase == (TurnPhase::InFlight {
                    request_id: self.next_id,
                    session_id: self.acp_session_id->0,
                })
                &&& after.pending@ == self.pending@.insert(self.next_id)
                &&& after.activity.last() == now_ms
                &&& after.activity.busy()
                &&& after == (AcpConnection {
                    turn: after.turn,
                    pending: after.pending,
                    activity: after.activity,
                    next_id: following_id(self.next_id),
                    subscribed: true,
                    ..self
                })
            },
        }
    }

    /// Starts a prompt: subscribes, reserves a request and mints its ticket. The request is to be
    /// written next.
    pub fn session_prompt_typed(&mut self, content_blocks: &Vec<ContentBlock>, now_ms: u64) -> (r:
        Result<(TurnTicket, JsonRpcRequest), TurnStartError>)
        ensures
            old(self).starts_prompt(content_blocks@, now_ms, *final(self), r),
    {
        if self.poisoned {
            return Err(
                TurnStartError::NotStarted {
                    error: String::from_str(
                        "ACP connection is unusable after an indeterminate prompt write",
                    ),
                },
            );
        }
        let session_id = match &self.acp_session_id {
            Some(session_id) => session_id.clone(),
            None => {
                return Err(TurnStartError::NotStarted { error: String::from_str("no session") });
            },
        };
        let id = self.take_id();
        let params = Self::prompt_json(session_id.as_str(), content_blocks);
        if !self.turn.can_start() {
            return Err(
                TurnStartError::NotStarted {
                    error: String::from_str("an ACP turn is already in flight"),
                },
            );
        }
        self.subscribed = true;
        self.pending.insert(id);
        let ticket = TurnTicket::new(self.connection_id, id);
        let activated = self.turn.activate(id, session_id);
        assert(activated);
        self.activity.touch(now_ms);
        self.activity.set_in_flight(true);
        Ok((ticket, JsonRpcRequest { id, method: String::from_str("session/prompt"), params }))
    }

    fn prompt_json(session_id: &str, content_blocks: &Vec<ContentBlock>) -> (r: Json)
        ensures
            r@ == prompt_params(session_id@, content_blocks@),
    {
        let mut items: Vec<Json> = Vec::new();
        let mut i: usize = 0;
        while i < content_blocks.len()
            invariant
                i <= content_blocks@.len(),
                items@.len() == i,
                forall|j: int| 0 <= j < i ==> (#[trigger] items@[j])@ == content_blocks@[j].model(),
            decreases content_blocks@.len() - i,
        {
            items.push(content_blocks[i].to_json());
            i = i + 1;
        }
        assert(json::item_models(items@) =~= content_blocks@.map_values(
            |b: ContentBlock| b.model(),
        ));
        Json::object2("sessionId", Json::string(session_id), "prompt", Json::list(items))
    }

    /// Records that the prompt of a ticket may have reached the agent only in part. The process
    /// tree is to be terminated.
    pub fn prompt_write_failed(&mut self, ticket: &TurnTicket, error: String) -> (r: TurnStartError)
        ensures
            r == (TurnStartError::WriteIndeterminate { ticket: *ticket, error }),
            final(self).pending@ == old(self).pending@.remove(ticket.request()),
            *final(self) == (AcpConnection {
                pending: final(self).pending,
                poisoned: true,
                ..*old(self)
            }),
    {
        self.pending.remove(&ticket.request_id());
        self.poisoned = true;
        TurnStartError::WriteIndeterminate { ticket: *ticket, error }
    }

    /// Turns a failure to start into the error text of the untyped interface, which cleans the
    /// possibly started turn up at once.
    pub fn session_prompt_error(&mut self, failure: TurnStartError, now_ms: u64) -> (r: String)
        ensures
            match failure {
                TurnStartError::NotStarted { error } => r == error && *final(self) == *old(self),
                TurnStartError::WriteIndeterminate { ticket, error } => r == error && old(
                    self,
                ).cleaned_up(ticket, now_ms, *final(self)),
            },
    {
        match failure {
            TurnStartError::NotStarted { error } => error,
            TurnStartError::WriteIndeterminate { ticket, error } => {
                self.prompt_done_typed(&ticket, now_ms);
                error
            },
        }
    }

    /// What cleaning up after the turn of a ticket leaves. A ticket that does not name the latest
    /// turn changes nothing.
    pub open spec fn cleaned_up(self, ticket: TurnTicket, now_ms: u64, after: AcpConnection) -> bool {
        if self.turn.phase.named_by(self.connection_id, ticket) {
            &&& after.turn.phase == (TurnPhase::Finished { request_id: ticket.request() })
            &&& after.pending@ == self.pending@.remove(ticket.request())
            &&& after.activity.last() == now_ms
            &&& !after.activity.busy()
            &&& after == (AcpConnection {
                turn: after.turn,
                pending: after.pending,
                activity: after.activity,
                subscribed: false,
                ..self
            })
        } else {
            after == self
        }
    }

    /// Cleans up after the latest turn.
    pub fn prompt_done(&mut self, now_ms: u64)
        ensures
            match old(self).turn.phase.request() {
                Some(request_id) => {
                    &&& final(self).turn.phase == (TurnPhase::Finished { request_id })
                    &&& final(self).pending@ == old(self).pending@.remove(request_id)
                },
                None => {
                    &&& final(self).turn.phase is Idle
                    &&& final(self).pending == old(self).pending
                },
            },
            final(self).activity.last() == now_ms,
            !final(self).activity.busy(),
            *final(self) == (AcpConnection {
                turn: final(self).turn,
                pending: final(self).pending,
                activity: final(self).activity,
                subscribed: false,
                ..*old(self)
            }),
    {
        match self.turn.current_ticket(self.connection_id) {
            Some(ticket) => {
                self.prompt_done_typed(&ticket, now_ms);
            },
            None => {
                self.subscribed = false;
                self.activity.touch(now_ms);
                self.activity.set_in_flight(false);
            },
        }
    }

    /// Cleans up after the exact turn of a ticket, once its streaming is done.
    pub fn prompt_done_typed(&mut self, ticket: &TurnTicket, now_ms: u64) -> (r: bool)
        ensures
            r == old(self).turn.phase.named_by(old(self).connection_id, *ticket),
            old(self).cleaned_up(*ticket, now_ms, *final(self)),
    {
        if !self.turn.finish(self.connection_id, ticket) {
            return false;
        }
        self.pending.remove(&ticket.request_id());
        self.subscribed = false;
        self.activity.touch(now_ms);
        self.activity.set_in_flight(false);
        true
    }

    /// Marks the turn of a ticket as being cancelled and returns the notification to send.
    pub fn begin_cancel(&mut self, ticket: &TurnTicket) -> (r: Result<Json, CancelRejection>)
        ensures
            match old(self).turn.phase.cancel_rejection(old(self).connection_id, *ticket) {
                Some(rejection) => {
                    &&& r matches Err(e)
                    &&& e == rejection
                    &&& *final(self) == *old(self)
                },
                None => {
                    &&& old(self).turn.phase matches TurnPhase::InFlight { request_id, session_id }
                    &&& r matches Ok(notification)
                    &&& notification@ == cancel_notification(session_id@)
                    &&& final(self).turn.phase == (TurnPhase::CancelRequested {
                        request_id,
                        session_id,
                    })
                    &&& *final(self) == (AcpConnection { turn: final(self).turn, ..*old(self) })
                },
            },
    {
        match self.turn.begin_cancel(self.connection_id, ticket) {
            Ok(session_id) => Ok(cancel_message(session_id.as_str())),
            Err(rejection) => Err(rejection),
        }
    }

    /// Records that a cancellation may not have reached the agent. The process tree is to be
    /// terminated: the agent could otherwise keep mutating the workspace.
    pub fn cancel_write_failed(&mut self, ticket: &TurnTicket)
        ensures
            final(self).turn.phase == if old(self).turn.phase is CancelRequested && old(
                self,
            ).turn.phase.named_by(old(self).connection_id, *ticket) {
                (TurnPhase::CancelWriteIndeterminate { request_id: ticket.request() })
            } else {
                old(self).turn.phase
            },
            *final(self) == (AcpConnection {
                turn: final(self).turn,
                poisoned: true,
                ..*old(self)
            }),
    {
        self.turn.cancel_write_failed(self.connection_id, ticket);
        self.poisoned = true;
    }

    /// Whether the cancellation of the turn of a ticket may not have reached the agent.
    pub fn cancel_write_is_indeterminate(&self, ticket: &TurnTicket) -> (r: bool)
        ensures
            r == (self.turn.phase is CancelWriteIndeterminate && self.turn.phase.named_by(
                self.connection_id,
                *ticket,
            )),
    {
        self.turn.cancel_write_is_indeterminate(self.connection_id, ticket)
    }

    /// What dropping the request of a ticket leaves to do and does. Only the open turn that the
    /// ticket names is dropped; if it is in flight, its cancellation is to be sent.
    pub open spec fn abandoned(
        self,
        ticket: TurnTicket,
        todo: Abandonment,
        after: AcpConnection,
    ) -> bool {
        if self.turn.phase.is_open() && self.turn.phase.named_by(self.connection_id, ticket) {
            &&& after.pending@ == self.pending@.remove(ticket.request())
            &&& after == (AcpConnection { turn: after.turn, pending: after.pending, ..self })
            &&& match self.turn.phase {
                TurnPhase::InFlight { request_id, session_id } => {
                    &&& todo matches Abandonment::Cancel { notification }
                    &&& notification@ == cancel_notification(session_id@)
                    &&& after.turn.phase == (TurnPhase::CancelRequested { request_id, session_id })
                },
                _ => {
                    &&& todo is Done
                    &&& after.turn.phase == (TurnPhase::Finished { request_id: ticket.request() })
                },
            }
        } else {
            todo is NotCurrent && after == self
        }
    }

    /// Drops the request of a ticket. If the turn is in flight, its cancellation is to be sent;
    /// if it is being cancelled already, it is finished at once.
    pub fn abandon_request_typed(&mut self, ticket: &TurnTicket) -> (r: Abandonment)
        ensures
            old(self).abandoned(*ticket, r, *final(self)),
    {
        if !self.turn.is_open_for(self.connection_id, ticket) {
            return Abandonment::NotCurrent;
        }
        self.pending.remove(&ticket.request_id());
        match self.begin_cancel(ticket) {
            Ok(notification) => Abandonment::Cancel { notification },
            Err(_) => {
                self.turn.finish(self.connection_id, ticket);
                Abandonment::Done
            },
        }
    }

    /// Finishes a request that was abandoned, once its cancellation was written or failed.
    pub fn abandon_finished(&mut self, ticket: &TurnTicket, written: bool)
        ensures
            final(self).turn.phase == if old(self).turn.phase.named_by(
                old(self).connection_id,
                *ticket,
            ) {
                (TurnPhase::Finished { request_id: ticket.request() })
            } else {
                old(self).turn.phase
            },
            *final(self) == (AcpConnection {
                turn: final(self).turn,
                poisoned: old(self).poisoned || !written,
                ..*old(self)
            }),
    {
        if !written {
            self.cancel_write_failed(ticket);
        }
        self.turn.finish(self.connection_id, ticket);
    }

    /// Drops the request with the given id on this connection.
    pub fn abandon_request(&mut self, request_id: u64) -> (r: (TurnTicket, Abandonment))
        ensures
            r.0.connection() == old(self).connection_id,
            r.0.request() == request_id,
            old(self).abandoned(r.0, r.1, *final(self)),
    {
        let ticket = TurnTicket::new(self.connection_id, request_id);
        let abandonment = self.abandon_request_typed(&ticket);
        (ticket, abandonment)
    }

    /// Consumes the mark that the session was started anew.
    pub fn take_session_reset(&mut self) -> (r: bool)
        ensures
            r == old(self).session_reset,
            *final(self) == (AcpConnection { session_reset: false, ..*old(self) }),
    {
        let reset = self.session_reset;
        self.session_reset = false;
        reset
    }

    /// Takes the settings that the agent announced during a turn.
    pub fn update_config_options(&mut self, options: Vec<ConfigOption>)
        ensures
            *final(self) == (AcpConnection { config_options: options, ..*old(self) }),
    {
        self.config_options = options;
    }

    /// Whether the connection can still be used.
    pub fn alive(&self) -> (r: bool)
        ensures
            r == (!self.poisoned && !self.reader_finished),
    {
        !self.poisoned && !self.reader_finished
    }
}

/// The parameters that open the protocol.
pub open spec fn initialize_params() -> json::JsonModel {
    json::JsonModel::Object(
        seq![
            ("protocolVersion"@, json::JsonModel::Integer(1)),
            ("clientCapabilities"@, json::JsonModel::Object(Seq::empty())),
            (
                "clientInfo"@,
                json::JsonModel::Object(
                    seq![
                        ("name"@, json::JsonModel::Text("openab"@)),
                        ("version"@, json::JsonModel::Text("0.1.0"@)),
                    ],
                ),
            ),
        ],
    )
}

/// The parameters of a new session.
pub open spec fn session_new_params(cwd: Seq<char>) -> json::JsonModel {
    json::JsonModel::Object(
        seq![
            ("cwd"@, json::JsonModel::Text(cwd)),
            ("mcpServers"@, json::JsonModel::List(Seq::empty())),
        ],
    )
}

/// The parameters that resume a session.
pub open spec fn session_load_params(session_id: Seq<char>, cwd: Seq<char>) -> json::JsonModel {
    json::JsonModel::Object(
        seq![
            ("sessionId"@, json::JsonModel::Text(session_id)),
            ("cwd"@, json::JsonModel::Text(cwd)),
            ("mcpServers"@, json::JsonModel::List(Seq::empty())),
        ],
    )
}

/// The parameters that choose a setting.
pub open spec fn set_option_params(
    session_id: Seq<char>,
    config_id: Seq<char>,
    value: Seq<char>,
) -> json::JsonModel {
    json::JsonModel::Object(
        seq![
            ("sessionId"@, json::JsonModel::Text(session_id)),
            ("configId"@, json::JsonModel::Text(config_id)),
            ("value"@, json::JsonModel::Text(value)),
        ],
    )
}

/// The slash command that chooses a setting of an agent without such a request.
pub open spec fn option_command(config_id: Seq<char>, value: Seq<char>) -> Seq<char> {
    "/"@ + config_id + " "@ + value
}

/// The parameters of the prompt that sends a slash command.
pub open spec fn command_params(session_id: Seq<char>, command: Seq<char>) -> json::JsonModel {
    json::JsonModel::Object(
        seq![
            ("sessionId"@, json::JsonModel::Text(session_id)),
            (
                "prompt"@,
                json::JsonModel::List(
                    seq![
                        json::JsonModel::Object(
                            seq![
                                ("type"@, json::JsonModel::Text("text"@)),
                                ("text"@, json::JsonModel::Text(command)),
                            ],
                        ),
                    ],
                ),
            ),
        ],
    )
}

/// The result of a response.
pub open spec fn result_model(message: JsonRpcMessage) -> Option<json::JsonModel> {
    match message.result {
        Some(result) => Some(result@),
        None => None,
    }
}

/// Whether an agent says in its answer to `initialize` that it can resume sessions.
pub open spec fn says_load_session(result: Option<json::JsonModel>) -> bool {
    match result {
        Some(r) => match r.field("agentCapabilities"@) {
            Some(capabilities) => match capabilities.field("loadSession"@) {
                Some(value) => value.boolean() == Some(true),
                None => false,
            },
            None => false,
        },
        None => false,
    }
}

/// The settings by their names, each with what is chosen.
pub open spec fn option_models(options: Seq<ConfigOption>) -> Seq<(Seq<char>, Seq<char>)> {
    options.map_values(|o: ConfigOption| (o.id@, o.current_value@))
}

/// The settings after one of them was chosen by a slash command.
pub open spec fn chosen(
    options: Seq<(Seq<char>, Seq<char>)>,
    config_id: Seq<char>,
    value: Seq<char>,
) -> Seq<(Seq<char>, Seq<char>)> {
    options.map_values(
        |o: (Seq<char>, Seq<char>)|
            if o.0 == config_id {
                (o.0, value)
            } else {
                o
            },
    )
}

/// Whether a message asks for a permission.
pub open spec fn asks_permission(message: JsonRpcMessage) -> bool {
    message.method matches Some(method) && method@ == "session/request_permission"@
}

/// The parameters of a message.
pub open spec fn params_model(message: JsonRpcMessage) -> Option<json::JsonModel> {
    match message.params {
        Some(params) => Some(params@),
        None => None,
    }
}

impl AcpConnection {
    /// Decides what happens to a message from the agent. A permission request is answered at
    /// once. A response goes to the request that waits for it. Everything else, a response that
    /// nobody waits for any more among it, goes to the subscriber.
    pub fn route(&mut self, message: &JsonRpcMessage) -> (r: Routing)
        ensures
            if asks_permission(*message) {
                &&& *final(self) == *old(self)
                &&& match message.id {
                    Some(id) => {
                        &&& r matches Routing::Reply { id: to, outcome }
                        &&& to == id
                        &&& outcome@ == permission_response(params_model(*message))
                    },
                    None => r is Drop,
                }
            } else if message.id is Some && old(self).pending@.contains(message.id->0) {
                &&& r == (Routing::Resolve {
                    id: message.id->0,
                    forward: old(self).subscribed,
                })
                &&& final(self).pending@ == old(self).pending@.remove(message.id->0)
                &&& *final(self) == (AcpConnection { pending: final(self).pending, ..*old(self) })
            } else {
                &&& *final(self) == *old(self)
                &&& r == if old(self).subscribed {
                    Routing::Forward
                } else {
                    Routing::Drop
                }
            },
    {
        let permission = match &message.method {
            Some(method) => text::str_eq(method.as_str(), "session/request_permission"),
            None => false,
        };
        if permission {
            return match message.id {
                Some(id) => Routing::Reply {
                    id,
                    outcome: build_permission_response(message.params.as_ref()),
                },
                None => Routing::Drop,
            };
        }
        if let Some(id) = message.id {
            if self.pending.contains(&id) {
                self.pending.remove(&id);
                return Routing::Resolve { id, forward: self.subscribed };
            }
        }
        if self.subscribed {
            Routing::Forward
        } else {
            Routing::Drop
        }
    }

    /// The error that every request still waiting is answered with when the connection closes.
    pub fn closed_error() -> (r: JsonRpcMessage)
        ensures
            r.id is None,
            r.method is None,
            r.result is None,
            r.params is None,
            r.error matches Some(e) && e.code == -1 && e.message@ == "connection closed"@
                && e.data is None,
    {
        JsonRpcMessage {
            id: None,
            method: None,
            result: None,
            error: Some(
                JsonRpcError {
                    code: -1,
                    message: String::from_str("connection closed"),
                    data: None,
                },
            ),
            params: None,
        }
    }

    /// Records that the agent closed its end: nothing waits any more and nobody is subscribed.
    pub fn reader_closed(&mut self)
        ensures
            final(self).pending@ == Set::<u64>::empty(),
            *final(self) == (AcpConnection {
                pending: final(self).pending,
                subscribed: false,
                reader_finished: true,
                ..*old(self)
            }),
    {
        self.pending.clear();
        self.subscribed = false;
        self.reader_finished = true;
    }

    /// The request that opens the protocol.
    pub fn initialize(&mut self) -> (r: JsonRpcRequest)
        ensures
            r.id == old(self).next_id,
            r.method@ == "initialize"@,
            r.params@ == initialize_params(),
            final(self).pending@ == old(self).pending@.insert(r.id),
            *final(self) == (AcpConnection {
                next_id: following_id(r.id),
                pending: final(self).pending,
                ..*old(self)
            }),
    {
        let capabilities: Vec<Member> = Vec::new();
        assert(json::member_models(capabilities@) =~= Seq::empty());
        self.request(
            "initialize",
            Json::object3(
                "protocolVersion",
                Json::Integer(1),
                "clientCapabilities",
                Json::object(capabilities),
                "clientInfo",
                Json::object2("name", Json::string("openab"), "version", Json::string("0.1.0")),
            ),
        )
    }

    /// Takes the answer to `initialize`.
    pub fn initialized(&mut self, response: &JsonRpcMessage)
        ensures
            *final(self) == (AcpConnection {
                supports_load_session: says_load_session(result_model(*response)),
                ..*old(self)
            }),
    {
        self.supports_load_session = match &response.result {
            Some(result) => match result.get("agentCapabilities") {
                Some(capabilities) => match capabilities.get("loadSession") {
                    Some(value) => match value.as_bool() {
                        Some(supported) => supported,
                        None => false,
                    },
                    None => false,
                },
                None => false,
            },
            None => false,
        };
    }

    /// The request for a new session.
    pub fn session_new(&mut self, cwd: &str) -> (r: JsonRpcRequest)
        ensures
            r.id == old(self).next_id,
            r.method@ == "session/new"@,
            r.params@ == session_new_params(cwd@),
            final(self).pending@ == old(self).pending@.insert(r.id),
            *final(self) == (AcpConnection {
                next_id: following_id(r.id),
                pending: final(self).pending,
                ..*old(self)
            }),
    {
        let servers: Vec<Json> = Vec::new();
        assert(json::item_models(servers@) =~= Seq::empty());
        self.request(
            "session/new",
            Json::object2("cwd", Json::string(cwd), "mcpServers", Json::list(servers)),
        )
    }

    /// Takes the answer to a request for a new session, with the settings that it lists.
    pub fn session_created(&mut self, response: &JsonRpcMessage, options: Vec<ConfigOption>) -> (r:
        Result<String, String>)
        ensures
            match result_model(*response) {
                Some(result) => match result.text_field("sessionId"@) {
                    Some(id) => {
                        &&& r matches Ok(session_id)
                        &&& session_id@ == id
                        &&& *final(self) == (AcpConnection {
                            acp_session_id: Some(session_id),
                            config_options: options,
                            ..*old(self)
                        })
                    },
                    None => {
                        &&& r matches Err(e)
                        &&& e@ == "no sessionId in session/new response"@
                        &&& *final(self) == *old(self)
                    },
                },
                None => {
                    &&& r matches Err(e)
                    &&& e@ == "no sessionId in session/new response"@
                    &&& *final(self) == *old(self)
                },
            },
    {
        let found = match &response.result {
            Some(result) => result.get_str("sessionId"),
            None => None,
        };
        match found {
            Some(id) => {
                let session_id = String::from_str(id);
                self.acp_session_id = Some(session_id.clone());
                self.config_options = options;
                Ok(session_id)
            },
            None => Err(String::from_str("no sessionId in session/new response")),
        }
    }

    /// The request that resumes a session.
    pub fn session_load(&mut self, session_id: &str, cwd: &str) -> (r: JsonRpcRequest)
        ensures
            r.id == old(self).next_id,
            r.method@ == "session/load"@,
            r.params@ == session_load_params(session_id@, cwd@),
            final(self).pending@ == old(self).pending@.insert(r.id),
            *final(self) == (AcpConnection {
                next_id: following_id(r.id),
                pending: final(self).pending,
                ..*old(self)
            }),
    {
        let servers: Vec<Json> = Vec::new();
        assert(json::item_models(servers@) =~= Seq::empty());
        self.request(
            "session/load",
            Json::object3(
                "sessionId",
                Json::string(session_id),
                "cwd",
                Json::string(cwd),
                "mcpServers",
                Json::list(servers),
            ),
        )
    }

    /// Takes the answer to a request that resumes a session, with the settings that it lists. Any
    /// answer but an error is accepted.
    pub fn session_loaded(
        &mut self,
        session_id: &str,
        response: &JsonRpcMessage,
        options: Vec<ConfigOption>,
    ) -> (r: Result<(), String>)
        ensures
            if response.error is Some {
                &&& r matches Err(e)
                &&& e@ == "session/load rejected"@
                &&& *final(self) == *old(self)
            } else {
                &&& r is Ok
                &&& final(self).acp_session_id matches Some(id)
                &&& id@ == session_id@
                &&& *final(self) == (AcpConnection {
                    acp_session_id: final(self).acp_session_id,
                    config_options: if response.result is Some {
                        options
                    } else {
                        old(self).config_options
                    },
                    ..*old(self)
                })
            },
    {
        if response.error.is_some() {
            return Err(String::from_str("session/load rejected"));
        }
        self.acp_session_id = Some(String::from_str(session_id));
        if response.result.is_some() {
            self.config_options = options;
        }
        Ok(())
    }

    /// The request that chooses a setting.
    pub fn set_config_option(&mut self, config_id: &str, value: &str) -> (r: Result<
        JsonRpcRequest,
        String,
    >)
        ensures
            match old(self).acp_session_id {
                Some(session_id) => {
                    &&& r matches Ok(request)
                    &&& request.id == old(self).next_id
                    &&& request.method@ == "session/set_config_option"@
                    &&& request.params@ == set_option_params(session_id@, config_id@, value@)
                    &&& final(self).pending@ == old(self).pending@.insert(request.id)
                    &&& *final(self) == (AcpConnection {
                        next_id: following_id(request.id),
                        pending: final(self).pending,
                        ..*old(self)
                    })
                },
                None => {
                    &&& r matches Err(e)
                    &&& e@ == "no session"@
                    &&& *final(self) == *old(self)
                },
            },
    {
        let session_id = match &self.acp_session_id {
            Some(session_id) => session_id.clone(),
            None => return Err(String::from_str("no session")),
        };
        Ok(
            self.request(
                "session/set_config_option",
                Json::object3(
                    "sessionId",
                    Json::string(session_id.as_str()),
                    "configId",
                    Json::string(config_id),
                    "value",
                    Json::string(value),
                ),
            ),
        )
    }

    /// Takes the answer to a request that chose a setting, with the settings that it lists.
    pub fn config_option_set(&mut self, response: &JsonRpcMessage, options: Vec<ConfigOption>)
        ensures
            *final(self) == (AcpConnection {
                config_options: if response.result is Some {
                    options
                } else {
                    old(self).config_options
                },
                ..*old(self)
            }),
    {
        if response.result.is_some() {
            self.config_options = options;
        }
    }

    /// The prompt that chooses a setting of an agent that refused the request: a slash command.
    pub fn set_config_option_fallback(&mut self, config_id: &str, value: &str) -> (r: Result<
        JsonRpcRequest,
        String,
    >)
        ensures
            match old(self).acp_session_id {
                Some(session_id) => {
                    &&& r matches Ok(request)
                    &&& request.id == old(self).next_id
                    &&& request.method@ == "session/prompt"@
                    &&& request.params@ == command_params(
                        session_id@,
                        option_command(config_id@, value@),
                    )
                    &&& final(self).pending@ == old(self).pending@.insert(request.id)
                    &&& *final(self) == (AcpConnection {
                        next_id: following_id(request.id),
                        pending: final(self).pending,
                        ..*old(self)
                    })
                },
                None => {
                    &&& r matches Err(e)
                    &&& e@ == "no session"@
                    &&& *final(self) == *old(self)
                },
            },
    {
        let session_id = match &self.acp_session_id {
            Some(session_id) => session_id.clone(),
            None => return Err(String::from_str("no session")),
        };
        let mut command = String::from_str("/");
        command.append(config_id);
        command.append(" ");
        command.append(value);
        let mut blocks: Vec<Json> = Vec::new();
        let block = Json::object2(
            "type",
            Json::string("text"),
            "text",
            Json::string(command.as_str()),
        );
        let ghost model = block@;
        blocks.push(block);
        assert(json::item_models(blocks@) =~= seq![model]);
        Ok(
            self.request(
                "session/prompt",
                Json::object2(
                    "sessionId",
                    Json::string(session_id.as_str()),
                    "prompt",
                    Json::list(blocks),
                ),
            ),
        )
    }

    /// Records the setting that a slash command chose.
    pub fn config_option_chosen(&mut self, config_id: &str, value: &str)
        ensures
            option_models(final(self).config_options@) == chosen(
                option_models(old(self).config_options@),
                config_id@,
                value@,
            ),
            *final(self) == (AcpConnection {
                config_options: final(self).config_options,
                ..*old(self)
            }),
    {
        let mut updated: Vec<ConfigOption> = Vec::new();
        let mut i: usize = 0;
        let ghost options = self.config_options@;
        while i < self.config_options.len()
            invariant
                i <= self.config_options@.len(),
                self.config_options@ == options,
                *self == *old(self),
                updated@.len() == i,
                forall|j: int|
                    0 <= j < i ==> (
                    #[trigger] updated@[j].id@,
                    updated@[j].current_value@,
                    ) == chosen(option_models(options), config_id@, value@)[j],
            decreases options.len() - i,
        {
            let option = &self.config_options[i];
            let current_value = if text::str_eq(option.id.as_str(), config_id) {
                String::from_str(value)
            } else {
                option.current_value.clone()
            };
            updated.push(ConfigOption { id: option.id.clone(), current_value });
            i = i + 1;
        }
        assert(option_models(updated@) =~= chosen(option_models(options), config_id@, value@));
        self.config_options = updated;
    }
}

/// A ticket of an earlier turn does not name a later one: once its connection has handed out a
/// later request id, it can neither cancel nor finish the turn that has it.
pub proof fn lemma_stale_ticket_is_powerless(
    connection_id: u128,
    ticket: TurnTicket,
    later: TurnPhase,
)
    requires
        later.request() matches Some(request_id) && ticket.request() < request_id,
    ensures
        !later.named_by(connection_id, ticket),
        later.cancel_rejection(connection_id, ticket) == if ticket.connection() == connection_id {
            Some(CancelRejection::StaleRequest)
        } else {
            Some(CancelRejection::DifferentConnection)
        },
{
}

} // verus!
