//! Restricted LLM interpretation for one finalized Discord voice turn.
//!
//! The interpreter returns a structured semantic decision. It is not given any tools; the voice
//! broker remains the only component that changes intent state or dispatches confirmed work.

use vstd::prelude::*;
use vstd::string::*;
use crate::json;
use crate::json::{Json, Member};
use crate::text;
use crate::tts;

verus! {

/// The longest response body that is read.
pub const MAX_RESPONSE_BYTES: usize = 1_048_576;

pub const MAX_SPEECH_CHARS: usize = 500;

pub const MAX_DESTINATION_CHARS: usize = 100;

pub const MAX_TASK_CHARS: usize = 1_500;

/// What the voice dialogue waits for.
#[derive(Debug, Clone, PartialEq, Eq)]
pub enum VoiceTurnPhase {
    Idle,
    WaitingConfirmation { destination: String, task: String },
}

/// What one voice turn is interpreted from.
#[derive(Debug, Clone, PartialEq, Eq)]
pub struct VoiceTurnInput {
    pub transcript: String,
    pub phase: VoiceTurnPhase,
    pub available_destinations: Vec<String>,
}

/// What one voice turn means.
#[derive(Debug, Clone, PartialEq, Eq)]
pub enum VoiceTurnDecision {
    Ignore,
    Reply { speech: String },
    Propose { destination: String, task: String },
    Revise { destination: String, task: String },
    Accept,
    Reject,
    Cancel,
}

/// Settings of the interpreter.
#[derive(Debug, Clone, PartialEq, Eq)]
pub struct VoiceIntentInterpreterConfig {
    pub enabled: bool,
    pub api_key: String,
    pub model: String,
    pub base_url: String,
    pub request_timeout_seconds: u64,
}

/// The fields of a decision that hold text.
#[derive(Debug, Clone, Copy, PartialEq, Eq, Structural)]
pub enum DecisionField {
    Speech,
    Destination,
    Task,
}

impl DecisionField {
    pub open spec fn text(self) -> Seq<char> {
        match self {
            DecisionField::Speech => "speech"@,
            DecisionField::Destination => "destination"@,
            DecisionField::Task => "task"@,
        }
    }

    fn name(&self) -> (s: &'static str)
        ensures
            s@ == self.text(),
    {
        match self {
            DecisionField::Speech => "speech",
            DecisionField::Destination => "destination",
            DecisionField::Task => "task",
        }
    }
}

/// Why there is no decision.
#[derive(Debug, Clone, Copy, PartialEq, Eq, Structural)]
pub enum InterpreterError {
    Disabled,
    EmptyApiKey,
    EmptyModel,
    EmptyBaseUrl,
    ZeroTimeout,
    ResponseTooLarge,
    FailedStatus,
    InvalidJson,
    MissingOutputText,
    EmptyField(DecisionField),
    OversizedField(DecisionField),
}

impl InterpreterError {
    /// The text that describes the error.
    pub open spec fn text(self) -> Seq<char> {
        match self {
            InterpreterError::Disabled => "voice turn interpreter is disabled"@,
            InterpreterError::EmptyApiKey => "voice turn interpreter API key is empty"@,
            InterpreterError::EmptyModel => "voice turn interpreter model is empty"@,
            InterpreterError::EmptyBaseUrl => "voice turn interpreter base URL is empty"@,
            InterpreterError::ZeroTimeout => {
                "voice turn interpreter timeout must be greater than zero"@
            },
            InterpreterError::ResponseTooLarge => {
                "voice turn interpreter response exceeded size limit"@
            },
            InterpreterError::FailedStatus => "voice turn interpreter returned a failure"@,
            InterpreterError::InvalidJson => "voice turn interpreter returned invalid JSON"@,
            InterpreterError::MissingOutputText => {
                "voice turn interpreter response did not contain output_text"@
            },
            InterpreterError::EmptyField(field) => {
                "voice turn interpreter returned an empty "@ + field.text()
            },
            InterpreterError::OversizedField(field) => {
                "voice turn interpreter returned an oversized "@ + field.text()
            },
        }
    }

    /// Describes the error.
    pub fn message(&self) -> (s: String)
        ensures
            s@ == self.text(),
    {
        let fixed = match self {
            InterpreterError::Disabled => "voice turn interpreter is disabled",
            InterpreterError::EmptyApiKey => "voice turn interpreter API key is empty",
            InterpreterError::EmptyModel => "voice turn interpreter model is empty",
            InterpreterError::EmptyBaseUrl => "voice turn interpreter base URL is empty",
            InterpreterError::ZeroTimeout => {
                "voice turn interpreter timeout must be greater than zero"
            },
            InterpreterError::ResponseTooLarge => {
                "voice turn interpreter response exceeded size limit"
            },
            InterpreterError::FailedStatus => "voice turn interpreter returned a failure",
            InterpreterError::InvalidJson => "voice turn interpreter returned invalid JSON",
            InterpreterError::MissingOutputText => {
                "voice turn interpreter response did not contain output_text"
            },
            InterpreterError::EmptyField(field) => {
                return String::from_str("voice turn interpreter returned an empty ").concat(
                    field.name(),
                );
            },
            InterpreterError::OversizedField(field) => {
                return String::from_str("voice turn interpreter returned an oversized ").concat(
                    field.name(),
                );
            },
        };
        String::from_str(fixed)
    }
}

/// What the model says to do.
#[derive(Debug, Clone, Copy, PartialEq, Eq, Structural)]
pub enum RawVoiceTurnAction {
    Ignore,
    Reply,
    Propose,
    Revise,
    Accept,
    Reject,
    Cancel,
}

/// A decision as the model returned it, before its bounds were checked.
#[derive(Debug, Clone, PartialEq, Eq)]
pub struct RawVoiceTurnDecision {
    pub action: RawVoiceTurnAction,
    pub destination: String,
    pub task: String,
    pub speech: String,
}

/// What is wrong with a text that must be there and must not be longer than `max_chars`.
pub open spec fn bound_error(field: DecisionField, value: Seq<char>, max_chars: nat) -> Option<
    InterpreterError,
> {
    if value.len() == 0 {
        Some(InterpreterError::EmptyField(field))
    } else if value.len() > max_chars {
        Some(InterpreterError::OversizedField(field))
    } else {
        None
    }
}

impl RawVoiceTurnDecision {
    /// What is wrong with the decision. Fields that its action does not use are not looked at.
    pub open spec fn error(self) -> Option<InterpreterError> {
        match self.action {
            RawVoiceTurnAction::Reply => bound_error(
                DecisionField::Speech,
                text::trimmed_white(self.speech@),
                500,
            ),
            RawVoiceTurnAction::Propose | RawVoiceTurnAction::Revise => match bound_error(
                DecisionField::Destination,
                text::trimmed_white(self.destination@),
                100,
            ) {
                Some(e) => Some(e),
                None => bound_error(DecisionField::Task, text::trimmed_white(self.task@), 1500),
            },
            _ => None,
        }
    }

    /// What the decision comes to.
    pub open spec fn yields(self, decision: VoiceTurnDecision) -> bool {
        let destination_text = text::trimmed_white(self.destination@);
        let task_text = text::trimmed_white(self.task@);
        match self.action {
            RawVoiceTurnAction::Ignore => decision is Ignore,
            RawVoiceTurnAction::Reply => decision matches VoiceTurnDecision::Reply { speech }
                && speech@ == text::trimmed_white(self.speech@),
            RawVoiceTurnAction::Propose => decision matches VoiceTurnDecision::Propose {
                destination,
                task,
            } && destination@ == destination_text && task@ == task_text,
            RawVoiceTurnAction::Revise => decision matches VoiceTurnDecision::Revise {
                destination,
                task,
            } && destination@ == destination_text && task@ == task_text,
            RawVoiceTurnAction::Accept => decision is Accept,
            RawVoiceTurnAction::Reject => decision is Reject,
            RawVoiceTurnAction::Cancel => decision is Cancel,
        }
    }

    /// Checks the bounds of the decision and drops the fields that its action does not use.
    pub fn validate(self) -> (r: Result<VoiceTurnDecision, InterpreterError>)
        ensures
            match self.error() {
                Some(e) => r == Err::<VoiceTurnDecision, InterpreterError>(e),
                None => r matches Ok(decision) && self.yields(decision),
            },
    {
        let destination = tts::trimmed_string(self.destination.as_str());
        let task = tts::trimmed_string(self.task.as_str());
        let speech = tts::trimmed_string(self.speech.as_str());
        match self.action {
            RawVoiceTurnAction::Ignore => Ok(VoiceTurnDecision::Ignore),
            RawVoiceTurnAction::Reply => {
                match ensure_bounded_nonempty(
                    DecisionField::Speech,
                    speech.as_str(),
                    MAX_SPEECH_CHARS,
                ) {
                    Ok(()) => Ok(VoiceTurnDecision::Reply { speech }),
                    Err(e) => Err(e),
                }
            },
            RawVoiceTurnAction::Propose => match ensure_work(
                destination.as_str(),
                task.as_str(),
            ) {
                Ok(()) => Ok(VoiceTurnDecision::Propose { destination, task }),
                Err(e) => Err(e),
            },
            RawVoiceTurnAction::Revise => match ensure_work(destination.as_str(), task.as_str()) {
                Ok(()) => Ok(VoiceTurnDecision::Revise { destination, task }),
                Err(e) => Err(e),
            },
            RawVoiceTurnAction::Accept => Ok(VoiceTurnDecision::Accept),
            RawVoiceTurnAction::Reject => Ok(VoiceTurnDecision::Reject),
            RawVoiceTurnAction::Cancel => Ok(VoiceTurnDecision::Cancel),
        }
    }
}

/// Checks that a text is there and not too long.
pub fn ensure_bounded_nonempty(field: DecisionField, value: &str, max_chars: usize) -> (r: Result<
    (),
    InterpreterError,
>)
    ensures
        r == match bound_error(field, value@, max_chars as nat) {
            Some(e) => Err::<(), InterpreterError>(e),
            None => Ok::<(), InterpreterError>(()),
        },
{
    let count = value.unicode_len();
    if count == 0 {
        return Err(InterpreterError::EmptyField(field));
    }
    if count > max_chars {
        return Err(InterpreterError::OversizedField(field));
    }
    Ok(())
}

fn ensure_work(destination: &str, task: &str) -> (r: Result<(), InterpreterError>)
    ensures
        r == match bound_error(DecisionField::Destination, destination@, 100) {
            Some(e) => Err::<(), InterpreterError>(e),
            None => match bound_error(DecisionField::Task, task@, 1500) {
                Some(e) => Err::<(), InterpreterError>(e),
                None => Ok::<(), InterpreterError>(()),
            },
        },
{
    match ensure_bounded_nonempty(DecisionField::Destination, destination, MAX_DESTINATION_CHARS) {
        Ok(()) => ensure_bounded_nonempty(DecisionField::Task, task, MAX_TASK_CHARS),
        Err(e) => Err(e),
    }
}

/// The text of the first part of a message that is marked as output text.
pub open spec fn part_output(parts: Seq<json::JsonModel>) -> Option<Seq<char>>
    decreases parts.len(),
{
    if parts.len() == 0 {
        None
    } else if parts[0].text_field("type"@) == Some("output_text"@) {
        parts[0].text_field("text"@)
    } else {
        part_output(parts.skip(1))
    }
}

/// The output text of one item of a response.
pub open spec fn item_output(item: json::JsonModel) -> Option<Seq<char>> {
    match item.field("content"@) {
        Some(content) => match content.items() {
            Some(parts) => part_output(parts),
            None => None,
        },
        None => None,
    }
}

/// The output text of the first item that has any.
pub open spec fn first_output(items: Seq<json::JsonModel>) -> Option<Seq<char>>
    decreases items.len(),
{
    if items.len() == 0 {
        None
    } else {
        match item_output(items[0]) {
            Some(output) => Some(output),
            None => first_output(items.skip(1)),
        }
    }
}

/// The output text of a response.
pub open spec fn output_text(response: json::JsonModel) -> Option<Seq<char>> {
    match response.field("output"@) {
        Some(output) => match output.items() {
            Some(items) => first_output(items),
            None => None,
        },
        None => None,
    }
}

fn find_part_output(parts: &Vec<Json>) -> (r: Option<&str>)
    ensures
        text::opt_str(r) == part_output(json::item_models(parts@)),
{
    let ghost models = json::item_models(parts@);
    let mut i: usize = 0;
    assert(models.skip(0) =~= models);
    while i < parts.len()
        invariant
            i <= parts@.len(),
            models == json::item_models(parts@),
            part_output(models) == part_output(models.skip(i as int)),
        decreases parts@.len() - i,
    {
        assert(models.skip(i as int)[0] == models[i as int]);
        assert(models.skip(i as int).skip(1) =~= models.skip(i + 1));
        let is_output = match parts[i].get_str("type") {
            Some(kind) => text::str_eq(kind, "output_text"),
            None => false,
        };
        if is_output {
            return parts[i].get_str("text");
        }
        i = i + 1;
    }
    None
}

/// Finds the output text of a response.
pub fn extract_output_text(response: &Json) -> (r: Option<&str>)
    ensures
        text::opt_str(r) == output_text(response@),
{
    let items = match response.get("output") {
        Some(output) => match output.as_array() {
            Some(items) => items,
            None => return None,
        },
        None => return None,
    };
    let ghost models = json::item_models(items@);
    let mut i: usize = 0;
    assert(models.skip(0) =~= models);
    while i < items.len()
        invariant
            i <= items@.len(),
            models == json::item_models(items@),
            output_text(response@) == first_output(models),
            first_output(models) == first_output(models.skip(i as int)),
        decreases items@.len() - i,
    {
        assert(models.skip(i as int)[0] == models[i as int]);
        assert(models.skip(i as int).skip(1) =~= models.skip(i + 1));
        let output = match items[i].get("content") {
            Some(content) => match content.as_array() {
                Some(parts) => find_part_output(parts),
                None => None,
            },
            None => None,
        };
        if output.is_some() {
            return output;
        }
        i = i + 1;
    }
    None
}

/// The schema of one field that holds text.
pub open spec fn string_schema() -> json::JsonModel {
    json::JsonModel::Object(seq![("type"@, json::JsonModel::Text("string"@))])
}

/// The schema that the model's decision has to match.
pub open spec fn schema() -> json::JsonModel {
    json::JsonModel::Object(
        seq![
            ("type"@, json::JsonModel::Text("object"@)),
            (
                "properties"@,
                json::JsonModel::Object(
                    seq![
                        (
                            "action"@,
                            json::JsonModel::Object(
                                seq![
                                    ("type"@, json::JsonModel::Text("string"@)),
                                    (
                                        "enum"@,
                                        json::text_list(
                                            seq![
                                                "ignore",
                                                "reply",
                                                "propose",
                                                "revise",
                                                "accept",
                                                "reject",
                                                "cancel",
                                            ],
                                        ),
                                    ),
                                ],
                            ),
                        ),
                        ("destination"@, string_schema()),
                        ("task"@, string_schema()),
                        ("speech"@, string_schema()),
                    ],
                ),
            ),
            ("required"@, json::text_list(seq!["action", "destination", "task", "speech"])),
            ("additionalProperties"@, json::JsonModel::Bool(false)),
        ],
    )
}

fn string_type() -> (r: Json)
    ensures
        r@ == string_schema(),
{
    Json::object1("type", Json::string("string"))
}

/// Builds the schema that the model's decision has to match.
pub fn decision_schema() -> (r: Json)
    ensures
        r@ == schema(),
{
    let actions = ["ignore", "reply", "propose", "revise", "accept", "reject", "cancel"];
    assert(actions@ =~= seq![
        "ignore",
        "reply",
        "propose",
        "revise",
        "accept",
        "reject",
        "cancel",
    ]);
    let required = ["action", "destination", "task", "speech"];
    assert(required@ =~= seq!["action", "destination", "task", "speech"]);
    let action = Json::object2(
        "type",
        Json::string("string"),
        "enum",
        Json::string_list(actions.as_slice()),
    );
    Json::object4(
        "type",
        Json::string("object"),
        "properties",
        Json::object4(
            "action",
            action,
            "destination",
            string_type(),
            "task",
            string_type(),
            "speech",
            string_type(),
        ),
        "required",
        Json::string_list(required.as_slice()),
        "additionalProperties",
        Json::Bool(false),
    )
}

impl VoiceIntentInterpreterConfig {
    /// Why the interpreter cannot run with these settings.
    pub open spec fn error(self) -> Option<InterpreterError> {
        if !self.enabled {
            Some(InterpreterError::Disabled)
        } else if text::blank(self.api_key@) {
            Some(InterpreterError::EmptyApiKey)
        } else if text::blank(self.model@) {
            Some(InterpreterError::EmptyModel)
        } else if text::blank(self.base_url@) {
            Some(InterpreterError::EmptyBaseUrl)
        } else if self.request_timeout_seconds == 0 {
            Some(InterpreterError::ZeroTimeout)
        } else {
            None
        }
    }
}

/// Checks that the interpreter can run with the given settings.
pub fn config_for_runtime(config: &VoiceIntentInterpreterConfig) -> (r: Result<(), InterpreterError>)
    ensures
        r == match config.error() {
            Some(e) => Err::<(), InterpreterError>(e),
            None => Ok::<(), InterpreterError>(()),
        },
{
    if !config.enabled {
        return Err(InterpreterError::Disabled);
    }
    if text::is_blank(config.api_key.as_str()) {
        return Err(InterpreterError::EmptyApiKey);
    }
    if text::is_blank(config.model.as_str()) {
        return Err(InterpreterError::EmptyModel);
    }
    if text::is_blank(config.base_url.as_str()) {
        return Err(InterpreterError::EmptyBaseUrl);
    }
    if config.request_timeout_seconds == 0 {
        return Err(InterpreterError::ZeroTimeout);
    }
    Ok(())
}

/// An interpreter behind an OpenAI-compatible `/responses` endpoint.
#[derive(Debug, Clone, PartialEq, Eq)]
pub struct OpenAiVoiceTurnInterpreter {
    pub api_key: String,
    pub model: String,
    pub base_url: String,
    pub request_timeout_seconds: u64,
}

/// The body of a request, as it is sent. It asks for a decision that matches the schema and
/// offers no tools.
pub open spec fn request_model(model: Seq<char>, input: Seq<char>) -> json::JsonModel {
    json::JsonModel::Object(
        seq![
            ("model"@, json::JsonModel::Text(model)),
            ("store"@, json::JsonModel::Bool(false)),
            ("max_output_tokens"@, json::JsonModel::Integer(256)),
            ("instructions"@, json::JsonModel::Text(INTERPRETER_INSTRUCTIONS@)),
            ("input"@, json::JsonModel::Text(input)),
            (
                "text"@,
                json::JsonModel::Object(
                    seq![
                        (
                            "format"@,
                            json::JsonModel::Object(
                                seq![
                                    ("type"@, json::JsonModel::Text("json_schema"@)),
                                    ("name"@, json::JsonModel::Text("voice_turn_decision"@)),
                                    ("strict"@, json::JsonModel::Bool(true)),
                                    ("schema"@, schema()),
                                ],
                            ),
                        ),
                    ],
                ),
            ),
        ],
    )
}

impl OpenAiVoiceTurnInterpreter {
    pub fn new(config: &VoiceIntentInterpreterConfig) -> (r: Result<Self, InterpreterError>)
        ensures
            match config.error() {
                Some(e) => r == Err::<Self, InterpreterError>(e),
                None => r matches Ok(interpreter) && {
                    &&& interpreter.api_key@ == text::trimmed_white(config.api_key@)
                    &&& interpreter.model@ == text::trimmed_white(config.model@)
                    &&& interpreter.base_url@ == tts::base_url_of(config.base_url@)
                    &&& interpreter.request_timeout_seconds == config.request_timeout_seconds
                },
            },
    {
        match config_for_runtime(config) {
            Ok(()) => Ok(
                OpenAiVoiceTurnInterpreter {
                    api_key: tts::trimmed_string(config.api_key.as_str()),
                    model: tts::trimmed_string(config.model.as_str()),
                    base_url: tts::normalized_base_url(config.base_url.as_str()),
                    request_timeout_seconds: config.request_timeout_seconds,
                },
            ),
            Err(e) => Err(e),
        }
    }

    /// Where requests are posted to.
    pub fn url(&self) -> (r: String)
        ensures
            r@ == self.base_url@ + "/responses"@,
    {
        let base_url = self.base_url.clone();
        base_url.concat("/responses")
    }

    /// The body of a request for the given input, which is written as JSON.
    pub fn request_body(&self, input: &str) -> (r: Json)
        ensures
            r@ == request_model(self.model@, input@),
    {
        let format = Json::object4(
            "type",
            Json::string("json_schema"),
            "name",
            Json::string("voice_turn_decision"),
            "strict",
            Json::Bool(true),
            "schema",
            decision_schema(),
        );
        let mut members: Vec<Member> = Vec::new();
        members.push(Member::new("model", Json::string(self.model.as_str())));
        members.push(Member::new("store", Json::Bool(false)));
        members.push(Member::new("max_output_tokens", Json::Integer(256)));
        members.push(Member::new("instructions", Json::string(INTERPRETER_INSTRUCTIONS)));
        members.push(Member::new("input", Json::string(input)));
        members.push(Member::new("text", Json::object1("format", format)));
        assert(json::member_models(members@) =~= request_model(self.model@, input@)->Object_0);
        Json::object(members)
    }

    /// The decision that a response holds, still written as JSON.
    pub fn decision_text(response: &Json) -> (r: Result<&str, InterpreterError>)
        ensures
            match output_text(response@) {
                Some(output) => r matches Ok(s) && s@ == output,
                None => r == Err::<&str, InterpreterError>(InterpreterError::MissingOutputText),
            },
    {
        match extract_output_text(response) {
            Some(output) => Ok(output),
            None => Err(InterpreterError::MissingOutputText),
        }
    }
}

/// The decision that the body of a response holds, still written as JSON. The size of the body
/// is looked at before the status, and the status before what is in the body.
pub fn response_output(success: bool, body: &[u8]) -> (r: Result<String, InterpreterError>)
    ensures
        if body@.len() > MAX_RESPONSE_BYTES {
            r == Err::<String, InterpreterError>(InterpreterError::ResponseTooLarge)
        } else if !success {
            r == Err::<String, InterpreterError>(InterpreterError::FailedStatus)
        } else {
            match json::parsed_json(body@) {
                None => r == Err::<String, InterpreterError>(InterpreterError::InvalidJson),
                Some(response) => match output_text(response) {
                    None => r == Err::<String, InterpreterError>(
                        InterpreterError::MissingOutputText,
                    ),
                    Some(output) => r matches Ok(s) && s@ == output,
                },
            }
        },
{
    if body.len() > MAX_RESPONSE_BYTES {
        return Err(InterpreterError::ResponseTooLarge);
    }
    if !success {
        return Err(InterpreterError::FailedStatus);
    }
    let response = match json::parse_json(body) {
        Some(response) => response,
        None => return Err(InterpreterError::InvalidJson),
    };
    match OpenAiVoiceTurnInterpreter::decision_text(&response) {
        Ok(output) => Ok(String::from_str(output)),
        Err(e) => Err(e),
    }
}

/// What the model is told of the dialogue. The phase is an object with its name and, while a
/// confirmation is waited for, what is to be confirmed.
pub open spec fn phase_model(phase: VoiceTurnPhase) -> json::JsonModel {
    match phase {
        VoiceTurnPhase::Idle => json::JsonModel::Object(
            seq![("phase"@, json::JsonModel::Text("idle"@))],
        ),
        VoiceTurnPhase::WaitingConfirmation { destination, task } => json::JsonModel::Object(
            seq![
                ("phase"@, json::JsonModel::Text("waiting_confirmation"@)),
                ("destination"@, json::JsonModel::Text(destination@)),
                ("task"@, json::JsonModel::Text(task@)),
            ],
        ),
    }
}

/// What the model is told of a turn.
pub open spec fn turn_input_model(input: VoiceTurnInput) -> json::JsonModel {
    json::JsonModel::Object(
        seq![
            ("transcript"@, json::JsonModel::Text(input.transcript@)),
            ("phase"@, phase_model(input.phase)),
            (
                "available_destinations"@,
                json::JsonModel::List(
                    text::strings(input.available_destinations@).map_values(
                        |s: Seq<char>| json::JsonModel::Text(s),
                    ),
                ),
            ),
        ],
    )
}

fn phase_json(phase: &VoiceTurnPhase) -> (r: Json)
    ensures
        r@ == phase_model(*phase),
{
    match phase {
        VoiceTurnPhase::Idle => Json::object1("phase", Json::string("idle")),
        VoiceTurnPhase::WaitingConfirmation { destination, task } => Json::object3(
            "phase",
            Json::string("waiting_confirmation"),
            "destination",
            Json::string(destination.as_str()),
            "task",
            Json::string(task.as_str()),
        ),
    }
}

/// What the model is told of a turn. A request holds it written as JSON.
pub fn turn_input(input: &VoiceTurnInput) -> (r: Json)
    ensures
        r@ == turn_input_model(*input),
{
    let mut destinations: Vec<Json> = Vec::new();
    let mut i: usize = 0;
    while i < input.available_destinations.len()
        invariant
            i <= input.available_destinations@.len(),
            destinations@.len() == i,
            forall|j: int|
                0 <= j < i ==> (#[trigger] destinations@[j])@ == json::JsonModel::Text(
                    input.available_destinations@[j]@,
                ),
        decreases input.available_destinations@.len() - i,
    {
        destinations.push(Json::string(input.available_destinations[i].as_str()));
        i = i + 1;
    }
    assert(json::item_models(destinations@) =~= text::strings(
        input.available_destinations@,
    ).map_values(|s: Seq<char>| json::JsonModel::Text(s)));
    Json::object3(
        "transcript",
        Json::string(input.transcript.as_str()),
        "phase",
        phase_json(&input.phase),
        "available_destinations",
        Json::list(destinations),
    )
}

/// A request never offers the model a tool.
pub proof fn lemma_request_has_no_tools(model: Seq<char>, input: Seq<char>)
    ensures
        request_model(model, input).field("tools"@) is None,
        request_model(model, input).field("store"@) == Some(json::JsonModel::Bool(false)),
{
    reveal_strlit("tools");
    reveal_strlit("model");
    reveal_strlit("store");
    reveal_strlit("max_output_tokens");
    reveal_strlit("instructions");
    reveal_strlit("input");
    reveal_strlit("text");
    assert("tools"@[0] == 't' && "tools"@[1] == 'o');
    assert("text"@[1] == 'e');
    assert("model"@[0] == 'm' && "store"@[0] == 's');
    reveal_with_fuel(json::find_member, 7);
}

/// What the model is told.
pub const INTERPRETER_INSTRUCTIONS: &'static str = r#"
You are the dialogue policy for a hands-free coding assistant. The input is JSON
containing one finalized STT transcript, the current voice phase, and the exact
destinations that are available. Return only the schema-constrained decision.

You have no execution authority. Never claim that work has started or completed.
- ignore: filler, accidental speech, or speech that does not call for a response.
- reply: a short social/conversational response that needs no tools or research.
- propose: an actionable request or substantive question while idle. Preserve the
  user's intended task; destination must be "local" or one listed destination.
- accept/reject/cancel: resolve a pending confirmation only when that meaning is clear.
- revise: replace a pending task with the user's corrected meaning. Preserve the
  pending destination unless the user explicitly changes it.

Prefer ignore over replying to filler. Prefer propose over pretending to answer a
question that needs knowledge or tools. Keep speech natural, useful, and under two
short sentences. For fields unused by an action, return an empty string.
"#;

} // verus!
