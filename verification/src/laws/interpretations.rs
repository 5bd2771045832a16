//! The interpreter of voice turns: what it asks the model and what it takes for an answer.

use vstd::prelude::*;
use vstd::string::*;
use crate::discord_voice_interpreter;
use crate::discord_voice_interpreter::{
    DecisionField, InterpreterError, OpenAiVoiceTurnInterpreter, RawVoiceTurnDecision,
    VoiceIntentInterpreterConfig, VoiceTurnDecision, VoiceTurnInput,
};
use crate::json;
use crate::json::{Json, JsonModel};
use crate::text;
use crate::tts;

verus! {

/// Whether a text is there and is not too long, apart from the white space around it.
pub open spec fn fits(s: Seq<char>, max: nat) -> bool {
    0 < text::trimmed_white(s).len() <= max
}

/// A reply needs something to say, of at most 500 characters; work needs a destination of at most
/// 100 and a task of at most 1500. The other decisions need nothing.
pub proof fn lemma_decisions_are_complete(
    raw: RawVoiceTurnDecision,
    r: Result<VoiceTurnDecision, InterpreterError>,
)
    requires
        call_ensures(RawVoiceTurnDecision::validate, (raw,), r),
    ensures
        raw.action is Reply ==> (r is Ok <==> fits(raw.speech@, 500)),
        raw.action is Propose || raw.action is Revise ==> (r is Ok <==> fits(raw.destination@, 100)
            && fits(raw.task@, 1500)),
        raw.action is Ignore || raw.action is Accept || raw.action is Reject || raw.action
            is Cancel ==> r is Ok,
{
}

/// A decision is the action that was chosen, with its words as they are but for the white space
/// around them.
pub proof fn lemma_decisions_are_what_was_chosen(
    raw: RawVoiceTurnDecision,
    r: Result<VoiceTurnDecision, InterpreterError>,
)
    requires
        call_ensures(RawVoiceTurnDecision::validate, (raw,), r),
        r is Ok,
    ensures
        raw.action is Ignore <==> r->Ok_0 is Ignore,
        raw.action is Reply <==> r->Ok_0 is Reply,
        raw.action is Propose <==> r->Ok_0 is Propose,
        raw.action is Revise <==> r->Ok_0 is Revise,
        raw.action is Accept <==> r->Ok_0 is Accept,
        raw.action is Reject <==> r->Ok_0 is Reject,
        raw.action is Cancel <==> r->Ok_0 is Cancel,
        r->Ok_0 is Reply ==> r->Ok_0->speech@ == text::trimmed_white(raw.speech@),
        r->Ok_0 is Propose ==> r->Ok_0->Propose_destination@ == text::trimmed_white(
            raw.destination@,
        ) && r->Ok_0->Propose_task@ == text::trimmed_white(raw.task@),
        r->Ok_0 is Revise ==> r->Ok_0->Revise_destination@ == text::trimmed_white(raw.destination@)
            && r->Ok_0->Revise_task@ == text::trimmed_white(raw.task@),
{
}

/// What is missing from a decision, or too long in it, is named; the destination comes first.
pub proof fn lemma_incomplete_decisions_are_explained(
    raw: RawVoiceTurnDecision,
    r: Result<VoiceTurnDecision, InterpreterError>,
)
    requires
        call_ensures(RawVoiceTurnDecision::validate, (raw,), r),
    ensures
        raw.action is Reply && text::trimmed_white(raw.speech@).len() == 0 ==> r->Err_0
            == InterpreterError::EmptyField(DecisionField::Speech),
        raw.action is Reply && text::trimmed_white(raw.speech@).len() > 500 ==> r->Err_0
            == InterpreterError::OversizedField(DecisionField::Speech),
        raw.action is Propose || raw.action is Revise ==> {
            &&& text::trimmed_white(raw.destination@).len() == 0 ==> r->Err_0
                == InterpreterError::EmptyField(DecisionField::Destination)
            &&& text::trimmed_white(raw.destination@).len() > 100 ==> r->Err_0
                == InterpreterError::OversizedField(DecisionField::Destination)
            &&& fits(raw.destination@, 100) && text::trimmed_white(raw.task@).len() == 0
                ==> r->Err_0 == InterpreterError::EmptyField(DecisionField::Task)
            &&& fits(raw.destination@, 100) && text::trimmed_white(raw.task@).len() > 1500
                ==> r->Err_0 == InterpreterError::OversizedField(DecisionField::Task)
        },
{
}

/// What the errors of the interpreter say.
pub proof fn lemma_errors_in_words(e: &InterpreterError, s: String)
    requires
        call_ensures(InterpreterError::message, (e,), s),
    ensures
        *e is Disabled ==> s@ == "voice turn interpreter is disabled"@,
        *e is EmptyApiKey ==> s@ == "voice turn interpreter API key is empty"@,
        *e is EmptyModel ==> s@ == "voice turn interpreter model is empty"@,
        *e is EmptyBaseUrl ==> s@ == "voice turn interpreter base URL is empty"@,
        *e is ZeroTimeout ==> s@ == "voice turn interpreter timeout must be greater than zero"@,
        *e is ResponseTooLarge ==> s@ == "voice turn interpreter response exceeded size limit"@,
        *e is FailedStatus ==> s@ == "voice turn interpreter returned a failure"@,
        *e is InvalidJson ==> s@ == "voice turn interpreter returned invalid JSON"@,
        *e is MissingOutputText ==> s@
            == "voice turn interpreter response did not contain output_text"@,
        *e == InterpreterError::EmptyField(DecisionField::Speech) ==> s@
            == "voice turn interpreter returned an empty "@ + "speech"@,
        *e == InterpreterError::EmptyField(DecisionField::Destination) ==> s@
            == "voice turn interpreter returned an empty "@ + "destination"@,
        *e == InterpreterError::EmptyField(DecisionField::Task) ==> s@
            == "voice turn interpreter returned an empty "@ + "task"@,
        *e == InterpreterError::OversizedField(DecisionField::Speech) ==> s@
            == "voice turn interpreter returned an oversized "@ + "speech"@,
        *e == InterpreterError::OversizedField(DecisionField::Destination) ==> s@
            == "voice turn interpreter returned an oversized "@ + "destination"@,
        *e == InterpreterError::OversizedField(DecisionField::Task) ==> s@
            == "voice turn interpreter returned an oversized "@ + "task"@,
{
}

/// Whether a part of an item is marked as output text.
pub open spec fn is_output(part: JsonModel) -> bool {
    part.text_field("type"@) == Some("output_text"@)
}

/// Whether the part at an index is the first of an item that is marked as output text.
pub open spec fn leads_output(parts: Seq<JsonModel>, i: int) -> bool {
    &&& 0 <= i < parts.len()
    &&& is_output(parts[i])
    &&& forall|j: int| 0 <= j < i ==> !is_output(#[trigger] parts[j])
}

proof fn lemma_part(parts: Seq<JsonModel>, i: int)
    requires
        leads_output(parts, i),
    ensures
        discord_voice_interpreter::part_output(parts) == parts[i].text_field("text"@),
    decreases parts.len(),
{
    if i > 0 {
        let rest = parts.skip(1);
        assert(!is_output(parts[0]));
        assert forall|j: int| 0 <= j < i - 1 implies !is_output(#[trigger] rest[j]) by {
            assert(!is_output(parts[j + 1]));
        }
        lemma_part(rest, i - 1);
    }
}

proof fn lemma_no_part(parts: Seq<JsonModel>)
    requires
        forall|j: int| 0 <= j < parts.len() ==> !is_output(#[trigger] parts[j]),
    ensures
        discord_voice_interpreter::part_output(parts) is None,
    decreases parts.len(),
{
    if parts.len() > 0 {
        let rest = parts.skip(1);
        assert(!is_output(parts[0]));
        assert forall|j: int| 0 <= j < rest.len() implies !is_output(#[trigger] rest[j]) by {
            assert(!is_output(parts[j + 1]));
        }
        lemma_no_part(rest);
    }
}

/// Whether an item of a response has nothing to read: no list of parts, or none of them output.
pub open spec fn says_nothing(item: JsonModel) -> bool {
    !(item.field("content"@) is Some && item.field("content"@)->0 is List) || forall|j: int|
        0 <= j < item.field("content"@)->0->List_0.len() ==> !is_output(
            #[trigger] item.field("content"@)->0->List_0[j],
        )
}

proof fn lemma_first_item(items: Seq<JsonModel>, k: int, i: int)
    requires
        0 <= k < items.len(),
        forall|j: int| 0 <= j < k ==> says_nothing(#[trigger] items[j]),
        items[k].field("content"@) is Some,
        items[k].field("content"@)->0 is List,
        leads_output(items[k].field("content"@)->0->List_0, i),
        items[k].field("content"@)->0->List_0[i].text_field("text"@) is Some,
    ensures
        discord_voice_interpreter::first_output(items)
            == items[k].field("content"@)->0->List_0[i].text_field("text"@),
    decreases items.len(),
{
    if k == 0 {
        lemma_part(items[0].field("content"@)->0->List_0, i);
    } else {
        let rest = items.skip(1);
        assert(says_nothing(items[0]));
        if items[0].field("content"@) is Some && items[0].field("content"@)->0 is List {
            lemma_no_part(items[0].field("content"@)->0->List_0);
        }
        assert forall|j: int| 0 <= j < k - 1 implies says_nothing(#[trigger] rest[j]) by {
            assert(says_nothing(items[j + 1]));
        }
        lemma_first_item(rest, k - 1, i);
    }
}

proof fn lemma_no_item(items: Seq<JsonModel>)
    requires
        forall|j: int| 0 <= j < items.len() ==> says_nothing(#[trigger] items[j]),
    ensures
        discord_voice_interpreter::first_output(items) is None,
    decreases items.len(),
{
    if items.len() > 0 {
        let rest = items.skip(1);
        assert(says_nothing(items[0]));
        if items[0].field("content"@) is Some && items[0].field("content"@)->0 is List {
            lemma_no_part(items[0].field("content"@)->0->List_0);
        }
        assert forall|j: int| 0 <= j < rest.len() implies says_nothing(#[trigger] rest[j]) by {
            assert(says_nothing(items[j + 1]));
        }
        lemma_no_item(rest);
    }
}

/// The answer of the model is the text of the first output part of the first item that has one.
/// A response without any is an error.
pub proof fn lemma_answers_are_found(
    response: &Json,
    items: Seq<JsonModel>,
    k: int,
    i: int,
    r: Result<&str, InterpreterError>,
)
    requires
        call_ensures(OpenAiVoiceTurnInterpreter::decision_text, (response,), r),
        response@.field("output"@) == Some(JsonModel::List(items)),
    ensures
        0 <= k < items.len() && (forall|j: int| 0 <= j < k ==> says_nothing(#[trigger] items[j]))
            && items[k].field("content"@) is Some && items[k].field("content"@)->0 is List
            && leads_output(items[k].field("content"@)->0->List_0, i) && items[k].field(
            "content"@,
        )->0->List_0[i].text_field("text"@) is Some ==> r is Ok && Some(r->Ok_0@)
            == items[k].field("content"@)->0->List_0[i].text_field("text"@),
        (forall|j: int| 0 <= j < items.len() ==> says_nothing(#[trigger] items[j])) ==> r == Err::<
            &str,
            InterpreterError,
        >(InterpreterError::MissingOutputText),
{
    if 0 <= k < items.len() && (forall|j: int| 0 <= j < k ==> says_nothing(#[trigger] items[j]))
        && items[k].field("content"@) is Some && items[k].field("content"@)->0 is List
        && leads_output(items[k].field("content"@)->0->List_0, i) && items[k].field(
        "content"@,
    )->0->List_0[i].text_field("text"@) is Some {
        lemma_first_item(items, k, i);
    }
    if forall|j: int| 0 <= j < items.len() ==> says_nothing(#[trigger] items[j]) {
        lemma_no_item(items);
    }
}

/// A response of more than a mebibyte is not read at all, and one that reports a failure is not
/// parsed.
pub proof fn lemma_responses_are_accepted(
    success: bool,
    body: &[u8],
    r: Result<String, InterpreterError>,
)
    requires
        call_ensures(discord_voice_interpreter::response_output, (success, body), r),
    ensures
        body@.len() > 1_048_576 <==> r == Err::<String, InterpreterError>(
            InterpreterError::ResponseTooLarge,
        ),
        body@.len() <= 1_048_576 && !success <==> r == Err::<String, InterpreterError>(
            InterpreterError::FailedStatus,
        ),
        r is Ok ==> success,
{
}

/// The body of an accepted response says what its JSON says.
pub proof fn lemma_bodies_are_answers(
    body: &[u8],
    r: Result<String, InterpreterError>,
    response: &Json,
    s: Result<&str, InterpreterError>,
)
    requires
        call_ensures(discord_voice_interpreter::response_output, (true, body), r),
        body@.len() <= 1_048_576,
        json::parsed_json(body@) == Some(response@),
        call_ensures(OpenAiVoiceTurnInterpreter::decision_text, (response,), s),
    ensures
        r is Ok <==> s is Ok,
        r is Ok ==> r->Ok_0@ == s->Ok_0@,
        r is Err ==> r->Err_0 is MissingOutputText && s->Err_0 is MissingOutputText,
{
}

/// The interpreter runs when it is enabled and has a key, a model, an address and a time limit;
/// the first that it lacks is told.
pub proof fn lemma_settings_are_checked(
    config: &VoiceIntentInterpreterConfig,
    r: Result<(), InterpreterError>,
    s: Result<OpenAiVoiceTurnInterpreter, InterpreterError>,
)
    requires
        call_ensures(discord_voice_interpreter::config_for_runtime, (config,), r),
        call_ensures(OpenAiVoiceTurnInterpreter::new, (config,), s),
    ensures
        r is Ok <==> config.enabled && !text::blank(config.api_key@) && !text::blank(config.model@)
            && !text::blank(config.base_url@) && config.request_timeout_seconds > 0,
        r is Ok <==> s is Ok,
        r is Err ==> r->Err_0 == s->Err_0,
        !config.enabled ==> r->Err_0 is Disabled,
        config.enabled && text::blank(config.api_key@) ==> r->Err_0 is EmptyApiKey,
        config.enabled && !text::blank(config.api_key@) && text::blank(config.model@) ==> r->Err_0
            is EmptyModel,
        config.enabled && !text::blank(config.api_key@) && !text::blank(config.model@)
            && text::blank(config.base_url@) ==> r->Err_0 is EmptyBaseUrl,
        s is Ok ==> {
            &&& s->Ok_0.api_key@ == text::trimmed_white(config.api_key@)
            &&& s->Ok_0.model@ == text::trimmed_white(config.model@)
            &&& s->Ok_0.request_timeout_seconds == config.request_timeout_seconds
            &&& s->Ok_0.base_url@ == tts::base_url_of(config.base_url@)
        },
{
}

/// Where the model is asked, and with what: the input as it is given, without storing it, and with
/// at most 256 tokens to answer.
pub proof fn lemma_the_model_is_asked(
    interpreter: &OpenAiVoiceTurnInterpreter,
    input: &str,
    url: String,
    r: Json,
    schema: Json,
)
    requires
        call_ensures(OpenAiVoiceTurnInterpreter::url, (interpreter,), url),
        call_ensures(OpenAiVoiceTurnInterpreter::request_body, (interpreter, input), r),
        call_ensures(discord_voice_interpreter::decision_schema, (), schema),
    ensures
        url@ == interpreter.base_url@ + "/responses"@,
        r@ is Object,
        r@->Object_0.len() == 6,
        r@->Object_0[0] == ("model"@, JsonModel::Text(interpreter.model@)),
        r@->Object_0[1] == ("store"@, JsonModel::Bool(false)),
        r@->Object_0[2] == ("max_output_tokens"@, JsonModel::Integer(256)),
        r@->Object_0[3].0 == "instructions"@,
        r@->Object_0[4] == ("input"@, JsonModel::Text(input@)),
        r@->Object_0[5] == (
            "text"@,
            JsonModel::Object(
                seq![
                    (
                        "format"@,
                        JsonModel::Object(
                            seq![
                                ("type"@, JsonModel::Text("json_schema"@)),
                                ("name"@, JsonModel::Text("voice_turn_decision"@)),
                                ("strict"@, JsonModel::Bool(true)),
                                ("schema"@, schema@),
                            ],
                        ),
                    ),
                ],
            ),
        ),
{
}

/// The model has to answer with one of seven actions and three texts, all of them and nothing
/// else.
pub proof fn lemma_answers_are_constrained(schema: Json)
    requires
        call_ensures(discord_voice_interpreter::decision_schema, (), schema),
    ensures
        ({
            let word = JsonModel::Object(seq![("type"@, JsonModel::Text("string"@))]);
            schema@ == JsonModel::Object(
                seq![
                    ("type"@, JsonModel::Text("object"@)),
                    (
                        "properties"@,
                        JsonModel::Object(
                            seq![
                                (
                                    "action"@,
                                    JsonModel::Object(
                                        seq![
                                            ("type"@, JsonModel::Text("string"@)),
                                            (
                                                "enum"@,
                                                JsonModel::List(
                                                    seq![
                                                        JsonModel::Text("ignore"@),
                                                        JsonModel::Text("reply"@),
                                                        JsonModel::Text("propose"@),
                                                        JsonModel::Text("revise"@),
                                                        JsonModel::Text("accept"@),
                                                        JsonModel::Text("reject"@),
                                                        JsonModel::Text("cancel"@),
                                                    ],
                                                ),
                                            ),
                                        ],
                                    ),
                                ),
                                ("destination"@, word),
                                ("task"@, word),
                                ("speech"@, word),
                            ],
                        ),
                    ),
                    (
                        "required"@,
                        JsonModel::List(
                            seq![
                                JsonModel::Text("action"@),
                                JsonModel::Text("destination"@),
                                JsonModel::Text("task"@),
                                JsonModel::Text("speech"@),
                            ],
                        ),
                    ),
                    ("additionalProperties"@, JsonModel::Bool(false)),
                ],
            )
        }),
{
    assert(json::text_list(
        seq!["ignore", "reply", "propose", "revise", "accept", "reject", "cancel"],
    )->List_0 =~= seq![
        JsonModel::Text("ignore"@),
        JsonModel::Text("reply"@),
        JsonModel::Text("propose"@),
        JsonModel::Text("revise"@),
        JsonModel::Text("accept"@),
        JsonModel::Text("reject"@),
        JsonModel::Text("cancel"@),
    ]);
    assert(json::text_list(seq!["action", "destination", "task", "speech"])->List_0 =~= seq![
        JsonModel::Text("action"@),
        JsonModel::Text("destination"@),
        JsonModel::Text("task"@),
        JsonModel::Text("speech"@),
    ]);
}

/// The model is told what was said, which destinations there are, in their order, and whether
/// something waits for a confirmation, and what.
pub proof fn lemma_the_model_is_told_the_turn(input: &VoiceTurnInput, r: Json, i: int)
    requires
        call_ensures(discord_voice_interpreter::turn_input, (input,), r),
    ensures
        r@ is Object,
        r@->Object_0.len() == 3,
        r@->Object_0[0] == ("transcript"@, JsonModel::Text(input.transcript@)),
        r@->Object_0[1].0 == "phase"@,
        input.phase is Idle ==> r@->Object_0[1].1 == JsonModel::Object(
            seq![("phase"@, JsonModel::Text("idle"@))],
        ),
        input.phase is WaitingConfirmation ==> r@->Object_0[1].1 == JsonModel::Object(
            seq![
                ("phase"@, JsonModel::Text("waiting_confirmation"@)),
                ("destination"@, JsonModel::Text(input.phase->destination@)),
                ("task"@, JsonModel::Text(input.phase->task@)),
            ],
        ),
        r@->Object_0[2].0 == "available_destinations"@,
        r@->Object_0[2].1 is List,
        r@->Object_0[2].1->List_0.len() == input.available_destinations@.len(),
        0 <= i < input.available_destinations@.len() ==> r@->Object_0[2].1->List_0[i]
            == JsonModel::Text(input.available_destinations@[i]@),
{
}

/// A field must be there and must not be longer than its limit.
pub proof fn lemma_fields_are_bounded(
    field: DecisionField,
    value: &str,
    max: usize,
    r: Result<(), InterpreterError>,
)
    requires
        call_ensures(discord_voice_interpreter::ensure_bounded_nonempty, (field, value, max), r),
    ensures
        r is Ok <==> 0 < value@.len() <= max,
        value@.len() == 0 ==> r->Err_0 == InterpreterError::EmptyField(field),
        value@.len() > 0 && value@.len() > max ==> r->Err_0 == InterpreterError::OversizedField(
            field,
        ),
{
}

/// The output text of a response is what its decision is read from.
pub proof fn lemma_output_is_the_decision(
    response: &Json,
    r: Option<&str>,
    s: Result<&str, InterpreterError>,
)
    requires
        call_ensures(discord_voice_interpreter::extract_output_text, (response,), r),
        call_ensures(OpenAiVoiceTurnInterpreter::decision_text, (response,), s),
    ensures
        r is Some <==> s is Ok,
        r is Some ==> r->0@ == s->Ok_0@,
        s is Err ==> s->Err_0 is MissingOutputText,
{
}

} // verus!
