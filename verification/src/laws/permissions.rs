//! Permission requests of agents, and how the members of JSON objects are found.

use vstd::prelude::*;
use vstd::string::*;
use crate::acp::connection;
use crate::json;
use crate::json::{Json, JsonModel};
use crate::text;

verus! {

/// Whether the option at an index is the first of a kind.
pub open spec fn leads(options: Seq<JsonModel>, i: int, kind: Seq<char>) -> bool {
    &&& 0 <= i < options.len()
    &&& options[i].text_field("kind"@) == Some(kind)
    &&& forall|j: int| 0 <= j < i ==> (#[trigger] options[j]).text_field("kind"@) != Some(kind)
}

/// Whether no option is of a kind.
pub open spec fn lacks(options: Seq<JsonModel>, kind: Seq<char>) -> bool {
    forall|j: int|
        0 <= j < options.len() ==> (#[trigger] options[j]).text_field("kind"@) != Some(kind)
}

/// Whether an option turns the request down.
pub open spec fn turns_down(option: JsonModel) -> bool {
    option.text_field("kind"@) == Some("reject_once"@) || option.text_field("kind"@) == Some(
        "reject_always"@,
    )
}

/// A member of an object is found by its name: what comes out stands in the object under that
/// name and no member before it has the name. Other values have no members.
pub proof fn lemma_members_are_found(value: JsonModel, name: Seq<char>, i: int)
    requires
        value is Object,
        0 <= i < value->Object_0.len(),
        value->Object_0[i].0 == name,
        forall|j: int| 0 <= j < i ==> (#[trigger] value->Object_0[j]).0 != name,
    ensures
        value.field(name) == Some(value->Object_0[i].1),
{
    lemma_member(value->Object_0, name, i);
}

proof fn lemma_member(members: Seq<(Seq<char>, JsonModel)>, name: Seq<char>, i: int)
    requires
        0 <= i < members.len(),
        members[i].0 == name,
        forall|j: int| 0 <= j < i ==> (#[trigger] members[j]).0 != name,
    ensures
        json::find_member(members, name) == Some(members[i].1),
    decreases members.len(),
{
    if i > 0 {
        let rest = members.skip(1);
        assert(members[0].0 != name);
        assert forall|j: int| 0 <= j < i - 1 implies (#[trigger] rest[j]).0 != name by {
            assert(members[j + 1].0 != name);
        }
        lemma_member(rest, name, i - 1);
    }
}

/// What an object has no member for is not found, and nothing is found in what is no object.
pub proof fn lemma_other_members_are_not_found(value: JsonModel, name: Seq<char>)
    ensures
        !(value is Object) ==> value.field(name) is None,
        value is Object && (forall|j: int|
            0 <= j < value->Object_0.len() ==> (#[trigger] value->Object_0[j]).0 != name)
            ==> value.field(name) is None,
{
    if value is Object && (forall|j: int|
        0 <= j < value->Object_0.len() ==> (#[trigger] value->Object_0[j]).0 != name) {
        lemma_no_member(value->Object_0, name);
    }
}

proof fn lemma_no_member(members: Seq<(Seq<char>, JsonModel)>, name: Seq<char>)
    requires
        forall|j: int| 0 <= j < members.len() ==> (#[trigger] members[j]).0 != name,
    ensures
        json::find_member(members, name) is None,
    decreases members.len(),
{
    if members.len() > 0 {
        let rest = members.skip(1);
        assert forall|j: int| 0 <= j < rest.len() implies (#[trigger] rest[j]).0 != name by {
            assert(members[j + 1].0 != name);
        }
        lemma_no_member(rest, name);
    }
}

/// A member that is read as a text is one: numbers, lists, objects and truth values are not.
pub proof fn lemma_texts_are_read_as_texts(value: JsonModel, name: Seq<char>, s: Seq<char>)
    ensures
        value.text_field(name) == Some(s) <==> value.field(name) == Some(JsonModel::Text(s)),
        value.text() == Some(s) <==> value == JsonModel::Text(s),
        value.boolean() == Some(true) <==> value == JsonModel::Bool(true),
        value.boolean() == Some(false) <==> value == JsonModel::Bool(false),
{
}

proof fn lemma_leading(options: Seq<JsonModel>, i: int, kind: Seq<char>)
    requires
        leads(options, i, kind),
    ensures
        connection::first_of_kind(options, kind) == Some(options[i]),
    decreases options.len(),
{
    if i > 0 {
        let rest = options.skip(1);
        assert(options[0].text_field("kind"@) != Some(kind));
        assert forall|j: int| 0 <= j < i - 1 implies (#[trigger] rest[j]).text_field("kind"@)
            != Some(kind) by {
            assert(options[j + 1].text_field("kind"@) != Some(kind));
        }
        lemma_leading(rest, i - 1, kind);
    }
}

proof fn lemma_lacking(options: Seq<JsonModel>, kind: Seq<char>)
    requires
        lacks(options, kind),
    ensures
        connection::first_of_kind(options, kind) is None,
    decreases options.len(),
{
    if options.len() > 0 {
        let rest = options.skip(1);
        assert(options[0].text_field("kind"@) != Some(kind));
        assert forall|j: int| 0 <= j < rest.len() implies (#[trigger] rest[j]).text_field("kind"@)
            != Some(kind) by {
            assert(options[j + 1].text_field("kind"@) != Some(kind));
        }
        lemma_lacking(rest, kind);
    }
}

proof fn lemma_acceptable(options: Seq<JsonModel>, i: int)
    requires
        0 <= i < options.len(),
        !turns_down(options[i]),
        forall|j: int| 0 <= j < i ==> turns_down(#[trigger] options[j]),
    ensures
        connection::first_not_reject(options) == Some(options[i]),
    decreases options.len(),
{
    if i > 0 {
        let rest = options.skip(1);
        assert(turns_down(options[0]));
        assert forall|j: int| 0 <= j < i - 1 implies turns_down(#[trigger] rest[j]) by {
            assert(turns_down(options[j + 1]));
        }
        lemma_acceptable(rest, i - 1);
    }
}

proof fn lemma_unacceptable(options: Seq<JsonModel>)
    requires
        forall|j: int| 0 <= j < options.len() ==> turns_down(#[trigger] options[j]),
    ensures
        connection::first_not_reject(options) is None,
    decreases options.len(),
{
    if options.len() > 0 {
        let rest = options.skip(1);
        assert(turns_down(options[0]));
        assert forall|j: int| 0 <= j < rest.len() implies turns_down(#[trigger] rest[j]) by {
            assert(turns_down(options[j + 1]));
        }
        lemma_unacceptable(rest);
    }
}

/// Of the options that an agent offers, the first that allows always is taken. Where there is
/// none, it is the first that allows once. Where there is none of either, it is the first that
/// does not turn the request down. If all of them turn it down, nothing is taken.
pub proof fn lemma_widest_permission_is_taken(options: &Vec<Json>, i: int, r: Option<String>)
    requires
        call_ensures(connection::pick_best_option, (options,), r),
    ensures
        leads(json::item_models(options@), i, "allow_always"@) ==> text::opt_text(r)
            == options@[i]@.text_field("optionId"@),
        lacks(json::item_models(options@), "allow_always"@) && leads(
            json::item_models(options@),
            i,
            "allow_once"@,
        ) ==> text::opt_text(r) == options@[i]@.text_field("optionId"@),
        lacks(json::item_models(options@), "allow_always"@) && lacks(
            json::item_models(options@),
            "allow_once"@,
        ) && 0 <= i < options@.len() && !turns_down(options@[i]@) && (forall|j: int|
            0 <= j < i ==> turns_down((#[trigger] options@[j])@)) ==> text::opt_text(r)
            == options@[i]@.text_field("optionId"@),
        (forall|j: int| 0 <= j < options@.len() ==> turns_down((#[trigger] options@[j])@)) ==> r
            is None,
{
    let models = json::item_models(options@);
    assert forall|j: int| 0 <= j < options@.len() implies models[j] == (
    #[trigger] options@[j])@ by {}
    reveal_strlit("allow_always");
    reveal_strlit("allow_once");
    reveal_strlit("reject_once");
    reveal_strlit("reject_always");
    assert("allow_always"@[0] == 'a' && "allow_once"@[0] == 'a');
    assert("reject_always"@[0] == 'r' && "reject_once"@[0] == 'r');
    if leads(models, i, "allow_always"@) {
        lemma_leading(models, i, "allow_always"@);
    }
    if lacks(models, "allow_always"@) {
        lemma_lacking(models, "allow_always"@);
        if leads(models, i, "allow_once"@) {
            lemma_leading(models, i, "allow_once"@);
        }
        if lacks(models, "allow_once"@) {
            lemma_lacking(models, "allow_once"@);
            if 0 <= i < options@.len() && !turns_down(options@[i]@) && (forall|j: int|
                0 <= j < i ==> turns_down((#[trigger] options@[j])@)) {
                assert forall|j: int| 0 <= j < i implies turns_down(#[trigger] models[j]) by {
                    assert(turns_down(options@[j]@));
                }
                lemma_acceptable(models, i);
            }
        }
    }
    if forall|j: int| 0 <= j < options@.len() ==> turns_down((#[trigger] options@[j])@) {
        assert forall|j: int| 0 <= j < models.len() implies turns_down(#[trigger] models[j]) by {
            assert(turns_down(options@[j]@));
        }
        lemma_unacceptable(models);
        assert forall|j: int| 0 <= j < models.len() implies (#[trigger] models[j]).text_field(
            "kind"@,
        ) != Some("allow_always"@) && models[j].text_field("kind"@) != Some("allow_once"@) by {
            assert(turns_down(models[j]));
        }
        lemma_lacking(models, "allow_always"@);
        lemma_lacking(models, "allow_once"@);
    }
}

/// A permission request that offers no options is granted for good. One that offers some is
/// answered with the one that is taken, and as cancelled if none is.
pub proof fn lemma_permissions_are_answered(
    params: Option<&Json>,
    options: &Vec<Json>,
    taken: Option<String>,
    r: Json,
)
    requires
        call_ensures(connection::build_permission_response, (params,), r),
        call_ensures(connection::pick_best_option, (options,), taken),
    ensures
        params is None || !(params->0@.field("options"@) is Some) || !(params->0@.field(
            "options"@,
        )->0 is List) ==> r@ == JsonModel::Object(
            seq![
                (
                    "outcome"@,
                    JsonModel::Object(
                        seq![
                            ("outcome"@, JsonModel::Text("selected"@)),
                            ("optionId"@, JsonModel::Text("allow_always"@)),
                        ],
                    ),
                ),
            ],
        ),
        params is Some && params->0@.field("options"@) == Some(
            JsonModel::List(json::item_models(options@)),
        ) ==> r@ == JsonModel::Object(
            seq![
                (
                    "outcome"@,
                    if taken is Some {
                        JsonModel::Object(
                            seq![
                                ("outcome"@, JsonModel::Text("selected"@)),
                                ("optionId"@, JsonModel::Text(taken->0@)),
                            ],
                        )
                    } else {
                        JsonModel::Object(seq![("outcome"@, JsonModel::Text("cancelled"@))])
                    },
                ),
            ],
        ),
{
}

} // verus!
