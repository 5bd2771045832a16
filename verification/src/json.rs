//! JSON values as plain data: what the protocol logic reads and builds.

use serde_json::{Number, Value};
use vstd::prelude::*;
use vstd::string::*;
use crate::text;

verus! {

/// A JSON value.
#[derive(Debug, PartialEq, Eq)]
pub enum Json {
    Null,
    Bool(bool),
    /// A whole number.
    Integer(i128),
    /// Any other number, as it is written.
    Real(String),
    Text(String),
    List(Vec<Json>),
    /// The members of an object, each name once.
    Object(Vec<Member>),
}

/// A member of a JSON object.
#[derive(Debug, PartialEq, Eq)]
pub struct Member {
    pub name: String,
    pub value: Json,
}

/// A JSON value as a mathematical value.
#[verifier::ext_equal]
pub enum JsonModel {
    Null,
    Bool(bool),
    Integer(int),
    Real(Seq<char>),
    Text(Seq<char>),
    List(Seq<JsonModel>),
    Object(Seq<(Seq<char>, JsonModel)>),
}

impl Json {
    pub open spec fn model(&self) -> JsonModel
        decreases self,
    {
        match self {
            Json::Null => JsonModel::Null,
            Json::Bool(b) => JsonModel::Bool(*b),
            Json::Integer(n) => JsonModel::Integer(*n as int),
            Json::Real(s) => JsonModel::Real(s@),
            Json::Text(s) => JsonModel::Text(s@),
            Json::List(items) => JsonModel::List(
                Seq::new(
                    items@.len(),
                    |i: int|
                        if 0 <= i < items@.len() {
                            items@[i].model()
                        } else {
                            JsonModel::Null
                        },
                ),
            ),
            Json::Object(members) => JsonModel::Object(
                Seq::new(
                    members@.len(),
                    |i: int|
                        if 0 <= i < members@.len() {
                            (members@[i].name@, members@[i].value.model())
                        } else {
                            (Seq::empty(), JsonModel::Null)
                        },
                ),
            ),
        }
    }
}

impl View for Json {
    type V = JsonModel;

    open spec fn view(&self) -> JsonModel {
        self.model()
    }
}

/// The items of a list as mathematical values.
pub open spec fn item_models(items: Seq<Json>) -> Seq<JsonModel> {
    items.map_values(|item: Json| item@)
}

/// The members of an object as mathematical values.
pub open spec fn member_models(members: Seq<Member>) -> Seq<(Seq<char>, JsonModel)> {
    members.map_values(|m: Member| (m.name@, m.value@))
}

/// An owned value as a mathematical value.
pub open spec fn owned_model(value: Option<Json>) -> Option<JsonModel> {
    match value {
        Some(v) => Some(v@),
        None => None,
    }
}

/// A borrowed value as a mathematical value.
pub open spec fn opt_model(value: Option<&Json>) -> Option<JsonModel> {
    match value {
        Some(v) => Some(v@),
        None => None,
    }
}

/// A list is made of its items.
pub proof fn lemma_list_model(items: Vec<Json>)
    ensures
        Json::List(items)@ == JsonModel::List(item_models(items@)),
{
    assert(Json::List(items)@->List_0 =~= item_models(items@));
}

/// An object is made of its members.
pub proof fn lemma_object_model(members: Vec<Member>)
    ensures
        Json::Object(members)@ == JsonModel::Object(member_models(members@)),
{
    assert(Json::Object(members)@->Object_0 =~= member_models(members@));
}

/// The value of the member called `name`.
pub open spec fn find_member(members: Seq<(Seq<char>, JsonModel)>, name: Seq<char>) -> Option<
    JsonModel,
>
    decreases members.len(),
{
    if members.len() == 0 {
        None
    } else if members[0].0 == name {
        Some(members[0].1)
    } else {
        find_member(members.skip(1), name)
    }
}

impl JsonModel {
    /// The value of the member called `name`, where this is an object that has one.
    pub open spec fn field(self, name: Seq<char>) -> Option<JsonModel> {
        match self {
            JsonModel::Object(members) => find_member(members, name),
            _ => None,
        }
    }

    pub open spec fn text(self) -> Option<Seq<char>> {
        match self {
            JsonModel::Text(s) => Some(s),
            _ => None,
        }
    }

    pub open spec fn boolean(self) -> Option<bool> {
        match self {
            JsonModel::Bool(b) => Some(b),
            _ => None,
        }
    }

    pub open spec fn items(self) -> Option<Seq<JsonModel>> {
        match self {
            JsonModel::List(items) => Some(items),
            _ => None,
        }
    }

    /// The text of the member called `name`, where there is one and it is a text.
    pub open spec fn text_field(self, name: Seq<char>) -> Option<Seq<char>> {
        match self.field(name) {
            Some(value) => value.text(),
            None => None,
        }
    }
}

impl Json {
    /// The value of the member called `name`, where this is an object that has one.
    pub fn get(&self, name: &str) -> (r: Option<&Json>)
        ensures
            opt_model(r) == self@.field(name@),
    {
        match self {
            Json::Object(members) => {
                proof {
                    lemma_object_model(*members);
                }
                let ghost models = member_models(members@);
                let mut i: usize = 0;
                assert(models.skip(0) =~= models);
                while i < members.len()
                    invariant
                        i <= members@.len(),
                        models == member_models(members@),
                        find_member(models, name@) == find_member(models.skip(i as int), name@),
                        self@.field(name@) == find_member(models, name@),
                    decreases members@.len() - i,
                {
                    assert(models.skip(i as int)[0] == models[i as int]);
                    assert(models.skip(i as int).skip(1) =~= models.skip(i + 1));
                    if text::str_eq(members[i].name.as_str(), name) {
                        return Some(&members[i].value);
                    }
                    i = i + 1;
                }
                None
            },
            _ => None,
        }
    }

    /// The text, where this is one.
    pub fn as_str(&self) -> (r: Option<&str>)
        ensures
            match r {
                Some(s) => self@.text() == Some(s@),
                None => self@.text() is None,
            },
    {
        match self {
            Json::Text(s) => Some(s.as_str()),
            _ => None,
        }
    }

    /// The truth value, where this is one.
    pub fn as_bool(&self) -> (r: Option<bool>)
        ensures
            r == self@.boolean(),
    {
        match self {
            Json::Bool(b) => Some(*b),
            _ => None,
        }
    }

    /// The items, where this is a list.
    pub fn as_array(&self) -> (r: Option<&Vec<Json>>)
        ensures
            match r {
                Some(items) => self@.items() == Some(item_models(items@)),
                None => self@.items() is None,
            },
    {
        match self {
            Json::List(items) => {
                proof {
                    lemma_list_model(*items);
                }
                Some(items)
            },
            _ => None,
        }
    }

    /// The text of the member called `name`, where there is one and it is a text.
    pub fn get_str(&self, name: &str) -> (r: Option<&str>)
        ensures
            match r {
                Some(s) => self@.text_field(name@) == Some(s@),
                None => self@.text_field(name@) is None,
            },
    {
        match self.get(name) {
            Some(value) => value.as_str(),
            None => None,
        }
    }

    /// A text.
    pub fn string(s: &str) -> (r: Json)
        ensures
            r@ == JsonModel::Text(s@),
    {
        Json::Text(String::from_str(s))
    }

    /// An object with the given members.
    pub fn object(members: Vec<Member>) -> (r: Json)
        ensures
            r@ == JsonModel::Object(member_models(members@)),
    {
        proof {
            lemma_object_model(members);
        }
        Json::Object(members)
    }

    /// A list of the given items.
    pub fn list(items: Vec<Json>) -> (r: Json)
        ensures
            r@ == JsonModel::List(item_models(items@)),
    {
        proof {
            lemma_list_model(items);
        }
        Json::List(items)
    }

    /// An object with one member.
    pub fn object1(name: &str, value: Json) -> (r: Json)
        ensures
            r@ == JsonModel::Object(seq![(name@, value@)]),
    {
        let mut members: Vec<Member> = Vec::new();
        members.push(Member::new(name, value));
        assert(member_models(members@) =~= seq![(name@, value@)]);
        Json::object(members)
    }

    /// An object with two members.
    pub fn object2(name_a: &str, a: Json, name_b: &str, b: Json) -> (r: Json)
        ensures
            r@ == JsonModel::Object(seq![(name_a@, a@), (name_b@, b@)]),
    {
        let mut members: Vec<Member> = Vec::new();
        members.push(Member::new(name_a, a));
        members.push(Member::new(name_b, b));
        assert(member_models(members@) =~= seq![(name_a@, a@), (name_b@, b@)]);
        Json::object(members)
    }

    /// An object with three members.
    pub fn object3(name_a: &str, a: Json, name_b: &str, b: Json, name_c: &str, c: Json) -> (r: Json)
        ensures
            r@ == JsonModel::Object(seq![(name_a@, a@), (name_b@, b@), (name_c@, c@)]),
    {
        let mut members: Vec<Member> = Vec::new();
        members.push(Member::new(name_a, a));
        members.push(Member::new(name_b, b));
        members.push(Member::new(name_c, c));
        assert(member_models(members@) =~= seq![(name_a@, a@), (name_b@, b@), (name_c@, c@)]);
        Json::object(members)
    }

    /// An object with four members.
    pub fn object4(
        name_a: &str,
        a: Json,
        name_b: &str,
        b: Json,
        name_c: &str,
        c: Json,
        name_d: &str,
        d: Json,
    ) -> (r: Json)
        ensures
            r@ == JsonModel::Object(
                seq![(name_a@, a@), (name_b@, b@), (name_c@, c@), (name_d@, d@)],
            ),
    {
        let mut members: Vec<Member> = Vec::new();
        members.push(Member::new(name_a, a));
        members.push(Member::new(name_b, b));
        members.push(Member::new(name_c, c));
        members.push(Member::new(name_d, d));
        assert(member_models(members@) =~= seq![
            (name_a@, a@),
            (name_b@, b@),
            (name_c@, c@),
            (name_d@, d@),
        ]);
        Json::object(members)
    }
}

impl Member {
    /// A member with the given name and value.
    pub fn new(name: &str, value: Json) -> (r: Member)
        ensures
            r.name@ == name@,
            r.value == value,
    {
        Member { name: String::from_str(name), value }
    }
}

/// A list of texts.
pub open spec fn text_list(items: Seq<&str>) -> JsonModel {
    JsonModel::List(items.map_values(|s: &str| JsonModel::Text(s@)))
}

impl Json {
    /// A list of texts.
    pub fn string_list(items: &[&str]) -> (r: Json)
        ensures
            r@ == text_list(items@),
    {
        let mut out: Vec<Json> = Vec::new();
        let mut i: usize = 0;
        while i < items.len()
            invariant
                i <= items@.len(),
                out@.len() == i,
                forall|j: int|
                    0 <= j < i ==> (#[trigger] out@[j])@ == JsonModel::Text(items@[j]@),
            decreases items@.len() - i,
        {
            out.push(Json::string(items[i]));
            i = i + 1;
        }
        assert(item_models(out@) =~= items@.map_values(|s: &str| JsonModel::Text(s@)));
        Json::list(out)
    }
}

/// A copy of a value that may be absent.
pub fn copy_option(value: &Option<Json>) -> (r: Option<Json>)
    ensures
        owned_model(r) == owned_model(*value),
{
    match value {
        Some(v) => Some(copy(v)),
        None => None,
    }
}

/// `serde_json::Value`, a JSON value as it is parsed and written.
#[verifier::external_type_specification]
#[verifier::external_body]
pub struct ExValue(serde_json::Value);

/// What `serde_json::from_slice` parses a text to, where it is JSON.
pub uninterp spec fn parsed_json(body: Seq<u8>) -> Option<JsonModel>;

/// What `serde_json::to_string` writes a value as, where each of its numbers is one that
/// `serde_json` holds.
pub uninterp spec fn written_json(value: JsonModel) -> Option<Seq<char>>;

/// Converts a `serde_json::Value`, part by part. Nothing is claimed of it.
#[verifier::external_body]
fn from_value(value: Value) -> Json {
    match value {
        Value::Null => Json::Null,
        Value::Bool(b) => Json::Bool(b),
        Value::Number(n) => n.as_i128().map_or(Json::Real(n.to_string()), Json::Integer),
        Value::String(s) => Json::Text(s),
        Value::Array(items) => Json::List(items.into_iter().map(from_value).collect()),
        Value::Object(members) => Json::Object(
            members.into_iter().map(
                |(name, value)| Member { name, value: from_value(value) },
            ).collect(),
        ),
    }
}

/// Converts to a `serde_json::Value`, part by part, where it holds every number. Nothing is
/// claimed of it.
#[verifier::external_body]
fn to_value(value: &Json) -> Option<Value> {
    Some(match value {
        Json::Null => Value::Null,
        Json::Bool(b) => Value::Bool(*b),
        Json::Integer(n) => Value::Number(Number::from_i128(*n)?),
        Json::Real(s) => Value::Number(s.parse().ok()?),
        Json::Text(s) => Value::String(s.clone()),
        Json::List(items) => items.iter().map(to_value).collect::<Option<Value>>()?,
        Json::Object(members) => members.iter().map(
            |m| Some((m.name.clone(), to_value(&m.value)?)),
        ).collect::<Option<Value>>()?,
    })
}

/// Parses a text with `serde_json::from_slice`.
///
/// Trusted: what comes of it depends on the text alone. What that is, is not said.
#[verifier::external_body]
pub(crate) fn parse_json(body: &[u8]) -> (r: Option<Json>)
    ensures
        match r {
            Some(v) => parsed_json(body@) == Some(v@),
            None => parsed_json(body@) is None,
        },
{
    serde_json::from_slice(body).ok().map(from_value)
}

/// Writes a value with `serde_json::to_string`.
///
/// Trusted: what comes of it depends on the value alone. What that is, is not said.
#[verifier::external_body]
pub(crate) fn write_json(value: &Json) -> (r: Option<String>)
    ensures
        match r {
            Some(s) => written_json(value@) == Some(s@),
            None => written_json(value@) is None,
        },
{
    serde_json::to_string(&to_value(value)?).ok()
}

/// A copy of a value.
pub fn copy(value: &Json) -> (r: Json)
    ensures
        r@ == value@,
    decreases value,
{
    match value {
        Json::Null => Json::Null,
        Json::Bool(b) => Json::Bool(*b),
        Json::Integer(n) => Json::Integer(*n),
        Json::Real(s) => Json::Real(s.clone()),
        Json::Text(s) => Json::Text(s.clone()),
        Json::List(items) => {
            let mut out: Vec<Json> = Vec::new();
            let mut i: usize = 0;
            while i < items.len()
                invariant
                    i <= items@.len(),
                    *value == Json::List(*items),
                    out@.len() == i,
                    forall|j: int| 0 <= j < i ==> (#[trigger] out@[j])@ == items@[j]@,
                decreases items@.len() - i,
            {
                assert(decreases_to!(*value => value->List_0));
                assert(decreases_to!(*items => items@[i as int]));
                assert(decreases_to!(*value => items@[i as int]));
                out.push(copy(&items[i]));
                i = i + 1;
            }
            proof {
                lemma_list_model(*items);
                assert(item_models(out@) =~= item_models(items@));
            }
            Json::list(out)
        },
        Json::Object(members) => {
            let mut out: Vec<Member> = Vec::new();
            let mut i: usize = 0;
            while i < members.len()
                invariant
                    i <= members@.len(),
                    *value == Json::Object(*members),
                    out@.len() == i,
                    forall|j: int|
                        0 <= j < i ==> (#[trigger] out@[j]).name@ == members@[j].name@
                            && out@[j].value@ == members@[j].value@,
                decreases members@.len() - i,
            {
                assert(decreases_to!(*value => value->Object_0));
                assert(decreases_to!(*members => members@[i as int]));
                assert(decreases_to!(members@[i as int] => members@[i as int].value));
                let member = Member {
                    name: members[i].name.clone(),
                    value: copy(&members[i].value),
                };
                out.push(member);
                i = i + 1;
            }
            proof {
                lemma_object_model(*members);
                assert(member_models(out@) =~= member_models(members@));
            }
            Json::object(out)
        },
    }
}

} // verus!
