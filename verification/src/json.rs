//! JSON values as the analysis pipeline reads and builds them.

use crate::text::{text_eq, texts};
use vstd::prelude::*;
use vstd::string::*;

verus! {

/// A JSON value. A number is held as the text that prints it; an object
/// holds its members in order.
#[derive(Debug, PartialEq, Eq)]
pub enum JsonValue {
    Null,
    Bool(bool),
    Number(String),
    Text(String),
    Array(Vec<JsonValue>),
    Object(Vec<(String, JsonValue)>),
}

/// The mathematical content of a JSON value.
pub enum JsonModel {
    Null,
    Bool(bool),
    Number(Seq<char>),
    Text(Seq<char>),
    Array(Seq<JsonModel>),
    Object(Seq<(Seq<char>, JsonModel)>),
}

/// The value of the first member of an object that is named `key`.
pub open spec fn member(members: Seq<(Seq<char>, JsonModel)>, key: Seq<char>) -> Option<JsonModel>
    decreases members.len(),
{
    if members.len() == 0 {
        None
    } else if members[0].0 == key {
        Some(members[0].1)
    } else {
        member(members.skip(1), key)
    }
}

/// The members with `key` set to `value`: the first member of that name is
/// replaced, and where there is none the new member is added at the end.
pub open spec fn with_member(
    members: Seq<(Seq<char>, JsonModel)>,
    key: Seq<char>,
    value: JsonModel,
) -> Seq<(Seq<char>, JsonModel)>
    decreases members.len(),
{
    if members.len() == 0 {
        seq![(key, value)]
    } else if members[0].0 == key {
        seq![(key, value)] + members.skip(1)
    } else {
        seq![members[0]] + with_member(members.skip(1), key, value)
    }
}

impl JsonModel {
    /// The member of an object; none for any other value.
    pub open spec fn get(self, key: Seq<char>) -> Option<JsonModel> {
        match self {
            JsonModel::Object(members) => member(members, key),
            _ => None,
        }
    }
}

/// The models of a list of values.
pub open spec fn models(items: Seq<JsonValue>) -> Seq<JsonModel> {
    Seq::new(items.len(), |i: int| items[i].model())
}

/// The models of the members of an object.
pub open spec fn member_models(members: Seq<(String, JsonValue)>) -> Seq<(Seq<char>, JsonModel)> {
    Seq::new(members.len(), |i: int| (members[i].0@, members[i].1.model()))
}

impl JsonValue {
    pub open spec fn model(self) -> JsonModel
        decreases self,
    {
        match self {
            JsonValue::Null => JsonModel::Null,
            JsonValue::Bool(b) => JsonModel::Bool(b),
            JsonValue::Number(n) => JsonModel::Number(n@),
            JsonValue::Text(t) => JsonModel::Text(t@),
            JsonValue::Array(items) => JsonModel::Array(
                Seq::new(
                    items@.len(),
                    |i: int|
                        if 0 <= i < items@.len() {
                            items@[i].model()
                        } else {
                            JsonModel::Null
                        },
                ),
            ),
            JsonValue::Object(members) => JsonModel::Object(
                Seq::new(
                    members@.len(),
                    |i: int|
                        if 0 <= i < members@.len() {
                            (members@[i].0@, members@[i].1.model())
                        } else {
                            (Seq::empty(), JsonModel::Null)
                        },
                ),
            ),
        }
    }

    /// A copy of the value.
    #[verifier::loop_isolation(false)]
    pub fn duplicate(&self) -> (r: JsonValue)
        ensures
            r.model() == self.model(),
        decreases self,
    {
        match self {
            JsonValue::Null => JsonValue::Null,
            JsonValue::Bool(b) => JsonValue::Bool(*b),
            JsonValue::Number(n) => JsonValue::Number(n.clone()),
            JsonValue::Text(t) => JsonValue::Text(t.clone()),
            JsonValue::Array(items) => {
                let mut out: Vec<JsonValue> = Vec::new();
                let mut i: usize = 0;
                while i < items.len()
                    invariant
                        i <= items.len(),
                        out.len() == i,
                        forall|k: int| 0 <= k < i ==> out@[k].model() == items@[k].model(),
                    decreases items.len() - i,
                {
                    out.push(items[i].duplicate());
                    i += 1;
                }
                let r = JsonValue::Array(out);
                assert(r.model()->Array_0 =~= self.model()->Array_0);
                r
            },
            JsonValue::Object(members) => {
                let mut out: Vec<(String, JsonValue)> = Vec::new();
                let mut i: usize = 0;
                while i < members.len()
                    invariant
                        i <= members.len(),
                        out.len() == i,
                        forall|k: int|
                            0 <= k < i ==> out@[k].0@ == members@[k].0@ && out@[k].1.model()
                                == members@[k].1.model(),
                    decreases members.len() - i,
                {
                    out.push((members[i].0.clone(), members[i].1.duplicate()));
                    i += 1;
                }
                let r = JsonValue::Object(out);
                assert(r.model()->Object_0 =~= self.model()->Object_0);
                r
            },
        }
    }

    /// The member of an object that is named `key`.
    pub fn get(&self, key: &str) -> (r: Option<&JsonValue>)
        ensures
            match r {
                Some(v) => self.model().get(key@) == Some(v.model()),
                None => self.model().get(key@) is None,
            },
    {
        match self {
            JsonValue::Object(members) => {
                let ghost all = self.model()->Object_0;
                let mut i: usize = 0;
                assert(all.skip(0) =~= all);
                while i < members.len()
                    invariant
                        i <= members.len(),
                        *self == JsonValue::Object(*members),
                        all == self.model()->Object_0,
                        member(all, key@) == member(all.skip(i as int), key@),
                    decreases members.len() - i,
                {
                    assert(all.skip(i as int)[0] == all[i as int]);
                    assert(all.skip(i as int).skip(1) =~= all.skip(i + 1));
                    if text_eq(members[i].0.as_str(), key) {
                        return Some(&members[i].1);
                    }
                    i += 1;
                }
                None
            },
            _ => None,
        }
    }

    /// An object without members.
    pub fn empty_object() -> (r: JsonValue)
        ensures
            r.model() == JsonModel::Object(Seq::empty()),
    {
        let r = JsonValue::Object(Vec::new());
        assert(r.model()->Object_0 =~= Seq::empty());
        r
    }

    /// The text, or null where there is none.
    pub fn text_or_null(value: Option<String>) -> (r: JsonValue)
        ensures
            r.model() == match value {
                Some(t) => JsonModel::Text(t@),
                None => JsonModel::Null,
            },
    {
        match value {
            Some(t) => JsonValue::Text(t),
            None => JsonValue::Null,
        }
    }

    /// The array of the texts of a list.
    pub fn text_list(list: &Vec<String>) -> (r: JsonValue)
        ensures
            r.model() == JsonModel::Array(
                Seq::new(list@.len(), |i: int| JsonModel::Text(list@[i]@)),
            ),
    {
        let mut out: Vec<JsonValue> = Vec::new();
        let mut i: usize = 0;
        while i < list.len()
            invariant
                i <= list.len(),
                out.len() == i,
                forall|k: int| 0 <= k < i ==> out@[k].model() == JsonModel::Text(list@[k]@),
            decreases list.len() - i,
        {
            out.push(JsonValue::Text(list[i].clone()));
            i += 1;
        }
        let r = JsonValue::Array(out);
        assert(r.model()->Array_0 =~= Seq::new(list@.len(), |i: int| JsonModel::Text(list@[i]@)));
        r
    }
}

/// Sets a member of a list of members: the first member of that name is
/// replaced, and where there is none the new member is added at the end.
pub fn set_member(members: &mut Vec<(String, JsonValue)>, key: &str, value: JsonValue)
    ensures
        member_models(final(members)@) == with_member(
            member_models(old(members)@),
            key@,
            value.model(),
        ),
{
    let ghost before = member_models(members@);
    let mut i: usize = 0;
    while i < members.len() && !text_eq(members[i].0.as_str(), key)
        invariant
            i <= members.len(),
            *members == *old(members),
            forall|k: int| 0 <= k < i ==> members@[k].0@ != key@,
        decreases members.len() - i,
    {
        i += 1;
    }
    proof {
        assert forall|k: int| 0 <= k < i implies before[k].0 != key@ by {
            assert(before[k].0 == members@[k].0@);
        }
    }
    if i < members.len() {
        assert(before[i as int].0 == members@[i as int].0@);
        members.set(i, (key.to_owned(), value));
        proof {
            lemma_replace_member(before, i as int, key@, value.model());
            assert(member_models(members@) =~= before.take(i as int) + seq![(key@, value.model())]
                + before.skip(i + 1));
        }
    } else {
        members.push((key.to_owned(), value));
        proof {
            lemma_append_member(before, key@, value.model());
            assert(member_models(members@) =~= before.push((key@, value.model())));
        }
    }
}

proof fn lemma_replace_member(
    members: Seq<(Seq<char>, JsonModel)>,
    at: int,
    key: Seq<char>,
    value: JsonModel,
)
    requires
        0 <= at < members.len(),
        members[at].0 == key,
        forall|k: int| 0 <= k < at ==> members[k].0 != key,
    ensures
        with_member(members, key, value) == members.take(at) + seq![(key, value)] + members.skip(
            at + 1,
        ),
    decreases at,
{
    if at == 0 {
        assert(members.take(0) + seq![(key, value)] + members.skip(1) =~= seq![(key, value)]
            + members.skip(1));
    } else {
        let rest = members.skip(1);
        assert forall|k: int| 0 <= k < at - 1 implies rest[k].0 != key by {
            assert(rest[k] == members[k + 1]);
        }
        lemma_replace_member(rest, at - 1, key, value);
        assert(seq![members[0]] + (rest.take(at - 1) + seq![(key, value)] + rest.skip(at))
            =~= members.take(at) + seq![(key, value)] + members.skip(at + 1));
    }
}

proof fn lemma_append_member(members: Seq<(Seq<char>, JsonModel)>, key: Seq<char>, value: JsonModel)
    requires
        forall|k: int| 0 <= k < members.len() ==> members[k].0 != key,
    ensures
        with_member(members, key, value) == members.push((key, value)),
    decreases members.len(),
{
    if members.len() == 0 {
        assert(seq![(key, value)] =~= members.push((key, value)));
    } else {
        let rest = members.skip(1);
        assert forall|k: int| 0 <= k < rest.len() implies rest[k].0 != key by {
            assert(rest[k] == members[k + 1]);
        }
        lemma_append_member(rest, key, value);
        assert(seq![members[0]] + rest.push((key, value)) =~= members.push((key, value)));
    }
}

/// A member that was set is found again under its name, with its new value.
pub proof fn lemma_member_after_set(
    members: Seq<(Seq<char>, JsonModel)>,
    key: Seq<char>,
    value: JsonModel,
)
    ensures
        member(with_member(members, key, value), key) == Some(value),
    decreases members.len(),
{
    if members.len() > 0 && members[0].0 != key {
        lemma_member_after_set(members.skip(1), key, value);
        let all = with_member(members, key, value);
        assert(all.skip(1) =~= with_member(members.skip(1), key, value));
    }
}

/// `serde_json::Value`: a parsed document, carried from the parser to the
/// function that reads it out.
#[verifier::external_type_specification]
#[verifier::external_body]
pub struct ExValue(serde_json::Value);

/// What a parsed JSON document holds. The members of an object come in the
/// order of their names, each name once; a number is the text that
/// `serde_json::Number` prints.
pub uninterp spec fn document_model(value: serde_json::Value) -> JsonModel;

/// What `serde_json::from_str` makes of a text: the document, or the message
/// of the error that it reports.
pub uninterp spec fn json_parse_of(text: Seq<char>) -> Result<JsonModel, Seq<char>>;

/// Calls `serde_json::from_str` for a `serde_json::Value`. An error is
/// handed back as the message that it prints.
#[verifier::external_body]
pub(crate) fn read_document(text: &str) -> (r: Result<serde_json::Value, String>)
    ensures
        match r {
            Ok(value) => json_parse_of(text@) == Ok::<JsonModel, Seq<char>>(document_model(value)),
            Err(message) => json_parse_of(text@) == Err::<JsonModel, Seq<char>>(message@),
        },
{
    match serde_json::from_str::<serde_json::Value>(text) {
        Ok(value) => Ok(value),
        Err(error) => Err(error.to_string()),
    }
}

/// Reads a `serde_json::Value` out into a `JsonValue`: `Value::Number` by
/// `Number::to_string`, the members of a `Value::Object` in the order in
/// which its map hands them out.
#[verifier::external_body]
pub(crate) fn unpack(value: &serde_json::Value) -> (r: JsonValue)
    ensures
        r.model() == document_model(*value),
{
    match value {
        serde_json::Value::Null => JsonValue::Null,
        serde_json::Value::Bool(b) => JsonValue::Bool(*b),
        serde_json::Value::Number(n) => JsonValue::Number(n.to_string()),
        serde_json::Value::String(s) => JsonValue::Text(s.clone()),
        serde_json::Value::Array(items) => JsonValue::Array(items.iter().map(unpack).collect()),
        serde_json::Value::Object(map) => JsonValue::Object(
            map.iter().map(|(k, v)| (k.clone(), unpack(v))).collect(),
        ),
    }
}

/// What `serde_json::from_str` makes of a text that is read as a list of
/// strings: the strings of a JSON array of strings, or the message of the
/// error that it reports.
pub uninterp spec fn string_list_of(text: Seq<char>) -> Result<Seq<Seq<char>>, Seq<char>>;

/// Calls `serde_json::from_str` for a `Vec<String>`. An error is handed back
/// as the message that it prints.
#[verifier::external_body]
pub(crate) fn read_string_list(text: &str) -> (r: Result<Vec<String>, String>)
    ensures
        match r {
            Ok(list) => string_list_of(text@) == Ok::<Seq<Seq<char>>, Seq<char>>(texts(list@)),
            Err(message) => string_list_of(text@) == Err::<Seq<Seq<char>>, Seq<char>>(message@),
        },
{
    match serde_json::from_str::<Vec<String>>(text) {
        Ok(list) => Ok(list),
        Err(error) => Err(error.to_string()),
    }
}

/// The model of a parse result.
pub open spec fn parsed_model(r: Result<JsonValue, String>) -> Result<JsonModel, Seq<char>> {
    match r {
        Ok(v) => Ok(v.model()),
        Err(m) => Err(m@),
    }
}

/// Parses a JSON text. The result is what `serde_json` makes of the text.
pub fn parse_json(text: &str) -> (r: Result<JsonValue, String>)
    ensures
        parsed_model(r) == json_parse_of(text@),
{
    match read_document(text) {
        Ok(value) => Ok(unpack(&value)),
        Err(message) => Err(message),
    }
}

} // verus!
