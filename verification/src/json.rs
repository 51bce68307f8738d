//! JSON documents as plain values.

use crate::status::{Code, Status};
use vstd::prelude::*;

verus! {

/// A JSON value. Numbers are kept in their decimal text; the members of an
/// object are kept in the order in which the parser hands them out.
#[derive(Debug)]
pub enum Json {
    Null,
    Bool(bool),
    Number(String),
    Text(String),
    Array(Vec<Json>),
    Object(Vec<(String, Json)>),
}

/// Mathematical value of a [`Json`].
pub enum JsonView {
    Null,
    Bool(bool),
    Number(Seq<char>),
    Text(Seq<char>),
    Array(Seq<JsonView>),
    Object(Seq<(Seq<char>, JsonView)>),
}

/// The value of `json`: its strings by their characters, its arrays and
/// objects by the values of what they hold.
pub open spec fn json_view(json: Json) -> JsonView
    decreases json,
{
    match json {
        Json::Null => JsonView::Null,
        Json::Bool(b) => JsonView::Bool(b),
        Json::Number(digits) => JsonView::Number(digits@),
        Json::Text(text) => JsonView::Text(text@),
        Json::Array(elements) => JsonView::Array(
            Seq::new(
                elements@.len(),
                |i: int|
                    if 0 <= i < elements@.len() {
                        json_view(elements@[i])
                    } else {
                        JsonView::Null
                    },
            ),
        ),
        Json::Object(members) => JsonView::Object(
            Seq::new(
                members@.len(),
                |i: int|
                    if 0 <= i < members@.len() {
                        (members@[i].0@, json_view(members@[i].1))
                    } else {
                        (Seq::empty(), JsonView::Null)
                    },
            ),
        ),
    }
}

impl View for Json {
    type V = JsonView;

    open spec fn view(&self) -> JsonView {
        json_view(*self)
    }
}

/// The values in `elements`, each taken by its value.
pub open spec fn json_views(elements: Seq<Json>) -> Seq<JsonView> {
    Seq::new(elements.len(), |i: int| elements[i]@)
}

/// The members in `members`, each taken by the characters of its name and
/// by its value.
pub open spec fn member_views(members: Seq<(String, Json)>) -> Seq<(Seq<char>, JsonView)> {
    Seq::new(members.len(), |i: int| (members[i].0@, members[i].1@))
}

/// An array has the values of its elements for elements, and an object the
/// values of its members for members.
pub proof fn lemma_json_view(json: Json)
    ensures
        json matches Json::Array(elements) ==> json@.elements() == json_views(elements@),
        json matches Json::Object(members) ==> json@.members() == member_views(members@),
        !(json is Array) ==> json@.elements() == Seq::<JsonView>::empty(),
        !(json is Object) ==> json@.members() == Seq::<(Seq<char>, JsonView)>::empty(),
        json matches Json::Text(text) ==> json@.text() == Some(text@),
        !(json is Text) ==> json@.text() is None,
{
    match json {
        Json::Array(elements) => {
            assert(json@.elements() =~= json_views(elements@));
        },
        Json::Object(members) => {
            assert(json@.members() =~= member_views(members@));
        },
        _ => {},
    }
}

impl JsonView {
    /// The members of an object; no members for any other value.
    pub open spec fn members(self) -> Seq<(Seq<char>, JsonView)> {
        match self {
            JsonView::Object(members) => members,
            _ => Seq::empty(),
        }
    }

    /// The elements of an array; no elements for any other value.
    pub open spec fn elements(self) -> Seq<JsonView> {
        match self {
            JsonView::Array(elements) => elements,
            _ => Seq::empty(),
        }
    }

    /// The characters of a string value.
    pub open spec fn text(self) -> Option<Seq<char>> {
        match self {
            JsonView::Text(text) => Some(text),
            _ => None,
        }
    }
}

/// The value of the first member of `members` that is called `key`.
pub open spec fn member_named(members: Seq<(Seq<char>, JsonView)>, key: Seq<char>) -> Option<
    JsonView,
>
    decreases members.len(),
{
    if members.len() == 0 {
        None
    } else if members.first().0 == key {
        Some(members.first().1)
    } else {
        member_named(members.drop_first(), key)
    }
}

/// `serde_json::Error`, the failure of a parse. Nothing is known of what
/// it holds.
#[verifier::external_type_specification]
#[verifier::external_body]
pub struct ExJsonError(serde_json::Error);

/// `serde_json::Value`, a document as the parser hands it out. Nothing is
/// known of what it holds; it is copied into a [`Json`] at once.
#[verifier::external_type_specification]
#[verifier::external_body]
pub struct ExJsonValue(serde_json::Value);

/// What `serde_json::from_str` makes of a text: the value of the document,
/// or `None` where the text is not JSON.
pub uninterp spec fn json_from_str(text: Seq<char>) -> Option<JsonView>;

/// Copies a `serde_json::Value` into a [`Json`], variant by variant.
#[verifier::external_body]
fn json_from_value(value: serde_json::Value) -> Json {
    match value {
        serde_json::Value::Null => Json::Null,
        serde_json::Value::Bool(b) => Json::Bool(b),
        serde_json::Value::Number(n) => Json::Number(n.to_string()),
        serde_json::Value::String(s) => Json::Text(s),
        serde_json::Value::Array(a) => Json::Array(a.into_iter().map(json_from_value).collect()),
        serde_json::Value::Object(m) => Json::Object(
            m.into_iter().map(|(k, v)| (k, json_from_value(v))).collect(),
        ),
    }
}

/// Calls `serde_json::from_str` for a `serde_json::Value` and copies the
/// value into a [`Json`]. The contract only gives the outcome its name,
/// [`json_from_str`]: the parser reads nothing but its argument.
#[verifier::external_body]
fn json_value_from_str(text: &str) -> (r: Result<Json, serde_json::Error>)
    ensures
        r.is_ok() == json_from_str(text@).is_some(),
        r.is_ok() ==> r.unwrap()@ == json_from_str(text@).unwrap(),
{
    serde_json::from_str::<serde_json::Value>(text).map(json_from_value)
}

/// The text that `serde_json::Error` prints of itself. Nothing is claimed of
/// it.
#[verifier::external_body]
fn json_error_text(error: &serde_json::Error) -> String {
    format!("{error:?}")
}

/// The message that a failed parse starts with; the name of the document and
/// the parser's own words follow.
pub open spec fn parse_failure_prefix() -> Seq<char> {
    "Unable to parse JSON in "@
}

impl Json {
    /// The value of the member called `key`, where `self` is an object that
    /// has one.
    pub fn get(&self, key: &str) -> (r: Option<&Json>)
        ensures
            r is Some == member_named(self@.members(), key@) is Some,
            r matches Some(value) ==> value@ == member_named(self@.members(), key@).unwrap(),
    {
        proof {
            lemma_json_view(*self);
        }
        match self {
            Json::Object(members) => {
                let wanted = key.to_owned();
                let ghost all = member_views(members@);
                let mut i: usize = 0;
                assert(all.subrange(0, all.len() as int) =~= all);
                while i < members.len()
                    invariant
                        i <= members.len(),
                        wanted@ == key@,
                        all == member_views(members@),
                        all == self@.members(),
                        member_named(all, key@) == member_named(
                            all.subrange(i as int, all.len() as int),
                            key@,
                        ),
                    decreases members.len() - i,
                {
                    let ghost rest = all.subrange(i as int, all.len() as int);
                    assert(rest.first() == all[i as int]);
                    assert(rest.drop_first() =~= all.subrange(i as int + 1, all.len() as int));
                    if members[i].0 == wanted {
                        return Some(&members[i].1);
                    }
                    i += 1;
                }
                None
            },
            _ => None,
        }
    }

    /// Parses `text`, which was read from the document called `name`.
    ///
    /// Fails with `InvalidArgument` exactly where the text is not JSON.
    pub fn parse(name: &str, text: &str) -> (r: Result<Json, Status>)
        ensures
            r.is_ok() == json_from_str(text@).is_some(),
            r matches Ok(document) ==> document@ == json_from_str(text@).unwrap(),
            r matches Err(status) ==> status.code == Code::InvalidArgument && (
            parse_failure_prefix() + name@).is_prefix_of(status.message@),
    {
        match json_value_from_str(text) {
            Ok(document) => Ok(document),
            Err(error) => {
                let detail = json_error_text(&error);
                let status = Status::describe(
                    Code::InvalidArgument,
                    "Unable to parse JSON in ",
                    name,
                    detail.as_str(),
                );
                assert(status.message@ =~= (parse_failure_prefix() + name@) + (": "@ + detail@));
                Err(status)
            },
        }
    }
}

} // verus!
