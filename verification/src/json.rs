//! JSON documents as plain values, read from text by `serde_json`.

use vstd::prelude::*;

verus! {

/// A JSON document.
///
/// Numbers keep their value only where they are integers that fit in an
/// `i64`; every other number is `Number(None)`. Object members are held in
/// the order in which the parser hands them out.
pub enum Json {
    Null,
    Bool(bool),
    Number(Option<i64>),
    Text(String),
    Array(Vec<Json>),
    Object(Vec<(String, Json)>),
}

/// The mathematical value of a [`Json`] document.
pub enum JsonView {
    Null,
    Bool(bool),
    Number(Option<i64>),
    Text(Seq<char>),
    Array(Seq<JsonView>),
    Object(Seq<(Seq<char>, JsonView)>),
}

/// The value of a document, taken member by member.
pub open spec fn json_view(doc: Json) -> JsonView
    decreases doc,
{
    match doc {
        Json::Null => JsonView::Null,
        Json::Bool(b) => JsonView::Bool(b),
        Json::Number(n) => JsonView::Number(n),
        Json::Text(s) => JsonView::Text(s@),
        Json::Array(items) => JsonView::Array(
            Seq::new(
                items@.len(),
                |i: int|
                    if 0 <= i < items@.len() {
                        json_view(items@[i])
                    } else {
                        JsonView::Null
                    },
            ),
        ),
        Json::Object(members) => JsonView::Object(
            Seq::new(
                members@.len(),
                |i: int|
                    if 0 <= i < members@.len() {
                        (members@[i].0@, json_view(members@[i].1))
                    } else {
                        (Seq::empty(), JsonView::Null)
                    },
            ),
        ),
    }
}

impl View for Json {
    type V = JsonView;

    open spec fn view(&self) -> JsonView {
        json_view(*self)
    }
}

/// `serde_json::Value`, the document tree that `serde_json` parses into.
#[verifier::external_type_specification]
#[verifier::external_body]
pub struct ExValue(serde_json::Value);

/// What `serde_json::from_str::<serde_json::Value>` makes of `text`: `None`
/// where it reports an error, else the document it built, held as a
/// [`Json`]: each number as `serde_json::Number::as_i64` gives it, each
/// object's members in the order of `serde_json::Map`'s iterator.
pub uninterp spec fn json_parsed(text: Seq<char>) -> Option<JsonView>;

/// What `serde_json::to_string` writes for the string `text`: a JSON string
/// literal, quotes included.
pub uninterp spec fn json_quoted(text: Seq<char>) -> Seq<char>;

/// Moves a `serde_json::Value` into a [`Json`], variant by variant. A number
/// is read with `serde_json::Number::as_i64`; an object's members come in the
/// order of `serde_json::Map`'s iterator. Only [`parse`] calls it, and nothing
/// is claimed of its result by itself.
#[verifier::external_body]
fn lift(value: serde_json::Value) -> Json {
    match value {
        serde_json::Value::Null => Json::Null,
        serde_json::Value::Bool(b) => Json::Bool(b),
        serde_json::Value::Number(n) => Json::Number(n.as_i64()),
        serde_json::Value::String(s) => Json::Text(s),
        serde_json::Value::Array(items) => Json::Array(items.into_iter().map(lift).collect()),
        serde_json::Value::Object(members) => Json::Object(
            members.into_iter().map(|(name, member)| (name, lift(member))).collect(),
        ),
    }
}

/// Calls `serde_json::from_str::<serde_json::Value>`. The parser reads one
/// JSON document from the whole of `text` and depends on nothing else, so the
/// result is the named function of the text. That it returns, with an error
/// for malformed or too deeply nested input, is taken on trust.
#[verifier::external_body]
pub(crate) fn parse(text: &str) -> (doc: Option<Json>)
    ensures
        json_parsed(text@) == match doc {
            Some(d) => Some(d@),
            None => None,
        },
{
    match serde_json::from_str::<serde_json::Value>(text) {
        Ok(value) => Some(lift(value)),
        Err(_) => None,
    }
}

/// Calls `serde_json::to_string` on a string slice, which writes the slice as
/// one JSON string literal and cannot fail for this type.
#[verifier::external_body]
pub(crate) fn quote(text: &str) -> (quoted: String)
    ensures
        quoted@ == json_quoted(text@),
{
    match serde_json::to_string(text) {
        Ok(quoted) => quoted,
        Err(_) => String::new(),
    }
}

/// The value of the first member of `members` that is called `name`.
pub open spec fn spec_member(members: Seq<(Seq<char>, JsonView)>, name: Seq<char>) -> Option<
    JsonView,
>
    decreases members.len(),
{
    if members.len() == 0 {
        None
    } else if members[0].0 == name {
        Some(members[0].1)
    } else {
        spec_member(members.skip(1), name)
    }
}

/// The members of an object, as the view of [`Json::Object`] holds them.
pub open spec fn members_view(members: Seq<(String, Json)>) -> Seq<(Seq<char>, JsonView)> {
    Seq::new(
        members.len(),
        |i: int|
            if 0 <= i < members.len() {
                (members[i].0@, members[i].1@)
            } else {
                (Seq::empty(), JsonView::Null)
            },
    )
}

/// The view of an object is the view of its members, one by one.
pub proof fn lemma_object_view(members: Vec<(String, Json)>)
    ensures
        Json::Object(members)@ == JsonView::Object(members_view(members@)),
{
    reveal_with_fuel(json_view, 2);
    assert(Json::Object(members)@->Object_0 =~= members_view(members@));
}

/// Looks a member up by name; the first of that name is found.
pub fn member<'a>(members: &'a Vec<(String, Json)>, name: &str) -> (found: Option<&'a Json>)
    ensures
        spec_member(members_view(members@), name@) == match found {
            Some(value) => Some(value@),
            None => None,
        },
{
    let ghost all = members_view(members@);
    let mut i: usize = 0;
    assert(all.skip(0) =~= all);
    while i < members.len()
        invariant
            i <= members.len(),
            all == members_view(members@),
            spec_member(all, name@) == spec_member(all.skip(i as int), name@),
        decreases members.len() - i,
    {
        proof {
            assert(all.skip(i as int)[0] == all[i as int]);
            assert(all.skip(i as int).skip(1) =~= all.skip(i + 1));
        }
        if same_text(members[i].0.as_str(), name) {
            return Some(&members[i].1);
        }
        i += 1;
    }
    None
}

/// Whether two string slices hold the same characters.
pub fn same_text(a: &str, b: &str) -> (same: bool)
    ensures
        same == (a@ == b@),
{
    let left = a.to_owned();
    let right = b.to_owned();
    left == right
}

} // verus!
