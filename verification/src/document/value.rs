//! JSON values as `serde_json` and `serde_yaml` read and hold them.
use crate::json::{keys, lemma_json_view, well_formed, Json, JsonView};
use crate::text::ascending;
use vstd::prelude::*;

verus! {

/// `serde_json::Value`: a JSON value.
#[verifier::external_type_specification]
#[verifier::external_body]
pub struct ExValue(serde_json::Value);

/// `serde_json::Number`: a number, which this library only carries and writes out.
#[verifier::external_type_specification]
#[verifier::external_body]
pub struct ExNumber(serde_json::Number);

/// `serde_json::Error`: what is wrong with a JSON text or value.
#[verifier::external_type_specification]
#[verifier::external_body]
pub struct ExJsonError(serde_json::Error);

/// `serde_yaml::Error`: what is wrong with a YAML text.
#[verifier::external_type_specification]
#[verifier::external_body]
pub struct ExYamlError(serde_yaml::Error);

/// What a `serde_json::Value` holds.
pub uninterp spec fn json_of(value: serde_json::Value) -> JsonView;

/// The JSON value that a JSON text stands for, or the message of what is wrong with the text, as
/// `serde_json::from_str` gives them.
pub uninterp spec fn json_value(content: Seq<char>) -> Result<JsonView, Seq<char>>;

/// The JSON value that a YAML text stands for, or the message of what is wrong with the text, as
/// `serde_yaml::from_str` gives them.
pub uninterp spec fn yaml_value(content: Seq<char>) -> Result<JsonView, Seq<char>>;

/// The message of a `serde_json::Error`.
pub uninterp spec fn json_error_text(error: serde_json::Error) -> Seq<char>;

/// The message of a `serde_yaml::Error`.
pub uninterp spec fn yaml_error_text(error: serde_yaml::Error) -> Seq<char>;

/// The decimal form of a number, as `serde_json::Number` displays itself.
pub uninterp spec fn number_text(n: serde_json::Number) -> Seq<char>;

/// Calls `serde_json::from_str` for a `serde_json::Value`. What it makes of a text is a function
/// of the text, which only its name stands for.
#[verifier::external_body]
pub(crate) fn read_json(content: &str) -> (r: Result<serde_json::Value, serde_json::Error>)
    ensures
        json_value(content@) == (match r {
            Ok(value) => Ok::<JsonView, Seq<char>>(json_of(value)),
            Err(error) => Err(json_error_text(error)),
        }),
{
    serde_json::from_str(content)
}

/// Calls `serde_yaml::from_str` for a `serde_json::Value`. What it makes of a text is a function
/// of the text, which only its name stands for.
#[verifier::external_body]
pub(crate) fn read_yaml(content: &str) -> (r: Result<serde_json::Value, serde_yaml::Error>)
    ensures
        yaml_value(content@) == (match r {
            Ok(value) => Ok::<JsonView, Seq<char>>(json_of(value)),
            Err(error) => Err(yaml_error_text(error)),
        }),
{
    serde_yaml::from_str(content)
}

/// Calls `to_string` on a `serde_json::Number`. Its result is a function of the number, which
/// only its name stands for.
#[verifier::external_body]
pub(crate) fn write_number(n: &serde_json::Number) -> (r: String)
    ensures
        r@ == number_text(*n),
{
    n.to_string()
}

/// Calls `to_string` on a `serde_json::Error`.
#[verifier::external_body]
pub(crate) fn write_json_error(error: &serde_json::Error) -> (r: String)
    ensures
        r@ == json_error_text(*error),
{
    error.to_string()
}

/// Calls `to_string` on a `serde_yaml::Error`.
#[verifier::external_body]
pub(crate) fn write_yaml_error(error: &serde_yaml::Error) -> (r: String)
    ensures
        r@ == yaml_error_text(*error),
{
    error.to_string()
}

/// A `serde_json::Value` taken apart by one level.
pub enum Node {
    Null,
    Bool(bool),
    Number(serde_json::Number),
    Text(String),
    Array(Vec<serde_json::Value>),
    Object(Vec<(String, serde_json::Value)>),
}

/// What a value taken apart by one level holds.
pub open spec fn node_view(node: Node) -> JsonView {
    match node {
        Node::Null => JsonView::Null,
        Node::Bool(b) => JsonView::Bool(b),
        Node::Number(n) => JsonView::Number(n),
        Node::Text(s) => JsonView::Text(s@),
        Node::Array(items) => JsonView::Array(
            items@.map_values(|value: serde_json::Value| json_of(value)),
        ),
        Node::Object(entries) => JsonView::Object(
            entries@.map_values(|e: (String, serde_json::Value)| (e.0@, json_of(e.1))),
        ),
    }
}

/// Whether the entries of an object stand in the strict order of their keys.
pub open spec fn is_ordered(j: JsonView) -> bool {
    j matches JsonView::Object(entries) ==> ascending(keys(entries))
}

/// Takes a `serde_json::Value` apart by one level. A `serde_json::Map` hands its entries out in
/// the order of their keys, and has each key once; it does so without the feature
/// `preserve_order`, which this library does not use.
#[verifier::external_body]
fn open_value(value: serde_json::Value) -> (r: Node)
    ensures
        node_view(r) == json_of(value),
        is_ordered(node_view(r)),
{
    match value {
        serde_json::Value::Null => Node::Null,
        serde_json::Value::Bool(b) => Node::Bool(b),
        serde_json::Value::Number(n) => Node::Number(n),
        serde_json::Value::String(s) => Node::Text(s),
        serde_json::Value::Array(items) => Node::Array(items),
        serde_json::Value::Object(map) => Node::Object(map.into_iter().collect()),
    }
}

/// Puts a `serde_json::Value` together from one level. A `serde_json::Map` takes in entries with
/// different keys whole, and holds them in the order of their keys.
#[verifier::external_body]
fn close_value(node: Node) -> (r: serde_json::Value)
    requires
        is_ordered(node_view(node)),
    ensures
        json_of(r) == node_view(node),
{
    match node {
        Node::Null => serde_json::Value::Null,
        Node::Bool(b) => serde_json::Value::Bool(b),
        Node::Number(n) => serde_json::Value::Number(n),
        Node::Text(s) => serde_json::Value::String(s),
        Node::Array(items) => serde_json::Value::Array(items),
        Node::Object(entries) => serde_json::Value::Object(entries.into_iter().collect()),
    }
}

/// Turns a `serde_json::Value` into a JSON value of this library.
pub(crate) fn from_value(value: serde_json::Value) -> (r: Json)
    ensures
        r.deep_view() == json_of(value),
        well_formed(r.deep_view()),
    decreases json_of(value),
{
    match open_value(value) {
        Node::Null => Json::Null,
        Node::Bool(b) => Json::Bool(b),
        Node::Number(n) => Json::Number(n),
        Node::Text(s) => Json::Text(s),
        Node::Array(items) => {
            let ghost views = items@.map_values(|value: serde_json::Value| json_of(value));
            let mut out: Vec<Json> = Vec::new();
            for item in it: items
                invariant
                    json_of(value) == JsonView::Array(views),
                    it.seq() == items@,
                    views == items@.map_values(|value: serde_json::Value| json_of(value)),
                    out@.len() == it.index(),
                    forall|k: int|
                        0 <= k < out@.len() ==> (#[trigger] out@[k]).deep_view() == views[k],
                    forall|k: int| 0 <= k < out@.len() ==> well_formed(#[trigger] views[k]),
            {
                assert(views[it.index()] == json_of(item));
                assert(decreases_to!(json_of(value) => json_of(value)->Array_0));
                assert(decreases_to!(views => views[it.index()]));
                let child = from_value(item);
                out.push(child);
            }
            let r = Json::Array(out);
            proof {
                lemma_json_view(r);
            }
            assert(out.deep_view() =~= views);
            r
        },
        Node::Object(entries) => {
            let ghost views = entries@.map_values(
                |e: (String, serde_json::Value)| (e.0@, json_of(e.1)),
            );
            let mut out: Vec<(String, Json)> = Vec::new();
            for entry in it: entries
                invariant
                    json_of(value) == JsonView::Object(views),
                    it.seq() == entries@,
                    views == entries@.map_values(
                        |e: (String, serde_json::Value)| (e.0@, json_of(e.1)),
                    ),
                    out@.len() == it.index(),
                    forall|k: int|
                        0 <= k < out@.len() ==> (#[trigger] out@[k]).0@ == views[k].0
                            && out@[k].1.deep_view() == views[k].1 && well_formed(views[k].1),
            {
                assert(views[it.index()] == (entry.0@, json_of(entry.1)));
                assert(decreases_to!(json_of(value) => json_of(value)->Object_0));
                assert(decreases_to!(views => views[it.index()]));
                assert(decreases_to!(views[it.index()] => views[it.index()].1));
                let (key, child) = entry;
                out.push((key, from_value(child)));
            }
            let r = Json::Object(out);
            proof {
                lemma_json_view(r);
            }
            assert(out.deep_view() =~= views);
            assert forall|k: int| 0 <= k < views.len() implies well_formed(
                (#[trigger] views[k]).1,
            ) by {
                assert(out@[k].0@ == views[k].0);
            }
            r
        },
    }
}

/// Turns a JSON value of this library into a `serde_json::Value`.
pub(crate) fn to_value(j: Json) -> (r: serde_json::Value)
    requires
        well_formed(j.deep_view()),
    ensures
        json_of(r) == j.deep_view(),
    decreases j,
{
    proof {
        lemma_json_view(j);
    }
    let node = match j {
        Json::Null => Node::Null,
        Json::Bool(b) => Node::Bool(b),
        Json::Number(n) => Node::Number(n),
        Json::Text(s) => Node::Text(s),
        Json::Array(items) => {
            let ghost views = items.deep_view();
            assert(well_formed(JsonView::Array(views)));
            assert forall|k: int| 0 <= k < views.len() implies well_formed(#[trigger] views[k]) by {
                let whole = JsonView::Array(views);
                assert(well_formed(whole->Array_0[k]));
            }
            let mut out: Vec<serde_json::Value> = Vec::new();
            for item in it: items
                invariant
                    j == Json::Array(items),
                    forall|k: int| 0 <= k < views.len() ==> well_formed(#[trigger] views[k]),
                    it.seq() == items@,
                    views == items.deep_view(),
                    out@.len() == it.index(),
                    forall|k: int| 0 <= k < out@.len() ==> json_of(#[trigger] out@[k]) == views[k],
            {
                assert(views[it.index()] == item.deep_view());
                assert(well_formed(views[it.index()]));
                assert(decreases_to!(j => j->Array_0));
                assert(decreases_to!(items => items@));
                assert(decreases_to!(items@ => items@[it.index()]));
                out.push(to_value(item));
            }
            assert(out@.map_values(|value: serde_json::Value| json_of(value)) =~= views);
            Node::Array(out)
        },
        Json::Object(entries) => {
            let ghost views = entries.deep_view();
            let mut out: Vec<(String, serde_json::Value)> = Vec::new();
            for entry in it: entries
                invariant
                    j == Json::Object(entries),
                    forall|k: int| 0 <= k < views.len() ==> well_formed((#[trigger] views[k]).1),
                    it.seq() == entries@,
                    views == entries.deep_view(),
                    out@.len() == it.index(),
                    forall|k: int|
                        0 <= k < out@.len() ==> (#[trigger] out@[k]).0@ == views[k].0 && json_of(
                            out@[k].1,
                        ) == views[k].1,
            {
                assert(views[it.index()] == (entry.0@, entry.1.deep_view()));
                assert(well_formed(views[it.index()].1));
                assert(decreases_to!(j => j->Object_0));
                assert(decreases_to!(entries => entries@));
                assert(decreases_to!(entries@ => entries@[it.index()]));
                assert(decreases_to!(entries@[it.index()] => entries@[it.index()].1));
                let (key, child) = entry;
                out.push((key, to_value(child)));
            }
            assert(out@.map_values(|e: (String, serde_json::Value)| (e.0@, json_of(e.1)))
                =~= views);
            Node::Object(out)
        },
    };
    close_value(node)
}

} // verus!
