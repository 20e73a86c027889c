//! What holds of reading documents, in terms of their JSON values.
use crate::document::normalize::{
    declared_version, first_non_text, non_null_types, normalized_document, normalized_entries,
    normalized_items, normalized_value, scalar_type, with_version,
};
use crate::document::parts::document_value;
use crate::document::value::{json_value, number_text, yaml_value};
use crate::document::version::{version_30, version_31};
use crate::document::{is_loaded, loaded_file, loaded_json, loaded_value, loaded_yaml};
use crate::error::{DocumentError, DocumentErrorView};
use crate::json::{
    entry_place, keys, lemma_entry_place, lemma_value_under_with_entry,
    lemma_with_entry_is_ascending, value_under, with_entry, JsonView,
};
use crate::openapi::view::DocumentView;
use crate::openapi::Document;
use crate::text::{
    ascending, ascii_lower_text, decimal, joined, lemma_precedes_is_an_order, precedes,
};
use vstd::prelude::*;

verus! {

/// A version belongs to the 3.0 or the 3.1 line where it is written `3.0` or `3.1`, or starts so
/// with a point behind.
pub proof fn law_lines_of_versions(version: Seq<char>)
    ensures
        version_30(version) <==> version.len() >= 3 && version[0] == '3' && version[1] == '.'
            && version[2] == '0' && (version.len() == 3 || version[3] == '.'),
        version_31(version) <==> version.len() >= 3 && version[0] == '3' && version[1] == '.'
            && version[2] == '1' && (version.len() == 3 || version[3] == '.'),
{
    reveal_strlit("3.0.");
    reveal_strlit("3.0");
    reveal_strlit("3.1.");
    reveal_strlit("3.1");
    if version.len() == 3 {
        if version[0] == '3' && version[1] == '.' && version[2] == '0' {
            assert(version =~= "3.0"@);
        }
        if version[0] == '3' && version[1] == '.' && version[2] == '1' {
            assert(version =~= "3.1"@);
        }
    }
    if version.len() >= 4 {
        let front = version.take(4);
        if "3.0."@.is_prefix_of(version) {
            assert(version[0] == "3.0."@[0] && version[1] == "3.0."@[1] && version[2] == "3.0."@[2]
                && version[3] == "3.0."@[3]);
        }
        if "3.1."@.is_prefix_of(version) {
            assert(version[0] == "3.1."@[0] && version[1] == "3.1."@[1] && version[2] == "3.1."@[2]
                && version[3] == "3.1."@[3]);
        }
        if version[0] == '3' && version[1] == '.' && version[3] == '.' {
            if version[2] == '0' {
                assert(front =~= "3.0."@);
            }
            if version[2] == '1' {
                assert(front =~= "3.1."@);
            }
        }
    }
}

/// The value under a key of an object is the one of the entry with that key, and there is none
/// where no entry has it.
pub proof fn law_values_under_keys(entries: Seq<(Seq<char>, JsonView)>, key: Seq<char>, i: int)
    requires
        ascending(keys(entries)),
    ensures
        0 <= i < entries.len() && entries[i].0 == key ==> value_under(entries, key) == Some(
            entries[i].1,
        ),
        (forall|k: int| 0 <= k < entries.len() ==> (#[trigger] entries[k]).0 != key)
            ==> value_under(entries, key) is None,
{
    lemma_entry_place(entries, key);
    let p = entry_place(entries, key);
    if p < entries.len() && 0 <= i < entries.len() && entries[i].0 == key {
        if p < i {
            assert(precedes(keys(entries)[p], keys(entries)[i]));
            lemma_precedes_is_an_order(key, key, key);
        }
    }
}

/// Once a key has been given a value it has that one, all other keys have what they had, and the
/// keys are still in their order.
pub proof fn law_a_key_is_given_a_value(
    entries: Seq<(Seq<char>, JsonView)>,
    key: Seq<char>,
    value: JsonView,
    other: Seq<char>,
)
    requires
        ascending(keys(entries)),
    ensures
        value_under(with_entry(entries, key, value), key) == Some(value),
        other != key ==> value_under(with_entry(entries, key, value), other) == value_under(
            entries,
            other,
        ),
        ascending(keys(with_entry(entries, key, value))),
{
    lemma_value_under_with_entry(entries, key, value, other);
    lemma_with_entry_is_ascending(entries, key, value);
}

/// The version of a document is the text under `openapi`, or the text of the number there. Where
/// there is anything else or nothing there, and where the document is no object, there is none.
pub proof fn law_declared_version(document: JsonView)
    ensures
        !(document is Object) ==> declared_version(document) == Err::<Seq<char>, Seq<char>>(
            "missing required openapi version field"@,
        ),
        document matches JsonView::Object(entries) ==> match value_under(entries, "openapi"@) {
            Some(JsonView::Text(written)) => declared_version(document) == Ok::<
                Seq<char>,
                Seq<char>,
            >(written),
            Some(JsonView::Number(n)) => declared_version(document) == Ok::<Seq<char>, Seq<char>>(
                number_text(n),
            ),
            Some(_) => declared_version(document) == Err::<Seq<char>, Seq<char>>(
                "openapi field must be a string"@,
            ),
            None => declared_version(document) == Err::<Seq<char>, Seq<char>>(
                "missing required openapi version field"@,
            ),
        },
{
}

/// A document of a supported version has its version as a text and every other key as it was,
/// before the types in it are looked at: not at all in the 3.0 line, and from `$` on in the 3.1
/// line. A document of another version is refused by a message that gives the version.
pub proof fn law_documents_of_each_line(document: JsonView, key: Seq<char>)
    ensures
        declared_version(document) matches Ok(version) ==> {
            let versioned = with_version(document, version);
            &&& document is Object
            &&& versioned is Object
            &&& value_under(versioned->Object_0, "openapi"@) == Some(JsonView::Text(version))
            &&& key != "openapi"@ ==> value_under(versioned->Object_0, key) == value_under(
                document->Object_0,
                key,
            )
            &&& ascending(keys(document->Object_0)) ==> ascending(keys(versioned->Object_0))
            &&& version_30(version) ==> normalized_document(document) == (
                versioned,
                None::<Seq<char>>,
            )
            &&& version_31(version) ==> normalized_document(document) == normalized_value(
                versioned,
                "$"@,
            )
            &&& !version_30(version) && !version_31(version) ==> normalized_document(document) == (
                versioned,
                Some(
                    "unsupported OpenAPI version '"@ + version + "'; supported: 3.0.x and 3.1.x"@,
                ),
            )
        },
        declared_version(document) matches Err(message) ==> normalized_document(document) == (
            document,
            Some(message),
        ),
{
    if let Ok(version) = declared_version(document) {
        law_lines_of_versions(version);
        let entries = document->Object_0;
        lemma_value_under_with_entry(entries, "openapi"@, JsonView::Text(version), key);
        if ascending(keys(entries)) {
            lemma_with_entry_is_ascending(entries, "openapi"@, JsonView::Text(version));
        }
    }
}

/// The types of two lists, one behind the other, are those of the one and then those of the
/// other. A text other than `null` is taken as it is, and nothing else is taken.
pub proof fn law_types_in_a_list(first: Seq<JsonView>, second: Seq<JsonView>)
    ensures
        non_null_types(first + second) == non_null_types(first) + non_null_types(second),
        first.len() == 0 ==> non_null_types(first).len() == 0,
        first.len() == 1 && first[0] is Text && first[0]->Text_0 != "null"@ ==> non_null_types(
            first,
        ) == seq![first[0]->Text_0],
        first.len() == 1 && !(first[0] is Text && first[0]->Text_0 != "null"@) ==> non_null_types(
            first,
        ).len() == 0,
    decreases second.len(),
{
    if first.len() == 1 {
        assert(non_null_types(first.drop_last()) =~= Seq::empty());
        if first[0] is Text && first[0]->Text_0 != "null"@ {
            assert(non_null_types(first) =~= seq![first[0]->Text_0]);
        }
    }
    if second.len() == 0 {
        assert(first + second =~= first);
    } else {
        assert((first + second).drop_last() =~= first + second.drop_last());
        law_types_in_a_list(first, second.drop_last());
    }
    assert(non_null_types(first + second) =~= non_null_types(first) + non_null_types(second));
}

proof fn lemma_first_non_text_at(items: Seq<JsonView>, i: int)
    requires
        0 <= i <= items.len(),
        forall|k: int| 0 <= k < i ==> #[trigger] items[k] is Text,
        i < items.len() ==> !(items[i] is Text),
    ensures
        first_non_text(items) == i,
    decreases items.len(),
{
    if i > 0 {
        let rest = items.drop_first();
        assert(items[0] is Text);
        assert forall|k: int| 0 <= k < i - 1 implies #[trigger] rest[k] is Text by {
            assert(rest[k] == items[k + 1]);
        }
        lemma_first_non_text_at(rest, i - 1);
    }
}

/// A list of types is refused, by a message behind the path of its object, where it is empty,
/// where an item is no text, the first of which the message names, where all items are `null`,
/// and where there are several types, which the message lists. No other list is refused. What is
/// no list at all is refused too.
pub proof fn law_refused_type_lists(items: Seq<JsonView>, i: int, value: JsonView, path: Seq<char>)
    ensures
        ({
            let refusal = scalar_type(JsonView::Array(items), path);
            let types = non_null_types(items);
            let all_texts = forall|k: int| 0 <= k < items.len() ==> #[trigger] items[k] is Text;
            &&& items.len() == 0 ==> refusal == Err::<(Seq<char>, bool), Seq<char>>(
                path + ".type: type array must not be empty"@,
            )
            &&& 0 <= i < items.len() && !(items[i] is Text) && (forall|k: int|
                0 <= k < i ==> #[trigger] items[k] is Text) ==> refusal == Err::<
                (Seq<char>, bool),
                Seq<char>,
            >(path + ".type["@ + decimal(i) + "]: type array entries must be strings"@)
            &&& items.len() > 0 && all_texts && types.len() == 0 ==> refusal == Err::<
                (Seq<char>, bool),
                Seq<char>,
            >(path + ".type: type array containing only 'null' is not supported"@)
            &&& all_texts && types.len() > 1 ==> refusal == Err::<(Seq<char>, bool), Seq<char>>(
                path + ".type: multi-type unions are not supported (got ["@ + joined(types, ", "@)
                    + "]); only a single non-null type optionally combined with 'null' is allowed"@,
            )
            &&& all_texts && types.len() == 1 ==> refusal == Ok::<(Seq<char>, bool), Seq<char>>(
                (types[0], items.contains(JsonView::Text("null"@))),
            )
        }),
        !(value is Array) ==> scalar_type(value, path) == Err::<(Seq<char>, bool), Seq<char>>(
            path + ".type: expected array during normalization"@,
        ),
{
    if 0 <= i < items.len() && !(items[i] is Text) && (forall|k: int|
        0 <= k < i ==> #[trigger] items[k] is Text) {
        lemma_first_non_text_at(items, i);
    }
    if forall|k: int| 0 <= k < items.len() ==> #[trigger] items[k] is Text {
        lemma_first_non_text_at(items, items.len() as int);
        if items.len() == 0 {
            law_types_in_a_list(items, items);
        }
    }
}

/// An object whose `type` is a list comes out as the object with the one type in its place, and
/// with `nullable` true where `null` is in the list; or as it went in, with what is wrong with
/// the list.
pub proof fn law_type_lists_go_first(entries: Seq<(Seq<char>, JsonView)>, path: Seq<char>)
    requires
        value_under(entries, "type"@) is Some,
        value_under(entries, "type"@)->0 is Array,
    ensures
        match scalar_type(value_under(entries, "type"@)->0, path) {
            Ok((scalar, nullable)) => {
                let typed = with_entry(entries, "type"@, JsonView::Text(scalar));
                normalized_value(JsonView::Object(entries), path) == normalized_value(
                    JsonView::Object(
                        if nullable {
                            with_entry(typed, "nullable"@, JsonView::Bool(true))
                        } else {
                            typed
                        },
                    ),
                    path,
                )
            },
            Err(message) => normalized_value(JsonView::Object(entries), path) == (
                JsonView::Object(entries),
                Some(message),
            ),
        },
{
    if let Ok((scalar, nullable)) = scalar_type(value_under(entries, "type"@)->0, path) {
        reveal_strlit("type");
        reveal_strlit("nullable");
        assert("type"@.len() != "nullable"@.len());
        let typed = with_entry(entries, "type"@, JsonView::Text(scalar));
        lemma_value_under_with_entry(entries, "type"@, JsonView::Text(scalar), "type"@);
        lemma_value_under_with_entry(typed, "nullable"@, JsonView::Bool(true), "type"@);
    }
}

/// An object whose `type` is no list comes out with its values rewritten in order, each with its
/// key behind a point added to the path; the first that is refused ends this, and those behind
/// it stay as they are.
pub proof fn law_values_of_an_object_in_order(
    entries: Seq<(Seq<char>, JsonView)>,
    key: Seq<char>,
    value: JsonView,
    path: Seq<char>,
)
    ensures
        !(value_under(entries, "type"@) is Some && value_under(entries, "type"@)->0 is Array)
            ==> normalized_value(JsonView::Object(entries), path) == (
            JsonView::Object(normalized_entries(entries, path).0),
            normalized_entries(entries, path).1,
        ),
        normalized_entries(Seq::empty(), path) == (
            Seq::<(Seq<char>, JsonView)>::empty(),
            None::<Seq<char>>,
        ),
        ({
            let before = normalized_entries(entries, path);
            let after = normalized_entries(entries.push((key, value)), path);
            &&& before.1 is Some ==> after == (before.0.push((key, value)), before.1)
            &&& before.1 is None ==> after == (
                before.0.push((key, normalized_value(value, path + "."@ + key).0)),
                normalized_value(value, path + "."@ + key).1,
            )
        }),
{
    assert(entries.push((key, value)).drop_last() =~= entries);
}

/// An array comes out with its items rewritten in order, each with its place in brackets added to
/// the path; the first that is refused ends this, and those behind it stay as they are. What is
/// neither an object nor an array comes out as it is.
pub proof fn law_items_of_an_array_in_order(
    items: Seq<JsonView>,
    item: JsonView,
    path: Seq<char>,
)
    ensures
        normalized_value(JsonView::Array(items), path) == (
            JsonView::Array(normalized_items(items, path).0),
            normalized_items(items, path).1,
        ),
        normalized_items(Seq::empty(), path) == (Seq::<JsonView>::empty(), None::<Seq<char>>),
        ({
            let before = normalized_items(items, path);
            let after = normalized_items(items.push(item), path);
            let place = path + "["@ + decimal(items.len() as int) + "]"@;
            &&& before.1 is Some ==> after == (before.0.push(item), before.1)
            &&& before.1 is None ==> after == (
                before.0.push(normalized_value(item, place).0),
                normalized_value(item, place).1,
            )
        }),
        !(item is Object) && !(item is Array) ==> normalized_value(item, path) == (
            item,
            None::<Seq<char>>,
        ),
{
    assert(items.push(item).drop_last() =~= items);
}

/// A value that is refused when it is rewritten is an error of its own; what is made of any
/// other is the document that it is rewritten to, or a JSON error.
pub proof fn law_loading_a_value(j: JsonView)
    ensures
        normalized_document(j).1 matches Some(message) ==> loaded_value(j) == Err::<
            DocumentView,
            DocumentErrorView,
        >(DocumentErrorView::OpenApi(message)),
        normalized_document(j).1 is None ==> match document_value(normalized_document(j).0) {
            Ok(document) => loaded_value(j) == Ok::<DocumentView, DocumentErrorView>(document),
            Err(message) => loaded_value(j) == Err::<DocumentView, DocumentErrorView>(
                DocumentErrorView::Json(message),
            ),
        },
{
}

/// A text is what its value is, and a text without one is a YAML or a JSON error.
pub proof fn law_loading_a_text(content: Seq<char>)
    ensures
        yaml_value(content) matches Ok(j) ==> loaded_yaml(content) == loaded_value(j),
        yaml_value(content) matches Err(message) ==> loaded_yaml(content) == Err::<
            DocumentView,
            DocumentErrorView,
        >(DocumentErrorView::Yaml(message)),
        json_value(content) matches Ok(j) ==> loaded_json(content) == loaded_value(j),
        json_value(content) matches Err(message) ==> loaded_json(content) == Err::<
            DocumentView,
            DocumentErrorView,
        >(DocumentErrorView::Json(message)),
{
}

/// The text of a file is read as its extension says, whatever the case of its letters; a file
/// with another extension or none is refused.
pub proof fn law_loading_a_file(content: Seq<char>, extension: Seq<char>)
    ensures
        ({
            let lower = ascii_lower_text(extension);
            let loaded = loaded_file(content, Some(extension));
            &&& lower == "yaml"@ || lower == "yml"@ ==> loaded == loaded_yaml(content)
            &&& lower == "json"@ ==> loaded == loaded_json(content)
            &&& lower != "yaml"@ && lower != "yml"@ && lower != "json"@ ==> loaded == Err::<
                DocumentView,
                DocumentErrorView,
            >(
                DocumentErrorView::OpenApi(
                    "unsupported OpenAPI file extension '."@ + lower
                        + "'; expected .yaml, .yml, or .json"@,
                ),
            )
        }),
        loaded_file(content, None) == Err::<DocumentView, DocumentErrorView>(
            DocumentErrorView::OpenApi(
                "OpenAPI file has no extension; expected .yaml, .yml, or .json"@,
            ),
        ),
{
    reveal_strlit("yaml");
    reveal_strlit("yml");
    reveal_strlit("json");
    assert("yaml"@[0] != "json"@[0]);
    assert("yml"@.len() != "json"@.len());
}

/// What is loaded is the document that is said, or fails as is said.
pub proof fn law_what_is_loaded(
    r: Result<Document, DocumentError>,
    document: DocumentView,
    error: DocumentErrorView,
)
    ensures
        is_loaded(r, Ok(document)) <==> r is Ok && r->Ok_0.deep_view() == document,
        is_loaded(r, Err(error)) <==> r is Err && r->Err_0.deep_view() == error,
{
}

} // verus!
