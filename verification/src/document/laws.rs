//! What holds of normalization and loading as a whole.
use crate::document::normalize::{
    declared_version, entries_height, first_non_text, height, item_path, items_height, key_path,
    lemma_entries_height, lemma_items_height, lemma_retyped_height, non_null_types,
    normalized_document, normalized_entries, normalized_items, normalized_value, retyped,
    scalar_type, with_version,
};
use crate::document::value::{json_value, yaml_value};
use crate::document::version::{version_30, version_31};
use crate::document::{loaded_file, loaded_json, loaded_value, loaded_yaml};
use crate::error::DocumentErrorView;
use crate::json::{
    entry_place, keys, lemma_entry_place, lemma_value_under_with_entry, value_under, with_entry,
    JsonView,
};
use crate::openapi::view::DocumentView;
use crate::text::{ascii_lower_text, lemma_place_of, place_of};
use vstd::prelude::*;

verus! {

/// Whether an object lists types.
pub open spec fn lists_types(entries: Seq<(Seq<char>, JsonView)>) -> bool {
    value_under(entries, "type"@) matches Some(JsonView::Array(_))
}

/// Whether no object in a value lists types.
pub open spec fn free_of_type_lists(j: JsonView) -> bool
    decreases j,
{
    match j {
        JsonView::Object(entries) => {
            &&& !lists_types(entries)
            &&& forall|i: int|
                0 <= i < entries.len() ==> free_of_type_lists((#[trigger] entries[i]).1)
        },
        JsonView::Array(items) => {
            forall|i: int| 0 <= i < items.len() ==> free_of_type_lists(#[trigger] items[i])
        },
        _ => true,
    }
}

/// Where the keys agree, so do the places of the entries.
proof fn lemma_entry_place_by_keys(
    a: Seq<(Seq<char>, JsonView)>,
    b: Seq<(Seq<char>, JsonView)>,
    key: Seq<char>,
)
    requires
        keys(a) == keys(b),
    ensures
        a.len() == b.len(),
        entry_place(a, key) == entry_place(b, key),
{
    lemma_entry_place(a, key);
    lemma_entry_place(b, key);
    assert(a.len() == keys(a).len() && b.len() == keys(b).len());
    assert forall|i: int| 0 <= i < a.len() implies (#[trigger] a[i]).0 == b[i].0 by {
        assert(keys(a)[i] == keys(b)[i]);
    }
    let p = entry_place(a, key);
    let q = entry_place(b, key);
    if p < q {
        assert(a[p].0 == b[p].0);
    } else if q < p {
        assert(a[q].0 == b[q].0);
    }
}

/// Each entry is normalized on its own where none of them ends the normalization.
proof fn lemma_normalized_entry(entries: Seq<(Seq<char>, JsonView)>, path: Seq<char>, i: int)
    requires
        normalized_entries(entries, path).1 is None,
        0 <= i < entries.len(),
    ensures
        normalized_entries(entries, path).0.len() == entries.len(),
        normalized_value(entries[i].1, key_path(path, entries[i].0)).1 is None,
        normalized_entries(entries, path).0[i] == (
            entries[i].0,
            normalized_value(entries[i].1, key_path(path, entries[i].0)).0,
        ),
    decreases entries.len(),
{
    let rest = entries.drop_last();
    if rest.len() > 0 {
        lemma_normalized_entry(rest, path, if i < rest.len() { i } else { 0 });
    } else {
        assert(normalized_entries(rest, path).0 == rest);
    }
    if i < rest.len() {
        assert(rest[i] == entries[i]);
    }
}

/// The entries keep their keys where none of them ends the normalization.
proof fn lemma_normalized_keys(entries: Seq<(Seq<char>, JsonView)>, path: Seq<char>)
    requires
        normalized_entries(entries, path).1 is None,
    ensures
        keys(normalized_entries(entries, path).0) == keys(entries),
{
    let values = normalized_entries(entries, path).0;
    if entries.len() > 0 {
        lemma_normalized_entry(entries, path, 0);
    }
    assert forall|i: int| 0 <= i < entries.len() implies keys(values)[i] == keys(entries)[i] by {
        lemma_normalized_entry(entries, path, i);
    }
    assert(keys(values) =~= keys(entries));
}

/// Each item is normalized on its own where none of them ends the normalization.
proof fn lemma_normalized_item(items: Seq<JsonView>, path: Seq<char>, i: int)
    requires
        normalized_items(items, path).1 is None,
        0 <= i < items.len(),
    ensures
        normalized_items(items, path).0.len() == items.len(),
        normalized_value(items[i], item_path(path, i)).1 is None,
        normalized_items(items, path).0[i] == normalized_value(items[i], item_path(path, i)).0,
    decreases items.len(),
{
    let rest = items.drop_last();
    if rest.len() > 0 {
        lemma_normalized_item(rest, path, if i < rest.len() { i } else { 0 });
    } else {
        assert(normalized_items(rest, path).0 == rest);
    }
    if i < rest.len() {
        assert(rest[i] == items[i]);
    }
}

/// An object whose list of types was turned into one type lists types no more.
proof fn lemma_retyped_lists_no_types(entries: Seq<(Seq<char>, JsonView)>, path: Seq<char>)
    ensures
        retyped(entries, path) matches Ok(after) ==> !lists_types(after),
{
    match value_under(entries, "type"@) {
        Some(JsonView::Array(items)) => {
            if let Ok((scalar, nullable)) = scalar_type(JsonView::Array(items), path) {
                let text = JsonView::Text(scalar);
                lemma_value_under_with_entry(entries, "type"@, text, "type"@);
                let typed = with_entry(entries, "type"@, text);
                lemma_type_and_nullable_differ();
                lemma_value_under_with_entry(typed, "nullable"@, JsonView::Bool(true), "type"@);
            }
        },
        _ => {},
    }
}

/// No object in a value that has been normalized lists types.
pub proof fn law_no_type_lists_are_left(j: JsonView, path: Seq<char>)
    requires
        normalized_value(j, path).1 is None,
    ensures
        free_of_type_lists(normalized_value(j, path).0),
    decreases height(j),
{
    let after = normalized_value(j, path).0;
    match j {
        JsonView::Object(entries) => {
            lemma_retyped_height(entries, path);
            lemma_retyped_lists_no_types(entries, path);
            let typed = retyped(entries, path)->Ok_0;
            let values = normalized_entries(typed, path).0;
            assert(after == JsonView::Object(values));
            lemma_normalized_keys(typed, path);
            lemma_entry_place_by_keys(typed, values, "type"@);
            lemma_entry_place(typed, "type"@);
            lemma_entries_height(typed, 0);
            let p = entry_place(typed, "type"@);
            if p < typed.len() {
                lemma_normalized_entry(typed, path, p);
            }
            assert(!lists_types(values));
            assert forall|i: int| 0 <= i < values.len() implies free_of_type_lists(
                (#[trigger] values[i]).1,
            ) by {
                lemma_normalized_entry(typed, path, i);
                law_no_type_lists_are_left(typed[i].1, key_path(path, typed[i].0));
            }
        },
        JsonView::Array(items) => {
            let values = normalized_items(items, path).0;
            lemma_items_height(items);
            if items.len() > 0 {
                lemma_normalized_item(items, path, 0);
            }
            assert forall|i: int| 0 <= i < after->Array_0.len() implies free_of_type_lists(
                #[trigger] after->Array_0[i],
            ) by {
                lemma_normalized_item(items, path, i);
                law_no_type_lists_are_left(items[i], item_path(path, i));
            }
        },
        _ => {},
    }
}

/// A value in which no object lists types is normalized to itself.
pub proof fn law_without_type_lists_is_unchanged(j: JsonView, path: Seq<char>)
    requires
        free_of_type_lists(j),
    ensures
        normalized_value(j, path) == (j, None::<Seq<char>>),
    decreases height(j), 0nat,
{
    match j {
        JsonView::Object(entries) => {
            assert forall|i: int| 0 <= i < entries.len() implies free_of_type_lists(
                (#[trigger] entries[i]).1,
            ) by {
                assert(free_of_type_lists(j->Object_0[i].1));
            }
            lemma_entries_unchanged(entries, path);
        },
        JsonView::Array(items) => {
            assert forall|i: int| 0 <= i < items.len() implies free_of_type_lists(
                #[trigger] items[i],
            ) by {
                assert(free_of_type_lists(j->Array_0[i]));
            }
            lemma_items_unchanged(items, path);
        },
        _ => {},
    }
}

proof fn lemma_entries_unchanged(entries: Seq<(Seq<char>, JsonView)>, path: Seq<char>)
    requires
        forall|i: int| 0 <= i < entries.len() ==> free_of_type_lists((#[trigger] entries[i]).1),
    ensures
        normalized_entries(entries, path) == (entries, None::<Seq<char>>),
    decreases entries_height(entries), 1 + entries.len(),
{
    if entries.len() > 0 {
        let rest = entries.drop_last();
        let last = entries.last();
        assert forall|i: int| 0 <= i < rest.len() implies free_of_type_lists(
            (#[trigger] rest[i]).1,
        ) by {
            assert(rest[i] == entries[i]);
        }
        assert(free_of_type_lists(entries[entries.len() - 1].1));
        lemma_entries_height(entries, 0);
        lemma_entries_unchanged(rest, path);
        law_without_type_lists_is_unchanged(last.1, key_path(path, last.0));
        assert(rest.push(last) =~= entries);
    }
}

proof fn lemma_items_unchanged(items: Seq<JsonView>, path: Seq<char>)
    requires
        forall|i: int| 0 <= i < items.len() ==> free_of_type_lists(#[trigger] items[i]),
    ensures
        normalized_items(items, path) == (items, None::<Seq<char>>),
    decreases items_height(items), 1 + items.len(),
{
    if items.len() > 0 {
        let rest = items.drop_last();
        assert forall|i: int| 0 <= i < rest.len() implies free_of_type_lists(
            #[trigger] rest[i],
        ) by {
            assert(rest[i] == items[i]);
        }
        assert(free_of_type_lists(items[items.len() - 1]));
        lemma_items_height(items);
        lemma_items_unchanged(rest, path);
        law_without_type_lists_is_unchanged(items.last(), item_path(path, items.len() - 1));
        assert(rest.push(items.last()) =~= items);
    }
}

/// Writing down a version that a document already has as a text changes nothing.
proof fn lemma_with_same_version(document: JsonView, version: Seq<char>)
    requires
        document matches JsonView::Object(entries) && value_under(entries, "openapi"@) == Some(
            JsonView::Text(version),
        ),
    ensures
        declared_version(document) == Ok::<Seq<char>, Seq<char>>(version),
        with_version(document, version) == document,
{
    let entries = document->Object_0;
    lemma_entry_place(entries, "openapi"@);
    assert(with_entry(entries, "openapi"@, JsonView::Text(version)) =~= entries);
}

/// A document of version 3.0 passes through unchanged, where its version is a text.
pub proof fn law_version_30_is_unchanged(document: JsonView, version: Seq<char>)
    requires
        document matches JsonView::Object(entries) && value_under(entries, "openapi"@) == Some(
            JsonView::Text(version),
        ),
        version_30(version),
    ensures
        normalized_document(document) == (document, None::<Seq<char>>),
{
    lemma_with_same_version(document, version);
}

/// A document of version 3.1 in which no object lists types passes through unchanged, where its
/// version is a text.
pub proof fn law_plain_version_31_is_unchanged(document: JsonView, version: Seq<char>)
    requires
        document matches JsonView::Object(entries) && value_under(entries, "openapi"@) == Some(
            JsonView::Text(version),
        ),
        version_31(version),
        free_of_type_lists(document),
    ensures
        normalized_document(document) == (document, None::<Seq<char>>),
{
    lemma_with_same_version(document, version);
    lemma_versions_differ(version);
    law_without_type_lists_is_unchanged(document, "$"@);
}

/// No version belongs to both lines.
pub(crate) proof fn lemma_versions_differ(version: Seq<char>)
    ensures
        !(version_30(version) && version_31(version)),
{
    reveal_strlit("3.0.");
    reveal_strlit("3.0");
    reveal_strlit("3.1.");
    reveal_strlit("3.1");
    assert("3.0."@[2] == '0' && "3.0"@[2] == '0');
    assert("3.1."@[2] == '1' && "3.1"@[2] == '1');
    if "3.0."@.is_prefix_of(version) {
        assert("3.0."@[2] == version.subrange(0, 4)[2]);
    }
    if "3.1."@.is_prefix_of(version) {
        assert("3.1."@[2] == version.subrange(0, 4)[2]);
    }
}

/// A document whose version belongs to neither line is refused, and so is one without a version;
/// all others with a version are refused only for a list of types.
pub proof fn law_refused_versions(document: JsonView)
    ensures
        declared_version(document) is Err ==> normalized_document(document) == (
            document,
            Some(declared_version(document)->Err_0),
        ),
        declared_version(document) matches Ok(version) ==> {
            &&& !version_30(version) && !version_31(version) ==> normalized_document(document).1
                == Some(
                "unsupported OpenAPI version '"@ + version + "'; supported: 3.0.x and 3.1.x"@,
            )
            &&& version_30(version) ==> normalized_document(document).1 is None
            &&& version_31(version) ==> normalized_document(document).1 == normalized_value(
                with_version(document, version),
                "$"@,
            ).1
        },
{
    if let Ok(version) = declared_version(document) {
        lemma_versions_differ(version);
    }
}

/// The value under a key once the entries have been normalized.
proof fn lemma_normalized_value_under(
    entries: Seq<(Seq<char>, JsonView)>,
    path: Seq<char>,
    key: Seq<char>,
)
    requires
        normalized_entries(entries, path).1 is None,
    ensures
        value_under(normalized_entries(entries, path).0, key) == (match value_under(entries, key) {
            Some(value) => Some(normalized_value(value, key_path(path, key)).0),
            None => None,
        }),
{
    let values = normalized_entries(entries, path).0;
    lemma_normalized_keys(entries, path);
    lemma_entry_place_by_keys(entries, values, key);
    lemma_entry_place(entries, key);
    if entry_place(entries, key) < entries.len() {
        lemma_normalized_entry(entries, path, entry_place(entries, key));
    }
}

/// The keys that a list of types is written with.
proof fn lemma_type_and_nullable_differ()
    ensures
        "type"@ != "nullable"@,
{
    reveal_strlit("type");
    reveal_strlit("nullable");
    assert("type"@.len() != "nullable"@.len());
}

/// Of an object that has been normalized, every key other than `type` and `nullable` has the
/// value that it had, normalized.
pub proof fn law_what_an_object_keeps(
    entries: Seq<(Seq<char>, JsonView)>,
    path: Seq<char>,
    key: Seq<char>,
)
    requires
        normalized_value(JsonView::Object(entries), path).1 is None,
        key != "type"@,
        key != "nullable"@,
    ensures
        normalized_value(JsonView::Object(entries), path).0 matches JsonView::Object(after)
            && value_under(after, key) == (match value_under(entries, key) {
            Some(value) => Some(normalized_value(value, key_path(path, key)).0),
            None => None,
        }),
{
    match value_under(entries, "type"@) {
        Some(JsonView::Array(items)) => {
            let (scalar, nullable) = scalar_type(JsonView::Array(items), path)->Ok_0;
            let text = JsonView::Text(scalar);
            lemma_value_under_with_entry(entries, "type"@, text, key);
            let typed = with_entry(entries, "type"@, text);
            lemma_value_under_with_entry(typed, "nullable"@, JsonView::Bool(true), key);
        },
        _ => {},
    }
    lemma_normalized_value_under(retyped(entries, path)->Ok_0, path, key);
}

/// Of an object that lists types, `type` becomes the type that the list stands for; `nullable`
/// becomes true where `null` is in the list, and stays as it is where it is not.
pub proof fn law_what_a_type_list_becomes(entries: Seq<(Seq<char>, JsonView)>, path: Seq<char>)
    requires
        normalized_value(JsonView::Object(entries), path).1 is None,
        lists_types(entries),
    ensures
        ({
            let list = value_under(entries, "type"@)->0;
            &&& normalized_value(JsonView::Object(entries), path).0 matches JsonView::Object(after)
            &&& scalar_type(list, path) matches Ok((scalar, nullable))
            &&& value_under(after, "type"@) == Some(JsonView::Text(scalar))
            &&& nullable ==> value_under(after, "nullable"@) == Some(JsonView::Bool(true))
            &&& !nullable ==> value_under(after, "nullable"@) == (match value_under(
                entries,
                "nullable"@,
            ) {
                Some(value) => Some(normalized_value(value, key_path(path, "nullable"@)).0),
                None => None,
            })
        }),
{
    let list = value_under(entries, "type"@)->0;
    let (scalar, nullable) = scalar_type(list, path)->Ok_0;
    let text = JsonView::Text(scalar);
    let flag = JsonView::Bool(true);
    let typed = with_entry(entries, "type"@, text);
    lemma_type_and_nullable_differ();
    lemma_value_under_with_entry(entries, "type"@, text, "nullable"@);
    lemma_value_under_with_entry(typed, "nullable"@, flag, "type"@);
    lemma_normalized_value_under(retyped(entries, path)->Ok_0, path, "type"@);
    lemma_normalized_value_under(retyped(entries, path)->Ok_0, path, "nullable"@);
}

/// The version of a document outlives normalization.
proof fn lemma_version_stays(document: JsonView, version: Seq<char>)
    requires
        document matches JsonView::Object(entries) && value_under(entries, "openapi"@) == Some(
            JsonView::Text(version),
        ),
        normalized_value(document, "$"@).1 is None,
    ensures
        normalized_value(document, "$"@).0 matches JsonView::Object(entries) && value_under(
            entries,
            "openapi"@,
        ) == Some(JsonView::Text(version)),
{
    let key = "openapi"@;
    assert(key != "type"@ && key != "nullable"@) by {
        reveal_strlit("openapi");
        reveal_strlit("type");
        reveal_strlit("nullable");
        assert(key.len() == 7 && "type"@.len() == 4 && "nullable"@.len() == 8);
    }
    law_what_an_object_keeps(document->Object_0, "$"@, key);
}

/// Normalizing a document a second time changes nothing.
pub proof fn law_normalization_is_idempotent(document: JsonView)
    requires
        normalized_document(document).1 is None,
    ensures
        normalized_document(normalized_document(document).0) == (
            normalized_document(document).0,
            None::<Seq<char>>,
        ),
{
    let version = declared_version(document)->Ok_0;
    let versioned = with_version(document, version);
    let entries = document->Object_0;
    lemma_value_under_with_entry(
        entries,
        "openapi"@,
        JsonView::Text(version),
        "openapi"@,
    );
    if version_30(version) {
        law_version_30_is_unchanged(versioned, version);
    } else {
        lemma_version_stays(versioned, version);
        law_no_type_lists_are_left(versioned, "$"@);
        law_plain_version_31_is_unchanged(normalized_document(document).0, version);
    }
}

/// Whether an object in the value at `path` lists types, and is itself at `place`.
pub open spec fn type_list_at(j: JsonView, path: Seq<char>, place: Seq<char>) -> bool
    decreases j,
{
    match j {
        JsonView::Object(entries) => {
            ||| lists_types(entries) && place == path
            ||| exists|i: int|
                0 <= i < entries.len() && type_list_at(
                    (#[trigger] entries[i]).1,
                    key_path(path, entries[i].0),
                    place,
                )
        },
        JsonView::Array(items) => {
            exists|i: int|
                0 <= i < items.len() && type_list_at(
                    #[trigger] items[i],
                    item_path(path, i),
                    place,
                )
        },
        _ => false,
    }
}

/// Whether a message starts with the place of an object in the value that lists types.
pub open spec fn names_a_type_list(j: JsonView, path: Seq<char>, message: Seq<char>) -> bool {
    exists|place: Seq<char>|
        #[trigger] type_list_at(j, path, place) && (place + ".type"@).is_prefix_of(message)
}

/// What is wrong with a list of types starts with the path of its object.
proof fn lemma_scalar_type_error(type_value: JsonView, path: Seq<char>)
    ensures
        scalar_type(type_value, path) matches Err(message) ==> (path + ".type"@).is_prefix_of(
            message,
        ),
{
    if let Err(message) = scalar_type(type_value, path) {
        reveal_strlit(".type");
        reveal_strlit(".type: type array must not be empty");
        reveal_strlit(".type[");
        reveal_strlit(".type: type array containing only 'null' is not supported");
        reveal_strlit(".type: multi-type unions are not supported (got [");
        reveal_strlit(".type: expected array during normalization");
        let start = path + ".type"@;
        assert(start.len() <= message.len());
        assert(message.take(start.len() as int) =~= start);
    }
}

/// Among some entries that cannot be normalized is one that cannot be.
proof fn lemma_failing_entry(entries: Seq<(Seq<char>, JsonView)>, path: Seq<char>) -> (i: int)
    requires
        normalized_entries(entries, path).1 is Some,
    ensures
        0 <= i < entries.len(),
        normalized_value(entries[i].1, key_path(path, entries[i].0)).1 == normalized_entries(
            entries,
            path,
        ).1,
    decreases entries.len(),
{
    let rest = entries.drop_last();
    if normalized_entries(rest, path).1 is Some {
        let i = lemma_failing_entry(rest, path);
        assert(rest[i] == entries[i]);
        i
    } else {
        entries.len() - 1
    }
}

/// Among some items that cannot be normalized is one that cannot be.
proof fn lemma_failing_item(items: Seq<JsonView>, path: Seq<char>) -> (i: int)
    requires
        normalized_items(items, path).1 is Some,
    ensures
        0 <= i < items.len(),
        normalized_value(items[i], item_path(path, i)).1 == normalized_items(items, path).1,
    decreases items.len(),
{
    let rest = items.drop_last();
    if normalized_items(rest, path).1 is Some {
        let i = lemma_failing_item(rest, path);
        assert(rest[i] == items[i]);
        i
    } else {
        items.len() - 1
    }
}

/// An entry after a key was given a value is that entry, or was there before.
proof fn lemma_entry_is_new_or_old(
    entries: Seq<(Seq<char>, JsonView)>,
    key: Seq<char>,
    value: JsonView,
    i: int,
)
    requires
        0 <= i < with_entry(entries, key, value).len(),
    ensures
        with_entry(entries, key, value)[i] == (key, value) || entries.contains(
            with_entry(entries, key, value)[i],
        ),
{
    lemma_entry_place(entries, key);
    lemma_place_of(keys(entries), key);
    let after = with_entry(entries, key, value);
    let p = place_of(keys(entries), key);
    if entry_place(entries, key) < entries.len() {
        if i != entry_place(entries, key) {
            assert(entries[i] == after[i]);
        }
    } else if i < p {
        assert(entries[i] == after[i]);
    } else if i > p {
        assert(entries[i - 1] == after[i]);
    }
}

/// An entry of an object whose list of types was turned into one type is a text or a flag, or
/// was there before.
proof fn lemma_retyped_entry(entries: Seq<(Seq<char>, JsonView)>, path: Seq<char>, i: int)
    requires
        retyped(entries, path) matches Ok(after) && 0 <= i < after.len(),
    ensures
        ({
            let entry = retyped(entries, path)->Ok_0[i];
            entry.1 is Text || entry.1 is Bool || entries.contains(entry)
        }),
{
    let after = retyped(entries, path)->Ok_0;
    match value_under(entries, "type"@) {
        Some(JsonView::Array(items)) => {
            let (scalar, nullable) = scalar_type(JsonView::Array(items), path)->Ok_0;
            let text = JsonView::Text(scalar);
            let typed = with_entry(entries, "type"@, text);
            if nullable {
                lemma_entry_is_new_or_old(typed, "nullable"@, JsonView::Bool(true), i);
                if typed.contains(after[i]) {
                    let k = choose|k: int| 0 <= k < typed.len() && typed[k] == after[i];
                    lemma_entry_is_new_or_old(entries, "type"@, text, k);
                }
            } else {
                lemma_entry_is_new_or_old(entries, "type"@, text, i);
            }
        },
        _ => {
            assert(entries[i] == after[i]);
        },
    }
}

/// What is wrong with a value starts with the path of an object in it that lists types.
pub proof fn law_errors_name_their_place(j: JsonView, path: Seq<char>)
    ensures
        normalized_value(j, path).1 matches Some(message) ==> names_a_type_list(j, path, message),
    decreases height(j),
{
    if let Some(message) = normalized_value(j, path).1 {
        match j {
            JsonView::Object(entries) => match retyped(entries, path) {
                Ok(after) => {
                    let i = lemma_failing_entry(after, path);
                    lemma_retyped_entry(entries, path, i);
                    let k = choose|k: int| 0 <= k < entries.len() && entries[k] == after[i];
                    lemma_entries_height(entries, 0);
                    let child_path = key_path(path, entries[k].0);
                    law_errors_name_their_place(entries[k].1, child_path);
                    let place = choose|place: Seq<char>|
                        #[trigger] type_list_at(entries[k].1, child_path, place) && (place
                            + ".type"@).is_prefix_of(message);
                    assert(type_list_at(j->Object_0[k].1, child_path, place));
                    assert(type_list_at(j, path, place));
                },
                Err(_) => {
                    lemma_scalar_type_error(value_under(entries, "type"@)->0, path);
                    assert(type_list_at(j, path, path));
                },
            },
            JsonView::Array(items) => {
                let i = lemma_failing_item(items, path);
                lemma_items_height(items);
                let child_path = item_path(path, i);
                law_errors_name_their_place(items[i], child_path);
                let place = choose|place: Seq<char>|
                    #[trigger] type_list_at(items[i], child_path, place) && (place
                        + ".type"@).is_prefix_of(message);
                assert(type_list_at(j->Array_0[i], child_path, place));
                assert(type_list_at(j, path, place));
            },
            _ => {},
        }
    }
}

/// Whether the item at a place is the only one that is not `null`.
pub open spec fn is_only_type(items: Seq<JsonView>, i: int) -> bool {
    &&& 0 <= i < items.len()
    &&& items[i] is Text
    &&& items[i] != JsonView::Text("null"@)
    &&& forall|k: int|
        0 <= k < items.len() && k != i ==> #[trigger] items[k] == JsonView::Text("null"@)
}

/// Whether all items are `null`.
spec fn all_null(items: Seq<JsonView>) -> bool {
    forall|k: int| 0 <= k < items.len() ==> #[trigger] items[k] == JsonView::Text("null"@)
}

/// The first item that is no text is no text, and those before it are.
proof fn lemma_first_non_text(items: Seq<JsonView>)
    ensures
        0 <= first_non_text(items) <= items.len(),
        first_non_text(items) < items.len() ==> !(items[first_non_text(items)] is Text),
        forall|i: int| 0 <= i < first_non_text(items) ==> #[trigger] items[i] is Text,
    decreases items.len(),
{
    if items.len() > 0 && items[0] is Text {
        lemma_first_non_text(items.drop_first());
        assert forall|i: int| 0 <= i < first_non_text(items) implies (
        #[trigger] items[i]) is Text by {
            if i > 0 {
                assert(items.drop_first()[i - 1] == items[i]);
            }
        }
    }
}

proof fn lemma_non_null_types(items: Seq<JsonView>)
    requires
        forall|i: int| 0 <= i < items.len() ==> #[trigger] items[i] is Text,
    ensures
        non_null_types(items).len() == 0 <==> all_null(items),
        non_null_types(items).len() == 1 <==> exists|i: int| is_only_type(items, i),
        forall|i: int|
            is_only_type(items, i) ==> non_null_types(items).len() == 1 && items[i]
                == JsonView::Text(non_null_types(items)[0]),
    decreases items.len(),
{
    if items.len() > 0 {
        let rest = items.drop_last();
        let n: int = items.len() - 1;
        assert forall|i: int| 0 <= i < rest.len() implies #[trigger] rest[i] is Text by {
            assert(rest[i] == items[i]);
        }
        lemma_non_null_types(rest);
        assert(items[n] is Text);
        let null = JsonView::Text("null"@);
        if items[n] == null {
            assert(all_null(rest) ==> all_null(items)) by {
                if all_null(rest) {
                    assert forall|k: int| 0 <= k < items.len() implies #[trigger] items[k]
                        == null by {
                        if k < n {
                            assert(rest[k] == null);
                        }
                    }
                }
            }
            assert(all_null(items) ==> all_null(rest)) by {
                if all_null(items) {
                    assert forall|k: int| 0 <= k < rest.len() implies #[trigger] rest[k]
                        == null by {
                        assert(items[k] == null);
                    }
                }
            }
            assert forall|i: int| is_only_type(items, i) <==> is_only_type(rest, i) by {
                if is_only_type(items, i) {
                    assert forall|k: int| 0 <= k < rest.len() && k != i implies #[trigger] rest[k]
                        == null by {
                        assert(items[k] == null);
                    }
                }
                if is_only_type(rest, i) {
                    assert forall|k: int| 0 <= k < items.len() && k != i implies #[trigger] items[k]
                        == null by {
                        if k < n {
                            assert(rest[k] == null);
                        }
                    }
                }
            }
        } else {
            assert(!all_null(items)) by {
                assert(items[n] != null);
            }
            if all_null(rest) {
                assert(is_only_type(items, n)) by {
                    assert forall|k: int| 0 <= k < items.len() && k != n implies #[trigger] items[k]
                        == null by {
                        assert(rest[k] == null);
                    }
                }
            }
            assert forall|i: int| is_only_type(items, i) implies i == n && all_null(rest) by {
                if i != n {
                    assert(items[n] == null);
                }
                assert forall|k: int| 0 <= k < rest.len() implies #[trigger] rest[k] == null by {
                    assert(items[k] == null);
                }
            }
        }
    }
}

/// A list of types is accepted if and only if all its items are texts and exactly one of them is
/// not `null`; that one is the type, and it is nullable if and only if there are others.
pub proof fn law_accepted_type_lists(items: Seq<JsonView>, path: Seq<char>)
    ensures
        scalar_type(JsonView::Array(items), path) is Ok <==> exists|i: int| is_only_type(items, i),
        forall|i: int|
            #[trigger] is_only_type(items, i) ==> {
                &&& scalar_type(JsonView::Array(items), path) matches Ok((scalar, nullable))
                &&& items[i] == JsonView::Text(scalar)
                &&& nullable == (items.len() > 1)
            },
{
    let null = JsonView::Text("null"@);
    let texts = forall|i: int| 0 <= i < items.len() ==> #[trigger] items[i] is Text;
    lemma_first_non_text(items);
    if texts {
        lemma_non_null_types(items);
    } else {
        assert forall|i: int| !is_only_type(items, i) by {
            if is_only_type(items, i) {
                assert forall|k: int| 0 <= k < items.len() implies #[trigger] items[k] is Text by {
                    if k != i {
                        assert(items[k] == null);
                    }
                }
            }
        }
    }
    assert forall|i: int| is_only_type(items, i) implies items.contains(null) == (items.len()
        > 1) by {
        if items.len() > 1 {
            let k = if i == 0 { 1int } else { 0int };
            assert(items[k] == null);
        }
    }
}

/// The three forms `[T]`, `[T, "null"]` and `["null", T]` stand for the type `T`, the last two
/// nullable.
pub proof fn law_type_list_forms(t: Seq<char>, path: Seq<char>)
    requires
        t != "null"@,
    ensures
        scalar_type(
            JsonView::Array(seq![JsonView::Text(t)]),
            path,
        ) == Ok::<_, Seq<char>>((t, false)),
        scalar_type(JsonView::Array(seq![JsonView::Text(t), JsonView::Text("null"@)]), path)
            == Ok::<_, Seq<char>>((t, true)),
        scalar_type(JsonView::Array(seq![JsonView::Text("null"@), JsonView::Text(t)]), path)
            == Ok::<_, Seq<char>>((t, true)),
{
    let null = JsonView::Text("null"@);
    let single = seq![JsonView::Text(t)];
    let last = seq![JsonView::Text(t), null];
    let first = seq![null, JsonView::Text(t)];
    law_accepted_type_lists(single, path);
    law_accepted_type_lists(last, path);
    law_accepted_type_lists(first, path);
    assert(is_only_type(single, 0));
    assert(is_only_type(last, 0));
    assert(is_only_type(first, 1));
}

/// A YAML text and a JSON text that stand for the same value load alike.
pub proof fn law_yaml_and_json_load_alike(yaml: Seq<char>, json: Seq<char>, j: JsonView)
    requires
        yaml_value(yaml) == Ok::<JsonView, Seq<char>>(j),
        json_value(json) == Ok::<JsonView, Seq<char>>(j),
    ensures
        loaded_yaml(yaml) == loaded_json(json),
{
}

/// The case of ASCII letters in the extension of a file makes no difference.
pub proof fn law_case_of_extension(content: Seq<char>, a: Seq<char>, b: Seq<char>)
    requires
        ascii_lower_text(a) == ascii_lower_text(b),
    ensures
        loaded_file(content, Some(a)) == loaded_file(content, Some(b)),
{
}

/// What is wrong with the version of a document is what loading it answers, whatever else it
/// holds.
pub proof fn law_refused_documents(document: JsonView)
    ensures
        declared_version(document) matches Err(message) ==> loaded_value(document) == Err::<
            DocumentView,
            _,
        >(DocumentErrorView::OpenApi(message)),
        declared_version(document) matches Ok(version) ==> {
            !version_30(version) && !version_31(version) ==> loaded_value(document) == Err::<
                DocumentView,
                _,
            >(
                DocumentErrorView::OpenApi(
                    "unsupported OpenAPI version '"@ + version + "'; supported: 3.0.x and 3.1.x"@,
                ),
            )
        },
{
}

/// A document loads like its normalized form.
pub proof fn law_normalized_documents_load_alike(document: JsonView)
    requires
        normalized_document(document).1 is None,
    ensures
        loaded_value(normalized_document(document).0) == loaded_value(document),
{
    law_normalization_is_idempotent(document);
}

} // verus!
