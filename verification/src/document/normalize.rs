//! Documents of version 3.1 in the terms of version 3.0.
use crate::document::value::{number_text, write_number};
use crate::document::version::{is_openapi_30, is_openapi_31, version_30, version_31};
use crate::error::{DocumentError, DocumentErrorView};
use crate::json::{
    entry_place, find_place, keys, lemma_entry_place, lemma_json_view,
    lemma_with_entry_is_well_formed, put_entry, value_under, well_formed, with_entry, Json,
    JsonView,
};
use crate::text::{concat2, concat3, decimal, decimal_text, join, joined, same_text};
use vstd::prelude::*;

verus! {

/// How deep the values in a JSON value are nested.
pub open spec fn height(j: JsonView) -> nat
    decreases j,
{
    match j {
        JsonView::Array(items) => 1 + items_height(items),
        JsonView::Object(entries) => 1 + entries_height(entries),
        _ => 0,
    }
}

/// The largest height among the items of an array.
pub open spec fn items_height(items: Seq<JsonView>) -> nat
    decreases items,
{
    if items.len() == 0 {
        0
    } else {
        let rest = items_height(items.drop_last());
        let last = height(items.last());
        if rest < last {
            last
        } else {
            rest
        }
    }
}

/// The largest height among the values of an object.
pub open spec fn entries_height(entries: Seq<(Seq<char>, JsonView)>) -> nat
    decreases entries,
{
    if entries.len() == 0 {
        0
    } else {
        let rest = entries_height(entries.drop_last());
        let last = height(entries.last().1);
        if rest < last {
            last
        } else {
            rest
        }
    }
}

pub(crate) proof fn lemma_entries_height(entries: Seq<(Seq<char>, JsonView)>, bound: nat)
    ensures
        forall|i: int|
            0 <= i < entries.len() ==> height((#[trigger] entries[i]).1) <= entries_height(
                entries,
            ),
        (forall|i: int| 0 <= i < entries.len() ==> height((#[trigger] entries[i]).1) <= bound)
            ==> entries_height(entries) <= bound,
    decreases entries.len(),
{
    if entries.len() > 0 {
        let rest = entries.drop_last();
        lemma_entries_height(rest, bound);
        assert forall|i: int| 0 <= i < entries.len() implies height((#[trigger] entries[i]).1)
            <= entries_height(entries) by {
            if i < rest.len() {
                assert(rest[i] == entries[i]);
            }
        }
        if forall|i: int| 0 <= i < entries.len() ==> height((#[trigger] entries[i]).1) <= bound {
            assert forall|i: int| 0 <= i < rest.len() implies height((#[trigger] rest[i]).1)
                <= bound by {
                assert(rest[i] == entries[i]);
            }
            assert(height(entries[entries.len() - 1].1) <= bound);
        }
    }
}

pub(crate) proof fn lemma_items_height(items: Seq<JsonView>)
    ensures
        forall|i: int|
            0 <= i < items.len() ==> height(#[trigger] items[i]) <= items_height(items),
    decreases items.len(),
{
    if items.len() > 0 {
        let rest = items.drop_last();
        lemma_items_height(rest);
        assert forall|i: int| 0 <= i < items.len() implies height(#[trigger] items[i])
            <= items_height(items) by {
            if i < rest.len() {
                assert(rest[i] == items[i]);
            }
        }
    }
}

/// Giving a key a flat value makes an object no deeper.
proof fn lemma_with_entry_height(
    entries: Seq<(Seq<char>, JsonView)>,
    key: Seq<char>,
    value: JsonView,
)
    requires
        height(value) == 0,
    ensures
        entries_height(with_entry(entries, key, value)) <= entries_height(entries),
{
    let after = with_entry(entries, key, value);
    let bound = entries_height(entries);
    lemma_entries_height(entries, bound);
    lemma_entries_height(after, bound);
    lemma_entry_place(entries, key);
    crate::text::lemma_place_of(crate::json::keys(entries), key);
    let p = crate::text::place_of(crate::json::keys(entries), key);
    let replaced = entry_place(entries, key) < entries.len();
    assert forall|i: int| 0 <= i < after.len() implies height((#[trigger] after[i]).1) <= bound by {
        if replaced {
            if i != entry_place(entries, key) {
                assert(after[i] == entries[i]);
            }
        } else if i < p {
            assert(after[i] == entries[i]);
        } else if i > p {
            assert(after[i] == entries[i - 1]);
        }
    }
}

/// The place of the first item that is no text, or the number of items where all are.
pub open spec fn first_non_text(items: Seq<JsonView>) -> int
    decreases items.len(),
{
    if items.len() == 0 || !(items[0] is Text) {
        0
    } else {
        1 + first_non_text(items.drop_first())
    }
}

/// The texts among the items other than `null`.
pub open spec fn non_null_types(items: Seq<JsonView>) -> Seq<Seq<char>>
    decreases items.len(),
{
    if items.len() == 0 {
        Seq::empty()
    } else {
        let before = non_null_types(items.drop_last());
        match items.last() {
            JsonView::Text(s) => if s == "null"@ {
                before
            } else {
                before.push(s)
            },
            _ => before,
        }
    }
}

/// What a list of types stands for: the one type in it that is not `null`, and whether `null`
/// is in it; or what is wrong with the list.
pub open spec fn scalar_type(type_value: JsonView, path: Seq<char>) -> Result<
    (Seq<char>, bool),
    Seq<char>,
> {
    match type_value {
        JsonView::Array(items) => {
            let types = non_null_types(items);
            let has_null = items.contains(JsonView::Text("null"@));
            let odd = first_non_text(items);
            if items.len() == 0 {
                Err(path + ".type: type array must not be empty"@)
            } else if odd < items.len() {
                Err(
                    path + ".type["@ + decimal(odd) + "]: type array entries must be strings"@,
                )
            } else if types.len() == 1 {
                Ok((types[0], has_null))
            } else if types.len() == 0 {
                Err(path + ".type: type array containing only 'null' is not supported"@)
            } else {
                Err(
                    path + ".type: multi-type unions are not supported (got ["@ + joined(
                        types,
                        ", "@,
                    )
                        + "]); only a single non-null type optionally combined with 'null' is allowed"@,
                )
            }
        },
        _ => Err(path + ".type: expected array during normalization"@),
    }
}

/// The entries of an object with a list of types turned into one type and the flag for
/// `null`; or what is wrong with the list.
pub open spec fn retyped(entries: Seq<(Seq<char>, JsonView)>, path: Seq<char>) -> Result<
    Seq<(Seq<char>, JsonView)>,
    Seq<char>,
> {
    match value_under(entries, "type"@) {
        Some(JsonView::Array(items)) => match scalar_type(JsonView::Array(items), path) {
            Ok((scalar, nullable)) => {
                let typed = with_entry(entries, "type"@, JsonView::Text(scalar));
                Ok(
                    if nullable {
                        with_entry(typed, "nullable"@, JsonView::Bool(true))
                    } else {
                        typed
                    },
                )
            },
            Err(message) => Err(message),
        },
        _ => Ok(entries),
    }
}

/// Turning a list of types into one type makes an object no deeper.
pub proof fn lemma_retyped_height(entries: Seq<(Seq<char>, JsonView)>, path: Seq<char>)
    ensures
        retyped(entries, path) matches Ok(after) ==> entries_height(after) <= entries_height(
            entries,
        ),
{
    match value_under(entries, "type"@) {
        Some(JsonView::Array(items)) => {
            if let Ok((scalar, nullable)) = scalar_type(JsonView::Array(items), path) {
                lemma_with_entry_height(entries, "type"@, JsonView::Text(scalar));
                let typed = with_entry(entries, "type"@, JsonView::Text(scalar));
                lemma_with_entry_height(typed, "nullable"@, JsonView::Bool(true));
            }
        },
        _ => {},
    }
}

/// The path of a value under a key of an object.
pub open spec fn key_path(path: Seq<char>, key: Seq<char>) -> Seq<char> {
    path + "."@ + key
}

/// The path of an item of an array.
pub open spec fn item_path(path: Seq<char>, index: int) -> Seq<char> {
    path + "["@ + decimal(index) + "]"@
}

/// A value with every list of types in it turned into one type. Objects are taken before what
/// they hold, and their values in order; the first list that stands for no type ends this,
/// with what is wrong with it, and leaves the rest as it is.
pub open spec fn normalized_value(j: JsonView, path: Seq<char>) -> (JsonView, Option<Seq<char>>)
    decreases height(j), 0nat, 0nat,
{
    match j {
        JsonView::Object(entries) => match retyped(entries, path) {
            Ok(after) => {
                proof {
                    lemma_retyped_height(entries, path);
                }
                let (values, error) = normalized_entries(after, path);
                (JsonView::Object(values), error)
            },
            Err(message) => (j, Some(message)),
        },
        JsonView::Array(items) => {
            let (values, error) = normalized_items(items, path);
            (JsonView::Array(values), error)
        },
        _ => (j, None),
    }
}

/// The entries of an object with every list of types in them turned into one type.
pub open spec fn normalized_entries(entries: Seq<(Seq<char>, JsonView)>, path: Seq<char>) -> (
    Seq<(Seq<char>, JsonView)>,
    Option<Seq<char>>,
)
    decreases entries_height(entries), 1nat, entries.len(),
{
    if entries.len() == 0 {
        (entries, None)
    } else {
        let (before, error) = normalized_entries(entries.drop_last(), path);
        let (key, value) = entries.last();
        if error is Some {
            (before.push((key, value)), error)
        } else {
            let (child, error) = normalized_value(value, key_path(path, key));
            (before.push((key, child)), error)
        }
    }
}

/// The items of an array with every list of types in them turned into one type.
pub open spec fn normalized_items(items: Seq<JsonView>, path: Seq<char>) -> (
    Seq<JsonView>,
    Option<Seq<char>>,
)
    decreases items_height(items), 1nat, items.len(),
{
    if items.len() == 0 {
        (items, None)
    } else {
        let (before, error) = normalized_items(items.drop_last(), path);
        if error is Some {
            (before.push(items.last()), error)
        } else {
            let (child, error) = normalized_value(
                items.last(),
                item_path(path, items.len() - 1),
            );
            (before.push(child), error)
        }
    }
}

/// Once an entry has ended the normalization, the entries after it stay as they are.
proof fn lemma_entries_error(entries: Seq<(Seq<char>, JsonView)>, path: Seq<char>, n: int)
    requires
        0 <= n <= entries.len(),
        normalized_entries(entries.take(n), path).1 is Some,
    ensures
        normalized_entries(entries, path) == (
            normalized_entries(entries.take(n), path).0 + entries.skip(n),
            normalized_entries(entries.take(n), path).1,
        ),
    decreases entries.len(),
{
    let done = normalized_entries(entries.take(n), path).0;
    if n == entries.len() {
        assert(entries.take(n) =~= entries);
        assert(done + entries.skip(n) =~= done);
    } else {
        let rest = entries.drop_last();
        assert(rest.take(n) =~= entries.take(n));
        lemma_entries_error(rest, path, n);
        assert(done + entries.skip(n) =~= (done + rest.skip(n)).push(entries.last()));
    }
}

/// Once an item has ended the normalization, the items after it stay as they are.
proof fn lemma_items_error(items: Seq<JsonView>, path: Seq<char>, n: int)
    requires
        0 <= n <= items.len(),
        normalized_items(items.take(n), path).1 is Some,
    ensures
        normalized_items(items, path) == (
            normalized_items(items.take(n), path).0 + items.skip(n),
            normalized_items(items.take(n), path).1,
        ),
    decreases items.len(),
{
    let done = normalized_items(items.take(n), path).0;
    if n == items.len() {
        assert(items.take(n) =~= items);
        assert(done + items.skip(n) =~= done);
    } else {
        let rest = items.drop_last();
        assert(rest.take(n) =~= items.take(n));
        lemma_items_error(rest, path, n);
        assert(done + items.skip(n) =~= (done + rest.skip(n)).push(items.last()));
    }
}

/// Turns a list of types into the one type in it that is not `null`, and the flag for `null`.
pub fn normalize_type_array(
    type_value: &Json,
    path: &str,
) -> (r: Result<(String, bool), DocumentError>)
    ensures
        match scalar_type(type_value.deep_view(), path@) {
            Ok((scalar, nullable)) => r matches Ok(pair) && pair.0@ == scalar && pair.1
                == nullable,
            Err(message) => r matches Err(e) && e.deep_view() == DocumentErrorView::OpenApi(
                message,
            ),
        },
{
    let items = match type_value {
        Json::Array(items) => items,
        _ => {
            return Err(
                DocumentError::OpenApi(concat2(path, ".type: expected array during normalization")),
            );
        },
    };
    proof {
        lemma_json_view(*type_value);
    }
    let ghost whole = items.deep_view();
    if items.len() == 0 {
        return Err(DocumentError::OpenApi(concat2(path, ".type: type array must not be empty")));
    }
    let mut non_null: Vec<String> = Vec::new();
    let mut has_null: bool = false;
    assert(whole.skip(0) =~= whole);
    assert(non_null.deep_view() =~= Seq::empty());
    for i in 0..items.len()
        invariant
            whole == items.deep_view(),
            type_value.deep_view() == JsonView::Array(whole),
            first_non_text(whole) == i + first_non_text(whole.skip(i as int)),
            non_null.deep_view() == non_null_types(whole.take(i as int)),
            has_null == whole.take(i as int).contains(JsonView::Text("null"@)),
    {
        assert(whole.skip(i as int).drop_first() =~= whole.skip(i + 1));
        assert(whole.take(i + 1).drop_last() =~= whole.take(i as int));
        assert(whole[i as int] == items[i as int].deep_view());
        assert(whole.take(i + 1) =~= whole.take(i as int).push(whole[i as int]));
        let s = match &items[i] {
            Json::Text(s) => s,
            _ => {
                let index = decimal_text(i as i128);
                return Err(
                    DocumentError::OpenApi(
                        concat2(
                            concat3(path, ".type[", index.as_str()).as_str(),
                            "]: type array entries must be strings",
                        ),
                    ),
                );
            },
        };
        let ghost before = whole.take(i as int);
        assert forall|j: JsonView|
            whole.take(i + 1).contains(j) <==> before.contains(j) || j == whole[i as int] by {
            if before.contains(j) {
                let k = choose|k: int| 0 <= k < before.len() && before[k] == j;
                assert(whole.take(i + 1)[k] == j);
            }
            if j == whole[i as int] {
                assert(whole.take(i + 1)[i as int] == j);
            }
        }
        if same_text(s.as_str(), "null") {
            has_null = true;
        } else {
            let ghost earlier = non_null.deep_view();
            non_null.push(s.clone());
            assert(non_null.deep_view() =~= earlier.push(s@));
        }
    }
    assert(whole.take(items.len() as int) =~= whole);
    if non_null.len() == 1 {
        assert(non_null.deep_view()[0] == non_null[0]@);
        Ok((non_null[0].clone(), has_null))
    } else if non_null.len() == 0 {
        Err(
            DocumentError::OpenApi(
                concat2(path, ".type: type array containing only 'null' is not supported"),
            ),
        )
    } else {
        let listed = join(&non_null, ", ");
        Err(
            DocumentError::OpenApi(
                concat2(
                    concat3(
                        path,
                        ".type: multi-type unions are not supported (got [",
                        listed.as_str(),
                    ).as_str(),
                    "]); only a single non-null type optionally combined with 'null' is allowed",
                ),
            ),
        )
    }
}

/// Turns a list of types among the entries of an object into one type.
fn retype(entries: &mut Vec<(String, Json)>, path: &str) -> (r: Result<(), DocumentError>)
    ensures
        match retyped(old(entries).deep_view(), path@) {
            Ok(after) => r is Ok && final(entries).deep_view() == after,
            Err(message) => r matches Err(e) && e.deep_view() == DocumentErrorView::OpenApi(message)
                && final(entries)@ == old(entries)@,
        },
{
    let place = find_place(entries, "type");
    if place < entries.len() {
        assert(entries.deep_view()[place as int].1 == entries[place as int].1.deep_view());
        let is_list = match &entries[place].1 {
            Json::Array(_) => true,
            _ => false,
        };
        if is_list {
            match normalize_type_array(&entries[place].1, path) {
                Ok((scalar, nullable)) => {
                    put_entry(entries, "type", Json::Text(scalar));
                    if nullable {
                        put_entry(entries, "nullable", Json::Bool(true));
                    }
                },
                Err(e) => {
                    return Err(e);
                },
            }
        }
    }
    Ok(())
}

/// Turns every list of types in the entries of an object into one type.
fn normalize_entries(
    entries: &mut Vec<(String, Json)>,
    path: &str,
) -> (r: Result<(), DocumentError>)
    ensures
        final(entries).deep_view() == normalized_entries(
            old(entries).deep_view(),
            path@,
        ).0,
        match normalized_entries(old(entries).deep_view(), path@).1 {
            None => r is Ok,
            Some(message) => r matches Err(e) && e.deep_view() == DocumentErrorView::OpenApi(
                message,
            ),
        },
    decreases entries_height(old(entries).deep_view()), 1nat,
{
    let ghost whole = entries.deep_view();
    let count: usize = entries.len();
    assert(entries.deep_view().take(0) =~= whole.take(0));
    for i in 0..count
        invariant
            whole == old(entries).deep_view(),
            count == entries.len(),
            count == whole.len(),
            normalized_entries(whole.take(i as int), path@) == (
                entries.deep_view().take(i as int),
                None::<Seq<char>>,
            ),
            forall|k: int|
                i <= k < count ==> #[trigger] entries.deep_view()[k] == whole[k],
    {
        let ghost before = entries.deep_view();
        let ghost child = whole[i as int].1;
        assert(whole.take(i + 1).drop_last() =~= whole.take(i as int));
        assert(before[i as int] == whole[i as int]);
        proof {
            lemma_entries_height(whole, 0);
        }
        let child_path = concat3(path, ".", entries[i].0.as_str());
        let result = normalize_type_arrays(&mut entries[i].1, child_path.as_str());
        let ghost after = entries.deep_view();
        assert(after =~= before.update(
            i as int,
            (whole[i as int].0, normalized_value(child, child_path@).0),
        ));
        assert(after.take(i + 1) =~= before.take(i as int).push(after[i as int]));
        if let Err(e) = result {
            proof {
                lemma_entries_error(whole, path@, i + 1);
            }
            assert(after =~= after.take(i + 1) + whole.skip(i + 1));
            return Err(e);
        }
    }
    assert(whole.take(count as int) =~= whole);
    assert(entries.deep_view().take(count as int) =~= entries.deep_view());
    Ok(())
}

/// Turns every list of types in the items of an array into one type.
fn normalize_items(items: &mut Vec<Json>, path: &str) -> (r: Result<(), DocumentError>)
    ensures
        final(items).deep_view() == normalized_items(old(items).deep_view(), path@).0,
        match normalized_items(old(items).deep_view(), path@).1 {
            None => r is Ok,
            Some(message) => r matches Err(e) && e.deep_view() == DocumentErrorView::OpenApi(
                message,
            ),
        },
    decreases items_height(old(items).deep_view()), 1nat,
{
    let ghost whole = items.deep_view();
    let count: usize = items.len();
    assert(items.deep_view().take(0) =~= whole.take(0));
    for i in 0..count
        invariant
            whole == old(items).deep_view(),
            count == items.len(),
            count == whole.len(),
            normalized_items(whole.take(i as int), path@) == (
                items.deep_view().take(i as int),
                None::<Seq<char>>,
            ),
            forall|k: int| i <= k < count ==> #[trigger] items.deep_view()[k] == whole[k],
    {
        let ghost before = items.deep_view();
        let ghost child = whole[i as int];
        assert(whole.take(i + 1).drop_last() =~= whole.take(i as int));
        assert(before[i as int] == child);
        proof {
            lemma_items_height(whole);
        }
        let index = decimal_text(i as i128);
        let child_path = concat2(concat3(path, "[", index.as_str()).as_str(), "]");
        let result = normalize_type_arrays(&mut items[i], child_path.as_str());
        let ghost after = items.deep_view();
        assert(after =~= before.update(i as int, normalized_value(child, child_path@).0));
        assert(after.take(i + 1) =~= before.take(i as int).push(after[i as int]));
        if let Err(e) = result {
            proof {
                lemma_items_error(whole, path@, i + 1);
            }
            assert(after =~= after.take(i + 1) + whole.skip(i + 1));
            return Err(e);
        }
    }
    assert(whole.take(count as int) =~= whole);
    assert(items.deep_view().take(count as int) =~= items.deep_view());
    Ok(())
}

/// Turns every list of types in a value into one type.
pub fn normalize_type_arrays(value: &mut Json, path: &str) -> (r: Result<(), DocumentError>)
    ensures
        final(value).deep_view() == normalized_value(old(value).deep_view(), path@).0,
        match normalized_value(old(value).deep_view(), path@).1 {
            None => r is Ok,
            Some(message) => r matches Err(e) && e.deep_view() == DocumentErrorView::OpenApi(
                message,
            ),
        },
    decreases height(old(value).deep_view()), 0nat,
{
    proof {
        lemma_json_view(*value);
    }
    let result = match value {
        Json::Object(entries) => {
            let ghost given = entries.deep_view();
            match retype(entries, path) {
                Ok(_) => {
                    proof {
                        lemma_retyped_height(given, path@);
                    }
                    normalize_entries(entries, path)
                },
                Err(e) => Err(e),
            }
        },
        Json::Array(items) => normalize_items(items, path),
        _ => Ok(()),
    };
    proof {
        lemma_json_view(*value);
    }
    result
}

/// The version that a document says it is written in, or what is wrong with it.
pub open spec fn declared_version(document: JsonView) -> Result<Seq<char>, Seq<char>> {
    let missing = "missing required openapi version field"@;
    match document {
        JsonView::Object(entries) => match value_under(entries, "openapi"@) {
            Some(JsonView::Text(version)) => Ok(version),
            Some(JsonView::Number(n)) => Ok(number_text(n)),
            Some(_) => Err("openapi field must be a string"@),
            None => Err(missing),
        },
        _ => Err(missing),
    }
}

/// A document with its version as a text.
pub open spec fn with_version(document: JsonView, version: Seq<char>) -> JsonView {
    match document {
        JsonView::Object(entries) => JsonView::Object(
            with_entry(entries, "openapi"@, JsonView::Text(version)),
        ),
        _ => document,
    }
}

/// A document in the terms of version 3.0, and what is wrong with it where something is: its
/// version is written as a text, and in a document of version 3.1 every list of types is turned
/// into one type.
pub open spec fn normalized_document(document: JsonView) -> (JsonView, Option<Seq<char>>) {
    match declared_version(document) {
        Ok(version) => {
            let versioned = with_version(document, version);
            if version_30(version) {
                (versioned, None)
            } else if version_31(version) {
                normalized_value(versioned, "$"@)
            } else {
                (
                    versioned,
                    Some(
                        "unsupported OpenAPI version '"@ + version
                            + "'; supported: 3.0.x and 3.1.x"@,
                    ),
                )
            }
        },
        Err(message) => (document, Some(message)),
    }
}

/// Reads the version that a document says it is written in. A version that is given as a number
/// counts as its decimal form.
pub fn extract_openapi_version(value: &Json) -> (r: Result<String, DocumentError>)
    ensures
        match declared_version(value.deep_view()) {
            Ok(version) => r matches Ok(v) && v@ == version,
            Err(message) => r matches Err(e) && e.deep_view() == DocumentErrorView::OpenApi(
                message,
            ),
        },
{
    proof {
        lemma_json_view(*value);
    }
    if let Json::Object(entries) = value {
        let place = find_place(entries, "openapi");
        if place < entries.len() {
            assert(entries.deep_view()[place as int].1 == entries[place as int].1.deep_view());
            return match &entries[place].1 {
                Json::Text(version) => Ok(version.clone()),
                Json::Number(n) => Ok(write_number(n)),
                _ => Err(DocumentError::OpenApi("openapi field must be a string".to_string())),
            };
        }
    }
    Err(DocumentError::OpenApi("missing required openapi version field".to_string()))
}

/// Brings a document into the terms of version 3.0.
pub fn normalize_document(value: &mut Json) -> (r: Result<(), DocumentError>)
    ensures
        final(value).deep_view() == normalized_document(old(value).deep_view()).0,
        match normalized_document(old(value).deep_view()).1 {
            None => r is Ok,
            Some(message) => r matches Err(e) && e.deep_view() == DocumentErrorView::OpenApi(
                message,
            ),
        },
{
    let version = match extract_openapi_version(value) {
        Ok(version) => version,
        Err(e) => {
            return Err(e);
        },
    };
    proof {
        lemma_json_view(*value);
    }
    if let Json::Object(entries) = value {
        put_entry(entries, "openapi", Json::Text(version.clone()));
    }
    proof {
        lemma_json_view(*value);
    }
    if is_openapi_30(version.as_str()) {
        return Ok(());
    }
    if is_openapi_31(version.as_str()) {
        return normalize_type_arrays(value, "$");
    }
    Err(
        DocumentError::OpenApi(
            concat3(
                "unsupported OpenAPI version '",
                version.as_str(),
                "'; supported: 3.0.x and 3.1.x",
            ),
        ),
    )
}

/// Turning a list of types into one type keeps an object well-formed.
pub(crate) proof fn lemma_retyped_is_well_formed(entries: Seq<(Seq<char>, JsonView)>, path: Seq<char>)
    requires
        well_formed(JsonView::Object(entries)),
    ensures
        retyped(entries, path) matches Ok(after) ==> well_formed(JsonView::Object(after)),
{
    match value_under(entries, "type"@) {
        Some(JsonView::Array(items)) => {
            if let Ok((scalar, nullable)) = scalar_type(JsonView::Array(items), path) {
                lemma_with_entry_is_well_formed(entries, "type"@, JsonView::Text(scalar));
                let typed = with_entry(entries, "type"@, JsonView::Text(scalar));
                lemma_with_entry_is_well_formed(typed, "nullable"@, JsonView::Bool(true));
            }
        },
        _ => {},
    }
}

/// Normalization keeps a value well-formed, whether it succeeds or not.
pub proof fn lemma_normalized_is_well_formed(j: JsonView, path: Seq<char>)
    requires
        well_formed(j),
    ensures
        well_formed(normalized_value(j, path).0),
    decreases height(j), 0nat, 0nat,
{
    match j {
        JsonView::Object(entries) => {
            lemma_retyped_is_well_formed(entries, path);
            lemma_retyped_height(entries, path);
            match retyped(entries, path) {
                Ok(after) => {
                    lemma_normalized_entries_are_well_formed(after, path);
                },
                Err(_) => {},
            }
        },
        JsonView::Array(items) => {
            assert forall|i: int| 0 <= i < items.len() implies well_formed(#[trigger] items[i]) by {
                assert(well_formed(j->Array_0[i]));
            }
            lemma_normalized_items_are_well_formed(items, path);
            let values = normalized_items(items, path).0;
            let after = normalized_value(j, path).0;
            assert forall|i: int| 0 <= i < after->Array_0.len() implies well_formed(
                #[trigger] after->Array_0[i],
            ) by {
                assert(well_formed(values[i]));
            }
        },
        _ => {},
    }
}

proof fn lemma_normalized_entries_are_well_formed(
    entries: Seq<(Seq<char>, JsonView)>,
    path: Seq<char>,
)
    requires
        well_formed(JsonView::Object(entries)),
    ensures
        keys(normalized_entries(entries, path).0) == keys(entries),
        well_formed(JsonView::Object(normalized_entries(entries, path).0)),
    decreases entries_height(entries), 1nat, entries.len(),
{
    if entries.len() > 0 {
        let rest = entries.drop_last();
        let last = entries.last();
        let values = normalized_entries(entries, path).0;
        let before = normalized_entries(rest, path).0;
        assert(keys(rest) =~= keys(entries).drop_last());
        assert forall|i: int| 0 <= i < rest.len() implies well_formed((#[trigger] rest[i]).1) by {
            assert(well_formed(entries[i].1));
        }
        assert(well_formed(entries[entries.len() - 1].1));
        lemma_entries_height(entries, 0);
        lemma_normalized_entries_are_well_formed(rest, path);
        lemma_normalized_is_well_formed(last.1, key_path(path, last.0));
        assert(keys(values) =~= keys(before).push(last.0));
        assert(keys(values) =~= keys(entries));
        assert forall|i: int| 0 <= i < values.len() implies well_formed(
            (#[trigger] values[i]).1,
        ) by {
            if i < before.len() {
                assert(well_formed(before[i].1));
            }
        }
    } else {
        assert(normalized_entries(entries, path).0 =~= entries);
    }
}

proof fn lemma_normalized_items_are_well_formed(items: Seq<JsonView>, path: Seq<char>)
    requires
        forall|i: int| 0 <= i < items.len() ==> well_formed(#[trigger] items[i]),
    ensures
        forall|i: int|
            0 <= i < normalized_items(items, path).0.len() ==> well_formed(
                #[trigger] normalized_items(items, path).0[i],
            ),
    decreases items_height(items), 1nat, items.len(),
{
    if items.len() > 0 {
        let rest = items.drop_last();
        assert forall|i: int| 0 <= i < rest.len() implies well_formed(#[trigger] rest[i]) by {
            assert(well_formed(items[i]));
        }
        assert(well_formed(items[items.len() - 1]));
        lemma_items_height(items);
        lemma_normalized_items_are_well_formed(rest, path);
        lemma_normalized_is_well_formed(items.last(), item_path(path, items.len() - 1));
        let before = normalized_items(rest, path).0;
        let values = normalized_items(items, path).0;
        assert forall|i: int| 0 <= i < values.len() implies well_formed(#[trigger] values[i]) by {
            if i < before.len() {
                assert(well_formed(before[i]));
            }
        }
    }
}

/// Normalization keeps a document well-formed, whether it succeeds or not.
pub proof fn lemma_normalized_document_is_well_formed(document: JsonView)
    requires
        well_formed(document),
    ensures
        well_formed(normalized_document(document).0),
{
    if let Ok(version) = declared_version(document) {
        let versioned = with_version(document, version);
        lemma_with_entry_is_well_formed(
            document->Object_0,
            "openapi"@,
            JsonView::Text(version),
        );
        lemma_normalized_is_well_formed(versioned, "$"@);
    }
}

} // verus!
