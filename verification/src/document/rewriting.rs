//! Documents that differ only in how they write types down.
use crate::document::laws::{
    free_of_type_lists, law_type_list_forms, law_without_type_lists_is_unchanged,
    lemma_versions_differ, lists_types,
};
use crate::document::normalize::{
    declared_version, height, item_path, key_path, lemma_entries_height, lemma_items_height,
    lemma_retyped_is_well_formed, normalized_document, normalized_entries, normalized_items,
    normalized_value, retyped, with_version,
};
use crate::document::value::{json_value, yaml_value};
use crate::document::version::version_31;
use crate::document::{loaded_json, loaded_value, loaded_yaml};
use crate::json::{
    entry_place, keys, lemma_entry_place, lemma_value_under_with_entry,
    lemma_with_entry_is_well_formed, value_under, well_formed, with_entry, JsonView,
};
use crate::text::{ascending, lemma_precedes_is_an_order, precedes};
use vstd::prelude::*;

verus! {

/// Whether the second object writes as `[T]` what the first writes as `T`.
pub open spec fn lists_one_type(
    plain: Seq<(Seq<char>, JsonView)>,
    other: Seq<(Seq<char>, JsonView)>,
) -> bool {
    &&& value_under(plain, "type"@) matches Some(JsonView::Text(t))
    &&& t != "null"@
    &&& value_under(other, "type"@) == Some(JsonView::Array(seq![JsonView::Text(t)]))
}

/// Whether the second object writes as `[T, "null"]` or `["null", T]` what the first writes as
/// `type: T` with `nullable: true`.
pub open spec fn lists_type_and_null(
    plain: Seq<(Seq<char>, JsonView)>,
    other: Seq<(Seq<char>, JsonView)>,
) -> bool {
    let null = JsonView::Text("null"@);
    &&& value_under(plain, "type"@) matches Some(JsonView::Text(t))
    &&& t != "null"@
    &&& value_under(plain, "nullable"@) == Some(JsonView::Bool(true))
    &&& {
        ||| value_under(other, "type"@) == Some(JsonView::Array(seq![JsonView::Text(t), null]))
        ||| value_under(other, "type"@) == Some(JsonView::Array(seq![null, JsonView::Text(t)]))
    }
}

/// Whether the second value is the first one with some types, at any depth, written as lists:
/// `type: T` as `[T]`, and `type: T` with `nullable: true` as `[T, "null"]` or `["null", T]`,
/// whatever `nullable` then is, and whether it is there at all.
pub open spec fn writes_types_as_lists(plain: JsonView, other: JsonView) -> bool
    decreases plain,
{
    match plain {
        JsonView::Object(entries) => match other {
            JsonView::Object(others) => {
                let with_null = lists_type_and_null(entries, others);
                let listed = with_null || lists_one_type(entries, others);
                &&& forall|i: int|
                    0 <= i < entries.len() && !(listed && (#[trigger] entries[i]).0 == "type"@)
                        && !(with_null && entries[i].0 == "nullable"@) ==> {
                        &&& value_under(others, entries[i].0) matches Some(value)
                        &&& writes_types_as_lists(entries[i].1, value)
                    }
                &&& forall|j: int|
                    0 <= j < others.len() && !(with_null && (#[trigger] others[j]).0
                        == "nullable"@) ==> value_under(entries, others[j].0) is Some
            },
            _ => false,
        },
        JsonView::Array(items) => match other {
            JsonView::Array(others) => {
                &&& items.len() == others.len()
                &&& forall|i: int|
                    0 <= i < items.len() ==> writes_types_as_lists(#[trigger] items[i], others[i])
            },
            _ => false,
        },
        _ => plain == other,
    }
}

/// Two ascending lists of the same texts are the same.
proof fn lemma_ascending_lists_agree(a: Seq<Seq<char>>, b: Seq<Seq<char>>)
    requires
        ascending(a),
        ascending(b),
        forall|t: Seq<char>| #[trigger] a.contains(t) <==> b.contains(t),
    ensures
        a == b,
    decreases a.len(),
{
    if a.len() == 0 {
        if b.len() > 0 {
            assert(b.contains(b[0]));
            assert(a.contains(b[0]));
        }
        assert(a =~= b);
    } else {
        assert(a.contains(a[0]));
        assert(b.contains(a[0]));
        let x = a.last();
        let y = b.last();
        assert(a[a.len() - 1] == x && b[b.len() - 1] == y);
        assert(a.contains(x) && b.contains(y));
        assert(b.contains(x) && a.contains(y));
        let i = choose|i: int| 0 <= i < a.len() && a[i] == y;
        let j = choose|j: int| 0 <= j < b.len() && b[j] == x;
        lemma_precedes_is_an_order(x, y, y);
        assert(x == y) by {
            if x != y {
                assert(precedes(a[i], a[a.len() - 1]));
                assert(precedes(b[j], b[b.len() - 1]));
            }
        }
        let rest_a = a.drop_last();
        let rest_b = b.drop_last();
        assert forall|t: Seq<char>| #[trigger] rest_a.contains(t) <==> rest_b.contains(t) by {
            if rest_a.contains(t) {
                let k = choose|k: int| 0 <= k < rest_a.len() && rest_a[k] == t;
                assert(precedes(a[k], a[a.len() - 1]));
                lemma_precedes_is_an_order(x, x, x);
                assert(a.contains(a[k]));
                let l = choose|l: int| 0 <= l < b.len() && b[l] == t;
                assert(rest_b[l] == t);
            }
            if rest_b.contains(t) {
                let k = choose|k: int| 0 <= k < rest_b.len() && rest_b[k] == t;
                assert(precedes(b[k], b[b.len() - 1]));
                lemma_precedes_is_an_order(x, x, x);
                assert(b.contains(b[k]));
                assert(a.contains(t));
                let l = choose|l: int| 0 <= l < a.len() && a[l] == t;
                assert(rest_a[l] == t);
            }
        }
        assert forall|p: int, q: int| 0 <= p < q < rest_a.len() implies precedes(
            #[trigger] rest_a[p],
            #[trigger] rest_a[q],
        ) by {
            assert(precedes(a[p], a[q]));
        }
        assert forall|p: int, q: int| 0 <= p < q < rest_b.len() implies precedes(
            #[trigger] rest_b[p],
            #[trigger] rest_b[q],
        ) by {
            assert(precedes(b[p], b[q]));
        }
        lemma_ascending_lists_agree(rest_a, rest_b);
        assert(a =~= rest_a.push(x));
        assert(b =~= rest_b.push(y));
    }
}

/// A key is there if and only if there is a value under it.
proof fn lemma_has_key(entries: Seq<(Seq<char>, JsonView)>, key: Seq<char>)
    ensures
        keys(entries).contains(key) <==> value_under(entries, key) is Some,
{
    lemma_entry_place(entries, key);
    let p = entry_place(entries, key);
    if p < entries.len() {
        assert(keys(entries)[p] == key);
    }
    if keys(entries).contains(key) {
        let i = choose|i: int| 0 <= i < keys(entries).len() && keys(entries)[i] == key;
        assert(entries[i].0 == key);
    }
}

/// Where no key comes twice, the value under the key of an entry is that of the entry.
proof fn lemma_value_of_entry(entries: Seq<(Seq<char>, JsonView)>, i: int)
    requires
        ascending(keys(entries)),
        0 <= i < entries.len(),
    ensures
        entry_place(entries, entries[i].0) == i,
        value_under(entries, entries[i].0) == Some(entries[i].1),
{
    let key = entries[i].0;
    lemma_entry_place(entries, key);
    let p = entry_place(entries, key);
    if p != i {
        assert(p < i);
        assert(precedes(keys(entries)[p], keys(entries)[i]));
        lemma_precedes_is_an_order(key, key, key);
    }
}

/// Entries of which each is normalized to the one at its place are normalized to all of these.
proof fn lemma_entries_normalized_to(
    entries: Seq<(Seq<char>, JsonView)>,
    plain: Seq<(Seq<char>, JsonView)>,
    path: Seq<char>,
)
    requires
        entries.len() == plain.len(),
        forall|i: int|
            0 <= i < entries.len() ==> (#[trigger] entries[i]).0 == plain[i].0
                && normalized_value(entries[i].1, key_path(path, entries[i].0)) == (
                plain[i].1,
                None::<Seq<char>>,
            ),
    ensures
        normalized_entries(entries, path) == (plain, None::<Seq<char>>),
    decreases entries.len(),
{
    if entries.len() > 0 {
        let rest = entries.drop_last();
        let rest_plain = plain.drop_last();
        assert forall|i: int| 0 <= i < rest.len() implies (#[trigger] rest[i]).0 == rest_plain[i].0
            && normalized_value(rest[i].1, key_path(path, rest[i].0)) == (
            rest_plain[i].1,
            None::<Seq<char>>,
        ) by {
            assert(rest[i] == entries[i]);
        }
        lemma_entries_normalized_to(rest, rest_plain, path);
        assert(entries[entries.len() - 1].0 == plain[plain.len() - 1].0);
        assert(rest_plain.push(plain.last()) =~= plain);
    } else {
        assert(entries =~= plain);
    }
}

/// Items of which each is normalized to the one at its place are normalized to all of these.
proof fn lemma_items_normalized_to(items: Seq<JsonView>, plain: Seq<JsonView>, path: Seq<char>)
    requires
        items.len() == plain.len(),
        forall|i: int|
            0 <= i < items.len() ==> normalized_value(#[trigger] items[i], item_path(path, i)) == (
                plain[i],
                None::<Seq<char>>,
            ),
    ensures
        normalized_items(items, path) == (plain, None::<Seq<char>>),
    decreases items.len(),
{
    if items.len() > 0 {
        let rest = items.drop_last();
        let rest_plain = plain.drop_last();
        assert forall|i: int| 0 <= i < rest.len() implies normalized_value(
            #[trigger] rest[i],
            item_path(path, i),
        ) == (rest_plain[i], None::<Seq<char>>) by {
            assert(rest[i] == items[i]);
        }
        lemma_items_normalized_to(rest, rest_plain, path);
        assert(items[items.len() - 1] == items.last());
        assert(rest_plain.push(plain.last()) =~= plain);
    } else {
        assert(items =~= plain);
    }
}

/// Whether a value is the plain one, or the plain one with some types written as lists.
spec fn is_same_or_listed(plain: JsonView, other: JsonView) -> bool {
    ||| plain == other && height(plain) == 0
    ||| writes_types_as_lists(plain, other)
}

/// Once the list of types of an object is turned into one type, the object has the keys of the
/// plain one, and under each of them the plain value, or that with some types written as lists.
proof fn lemma_retyped_to(
    plain: Seq<(Seq<char>, JsonView)>,
    other: Seq<(Seq<char>, JsonView)>,
    path: Seq<char>,
)
    requires
        ascending(keys(plain)),
        well_formed(JsonView::Object(other)),
        !lists_types(plain),
        writes_types_as_lists(JsonView::Object(plain), JsonView::Object(other)),
    ensures
        retyped(other, path) matches Ok(after) && after.len() == plain.len() && forall|i: int|
            0 <= i < plain.len() ==> (#[trigger] after[i]).0 == plain[i].0 && is_same_or_listed(
                plain[i].1,
                after[i].1,
            ),
{
    let a = JsonView::Object(plain);
    let with_null = lists_type_and_null(plain, other);
    let listed = with_null || lists_one_type(plain, other);
    let flag = JsonView::Bool(true);
    assert("type"@ != "nullable"@) by {
        reveal_strlit("type");
        reveal_strlit("nullable");
        assert("type"@.len() != "nullable"@.len());
    }
    // What the relation says of each key of the plain object.
    assert forall|i: int|
        0 <= i < plain.len() && !(listed && plain[i].0 == "type"@) && !(with_null && plain[i].0
            == "nullable"@) implies (value_under(other, (#[trigger] plain[i]).0) matches Some(value)
        && writes_types_as_lists(plain[i].1, value)) by {
        assert(a->Object_0[i] == plain[i]);
    }
    // A key of the other object is one of the plain object.
    assert forall|key: Seq<char>|
        value_under(other, key) is Some && !(with_null && key == "nullable"@) implies value_under(
        plain,
        key,
    ) is Some by {
        lemma_entry_place(other, key);
        let j = entry_place(other, key);
        assert(JsonView::Object(other)->Object_0[j].0 == key);
        assert(value_under(plain, other[j].0) is Some);
    }
    lemma_entry_place(plain, "type"@);
    lemma_entry_place(plain, "nullable"@);
    let t_at = entry_place(plain, "type"@);
    let n_at = entry_place(plain, "nullable"@);
    if listed {
        let t = value_under(plain, "type"@)->0->Text_0;
        let text = JsonView::Text(t);
        law_type_list_forms(t, path);
        let typed = with_entry(other, "type"@, text);
        assert forall|key: Seq<char>| key != "type"@ implies #[trigger] value_under(typed, key)
            == value_under(other, key) by {
            lemma_value_under_with_entry(other, "type"@, text, key);
        }
        lemma_value_under_with_entry(other, "type"@, text, "type"@);
        let both = with_entry(typed, "nullable"@, flag);
        assert forall|key: Seq<char>| key != "nullable"@ implies #[trigger] value_under(both, key)
            == value_under(typed, key) by {
            lemma_value_under_with_entry(typed, "nullable"@, flag, key);
        }
        lemma_value_under_with_entry(typed, "nullable"@, flag, "nullable"@);
        if with_null {
            assert(retyped(other, path) == Ok::<_, Seq<char>>(both));
        } else {
            assert(retyped(other, path) == Ok::<_, Seq<char>>(typed));
        }
    } else {
        if t_at < plain.len() {
            assert(plain[t_at].0 == "type"@);
        }
        assert(retyped(other, path) == Ok::<_, Seq<char>>(other));
    }
    let after = retyped(other, path)->Ok_0;
    lemma_retyped_is_well_formed(other, path);
    assert forall|i: int| 0 <= i < plain.len() implies (value_under(
        after,
        (#[trigger] plain[i]).0,
    ) matches Some(value) && is_same_or_listed(plain[i].1, value)) by {
        lemma_value_of_entry(plain, i);
    }
    assert forall|key: Seq<char>| #[trigger] keys(after).contains(key) <==> keys(plain).contains(
        key,
    ) by {
        lemma_has_key(after, key);
        lemma_has_key(plain, key);
        lemma_has_key(other, key);
        if keys(plain).contains(key) {
            let i = choose|i: int| 0 <= i < keys(plain).len() && keys(plain)[i] == key;
            assert(plain[i].0 == key);
        }
    }
    lemma_ascending_lists_agree(keys(after), keys(plain));
    assert(after.len() == keys(after).len() && plain.len() == keys(plain).len());
    assert forall|i: int| 0 <= i < plain.len() implies (#[trigger] after[i]).0 == plain[i].0
        && is_same_or_listed(plain[i].1, after[i].1) by {
        assert(keys(after)[i] == keys(plain)[i]);
        lemma_value_of_entry(after, i);
        assert(plain[i].0 == after[i].0);
    }
}

/// A value that writes types as lists is normalized to the one that does not.
pub proof fn law_type_lists_are_plain_types(plain: JsonView, other: JsonView, path: Seq<char>)
    requires
        well_formed(plain),
        well_formed(other),
        free_of_type_lists(plain),
        writes_types_as_lists(plain, other),
    ensures
        normalized_value(other, path) == (plain, None::<Seq<char>>),
    decreases height(plain),
{
    match plain {
        JsonView::Object(entries) => {
            let others = other->Object_0;
            lemma_retyped_to(entries, others, path);
            lemma_retyped_is_well_formed(others, path);
            lemma_entries_height(entries, 0);
            let after = retyped(others, path)->Ok_0;
            assert forall|i: int| 0 <= i < after.len() implies (#[trigger] after[i]).0
                == entries[i].0 && normalized_value(after[i].1, key_path(path, after[i].0)) == (
                entries[i].1,
                None::<Seq<char>>,
            ) by {
                if writes_types_as_lists(entries[i].1, after[i].1) {
                    assert(well_formed(plain->Object_0[i].1));
                    assert(free_of_type_lists(plain->Object_0[i].1));
                    assert(well_formed(JsonView::Object(after)->Object_0[i].1));
                    law_type_lists_are_plain_types(
                        entries[i].1,
                        after[i].1,
                        key_path(path, after[i].0),
                    );
                }
            }
            lemma_entries_normalized_to(after, entries, path);
        },
        JsonView::Array(items) => {
            let others = other->Array_0;
            lemma_items_height(items);
            assert forall|i: int| 0 <= i < others.len() implies normalized_value(
                #[trigger] others[i],
                item_path(path, i),
            ) == (items[i], None::<Seq<char>>) by {
                assert(well_formed(plain->Array_0[i]));
                assert(free_of_type_lists(plain->Array_0[i]));
                assert(well_formed(other->Array_0[i]));
                assert(writes_types_as_lists(plain->Array_0[i], others[i]));
                law_type_lists_are_plain_types(items[i], others[i], item_path(path, i));
            }
            lemma_items_normalized_to(others, items, path);
        },
        _ => {},
    }
}

/// Two documents that differ only in how they write types down say that they are of the same
/// version, and still differ only in that once it is written as a text.
proof fn lemma_with_version(plain: JsonView, other: JsonView, version: Seq<char>)
    requires
        well_formed(plain),
        well_formed(other),
        free_of_type_lists(plain),
        writes_types_as_lists(plain, other),
        declared_version(plain) == Ok::<Seq<char>, Seq<char>>(version),
    ensures
        declared_version(other) == Ok::<Seq<char>, Seq<char>>(version),
        well_formed(with_version(plain, version)),
        well_formed(with_version(other, version)),
        free_of_type_lists(with_version(plain, version)),
        writes_types_as_lists(with_version(plain, version), with_version(other, version)),
{
    let key = "openapi"@;
    let text = JsonView::Text(version);
    let entries = plain->Object_0;
    let others = other->Object_0;
    let new_entries = with_entry(entries, key, text);
    let new_others = with_entry(others, key, text);
    assert(key != "type"@ && key != "nullable"@) by {
        reveal_strlit("openapi");
        reveal_strlit("type");
        reveal_strlit("nullable");
        assert(key.len() == 7 && "type"@.len() == 4 && "nullable"@.len() == 8);
    }
    lemma_entry_place(entries, key);
    let p = entry_place(entries, key);
    assert(plain->Object_0[p].0 == key);
    assert(writes_types_as_lists(entries[p].1, value_under(others, key)->0));
    lemma_with_entry_is_well_formed(entries, key, text);
    lemma_with_entry_is_well_formed(others, key, text);
    assert forall|k: Seq<char>| k != key implies #[trigger] value_under(new_entries, k)
        == value_under(entries, k) by {
        lemma_value_under_with_entry(entries, key, text, k);
    }
    assert forall|k: Seq<char>| k != key implies #[trigger] value_under(new_others, k)
        == value_under(others, k) by {
        lemma_value_under_with_entry(others, key, text, k);
    }
    lemma_value_under_with_entry(entries, key, text, key);
    lemma_value_under_with_entry(others, key, text, key);
    lemma_entry_place(others, key);
    let q = entry_place(others, key);
    assert forall|i: int| 0 <= i < new_entries.len() implies free_of_type_lists(
        (#[trigger] new_entries[i]).1,
    ) by {
        if i != p {
            assert(free_of_type_lists(plain->Object_0[i].1));
        }
    }
    let with_null = lists_type_and_null(entries, others);
    let listed = with_null || lists_one_type(entries, others);
    assert(with_null == lists_type_and_null(new_entries, new_others));
    assert(lists_one_type(entries, others) == lists_one_type(new_entries, new_others));
    assert forall|i: int|
        0 <= i < new_entries.len() && !(listed && new_entries[i].0 == "type"@) && !(with_null
            && new_entries[i].0 == "nullable"@) implies (value_under(
        new_others,
        (#[trigger] new_entries[i]).0,
    ) matches Some(value) && writes_types_as_lists(new_entries[i].1, value)) by {
        if i != p {
            assert(plain->Object_0[i] == new_entries[i]);
            lemma_value_of_entry(entries, i);
        }
    }
    assert forall|j: int|
        0 <= j < new_others.len() && !(with_null && (#[trigger] new_others[j]).0
            == "nullable"@) implies value_under(new_entries, new_others[j].0) is Some by {
        if j != q {
            assert(other->Object_0[j] == new_others[j]);
        }
    }
}

/// A document of version 3.1 that writes types as lists is normalized to, and loads as, the one
/// that does not.
pub proof fn law_type_lists_load_as_plain_types(plain: JsonView, other: JsonView)
    requires
        well_formed(plain),
        well_formed(other),
        free_of_type_lists(plain),
        writes_types_as_lists(plain, other),
        declared_version(plain) matches Ok(version) && version_31(version),
    ensures
        normalized_document(other) == normalized_document(plain),
        normalized_document(plain) == (
            with_version(plain, declared_version(plain)->Ok_0),
            None::<Seq<char>>,
        ),
        loaded_value(other) == loaded_value(plain),
{
    let version = declared_version(plain)->Ok_0;
    lemma_with_version(plain, other, version);
    lemma_versions_differ(version);
    let new_plain = with_version(plain, version);
    law_type_lists_are_plain_types(new_plain, with_version(other, version), "$"@);
    law_without_type_lists_is_unchanged(new_plain, "$"@);
}

/// A text of a document of version 3.1 that writes types as lists loads as a text of the one that
/// does not, in YAML and in JSON.
pub proof fn law_texts_with_type_lists_load_alike(
    plain_text: Seq<char>,
    text: Seq<char>,
    plain: JsonView,
    other: JsonView,
)
    requires
        well_formed(plain),
        well_formed(other),
        free_of_type_lists(plain),
        writes_types_as_lists(plain, other),
        declared_version(plain) matches Ok(version) && version_31(version),
    ensures
        yaml_value(plain_text) == Ok::<_, Seq<char>>(plain) && yaml_value(text) == Ok::<
            _,
            Seq<char>,
        >(other) ==> loaded_yaml(text) == loaded_yaml(plain_text),
        json_value(plain_text) == Ok::<_, Seq<char>>(plain) && json_value(text) == Ok::<
            _,
            Seq<char>,
        >(other) ==> loaded_json(text) == loaded_json(plain_text),
{
    law_type_lists_load_as_plain_types(plain, other);
}

} // verus!
