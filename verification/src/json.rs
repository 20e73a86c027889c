//! JSON values.
use crate::text::{
    ascending, lemma_place_of, lemma_precedes_is_an_order, place_of, precedes, same_text,
    text_precedes,
};
use vstd::prelude::*;

verus! {

/// A JSON value; an object holds its entries in the order of their keys.
#[derive(Debug)]
pub enum Json {
    Null,
    Bool(bool),
    Number(serde_json::Number),
    Text(String),
    Array(Vec<Json>),
    Object(Vec<(String, Json)>),
}

/// The mathematical value of a [`Json`].
#[verifier::ext_equal]
pub enum JsonView {
    Null,
    Bool(bool),
    Number(serde_json::Number),
    Text(Seq<char>),
    Array(Seq<JsonView>),
    Object(Seq<(Seq<char>, JsonView)>),
}

/// The mathematical value of a JSON value.
pub open spec fn json_view(j: Json) -> JsonView
    decreases j,
{
    match j {
        Json::Null => JsonView::Null,
        Json::Bool(b) => JsonView::Bool(b),
        Json::Number(n) => JsonView::Number(n),
        Json::Text(s) => JsonView::Text(s@),
        Json::Array(items) => JsonView::Array(
            Seq::new(
                items@.len(),
                |i: int|
                    if 0 <= i < items@.len() {
                        json_view(items@[i])
                    } else {
                        JsonView::Null
                    },
            ),
        ),
        Json::Object(entries) => JsonView::Object(
            Seq::new(
                entries@.len(),
                |i: int|
                    if 0 <= i < entries@.len() {
                        (entries@[i].0@, json_view(entries@[i].1))
                    } else {
                        (Seq::empty(), JsonView::Null)
                    },
            ),
        ),
    }
}

impl DeepView for Json {
    type V = JsonView;

    open spec fn deep_view(&self) -> JsonView {
        json_view(*self)
    }
}

/// An array is viewed item by item, and an object entry by entry.
pub proof fn lemma_json_view(j: Json)
    ensures
        j matches Json::Array(items) ==> j.deep_view() == JsonView::Array(items.deep_view()),
        j matches Json::Object(entries) ==> j.deep_view() == JsonView::Object(
            entries.deep_view(),
        ),
{
    match j {
        Json::Array(items) => {
            assert(j.deep_view()->Array_0 =~= items.deep_view());
        },
        Json::Object(entries) => {
            assert(j.deep_view()->Object_0 =~= entries.deep_view());
        },
        _ => {},
    }
}

/// The keys of the entries of an object.
pub open spec fn keys(entries: Seq<(Seq<char>, JsonView)>) -> Seq<Seq<char>> {
    entries.map_values(|e: (Seq<char>, JsonView)| e.0)
}

/// The place of the first entry with a key, or the number of entries where there is none.
pub open spec fn entry_place(entries: Seq<(Seq<char>, JsonView)>, key: Seq<char>) -> int
    decreases entries.len(),
{
    if entries.len() == 0 || entries[0].0 == key {
        0
    } else {
        1 + entry_place(entries.drop_first(), key)
    }
}

/// A place is within the entries, and the entry at it is the first with the key.
pub proof fn lemma_entry_place(entries: Seq<(Seq<char>, JsonView)>, key: Seq<char>)
    ensures
        0 <= entry_place(entries, key) <= entries.len(),
        entry_place(entries, key) < entries.len() ==> entries[entry_place(entries, key)].0 == key,
        forall|i: int| 0 <= i < entry_place(entries, key) ==> (#[trigger] entries[i]).0 != key,
    decreases entries.len(),
{
    if entries.len() > 0 && entries[0].0 != key {
        lemma_entry_place(entries.drop_first(), key);
        assert forall|i: int| 0 <= i < entry_place(entries, key) implies (
        #[trigger] entries[i]).0 != key by {
            if i > 0 {
                assert(entries.drop_first()[i - 1] == entries[i]);
            }
        }
    }
}

/// The value under a key of an object.
pub open spec fn value_under(entries: Seq<(Seq<char>, JsonView)>, key: Seq<char>) -> Option<
    JsonView,
> {
    let i = entry_place(entries, key);
    if i < entries.len() {
        Some(entries[i].1)
    } else {
        None
    }
}

/// The entries of an object once a key has the given value: the entry with the key is changed
/// where there is one, and one is added in the order of the keys where there is none.
pub open spec fn with_entry(
    entries: Seq<(Seq<char>, JsonView)>,
    key: Seq<char>,
    value: JsonView,
) -> Seq<(Seq<char>, JsonView)> {
    let i = entry_place(entries, key);
    if i < entries.len() {
        entries.update(i, (key, value))
    } else {
        entries.insert(place_of(keys(entries), key), (key, value))
    }
}

/// The place of the first entry with a key.
pub(crate) fn find_place(entries: &Vec<(String, Json)>, key: &str) -> (r: usize)
    ensures
        r == entry_place(entries.deep_view(), key@),
        r <= entries.len(),
{
    let ghost whole = entries.deep_view();
    assert(whole.skip(0) =~= whole);
    let mut i: usize = 0;
    while i < entries.len() && !same_text(entries[i].0.as_str(), key)
        invariant
            i <= entries.len(),
            whole == entries.deep_view(),
            entry_place(whole, key@) == i + entry_place(whole.skip(i as int), key@),
        decreases entries.len() - i,
    {
        assert(whole.skip(i as int).drop_first() =~= whole.skip(i + 1));
        i += 1;
    }
    i
}

/// Gives a key of an object a value.
pub(crate) fn put_entry(entries: &mut Vec<(String, Json)>, key: &str, value: Json)
    ensures
        final(entries).deep_view() == with_entry(
            old(entries).deep_view(),
            key@,
            value.deep_view(),
        ),
{
    let ghost whole = entries.deep_view();
    let place = find_place(entries, key);
    if place < entries.len() {
        proof {
            lemma_entry_place(whole, key@);
        }
        entries[place] = (key.to_string(), value);
        assert(entries.deep_view() =~= whole.update(place as int, (key@, value.deep_view())));
        return ;
    }
    let ghost texts = keys(whole);
    assert(texts.skip(0) =~= texts);
    let mut i: usize = 0;
    while i < entries.len() && text_precedes(entries[i].0.as_str(), key)
        invariant
            i <= entries.len(),
            texts == keys(entries.deep_view()),
            entries@ == old(entries)@,
            place_of(texts, key@) == i + place_of(texts.skip(i as int), key@),
        decreases entries.len() - i,
    {
        assert(texts.skip(i as int).drop_first() =~= texts.skip(i + 1));
        i += 1;
    }
    entries.insert(i, (key.to_string(), value));
    assert(entries.deep_view() =~= whole.insert(i as int, (key@, value.deep_view())));
}

/// Whether every object in a JSON value holds its entries in the strict order of their keys.
pub open spec fn well_formed(j: JsonView) -> bool
    decreases j,
{
    match j {
        JsonView::Array(items) => {
            forall|i: int| 0 <= i < items.len() ==> well_formed(#[trigger] items[i])
        },
        JsonView::Object(entries) => {
            &&& ascending(keys(entries))
            &&& forall|i: int| 0 <= i < entries.len() ==> well_formed((#[trigger] entries[i]).1)
        },
        _ => true,
    }
}

/// Giving a key a value keeps the entries in the strict order of their keys.
pub proof fn lemma_with_entry_is_ascending(
    entries: Seq<(Seq<char>, JsonView)>,
    key: Seq<char>,
    value: JsonView,
)
    requires
        ascending(keys(entries)),
    ensures
        ascending(keys(with_entry(entries, key, value))),
{
    let after = with_entry(entries, key, value);
    lemma_entry_place(entries, key);
    let texts = keys(entries);
    if entry_place(entries, key) < entries.len() {
        assert(keys(after) =~= texts);
    } else {
        let i = place_of(texts, key);
        lemma_place_of(texts, key);
        assert(keys(after) =~= texts.insert(i, key));
        assert forall|j: int| i <= j < texts.len() implies precedes(key, #[trigger] texts[j]) by {
            assert(entries[i].0 != key);
            lemma_precedes_is_an_order(texts[i], key, key);
            if j > i {
                lemma_precedes_is_an_order(key, texts[i], texts[j]);
            }
        }
    }
}

/// Giving a key a value keeps an object well-formed.
pub proof fn lemma_with_entry_is_well_formed(
    entries: Seq<(Seq<char>, JsonView)>,
    key: Seq<char>,
    value: JsonView,
)
    requires
        well_formed(JsonView::Object(entries)),
        well_formed(value),
    ensures
        well_formed(JsonView::Object(with_entry(entries, key, value))),
{
    let after = with_entry(entries, key, value);
    lemma_with_entry_is_ascending(entries, key, value);
    lemma_entry_place(entries, key);
    lemma_place_of(keys(entries), key);
    let i = entry_place(entries, key);
    let p = place_of(keys(entries), key);
    assert forall|k: int| 0 <= k < after.len() implies well_formed((#[trigger] after[k]).1) by {
        if i < entries.len() {
            if k != i {
                assert(well_formed(entries[k].1));
            }
        } else if k < p {
            assert(well_formed(entries[k].1));
        } else if k > p {
            assert(well_formed(entries[k - 1].1));
        }
    }
}

/// A key has the value that it was given, and the others have theirs.
pub proof fn lemma_value_under_with_entry(
    entries: Seq<(Seq<char>, JsonView)>,
    key: Seq<char>,
    value: JsonView,
    other: Seq<char>,
)
    ensures
        value_under(with_entry(entries, key, value), key) == Some(value),
        other != key ==> value_under(with_entry(entries, key, value), other) == value_under(
            entries,
            other,
        ),
{
    let after = with_entry(entries, key, value);
    lemma_entry_place(entries, key);
    lemma_entry_place(entries, other);
    lemma_entry_place(after, key);
    lemma_entry_place(after, other);
    lemma_place_of(keys(entries), key);
    let i = entry_place(entries, key);
    let p = place_of(keys(entries), key);
    if i < entries.len() {
        assert(after[i].0 == key);
        let k = entry_place(after, other);
        let l = entry_place(entries, other);
        if other != key {
            if l < entries.len() {
                assert(after[l] == entries[l]);
            }
            if k < after.len() {
                assert(after[k] == entries[k]);
            }
        } else if k < i {
            assert(after[k] == entries[k]);
        }
    } else {
        assert(after[p].0 == key);
        let k = entry_place(after, other);
        let l = entry_place(entries, other);
        if other != key {
            if l < entries.len() {
                assert(after[if l < p { l } else { l + 1 }] == entries[l]);
            }
            if k < after.len() {
                assert(after[k] == entries[if k < p { k } else { k - 1 }]);
            }
        } else if k != p {
            assert(after[k] == entries[if k < p { k } else { k - 1 }]);
        }
    }
}

} // verus!
