//! What holds of the fields of a composition, in terms of the properties of its parts.
use crate::laws::fields::{
    allows_null, is_described_by, is_object, law_fields_of_a_part, schema_behind,
};
use crate::models::{FieldView, ModelTypeView};
use crate::openapi::view::{RefOrView, SchemaView};
use crate::parser::composition::{
    all_of_fields, any_part_requires, merged_fields, models_of_parts, names_of, part_requires,
    refined, resolved, with_field, with_fields,
};
use crate::parser::laws::{
    law_fields_of_a_composition, law_required_fields_of_a_composition, part_has_field,
};
use crate::parser::parts::{part_fields, part_models};
use crate::parser::schemas::model_types;
use crate::parser::types::{custom_attrs, rust_type};
use crate::slots::{lemma_position_of, position_of};
use crate::text::pascal_case;
use vstd::prelude::*;

verus! {

/// The properties of a part that is an object, in place or by reference.
pub open spec fn properties_of(
    part: RefOrView<SchemaView>,
    schemas: Seq<(Seq<char>, RefOrView<SchemaView>)>,
) -> Seq<(Seq<char>, RefOrView<SchemaView>)> {
    match schema_behind(part, schemas) {
        Some(s) => if is_object(s) {
            s.schema_kind->Type_0->Object_0.properties
        } else {
            Seq::empty()
        },
        None => Seq::empty(),
    }
}

/// The names that a part that is an object, in place or by reference, lists as required.
pub open spec fn required_by(
    part: RefOrView<SchemaView>,
    schemas: Seq<(Seq<char>, RefOrView<SchemaView>)>,
) -> Seq<Seq<char>> {
    match schema_behind(part, schemas) {
        Some(s) => if is_object(s) {
            s.schema_kind->Type_0->Object_0.required
        } else {
            Seq::empty()
        },
        None => Seq::empty(),
    }
}

/// Whether a part lists a name as required.
pub open spec fn is_required_by_some(
    parts: Seq<RefOrView<SchemaView>>,
    name: Seq<char>,
    schemas: Seq<(Seq<char>, RefOrView<SchemaView>)>,
) -> bool {
    exists|k: int| 0 <= k < parts.len() && #[trigger] required_by(parts[k], schemas).contains(name)
}

/// Whether a field is what a property says of it, leaving open whether it is required.
pub open spec fn is_field_of_property(
    field: FieldView,
    property: (Seq<char>, RefOrView<SchemaView>),
    schemas: Seq<(Seq<char>, RefOrView<SchemaView>)>,
) -> bool {
    &&& field.name == property.0
    &&& field.is_nullable <==> allows_null(property.1, schemas) || property.0 == "value"@
        || property.0 == "default_value"@
    &&& is_described_by(field, property.1, schemas)
}

/// Whether no other property of any part has the name of the given one.
pub open spec fn is_only_property(
    parts: Seq<RefOrView<SchemaView>>,
    k: int,
    j: int,
    schemas: Seq<(Seq<char>, RefOrView<SchemaView>)>,
) -> bool {
    forall|a: int, b: int|
        0 <= a < parts.len() && 0 <= b < properties_of(parts[a], schemas).len() && (
        #[trigger] properties_of(parts[a], schemas)[b]).0 == properties_of(parts[k], schemas)[j].0
            ==> a == k && b == j
}

/// Whether two fields differ at most in whether they are required.
pub open spec fn same_but_required(a: FieldView, b: FieldView) -> bool {
    a == FieldView { is_required: a.is_required, ..b }
}

/// The fields that the last of some parts adds are those of its properties.
proof fn lemma_fields_of_a_part(
    part: RefOrView<SchemaView>,
    schemas: Seq<(Seq<char>, RefOrView<SchemaView>)>,
)
    ensures
        resolved(part, schemas) matches Some(target) ==> {
            &&& part_fields(target, schemas).len() == properties_of(part, schemas).len()
            &&& forall|j: int|
                0 <= j < properties_of(part, schemas).len() ==> {
                    &&& is_field_of_property(
                        #[trigger] part_fields(target, schemas)[j],
                        properties_of(part, schemas)[j],
                        schemas,
                    )
                    &&& part_fields(target, schemas)[j].is_required <==> required_by(
                        part,
                        schemas,
                    ).contains(properties_of(part, schemas)[j].0)
                }
        },
        resolved(part, schemas) is None ==> properties_of(part, schemas).len() == 0,
{
    if let Some(target) = resolved(part, schemas) {
        law_fields_of_a_part(target, schemas);
    }
}

/// A field whose name does not come again stays as it is.
proof fn lemma_kept(fields: Seq<FieldView>, more: Seq<FieldView>, i: int)
    requires
        0 <= i < fields.len(),
        forall|j: int| 0 <= j < more.len() ==> (#[trigger] more[j]).name != fields[i].name,
    ensures
        with_fields(fields, more).len() >= fields.len(),
        with_fields(fields, more)[i] == fields[i],
    decreases more.len(),
{
    if more.len() > 0 {
        let rest = more.drop_last();
        assert forall|j: int| 0 <= j < rest.len() implies (#[trigger] rest[j]).name
            != fields[i].name by {
            assert(rest[j] == more[j]);
        }
        lemma_kept(fields, rest, i);
        let before = with_fields(fields, rest);
        lemma_position_of(names_of(before), more.last().name);
        assert(names_of(before)[i] == before[i].name);
        assert(more[more.len() - 1].name != fields[i].name);
    }
}

/// The names of some fields and more: those of the fields in front, and nothing but the names
/// of both.
proof fn lemma_names(fields: Seq<FieldView>, more: Seq<FieldView>)
    ensures
        with_fields(fields, more).len() >= fields.len(),
        forall|i: int|
            0 <= i < fields.len() ==> (#[trigger] with_fields(fields, more)[i]).name
                == fields[i].name,
        forall|i: int|
            fields.len() <= i < with_fields(fields, more).len() ==> names_of(more).contains(
                (#[trigger] with_fields(fields, more)[i]).name,
            ) && !names_of(fields).contains(with_fields(fields, more)[i].name),
    decreases more.len(),
{
    if more.len() > 0 {
        let rest = more.drop_last();
        lemma_names(fields, rest);
        let before = with_fields(fields, rest);
        let after = with_fields(fields, more);
        lemma_position_of(names_of(before), more.last().name);
        if let Some(p) = position_of(names_of(before), more.last().name) {
            assert(names_of(before)[p] == before[p].name);
            assert(after[p].name == before[p].name);
        }
        assert forall|i: int| 0 <= i < fields.len() implies (#[trigger] after[i]).name
            == fields[i].name by {
            assert(before[i].name == fields[i].name);
        }
        assert forall|i: int| fields.len() <= i < after.len() implies names_of(more).contains(
            (#[trigger] after[i]).name,
        ) && !names_of(fields).contains(after[i].name) by {
            if i < before.len() {
                assert(after[i].name == before[i].name);
                assert(names_of(rest).contains(before[i].name));
                let k = choose|k: int|
                    0 <= k < rest.len() && names_of(rest)[k] == before[i].name;
                assert(names_of(more)[k] == before[i].name);
            } else {
                assert(names_of(more)[more.len() - 1] == after[i].name);
                if names_of(fields).contains(after[i].name) {
                    let k = choose|k: int|
                        0 <= k < fields.len() && names_of(fields)[k] == after[i].name;
                    assert(before[k].name == fields[k].name);
                    assert(names_of(before)[k] == after[i].name);
                }
            }
        }
    }
}

/// A field whose name is new and comes once is added as it is.
proof fn lemma_added(fields: Seq<FieldView>, more: Seq<FieldView>, j: int) -> (i: int)
    requires
        0 <= j < more.len(),
        forall|i: int| 0 <= i < fields.len() ==> (#[trigger] fields[i]).name != more[j].name,
        forall|b: int|
            0 <= b < more.len() && (#[trigger] more[b]).name == more[j].name ==> b == j,
    ensures
        fields.len() <= i < with_fields(fields, more).len(),
        with_fields(fields, more)[i] == more[j],
    decreases more.len(),
{
    let rest = more.drop_last();
    let before = with_fields(fields, rest);
    lemma_names(fields, rest);
    lemma_position_of(names_of(before), more.last().name);
    assert(more[more.len() - 1] == more.last());
    if j == more.len() - 1 {
        if let Some(p) = position_of(names_of(before), more.last().name) {
            assert(names_of(before)[p] == before[p].name);
            if p < fields.len() {
                assert(fields[p].name == before[p].name);
            } else {
                assert(names_of(rest).contains(before[p].name));
                let b = choose|b: int| 0 <= b < rest.len() && names_of(rest)[b] == before[p].name;
                assert(more[b].name == more[j].name);
            }
        }
        before.len() as int
    } else {
        assert forall|b: int|
            0 <= b < rest.len() && (#[trigger] rest[b]).name == rest[j].name implies b == j by {
            assert(more[b] == rest[b]);
        }
        let i = lemma_added(fields, rest, j);
        assert(names_of(before)[i] == before[i].name);
        assert(more.last().name != more[j].name);
        i
    }
}

proof fn lemma_field_of_one_part(
    parts: Seq<RefOrView<SchemaView>>,
    k: int,
    j: int,
    schemas: Seq<(Seq<char>, RefOrView<SchemaView>)>,
) -> (i: int)
    requires
        0 <= k < parts.len(),
        0 <= j < properties_of(parts[k], schemas).len(),
        is_only_property(parts, k, j, schemas),
    ensures
        0 <= i < merged_fields(parts, schemas).len(),
        is_field_of_property(
            merged_fields(parts, schemas)[i],
            properties_of(parts[k], schemas)[j],
            schemas,
        ),
    decreases parts.len(),
{
    let rest = parts.drop_last();
    let before = merged_fields(rest, schemas);
    let part = parts.last();
    let name = properties_of(parts[k], schemas)[j].0;
    assert(parts[parts.len() - 1] == part);
    lemma_fields_of_a_part(part, schemas);
    if k < parts.len() - 1 {
        assert forall|a: int, b: int|
            0 <= a < rest.len() && 0 <= b < properties_of(rest[a], schemas).len() && (
            #[trigger] properties_of(rest[a], schemas)[b]).0 == properties_of(
                rest[k],
                schemas,
            )[j].0 implies a == k && b == j by {
            assert(rest[a] == parts[a]);
            assert(properties_of(parts[a], schemas)[b].0 == name);
        }
        let i = lemma_field_of_one_part(rest, k, j, schemas);
        if let Some(target) = resolved(part, schemas) {
            let more = part_fields(target, schemas);
            assert forall|b: int| 0 <= b < more.len() implies (#[trigger] more[b]).name
                != before[i].name by {
                assert(properties_of(parts[parts.len() - 1], schemas)[b].0 == more[b].name);
            }
            lemma_kept(before, more, i);
        }
        i
    } else {
        let target = resolved(part, schemas)->0;
        let more = part_fields(target, schemas);
        lemma_names_of_parts(rest, schemas);
        assert forall|i: int| 0 <= i < before.len() implies (#[trigger] before[i]).name
            != more[j].name by {
            let (a, b) = choose|a: int, b: int|
                0 <= a < rest.len() && 0 <= b < properties_of(rest[a], schemas).len() && (
                #[trigger] properties_of(rest[a], schemas)[b]).0 == before[i].name;
            assert(is_name_of_some_property(rest, before[i].name, schemas));
            assert(properties_of(parts[a], schemas)[b].0 == before[i].name);
        }
        assert forall|b: int|
            0 <= b < more.len() && (#[trigger] more[b]).name == more[j].name implies b == j by {
            assert(properties_of(parts[k], schemas)[b].0 == name);
        }
        lemma_added(before, more, j)
    }
}

/// Whether a property of some part has the given name.
pub open spec fn is_name_of_some_property(
    parts: Seq<RefOrView<SchemaView>>,
    name: Seq<char>,
    schemas: Seq<(Seq<char>, RefOrView<SchemaView>)>,
) -> bool {
    exists|a: int, b: int|
        0 <= a < parts.len() && 0 <= b < properties_of(parts[a], schemas).len() && (
        #[trigger] properties_of(parts[a], schemas)[b]).0 == name
}

proof fn lemma_names_of_parts(
    parts: Seq<RefOrView<SchemaView>>,
    schemas: Seq<(Seq<char>, RefOrView<SchemaView>)>,
)
    ensures
        forall|i: int|
            0 <= i < merged_fields(parts, schemas).len() ==> is_name_of_some_property(
                parts,
                (#[trigger] merged_fields(parts, schemas)[i]).name,
                schemas,
            ),
    decreases parts.len(),
{
    if parts.len() > 0 {
        let rest = parts.drop_last();
        let before = merged_fields(rest, schemas);
        let after = merged_fields(parts, schemas);
        let part = parts.last();
        lemma_names_of_parts(rest, schemas);
        lemma_fields_of_a_part(part, schemas);
        let more = match resolved(part, schemas) {
            Some(target) => part_fields(target, schemas),
            None => Seq::empty(),
        };
        lemma_names(before, more);
        assert forall|i: int| 0 <= i < after.len() implies is_name_of_some_property(
            parts,
            (#[trigger] after[i]).name,
            schemas,
        ) by {
            if i < before.len() {
                assert(after[i].name == before[i].name);
                assert(is_name_of_some_property(rest, before[i].name, schemas));
                let (a, b) = choose|a: int, b: int|
                    0 <= a < rest.len() && 0 <= b < properties_of(rest[a], schemas).len() && (
                    #[trigger] properties_of(rest[a], schemas)[b]).0 == before[i].name;
                assert(properties_of(parts[a], schemas)[b].0 == after[i].name);
            } else {
                assert(names_of(more).contains(after[i].name));
                let b = choose|b: int| 0 <= b < more.len() && names_of(more)[b] == after[i].name;
                assert(properties_of(parts[parts.len() - 1], schemas)[b].0 == after[i].name);
            }
        }
    }
}

/// A field of a composition whose name is that of one property of one part only is what that
/// property says of it, in everything but whether it is required; and it is required exactly
/// where a part lists its name as required.
pub proof fn law_field_of_one_part(
    parts: Seq<RefOrView<SchemaView>>,
    i: int,
    k: int,
    j: int,
    schemas: Seq<(Seq<char>, RefOrView<SchemaView>)>,
)
    requires
        0 <= i < all_of_fields(parts, schemas).len(),
        0 <= k < parts.len(),
        0 <= j < properties_of(parts[k], schemas).len(),
        all_of_fields(parts, schemas)[i].name == properties_of(parts[k], schemas)[j].0,
        is_only_property(parts, k, j, schemas),
    ensures
        is_field_of_property(
            all_of_fields(parts, schemas)[i],
            properties_of(parts[k], schemas)[j],
            schemas,
        ),
        all_of_fields(parts, schemas)[i].is_required <==> is_required_by_some(
            parts,
            properties_of(parts[k], schemas)[j].0,
            schemas,
        ),
{
    let p = lemma_field_of_one_part(parts, k, j, schemas);
    law_fields_of_a_composition(parts, schemas);
    let names = names_of(all_of_fields(parts, schemas));
    assert(names[i] == names[p]);
    assert(i == p);
    law_required_where_a_part_says_so(parts, i, schemas);
}

/// A field of a composition is required exactly where a part lists its name as required.
pub proof fn law_required_where_a_part_says_so(
    parts: Seq<RefOrView<SchemaView>>,
    i: int,
    schemas: Seq<(Seq<char>, RefOrView<SchemaView>)>,
)
    requires
        0 <= i < all_of_fields(parts, schemas).len(),
    ensures
        all_of_fields(parts, schemas)[i].is_required <==> is_required_by_some(
            parts,
            all_of_fields(parts, schemas)[i].name,
            schemas,
        ),
{
    let name = all_of_fields(parts, schemas)[i].name;
    law_required_fields_of_a_composition(parts, schemas, i);
    if is_required_by_some(parts, name, schemas) {
        let k = choose|k: int|
            0 <= k < parts.len() && #[trigger] required_by(parts[k], schemas).contains(name);
        assert(part_requires(parts[k], name, schemas));
    }
    if any_part_requires(parts, name, schemas) {
        let k = choose|k: int| 0 <= k < parts.len() && part_requires(parts[k], name, schemas);
        assert(required_by(parts[k], schemas).contains(name));
    }
}

/// A composition has exactly one field for each name that a property of a part has.
pub proof fn law_names_of_a_composition(
    parts: Seq<RefOrView<SchemaView>>,
    name: Seq<char>,
    schemas: Seq<(Seq<char>, RefOrView<SchemaView>)>,
)
    ensures
        (exists|i: int|
            0 <= i < all_of_fields(parts, schemas).len() && (#[trigger] all_of_fields(
                parts,
                schemas,
            )[i]).name == name) <==> is_name_of_some_property(parts, name, schemas),
        forall|i: int, j: int|
            0 <= i < j < all_of_fields(parts, schemas).len() ==> (#[trigger] all_of_fields(
                parts,
                schemas,
            )[i]).name != (#[trigger] all_of_fields(parts, schemas)[j]).name,
{
    let fields = all_of_fields(parts, schemas);
    law_fields_of_a_composition(parts, schemas);
    assert forall|i: int, j: int| 0 <= i < j < fields.len() implies (#[trigger] fields[i]).name != (
    #[trigger] fields[j]).name by {
        assert(names_of(fields)[i] != names_of(fields)[j]);
    }
    lemma_names_of_parts(parts, schemas);
    if exists|i: int| 0 <= i < fields.len() && (#[trigger] fields[i]).name == name {
        let i = choose|i: int| 0 <= i < fields.len() && (#[trigger] fields[i]).name == name;
        assert(merged_fields(parts, schemas)[i].name == name);
    }
    if is_name_of_some_property(parts, name, schemas) {
        let (a, b) = choose|a: int, b: int|
            0 <= a < parts.len() && 0 <= b < properties_of(parts[a], schemas).len() && (
            #[trigger] properties_of(parts[a], schemas)[b]).0 == name;
        lemma_fields_of_a_part(parts[a], schemas);
        let target = resolved(parts[a], schemas)->0;
        assert(names_of(part_fields(target, schemas))[b] == name);
        assert(part_has_field(parts[a], name, schemas));
        assert(names_of(fields).contains(name));
        let i = choose|i: int| 0 <= i < fields.len() && names_of(fields)[i] == name;
        assert(fields[i].name == name);
    }
}

/// Whether a text is the type of any value, or of a map to any values.
pub open spec fn is_unknown_type(text: Seq<char>) -> bool {
    text == "serde_json::Value"@ || text == "std::collections::HashMap<String, serde_json::Value>"@
}

/// One more part leaves the fields that are there in their places. One whose name the part does
/// not have stays as it is. One whose name it has once gives way to what the part says of it if
/// its type is not known, takes the type over into its `Option` or `Vec` if it holds values of
/// unknown type, and stays as it is if its type is known. Only whether it is required may
/// change in any case.
pub proof fn law_one_more_part(
    parts: Seq<RefOrView<SchemaView>>,
    part: RefOrView<SchemaView>,
    i: int,
    j: int,
    schemas: Seq<(Seq<char>, RefOrView<SchemaView>)>,
)
    requires
        0 <= i < all_of_fields(parts, schemas).len(),
    ensures
        all_of_fields(parts, schemas).len() <= all_of_fields(parts.push(part), schemas).len(),
        ({
            let before = all_of_fields(parts, schemas)[i];
            let after = all_of_fields(parts.push(part), schemas)[i];
            let properties = properties_of(part, schemas);
            &&& after.name == before.name
            &&& (forall|b: int|
                0 <= b < properties.len() ==> (#[trigger] properties[b]).0 != before.name)
                ==> same_but_required(after, before)
            &&& 0 <= j < properties.len() && properties[j].0 == before.name && (forall|b: int|
                0 <= b < properties.len() && (#[trigger] properties[b]).0 == before.name ==> b
                    == j) ==> {
                let later = part_fields(
                    RefOrView::Item(schema_behind(part, schemas)->0),
                    schemas,
                )[j].field_type;
                let t = before.field_type;
                &&& is_unknown_type(t) ==> is_field_of_property(after, properties[j], schemas)
                &&& t == "Option<serde_json::Value>"@ || t
                    == "Option<std::collections::HashMap<String, serde_json::Value>>"@
                    ==> same_but_required(
                    after,
                    (FieldView { field_type: "Option<"@ + later + ">"@, ..before }),
                )
                &&& t == "Vec<serde_json::Value>"@ ==> same_but_required(
                    after,
                    (FieldView { field_type: "Vec<"@ + later + ">"@, ..before }),
                )
                &&& t == "Option<Vec<serde_json::Value>>"@ ==> same_but_required(
                    after,
                    (FieldView { field_type: "Option<Vec<"@ + later + ">>"@, ..before }),
                )
                &&& !is_unknown_type(t) && t != "Option<serde_json::Value>"@ && t
                    != "Option<std::collections::HashMap<String, serde_json::Value>>"@ && t
                    != "Vec<serde_json::Value>"@ && t != "Option<Vec<serde_json::Value>>"@
                    ==> same_but_required(after, before)
            }
        }),
{
    reveal_strlit("serde_json::Value");
    reveal_strlit("std::collections::HashMap<String, serde_json::Value>");
    reveal_strlit("Option<serde_json::Value>");
    reveal_strlit("Option<std::collections::HashMap<String, serde_json::Value>>");
    reveal_strlit("Vec<serde_json::Value>");
    reveal_strlit("Option<Vec<serde_json::Value>>");
    assert("serde_json::Value"@.len() == 17);
    assert("std::collections::HashMap<String, serde_json::Value>"@.len() == 52);
    assert("Option<serde_json::Value>"@.len() == 25);
    assert("Option<std::collections::HashMap<String, serde_json::Value>>"@.len() == 60);
    assert("Vec<serde_json::Value>"@.len() == 22);
    assert("Option<Vec<serde_json::Value>>"@.len() == 30);
    let first = merged_fields(parts, schemas);
    let properties = properties_of(part, schemas);
    lemma_fields_of_a_part(part, schemas);
    assert(parts.push(part).drop_last() =~= parts);
    let more = match resolved(part, schemas) {
        Some(target) => part_fields(target, schemas),
        None => Seq::empty(),
    };
    assert(merged_fields(parts.push(part), schemas) == with_fields(first, more));
    lemma_names(first, more);
    assert(with_fields(first, more)[i].name == first[i].name);
    if forall|b: int| 0 <= b < properties.len() ==> (#[trigger] properties[b]).0 != first[i].name {
        assert forall|b: int| 0 <= b < more.len() implies (#[trigger] more[b]).name
            != first[i].name by {
            assert(properties[b].0 == more[b].name);
        }
        lemma_kept(first, more, i);
    }
    if 0 <= j < properties.len() && properties[j].0 == first[i].name && (forall|b: int|
        0 <= b < properties.len() && (#[trigger] properties[b]).0 == first[i].name ==> b == j) {
        law_fields_of_a_composition(parts, schemas);
        assert forall|b: int| 0 <= b < more.len() && (#[trigger] more[b]).name
            == first[i].name implies b == j by {
            assert(properties[b].0 == more[b].name);
        }
        assert forall|p: int| 0 <= p < first.len() && (#[trigger] first[p]).name
            == first[i].name implies p == i by {
            let names = names_of(all_of_fields(parts, schemas));
            assert(names[p] == first[p].name && names[i] == first[i].name);
        }
        lemma_met(first, more, i, j);
        let target = resolved(part, schemas)->0;
        assert(target == RefOrView::Item(schema_behind(part, schemas)->0));
        assert(refined(first[i], more[j]).name == first[i].name);
    }
}

/// A field whose name comes once again is merged with that one.
proof fn lemma_met(fields: Seq<FieldView>, more: Seq<FieldView>, i: int, j: int)
    requires
        0 <= i < fields.len(),
        0 <= j < more.len(),
        more[j].name == fields[i].name,
        forall|p: int| 0 <= p < fields.len() && (#[trigger] fields[p]).name == fields[i].name ==> p
            == i,
        forall|b: int| 0 <= b < more.len() && (#[trigger] more[b]).name == fields[i].name ==> b
            == j,
    ensures
        with_fields(fields, more).len() >= fields.len(),
        with_fields(fields, more)[i] == refined(fields[i], more[j]),
    decreases more.len(),
{
    let rest = more.drop_last();
    let before = with_fields(fields, rest);
    lemma_names(fields, rest);
    lemma_position_of(names_of(before), more.last().name);
    assert(more[more.len() - 1] == more.last());
    assert(names_of(before)[i] == before[i].name);
    assert(before[i].name == fields[i].name);
    if j == more.len() - 1 {
        assert forall|b: int| 0 <= b < rest.len() implies (#[trigger] rest[b]).name
            != fields[i].name by {
            assert(rest[b] == more[b]);
        }
        lemma_kept(fields, rest, i);
        let p = position_of(names_of(before), more.last().name)->0;
        assert(names_of(before)[p] == before[p].name);
        if p < fields.len() {
            assert(fields[p].name == before[p].name);
        } else {
            assert(names_of(fields)[i] == fields[i].name);
            assert(!names_of(fields).contains(before[p].name));
        }
        assert(p == i);
    } else {
        assert forall|b: int| 0 <= b < rest.len() && (#[trigger] rest[b]).name
            == fields[i].name implies b == j by {
            assert(rest[b] == more[b]);
        }
        lemma_met(fields, rest, i, j);
        assert(more.last().name != fields[i].name);
    }
}

/// What one more part adds stands behind the fields that are there, in the order of its
/// properties.
pub proof fn law_order_of_added_fields(
    parts: Seq<RefOrView<SchemaView>>,
    part: RefOrView<SchemaView>,
    schemas: Seq<(Seq<char>, RefOrView<SchemaView>)>,
)
    requires
        forall|a: int, b: int|
            0 <= a < b < properties_of(part, schemas).len() ==> (#[trigger] properties_of(
                part,
                schemas,
            )[a]).0 != (#[trigger] properties_of(part, schemas)[b]).0,
    ensures
        ({
            let before = names_of(all_of_fields(parts, schemas));
            let own = properties_of(part, schemas).map_values(
                |p: (Seq<char>, RefOrView<SchemaView>)| p.0,
            );
            names_of(all_of_fields(parts.push(part), schemas)) == before + own.filter(
                |name: Seq<char>| !before.contains(name),
            )
        }),
{
    let first = merged_fields(parts, schemas);
    let before = names_of(all_of_fields(parts, schemas));
    let after = names_of(all_of_fields(parts.push(part), schemas));
    let properties = properties_of(part, schemas);
    let own = properties.map_values(|p: (Seq<char>, RefOrView<SchemaView>)| p.0);
    lemma_fields_of_a_part(part, schemas);
    assert(parts.push(part).drop_last() =~= parts);
    let more = match resolved(part, schemas) {
        Some(target) => part_fields(target, schemas),
        None => Seq::empty(),
    };
    assert(merged_fields(parts.push(part), schemas) == with_fields(first, more));
    assert(names_of(first) =~= before);
    assert(names_of(with_fields(first, more)) =~= after);
    assert forall|b: int| 0 <= b < more.len() implies #[trigger] names_of(more)[b] == own[b] by {
        assert(is_field_of_property(more[b], properties[b], schemas));
    }
    assert(names_of(more) =~= own);
    assert forall|a: int, b: int| 0 <= a < b < more.len() implies (#[trigger] more[a]).name != (
    #[trigger] more[b]).name by {
        assert(more[a].name == properties[a].0);
        assert(more[b].name == properties[b].0);
    }
    lemma_order(first, more);
}

proof fn lemma_order(fields: Seq<FieldView>, more: Seq<FieldView>)
    requires
        forall|a: int, b: int|
            0 <= a < b < more.len() ==> (#[trigger] more[a]).name != (#[trigger] more[b]).name,
    ensures
        names_of(with_fields(fields, more)) == names_of(fields) + names_of(more).filter(
            |name: Seq<char>| !names_of(fields).contains(name),
        ),
    decreases more.len(),
{
    reveal(Seq::filter);
    let is_new = |name: Seq<char>| !names_of(fields).contains(name);
    if more.len() == 0 {
        assert(names_of(more).filter(is_new) =~= Seq::empty());
        assert(names_of(with_fields(fields, more)) =~= names_of(fields) + names_of(more).filter(
            is_new,
        ));
    } else {
        let rest = more.drop_last();
        let last = more.last();
        let before = with_fields(fields, rest);
        lemma_order(fields, rest);
        lemma_names(fields, rest);
        lemma_position_of(names_of(before), last.name);
        assert(names_of(more).drop_last() =~= names_of(rest));
        assert(names_of(more).last() == last.name);
        assert(more[more.len() - 1] == last);
        match position_of(names_of(before), last.name) {
            Some(p) => {
                assert(names_of(before)[p] == before[p].name);
                if p >= fields.len() {
                    assert(names_of(rest).contains(before[p].name));
                    let b = choose|b: int|
                        0 <= b < rest.len() && names_of(rest)[b] == before[p].name;
                    assert(more[b].name == last.name);
                } else {
                    assert(names_of(fields)[p] == last.name);
                }
                assert(names_of(with_field(before, last)) =~= names_of(before));
            },
            None => {
                if names_of(fields).contains(last.name) {
                    let p = choose|p: int|
                        0 <= p < fields.len() && names_of(fields)[p] == last.name;
                    assert(before[p].name == fields[p].name);
                    assert(names_of(before)[p] == last.name);
                }
                assert(names_of(with_field(before, last)) =~= names_of(before).push(last.name));
                assert(names_of(with_fields(fields, more)) =~= names_of(fields) + names_of(
                    more,
                ).filter(is_new));
            },
        }
    }
}

/// The last model of a composition that has fields is its own, with the PascalCase of its name,
/// its fields and its attributes, behind the models that its parts give one after the other. A
/// composition without fields has no model of its own.
pub proof fn law_models_of_a_composition(
    name: Seq<char>,
    schema: SchemaView,
    schemas: Seq<(Seq<char>, RefOrView<SchemaView>)>,
)
    requires
        schema.schema_kind is AllOf,
        rust_type(schema) is None,
    ensures
        ({
            let parts = schema.schema_kind->all_of;
            let models = model_types(name, RefOrView::Item(schema), schemas);
            if all_of_fields(parts, schemas).len() == 0 {
                models == models_of_parts(parts, schemas)
            } else {
                &&& models.len() == models_of_parts(parts, schemas).len() + 1
                &&& models.drop_last() == models_of_parts(parts, schemas)
                &&& models.last() is Composition
                &&& models.last()->Composition_0.name == pascal_case(name)
                &&& models.last()->Composition_0.all_fields == all_of_fields(parts, schemas)
                &&& models.last()->Composition_0.custom_attrs == custom_attrs(schema)
            }
        }),
{
    let parts = schema.schema_kind->all_of;
    let models = model_types(name, RefOrView::Item(schema), schemas);
    if all_of_fields(parts, schemas).len() > 0 {
        assert(models.drop_last() =~= models_of_parts(parts, schemas));
    }
}

/// The models of two lists of parts, one behind the other, are those of the one and then those
/// of the other. A part gives the models of the schema behind it, if there is one.
pub proof fn law_models_of_parts(
    first: Seq<RefOrView<SchemaView>>,
    second: Seq<RefOrView<SchemaView>>,
    schemas: Seq<(Seq<char>, RefOrView<SchemaView>)>,
)
    ensures
        models_of_parts(first + second, schemas) == models_of_parts(first, schemas)
            + models_of_parts(second, schemas),
        first.len() == 0 ==> models_of_parts(first, schemas).len() == 0,
        first.len() == 1 ==> match schema_behind(first[0], schemas) {
            Some(s) => models_of_parts(first, schemas) == part_models(RefOrView::Item(s), schemas),
            None => models_of_parts(first, schemas).len() == 0,
        },
    decreases second.len(),
{
    if first.len() == 1 {
        let empty = Seq::<ModelTypeView>::empty();
        assert(models_of_parts(first.drop_last(), schemas) =~= empty);
        if let Some(target) = resolved(first[0], schemas) {
            assert(empty + part_models(target, schemas) =~= part_models(target, schemas));
        }
    }
    if second.len() == 0 {
        assert(first + second =~= first);
        assert(models_of_parts(second, schemas) =~= Seq::empty());
        assert(models_of_parts(first, schemas) + models_of_parts(second, schemas)
            =~= models_of_parts(first, schemas));
    } else {
        assert((first + second).drop_last() =~= first + second.drop_last());
        law_models_of_parts(first, second.drop_last(), schemas);
        assert(models_of_parts(first + second, schemas) =~= models_of_parts(first, schemas)
            + models_of_parts(second, schemas));
    }
}

} // verus!
