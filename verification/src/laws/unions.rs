//! What holds of unions, in terms of their alternatives.
use crate::laws::composition::is_field_of_property;
use crate::laws::fields::{
    is_object, law_fields_of_a_part, law_references_to_schemas, lists_strings, schema_behind,
};
use crate::models::{FieldView, UnionType, UnionVariantView};
use crate::openapi::lookup;
use crate::openapi::view::{RefOrView, SchemaShapeView, SchemaTypeView, SchemaView};
use crate::parser::fields::{listed_numbers, listed_texts};
use crate::parser::laws::{any_lists_value, law_values_of_a_union, lists_value};
use crate::parser::parts::part_models;
use crate::parser::schemas::model_types;
use crate::parser::types::{custom_attrs, rust_type};
use crate::parser::unions::{
    listed_values, models_of_alternative, models_of_alternatives, union_models, union_values,
    union_variants, variant_of, variants_of,
};
use crate::text::{decimal, pascal_case, precedes};
use vstd::prelude::*;

verus! {

/// Whether a schema is an integer with listed values.
pub open spec fn lists_integers(schema: SchemaView) -> bool {
    schema.schema_kind is Type && schema.schema_kind->Type_0 is Integer
        && schema.schema_kind->Type_0->Integer_0.enumeration.len() > 0
}

/// Whether some fields are those that a schema gives: one for each property of an object, in
/// order and required exactly where the object lists its name as required, and none for
/// anything else.
pub open spec fn are_fields_of(
    fields: Seq<FieldView>,
    schema: SchemaView,
    schemas: Seq<(Seq<char>, RefOrView<SchemaView>)>,
) -> bool {
    if is_object(schema) {
        let obj = schema.schema_kind->Type_0->Object_0;
        &&& fields.len() == obj.properties.len()
        &&& forall|i: int|
            0 <= i < fields.len() ==> {
                &&& is_field_of_property(#[trigger] fields[i], obj.properties[i], schemas)
                &&& fields[i].is_required <==> obj.required.contains(obj.properties[i].0)
            }
    } else {
        fields.len() == 0
    }
}

/// Whether a variant is the one for an alternative at the given place. An alternative by
/// reference is called after the declared schema, and one in place after what it holds or after
/// its place.
pub open spec fn is_variant_for(
    variant: UnionVariantView,
    alternative: RefOrView<SchemaView>,
    place: int,
    schemas: Seq<(Seq<char>, RefOrView<SchemaView>)>,
) -> bool {
    if alternative is Reference {
        &&& schema_behind(alternative, schemas) is Some
        &&& variant.name == pascal_case(
            alternative->reference.skip("#/components/schemas/"@.len() as int),
        )
        &&& variant.primitive_type is None
        &&& schema_behind(alternative, schemas)->0.schema_kind is OneOf ==> variant.fields.len()
            == 0
        &&& !(schema_behind(alternative, schemas)->0.schema_kind is OneOf) ==> are_fields_of(
            variant.fields,
            schema_behind(alternative, schemas)->0,
            schemas,
        )
    } else {
        match alternative->Item_0.schema_kind {
            SchemaShapeView::Type(SchemaTypeView::String(_)) => variant.name == "String"@
                && variant.primitive_type == Some("String"@) && variant.fields.len() == 0,
            SchemaShapeView::Type(SchemaTypeView::Integer(_)) => variant.name == "Integer"@
                && variant.primitive_type == Some("i64"@) && variant.fields.len() == 0,
            SchemaShapeView::Type(SchemaTypeView::Number) => variant.name == "Number"@
                && variant.primitive_type == Some("f64"@) && variant.fields.len() == 0,
            SchemaShapeView::Type(SchemaTypeView::Boolean) => variant.name == "Boolean"@
                && variant.primitive_type == Some("Boolean"@) && variant.fields.len() == 0,
            _ => {
                &&& variant.name == "Variant"@ + decimal(place)
                &&& variant.primitive_type is None
                &&& are_fields_of(variant.fields, alternative->Item_0, schemas)
            },
        }
    }
}

proof fn lemma_variant(
    alternative: RefOrView<SchemaView>,
    place: int,
    schemas: Seq<(Seq<char>, RefOrView<SchemaView>)>,
)
    ensures
        variant_of(alternative, place, schemas) is Some <==> schema_behind(
            alternative,
            schemas,
        ) is Some,
        variant_of(alternative, place, schemas) matches Some(variant) ==> is_variant_for(
            variant,
            alternative,
            place,
            schemas,
        ),
{
    if let Some(s) = schema_behind(alternative, schemas) {
        law_fields_of_a_part(RefOrView::Item(s), schemas);
    }
}

/// One more alternative adds one variant behind the others, where there is a schema behind it,
/// and leaves those as they are; one that leads nowhere adds none. A union of no alternatives
/// has no variant.
pub proof fn law_one_more_alternative(
    alternatives: Seq<RefOrView<SchemaView>>,
    alternative: RefOrView<SchemaView>,
    schemas: Seq<(Seq<char>, RefOrView<SchemaView>)>,
)
    ensures
        ({
            let before = variants_of(alternatives, schemas);
            let after = variants_of(alternatives.push(alternative), schemas);
            if schema_behind(alternative, schemas) is Some {
                &&& after.len() == before.len() + 1
                &&& after.drop_last() == before
                &&& is_variant_for(
                    after.last(),
                    alternative,
                    alternatives.len() as int,
                    schemas,
                )
            } else {
                after == before
            }
        }),
        variants_of(Seq::empty(), schemas).len() == 0,
{
    let all = alternatives.push(alternative);
    assert(all.drop_last() =~= alternatives);
    lemma_variant(alternative, alternatives.len() as int, schemas);
    if schema_behind(alternative, schemas) is Some {
        assert(variants_of(all, schemas).drop_last() =~= variants_of(alternatives, schemas));
    }
}

/// The models of two lists of alternatives, one behind the other, are those of the one and then
/// those of the other. An alternative gives the models of the schema behind it, but that a
/// `oneOf` by reference, and a string, a number or a boolean in place, give none.
pub proof fn law_models_of_alternatives(
    first: Seq<RefOrView<SchemaView>>,
    second: Seq<RefOrView<SchemaView>>,
    schemas: Seq<(Seq<char>, RefOrView<SchemaView>)>,
)
    ensures
        models_of_alternatives(first + second, schemas) == models_of_alternatives(first, schemas)
            + models_of_alternatives(second, schemas),
        first.len() == 0 ==> models_of_alternatives(first, schemas).len() == 0,
        first.len() == 1 ==> {
            let models = models_of_alternatives(first, schemas);
            match schema_behind(first[0], schemas) {
                Some(s) => {
                    let is_plain = s.schema_kind is Type && (s.schema_kind->Type_0 is String
                        || s.schema_kind->Type_0 is Integer || s.schema_kind->Type_0 is Number
                        || s.schema_kind->Type_0 is Boolean);
                    if first[0] is Item && is_plain {
                        models.len() == 0
                    } else if first[0] is Reference && s.schema_kind is OneOf {
                        models.len() == 0
                    } else {
                        models == part_models(RefOrView::Item(s), schemas)
                    }
                },
                None => models.len() == 0,
            }
        },
    decreases second.len(),
{
    if first.len() == 1 {
        assert(models_of_alternatives(first.drop_last(), schemas) =~= Seq::empty());
        assert(models_of_alternatives(first, schemas) =~= models_of_alternative(
            first[0],
            schemas,
        ));
    }
    if second.len() == 0 {
        assert(first + second =~= first);
        assert(models_of_alternatives(second, schemas) =~= Seq::empty());
        assert(models_of_alternatives(first, schemas) + models_of_alternatives(second, schemas)
            =~= models_of_alternatives(first, schemas));
    } else {
        assert((first + second).drop_last() =~= first + second.drop_last());
        law_models_of_alternatives(first, second.drop_last(), schemas);
        assert(models_of_alternatives(first + second, schemas) =~= models_of_alternatives(
            first,
            schemas,
        ) + models_of_alternatives(second, schemas));
    }
}

/// An alternative lists values where the schema in place, or the one that its reference names,
/// is a string or an integer with listed values. Where that is again a reference, the schema
/// that this names has to be a string, and lists the strings that it has; one that leads nowhere
/// lists no value. Anything else is no list of values.
pub proof fn law_values_of_an_alternative(
    alternative: RefOrView<SchemaView>,
    name: Seq<char>,
    schemas: Seq<(Seq<char>, RefOrView<SchemaView>)>,
)
    ensures
        schema_behind(alternative, schemas) matches Some(s) ==> {
            let listed = listed_values(alternative, schemas);
            if lists_strings(s) {
                listed == Some(listed_texts(s.schema_kind->Type_0->String_0.enumeration))
            } else if lists_integers(s) {
                listed == Some(listed_numbers(s.schema_kind->Type_0->Integer_0.enumeration))
            } else {
                listed is None
            }
        },
        alternative is Reference && alternative->reference == "#/components/schemas/"@ + name
            ==> match lookup(schemas, name) {
            Some(RefOrView::Reference { .. }) => {
                let listed = listed_values(alternative, schemas);
                match schema_behind(lookup(schemas, name)->0, schemas) {
                    Some(s) => if s.schema_kind is Type && s.schema_kind->Type_0 is String {
                        listed == Some(listed_texts(s.schema_kind->Type_0->String_0.enumeration))
                    } else {
                        listed is None
                    },
                    None => listed is Some && listed->0.len() == 0,
                }
            },
            Some(_) => true,
            None => listed_values(alternative, schemas) is None,
        },
        alternative is Reference && !"#/components/schemas/"@.is_prefix_of(alternative->reference)
            ==> listed_values(alternative, schemas) is None,
{
    law_references_to_schemas(name, name, schemas);
    if alternative is Item {
        let s = alternative->Item_0;
        assert(schema_behind(alternative, schemas) == Some(s));
    }
}

/// The values of a union stand in the order of texts, no value twice, and a value is among them
/// exactly where an alternative lists it.
pub proof fn law_values_in_order(
    alternatives: Seq<RefOrView<SchemaView>>,
    value: Seq<char>,
    schemas: Seq<(Seq<char>, RefOrView<SchemaView>)>,
)
    ensures
        forall|i: int, j: int|
            0 <= i < j < union_values(alternatives, schemas).len() ==> precedes(
                #[trigger] union_values(alternatives, schemas)[i],
                #[trigger] union_values(alternatives, schemas)[j],
            ),
        union_values(alternatives, schemas).contains(value) <==> exists|i: int|
            0 <= i < alternatives.len() && listed_values(
                #[trigger] alternatives[i],
                schemas,
            ) is Some && listed_values(alternatives[i], schemas)->0.contains(value),
{
    law_values_of_a_union(alternatives, schemas);
    assert(union_values(alternatives, schemas).contains(value) <==> any_lists_value(
        alternatives,
        value,
        schemas,
    ));
    if any_lists_value(alternatives, value, schemas) {
        let i = choose|i: int|
            0 <= i < alternatives.len() && lists_value(#[trigger] alternatives[i], value, schemas);
        assert(listed_values(alternatives[i], schemas) is Some);
    }
    if exists|i: int|
        0 <= i < alternatives.len() && listed_values(
            #[trigger] alternatives[i],
            schemas,
        ) is Some && listed_values(alternatives[i], schemas)->0.contains(value) {
        let i = choose|i: int|
            0 <= i < alternatives.len() && listed_values(
                #[trigger] alternatives[i],
                schemas,
            ) is Some && listed_values(alternatives[i], schemas)->0.contains(value);
        assert(lists_value(alternatives[i], value, schemas));
    }
}

/// A union is a list of values exactly where each alternative lists values and some value is
/// listed. It then has no variants and one enumeration: the values in PascalCase, in ascending
/// order. Any other has the variants and the models of its alternatives.
pub proof fn law_unions_of_values(
    name: Seq<char>,
    alternatives: Seq<RefOrView<SchemaView>>,
    value: Seq<char>,
    schemas: Seq<(Seq<char>, RefOrView<SchemaView>)>,
)
    ensures
        (forall|i: int|
            0 <= i < alternatives.len() ==> listed_values(
                #[trigger] alternatives[i],
                schemas,
            ) is Some) && any_lists_value(alternatives, value, schemas) ==> {
            let models = union_models(name, alternatives, schemas);
            let values = union_values(alternatives, schemas);
            &&& union_variants(alternatives, schemas).len() == 0
            &&& models.len() == 1
            &&& models[0] is Enum
            &&& models[0]->Enum_0.name == pascal_case(name)
            &&& models[0]->Enum_0.description is None
            &&& models[0]->Enum_0.custom_attrs is None
            &&& models[0]->Enum_0.variants.len() == values.len()
            &&& forall|i: int|
                0 <= i < values.len() ==> #[trigger] models[0]->Enum_0.variants[i] == pascal_case(
                    values[i],
                )
        },
        (exists|i: int|
            0 <= i < alternatives.len() && listed_values(
                #[trigger] alternatives[i],
                schemas,
            ) is None) || (forall|v: Seq<char>| !any_lists_value(alternatives, v, schemas)) ==> {
            &&& union_variants(alternatives, schemas) == variants_of(alternatives, schemas)
            &&& union_models(name, alternatives, schemas) == models_of_alternatives(
                alternatives,
                schemas,
            )
        },
{
    let values = union_values(alternatives, schemas);
    law_values_of_a_union(alternatives, schemas);
    if any_lists_value(alternatives, value, schemas) {
        assert(values.contains(value));
    }
    if (forall|v: Seq<char>| !any_lists_value(alternatives, v, schemas)) && values.len() > 0 {
        assert(values.contains(values[0]));
        assert(any_lists_value(alternatives, values[0], schemas));
    }
}

/// The last model of a `oneOf` or an `anyOf` is its own, which says which of the two it is, with
/// the PascalCase of its name, its variants and its attributes; the models that its alternatives
/// need stand before it.
pub proof fn law_models_of_a_union(
    name: Seq<char>,
    schema: SchemaView,
    schemas: Seq<(Seq<char>, RefOrView<SchemaView>)>,
)
    requires
        schema.schema_kind is OneOf || schema.schema_kind is AnyOf,
        rust_type(schema) is None,
    ensures
        ({
            let alternatives = if schema.schema_kind is OneOf {
                schema.schema_kind->one_of
            } else {
                schema.schema_kind->any_of
            };
            let models = model_types(name, RefOrView::Item(schema), schemas);
            &&& models.len() > 0
            &&& models.drop_last() == union_models(name, alternatives, schemas)
            &&& models.last() is Union
            &&& models.last()->Union_0.name == pascal_case(name)
            &&& models.last()->Union_0.variants == union_variants(alternatives, schemas)
            &&& models.last()->Union_0.union_type == if schema.schema_kind is OneOf {
                UnionType::OneOf
            } else {
                UnionType::AnyOf
            }
            &&& models.last()->Union_0.custom_attrs == custom_attrs(schema)
        }),
{
    let alternatives = if schema.schema_kind is OneOf {
        schema.schema_kind->one_of
    } else {
        schema.schema_kind->any_of
    };
    let models = model_types(name, RefOrView::Item(schema), schemas);
    assert(models.drop_last() =~= union_models(name, alternatives, schemas));
}

} // verus!
