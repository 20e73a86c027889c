//! What holds of the fields of objects, in terms of their properties.
use crate::models::{FieldView, ModelTypeView};
use crate::openapi::lookup;
use crate::openapi::view::{
    ExtraPropertiesView, ObjectTypeView, RefOrView, SchemaShapeView, SchemaTypeView, SchemaView,
};
use crate::parser::fields::{
    field_model, first_struct, listed_numbers, listed_texts, models_of_properties,
    models_of_property, object_fields, object_models, referenced_schema,
};
use crate::parser::parts::{part_fields, part_models, part_models_of_properties};
use crate::parser::schemas::model_types;
use crate::parser::types::{custom_attrs, rust_type, type_and_format};
use crate::text::{decimal, pascal_case};
use vstd::prelude::*;

verus! {

/// The schema that is written in place, or that is declared under the name that a reference
/// gives behind `#/components/schemas/`.
pub open spec fn schema_behind(
    schema: RefOrView<SchemaView>,
    schemas: Seq<(Seq<char>, RefOrView<SchemaView>)>,
) -> Option<SchemaView> {
    match schema {
        RefOrView::Item(s) => Some(s),
        RefOrView::Reference { reference } => if "#/components/schemas/"@.is_prefix_of(reference) {
            match lookup(schemas, reference.skip("#/components/schemas/"@.len() as int)) {
                Some(RefOrView::Item(s)) => Some(s),
                _ => None,
            }
        } else {
            None
        },
    }
}

/// A reference to `#/components/schemas/` stands for what is declared under the rest of it, and
/// any other stands for nothing.
pub proof fn law_references_to_schemas(
    name: Seq<char>,
    reference: Seq<char>,
    schemas: Seq<(Seq<char>, RefOrView<SchemaView>)>,
)
    ensures
        referenced_schema("#/components/schemas/"@ + name, schemas) == lookup(schemas, name),
        !"#/components/schemas/"@.is_prefix_of(reference) ==> referenced_schema(
            reference,
            schemas,
        ) is None,
{
    let prefix = "#/components/schemas/"@;
    assert((prefix + name).take(prefix.len() as int) =~= prefix);
    assert((prefix + name).skip(prefix.len() as int) =~= name);
}

/// Whether a schema is an array.
pub open spec fn is_array(schema: SchemaView) -> bool {
    schema.schema_kind is Type && schema.schema_kind->Type_0 is Array
}

/// Whether a schema is an object.
pub open spec fn is_object(schema: SchemaView) -> bool {
    schema.schema_kind is Type && schema.schema_kind->Type_0 is Object
}

/// Whether a schema is an array whose items are a `oneOf` written in place.
pub open spec fn is_array_of_one_of(schema: SchemaView) -> bool {
    &&& is_array(schema)
    &&& schema.schema_kind->Type_0->Array_0.items matches Some(items) && *items is Item
        && items->Item_0.schema_kind is OneOf
}

/// Whether a schema is a string with listed values.
pub open spec fn lists_strings(schema: SchemaView) -> bool {
    schema.schema_kind is Type && schema.schema_kind->Type_0 is String
        && schema.schema_kind->Type_0->String_0.enumeration.len() > 0
}

/// Whether the given text is the Rust type of a field with the given name and schema.
pub open spec fn is_type_of_field(
    text: Seq<char>,
    name: Seq<char>,
    schema: RefOrView<SchemaView>,
    schemas: Seq<(Seq<char>, RefOrView<SchemaView>)>,
) -> bool {
    if schema is Reference {
        text == type_and_format(schema, schemas).0
    } else if is_object(schema->Item_0) {
        let obj = schema->Item_0.schema_kind->Type_0->Object_0;
        if obj.properties.len() > 0 {
            text == pascal_case(name)
        } else if obj.additional_properties is Some && obj.additional_properties->0 is Schema {
            text == "std::collections::HashMap<String, "@ + type_and_format(
                *obj.additional_properties->0->Schema_0,
                schemas,
            ).0 + ">"@
        } else if obj.additional_properties == Some(ExtraPropertiesView::Any(true)) {
            text == "std::collections::HashMap<String, "@ + "serde_json::Value"@ + ">"@
        } else {
            text == "serde_json::Value"@
        }
    } else if lists_strings(schema->Item_0) {
        text == pascal_case(name)
    } else if rust_type(schema->Item_0) is Some {
        Some(text) == rust_type(schema->Item_0)
    } else {
        text == type_and_format(schema, schemas).0
    }
}

/// Whether a field has the type, the format, the description and the attributes that a schema
/// gives it, and holds an array where the schema is one: in place, or by reference to an array
/// whose items are no `oneOf` written in place.
pub open spec fn is_described_by(
    field: FieldView,
    schema: RefOrView<SchemaView>,
    schemas: Seq<(Seq<char>, RefOrView<SchemaView>)>,
) -> bool {
    &&& is_type_of_field(field.field_type, field.name, schema, schemas)
    &&& field.format == type_and_format(schema, schemas).1
    &&& field.is_array_ref <==> schema_behind(schema, schemas) is Some && is_array(
        schema_behind(schema, schemas)->0,
    ) && (schema is Item || !is_array_of_one_of(schema_behind(schema, schemas)->0))
    &&& schema is Item ==> field.description == schema->Item_0.schema_data.description
    &&& schema is Reference ==> field.description is None
    &&& schema_behind(schema, schemas) matches Some(s) ==> field.custom_attrs == custom_attrs(s)
    &&& schema_behind(schema, schemas) is None ==> field.custom_attrs is None
    &&& !field.flatten
}

/// Whether a schema says, itself or as the one that it refers to, that null is a value of it.
pub open spec fn allows_null(
    schema: RefOrView<SchemaView>,
    schemas: Seq<(Seq<char>, RefOrView<SchemaView>)>,
) -> bool {
    schema_behind(schema, schemas) matches Some(s) && s.schema_data.nullable
}

/// An object has one field for each property, in their order: with the name of the property,
/// as its schema describes it, null where the schema allows that, and required exactly where
/// the object lists the name as required.
pub proof fn law_fields_of_an_object(
    obj: ObjectTypeView,
    schemas: Seq<(Seq<char>, RefOrView<SchemaView>)>,
)
    ensures
        object_fields(obj, schemas).len() == obj.properties.len(),
        forall|i: int|
            0 <= i < obj.properties.len() ==> {
                let field = #[trigger] object_fields(obj, schemas)[i];
                &&& field.name == obj.properties[i].0
                &&& field.is_required <==> obj.required.contains(obj.properties[i].0)
                &&& field.is_nullable <==> allows_null(obj.properties[i].1, schemas)
                &&& is_described_by(field, obj.properties[i].1, schemas)
            },
{
}

/// Where an object is a part of a composition or an alternative of a union, it gives the fields
/// that it has by itself, but that one called `value` or `default_value` may always be null.
/// Anything else gives no field.
pub proof fn law_fields_of_a_part(
    schema: RefOrView<SchemaView>,
    schemas: Seq<(Seq<char>, RefOrView<SchemaView>)>,
)
    ensures
        schema is Reference ==> part_fields(schema, schemas).len() == 0,
        schema is Item && !is_object(schema->Item_0) ==> part_fields(schema, schemas).len() == 0,
        schema is Item && is_object(schema->Item_0) ==> {
            let obj = schema->Item_0.schema_kind->Type_0->Object_0;
            &&& part_fields(schema, schemas).len() == obj.properties.len()
            &&& forall|i: int|
                0 <= i < obj.properties.len() ==> {
                    let field = #[trigger] part_fields(schema, schemas)[i];
                    &&& field.name == obj.properties[i].0
                    &&& field.is_required <==> obj.required.contains(obj.properties[i].0)
                    &&& field.is_nullable <==> allows_null(obj.properties[i].1, schemas)
                        || obj.properties[i].0 == "value"@ || obj.properties[i].0
                        == "default_value"@
                    &&& is_described_by(field, obj.properties[i].1, schemas)
                }
        },
{
}

/// The strings of two lists, one behind the other, are those of the one and then those of the
/// other. A string is taken as it is, and a null is left out.
pub proof fn law_listed_strings(first: Seq<Option<Seq<char>>>, second: Seq<Option<Seq<char>>>)
    ensures
        listed_texts(first + second) == listed_texts(first) + listed_texts(second),
        first.len() == 0 ==> listed_texts(first).len() == 0,
        first.len() == 1 && first[0] is Some ==> listed_texts(first) == seq![first[0]->0],
        first.len() == 1 && first[0] is None ==> listed_texts(first).len() == 0,
    decreases second.len(),
{
    if first.len() == 1 {
        assert(listed_texts(first.drop_last()) =~= Seq::empty());
        if first[0] is Some {
            assert(listed_texts(first) =~= seq![first[0]->0]);
        }
    }
    if second.len() == 0 {
        assert(first + second =~= first);
        assert(listed_texts(first) + listed_texts(second) =~= listed_texts(first));
    } else {
        assert((first + second).drop_last() =~= first + second.drop_last());
        law_listed_strings(first, second.drop_last());
        assert(listed_texts(first + second) =~= listed_texts(first) + listed_texts(second));
    }
}

/// The integers of two lists, one behind the other, are named as those of the one and then as
/// those of the other. An integer is named by its decimal form behind `Value`, and a null is
/// left out.
pub proof fn law_listed_integers(first: Seq<Option<i64>>, second: Seq<Option<i64>>)
    ensures
        listed_numbers(first + second) == listed_numbers(first) + listed_numbers(second),
        first.len() == 0 ==> listed_numbers(first).len() == 0,
        first.len() == 1 && first[0] is Some ==> listed_numbers(first) == seq![
            "Value"@ + decimal(first[0]->0 as int),
        ],
        first.len() == 1 && first[0] is None ==> listed_numbers(first).len() == 0,
    decreases second.len(),
{
    if first.len() == 1 {
        assert(listed_numbers(first.drop_last()) =~= Seq::empty());
        if first[0] is Some {
            assert(listed_numbers(first) =~= seq!["Value"@ + decimal(first[0]->0 as int)]);
        }
    }
    if second.len() == 0 {
        assert(first + second =~= first);
        assert(listed_numbers(first) + listed_numbers(second) =~= listed_numbers(first));
    } else {
        assert((first + second).drop_last() =~= first + second.drop_last());
        law_listed_integers(first, second.drop_last());
        assert(listed_numbers(first + second) =~= listed_numbers(first) + listed_numbers(second));
    }
}

/// Whether a model is another name for a type, with the description and the attributes of a
/// schema.
pub open spec fn is_alias(
    model: ModelTypeView,
    name: Seq<char>,
    target_type: Seq<char>,
    schema: SchemaView,
) -> bool {
    model matches ModelTypeView::TypeAlias(alias) && alias.name == name && alias.target_type
        == target_type && alias.description == schema.schema_data.description
        && alias.custom_attrs == custom_attrs(schema)
}

/// Whether a model is an enumeration, with the description and the attributes of a schema.
pub open spec fn is_enumeration(
    model: ModelTypeView,
    name: Seq<char>,
    variants: Seq<Seq<char>>,
    schema: SchemaView,
) -> bool {
    model matches ModelTypeView::Enum(e) && e.name == name && e.variants == variants
        && e.description == schema.schema_data.description && e.custom_attrs == custom_attrs(schema)
}

/// The last model of an object is its own, under the PascalCase of its name and with its
/// description and attributes. It is another name for the type that the object names outright,
/// or for a map where the object only says what else it holds; and else a structure that has
/// the fields of the object, behind the models of its properties.
pub proof fn law_models_of_an_object(
    name: Seq<char>,
    schema: SchemaView,
    schemas: Seq<(Seq<char>, RefOrView<SchemaView>)>,
)
    requires
        is_object(schema),
    ensures
        ({
            let obj = schema.schema_kind->Type_0->Object_0;
            let models = object_models(name, schema, schemas);
            &&& models.len() > 0
            &&& model_types(name, RefOrView::Item(schema), schemas) == models
            &&& rust_type(schema) matches Some(t) ==> {
                &&& models.len() == 1
                &&& is_alias(models[0], pascal_case(name), t, schema)
            }
            &&& rust_type(schema) is None && obj.properties.len() == 0
                && obj.additional_properties is Some ==> {
                let value_type = if obj.additional_properties->0 is Schema {
                    type_and_format(*obj.additional_properties->0->Schema_0, schemas).0
                } else {
                    "serde_json::Value"@
                };
                &&& models.len() == 1
                &&& is_alias(
                    models[0],
                    pascal_case(name),
                    "std::collections::HashMap<String, "@ + value_type + ">"@,
                    schema,
                )
            }
            &&& rust_type(schema) is None && (obj.properties.len() > 0
                || obj.additional_properties is None) ==> {
                &&& models.drop_last() == models_of_properties(obj.properties, schemas)
                &&& models.last() is Struct
                &&& models.last()->Struct_0.name == pascal_case(name)
                &&& models.last()->Struct_0.fields == object_fields(obj, schemas)
                &&& models.last()->Struct_0.description == schema.schema_data.description
                &&& models.last()->Struct_0.custom_attrs == custom_attrs(schema)
            }
        }),
{
    let obj = schema.schema_kind->Type_0->Object_0;
    let models = object_models(name, schema, schemas);
    if rust_type(schema) is None && (obj.properties.len() > 0 || obj.additional_properties is None)
    {
        assert(models.drop_last() =~= models_of_properties(obj.properties, schemas));
    }
}

/// Whether a model is the first structure in a list.
pub open spec fn is_first_struct(model: ModelTypeView, models: Seq<ModelTypeView>) -> bool {
    exists|i: int|
        {
            &&& 0 <= i < models.len()
            &&& model == #[trigger] models[i]
            &&& model is Struct
            &&& forall|k: int| 0 <= k < i ==> !(#[trigger] models[k] is Struct)
        }
}

proof fn lemma_first_struct(models: Seq<ModelTypeView>)
    ensures
        first_struct(models) matches Some(model) ==> is_first_struct(
            model,
            models,
        ),
        first_struct(models) is None ==> forall|i: int|
            0 <= i < models.len() ==> !(#[trigger] models[i] is Struct),
    decreases models.len(),
{
    if models.len() > 0 && !(models[0] is Struct) {
        let rest = models.drop_first();
        lemma_first_struct(rest);
        assert forall|i: int| 0 <= i < rest.len() implies #[trigger] rest[i] == models[i + 1] by {}
        match first_struct(models) {
            Some(model) => {
                let i = choose|i: int|
                    {
                        &&& 0 <= i < rest.len()
                        &&& model == #[trigger] rest[i]
                        &&& model is Struct
                        &&& forall|k: int| 0 <= k < i ==> !(#[trigger] rest[k] is Struct)
                    };
                assert(models[i + 1] == model);
                assert forall|k: int| 0 <= k < i + 1 implies !(#[trigger] models[k] is Struct) by {
                    if k > 0 {
                        assert(!(rest[k - 1] is Struct));
                    }
                }
            },
            None => {
                assert forall|i: int| 0 <= i < models.len() implies !(
                #[trigger] models[i] is Struct) by {
                    if i > 0 {
                        assert(!(rest[i - 1] is Struct));
                    }
                }
            },
        }
    }
}

/// A field needs a model of its own where its schema is written in place and lists strings, or
/// is an object with properties: the enumeration of the strings, or the first structure among
/// the models of the object. It is called by the PascalCase of the field's name.
pub proof fn law_model_of_a_field(
    name: Seq<char>,
    schema: RefOrView<SchemaView>,
    schemas: Seq<(Seq<char>, RefOrView<SchemaView>)>,
)
    ensures
        schema is Reference ==> field_model(name, schema, schemas) is None,
        schema is Item && !lists_strings(schema->Item_0) && !is_object(schema->Item_0)
            ==> field_model(name, schema, schemas) is None,
        schema is Item && lists_strings(schema->Item_0) ==> {
            &&& field_model(name, schema, schemas) is Some
            &&& is_enumeration(
                field_model(name, schema, schemas)->0,
                pascal_case(name),
                listed_texts(schema->Item_0.schema_kind->Type_0->String_0.enumeration),
                schema->Item_0,
            )
        },
        schema is Item && is_object(schema->Item_0) ==> {
            let models = model_types(pascal_case(name), schema, schemas);
            if schema->Item_0.schema_kind->Type_0->Object_0.properties.len() > 0 && rust_type(
                schema->Item_0,
            ) is None {
                field_model(name, schema, schemas) is Some && is_first_struct(
                    field_model(name, schema, schemas)->0,
                    models,
                )
            } else {
                field_model(name, schema, schemas) is None
            }
        },
{
    if schema is Item && is_object(schema->Item_0) {
        let models = object_models(pascal_case(name), schema->Item_0, schemas);
        law_models_of_an_object(pascal_case(name), schema->Item_0, schemas);
        lemma_first_struct(models);
    }
}

/// The models of two lists of properties, one behind the other, are those of the one and then
/// those of the other. A property gives the models of an object that is written in place, and
/// then that of its field.
pub proof fn law_models_of_properties(
    first: Seq<(Seq<char>, RefOrView<SchemaView>)>,
    second: Seq<(Seq<char>, RefOrView<SchemaView>)>,
    schemas: Seq<(Seq<char>, RefOrView<SchemaView>)>,
)
    ensures
        models_of_properties(first + second, schemas) == models_of_properties(first, schemas)
            + models_of_properties(second, schemas),
        first.len() == 0 ==> models_of_properties(first, schemas).len() == 0,
        first.len() == 1 ==> {
            let (name, schema) = first[0];
            let nested = if schema is Item && is_object(schema->Item_0) {
                model_types(pascal_case(name), schema, schemas)
            } else {
                Seq::empty()
            };
            &&& field_model(name, schema, schemas) matches Some(own) ==> models_of_properties(
                first,
                schemas,
            ) == nested.push(own)
            &&& field_model(name, schema, schemas) is None ==> models_of_properties(first, schemas)
                == nested
        },
    decreases second.len(),
{
    if first.len() == 1 {
        assert(models_of_properties(first.drop_last(), schemas) =~= Seq::empty());
        let (name, schema) = first[0];
        if schema is Item && is_object(schema->Item_0) {
            law_models_of_an_object(pascal_case(name), schema->Item_0, schemas);
        }
        assert(models_of_properties(first, schemas) =~= models_of_property(first[0], schemas));
    }
    if second.len() == 0 {
        assert(first + second =~= first);
        assert(models_of_properties(second, schemas) =~= Seq::empty());
        assert(models_of_properties(first, schemas) + models_of_properties(second, schemas)
            =~= models_of_properties(first, schemas));
    } else {
        assert((first + second).drop_last() =~= first + second.drop_last());
        law_models_of_properties(first, second.drop_last(), schemas);
        assert(models_of_properties(first + second, schemas) =~= models_of_properties(
            first,
            schemas,
        ) + models_of_properties(second, schemas));
    }
}

/// The models of the fields of two lists of properties, one behind the other, are those of the
/// one and then those of the other, without structures that have no field.
pub proof fn law_models_of_fields_of_a_part(
    first: Seq<(Seq<char>, RefOrView<SchemaView>)>,
    second: Seq<(Seq<char>, RefOrView<SchemaView>)>,
    schemas: Seq<(Seq<char>, RefOrView<SchemaView>)>,
)
    ensures
        part_models_of_properties(first + second, schemas) == part_models_of_properties(
            first,
            schemas,
        ) + part_models_of_properties(second, schemas),
        first.len() == 0 ==> part_models_of_properties(first, schemas).len() == 0,
        first.len() == 1 ==> match field_model(first[0].0, first[0].1, schemas) {
            Some(own) => if own is Struct && own->Struct_0.fields.len() == 0 {
                part_models_of_properties(first, schemas).len() == 0
            } else {
                part_models_of_properties(first, schemas) == seq![own]
            },
            None => part_models_of_properties(first, schemas).len() == 0,
        },
    decreases second.len(),
{
    if first.len() == 1 {
        assert(part_models_of_properties(first.drop_last(), schemas) =~= Seq::empty());
        if let Some(own) = field_model(first[0].0, first[0].1, schemas) {
            if !(own is Struct && own->Struct_0.fields.len() == 0) {
                assert(part_models_of_properties(first, schemas) =~= seq![own]);
            }
        }
    }
    if second.len() == 0 {
        assert(first + second =~= first);
        assert(part_models_of_properties(second, schemas) =~= Seq::empty());
        assert(part_models_of_properties(first, schemas) + part_models_of_properties(
            second,
            schemas,
        ) =~= part_models_of_properties(first, schemas));
    } else {
        assert((first + second).drop_last() =~= first + second.drop_last());
        law_models_of_fields_of_a_part(first, second.drop_last(), schemas);
        assert(part_models_of_properties(first + second, schemas) =~= part_models_of_properties(
            first,
            schemas,
        ) + part_models_of_properties(second, schemas));
    }
}

/// A part gives the models of the fields of an object, and one enumeration for listed values:
/// of strings in PascalCase, or of named integers. That is called by the title of the schema,
/// or `AnonymousStringEnum` and `AnonymousIntEnum` where it has none. Anything else gives none.
pub proof fn law_models_of_a_part(
    schema: RefOrView<SchemaView>,
    schemas: Seq<(Seq<char>, RefOrView<SchemaView>)>,
)
    ensures
        schema is Reference ==> part_models(schema, schemas).len() == 0,
        schema matches RefOrView::Item(s) ==> {
            let models = part_models(schema, schemas);
            match s.schema_kind {
                SchemaShapeView::Type(SchemaTypeView::Object(obj)) => models
                    == part_models_of_properties(obj.properties, schemas),
                SchemaShapeView::Type(SchemaTypeView::String(t)) => if t.enumeration.len() == 0 {
                    models.len() == 0
                } else {
                    let listed = listed_texts(t.enumeration);
                    &&& models.len() == 1
                    &&& models[0] is Enum
                    &&& models[0]->Enum_0.variants.len() == listed.len()
                    &&& forall|i: int|
                        0 <= i < listed.len() ==> #[trigger] models[0]->Enum_0.variants[i]
                            == pascal_case(listed[i])
                    &&& is_enumeration(
                        models[0],
                        if s.schema_data.title is Some {
                            s.schema_data.title->0
                        } else {
                            "AnonymousStringEnum"@
                        },
                        models[0]->Enum_0.variants,
                        s,
                    )
                },
                SchemaShapeView::Type(SchemaTypeView::Integer(t)) => if t.enumeration.len() == 0 {
                    models.len() == 0
                } else {
                    &&& models.len() == 1
                    &&& is_enumeration(
                        models[0],
                        if s.schema_data.title is Some {
                            s.schema_data.title->0
                        } else {
                            "AnonymousIntEnum"@
                        },
                        listed_numbers(t.enumeration),
                        s,
                    )
                },
                _ => models.len() == 0,
            }
        },
{
}

} // verus!
