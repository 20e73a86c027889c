//! What a schema contributes where it is a part of a larger one.
use crate::models::{Field, FieldView, ModelType, ModelTypeView};
use crate::openapi::view::{
    lemma_schema_view, ObjectTypeView, RefOrView, SchemaShapeView, SchemaTypeView, SchemaView,
};
use crate::openapi::{RefOr, SchemaDef, SchemaShape, SchemaType};
use crate::parser::fields::{
    collect_numbers, collect_texts, contains_text, enum_of, extract_field_info, field_model,
    field_of, listed_numbers, listed_texts, make_enum,
};
use crate::text::{pascal_case, same_text, to_pascal_case};
use vstd::prelude::*;

verus! {

broadcast use lemma_schema_view;

/// The field that a property becomes in a larger schema: as in its own, but one that is called
/// `value` or `default_value` may always be null.
pub open spec fn part_field_of(
    property: (Seq<char>, RefOrView<SchemaView>),
    required: Seq<Seq<char>>,
    schemas: Seq<(Seq<char>, RefOrView<SchemaView>)>,
) -> FieldView {
    let field = field_of(property, required, schemas);
    FieldView {
        is_nullable: field.is_nullable || field.name == "value"@ || field.name
            == "default_value"@,
        ..field
    }
}

/// The fields that an object contributes.
pub open spec fn part_fields_of_object(
    obj: ObjectTypeView,
    schemas: Seq<(Seq<char>, RefOrView<SchemaView>)>,
) -> Seq<FieldView> {
    obj.properties.map_values(
        |property: (Seq<char>, RefOrView<SchemaView>)|
            part_field_of(property, obj.required, schemas),
    )
}

/// The fields that a schema contributes: those of an object, and none otherwise.
pub open spec fn part_fields(
    schema: RefOrView<SchemaView>,
    schemas: Seq<(Seq<char>, RefOrView<SchemaView>)>,
) -> Seq<FieldView> {
    match schema {
        RefOrView::Item(s) => match s.schema_kind {
            SchemaShapeView::Type(SchemaTypeView::Object(obj)) => part_fields_of_object(
                obj,
                schemas,
            ),
            _ => Seq::empty(),
        },
        _ => Seq::empty(),
    }
}

/// Whether a model is a structure without fields.
pub open spec fn is_empty_struct(model: ModelTypeView) -> bool {
    model matches ModelTypeView::Struct(m) && m.fields.len() == 0
}

/// The models of the fields of an object, without structures that have no fields.
pub open spec fn part_models_of_properties(
    properties: Seq<(Seq<char>, RefOrView<SchemaView>)>,
    schemas: Seq<(Seq<char>, RefOrView<SchemaView>)>,
) -> Seq<ModelTypeView>
    decreases properties.len(),
{
    if properties.len() == 0 {
        Seq::empty()
    } else {
        let before = part_models_of_properties(properties.drop_last(), schemas);
        match field_model(properties.last().0, properties.last().1, schemas) {
            Some(model) => if is_empty_struct(model) {
                before
            } else {
                before.push(model)
            },
            None => before,
        }
    }
}

/// The title of a schema, or the given name where it has none.
pub open spec fn title_or(schema: SchemaView, name: Seq<char>) -> Seq<char> {
    match schema.schema_data.title {
        Some(title) => title,
        None => name,
    }
}

/// The models that a schema contributes: those of its fields, or the enumeration of its values.
pub open spec fn part_models(
    schema: RefOrView<SchemaView>,
    schemas: Seq<(Seq<char>, RefOrView<SchemaView>)>,
) -> Seq<ModelTypeView> {
    match schema {
        RefOrView::Item(s) => match s.schema_kind {
            SchemaShapeView::Type(SchemaTypeView::Object(obj)) => part_models_of_properties(
                obj.properties,
                schemas,
            ),
            SchemaShapeView::Type(SchemaTypeView::String(t)) => if t.enumeration.len() > 0 {
                seq![
                    enum_of(
                        title_or(s, "AnonymousStringEnum"@),
                        pascal_all(listed_texts(t.enumeration)),
                        s,
                    ),
                ]
            } else {
                Seq::empty()
            },
            SchemaShapeView::Type(SchemaTypeView::Integer(t)) => if t.enumeration.len() > 0 {
                seq![
                    enum_of(
                        title_or(s, "AnonymousIntEnum"@),
                        listed_numbers(t.enumeration),
                        s,
                    ),
                ]
            } else {
                Seq::empty()
            },
            _ => Seq::empty(),
        },
        _ => Seq::empty(),
    }
}

/// Each name in PascalCase.
pub open spec fn pascal_all(names: Seq<Seq<char>>) -> Seq<Seq<char>> {
    names.map_values(|name: Seq<char>| pascal_case(name))
}

/// Puts each name in PascalCase.
pub(crate) fn to_pascal_all(names: &Vec<String>) -> (r: Vec<String>)
    ensures
        r.deep_view() == pascal_all(names.deep_view()),
{
    let mut out: Vec<String> = Vec::new();
    for i in 0..names.len()
        invariant
            out@.len() == i,
            forall|k: int| 0 <= k < i ==> (#[trigger] out@[k])@ == pascal_case(names@[k]@),
    {
        out.push(to_pascal_case(names[i].as_str()));
    }
    assert(out.deep_view() =~= pascal_all(names.deep_view()));
    out
}

fn copy_title_or(schema: &SchemaDef, name: &str) -> (r: String)
    ensures
        r@ == title_or(schema.deep_view(), name@),
{
    match &schema.schema_data.title {
        Some(title) => title.clone(),
        None => name.to_string(),
    }
}

/// Extracts the fields and the models that a schema contributes to a larger one.
pub fn extract_fields_from_schema(
    schema_ref: &RefOr<SchemaDef>,
    all_schemas: &Vec<(String, RefOr<SchemaDef>)>,
) -> (r: (Vec<Field>, Vec<ModelType>))
    ensures
        r.0.deep_view() == part_fields(schema_ref.deep_view(), all_schemas.deep_view()),
        r.1.deep_view() == part_models(schema_ref.deep_view(), all_schemas.deep_view()),
{
    let mut fields: Vec<Field> = Vec::new();
    let mut models: Vec<ModelType> = Vec::new();
    match schema_ref {
        RefOr::Reference { .. } => {},
        RefOr::Item(schema) => match &schema.schema_kind {
            SchemaShape::Type(SchemaType::Object(obj)) => {
                let ghost props = obj.properties.deep_view();
                for i in 0..obj.properties.len()
                    invariant
                        props == obj.properties.deep_view(),
                        fields@.len() == i,
                        fields.deep_view() == part_fields_of_object(
                            obj.deep_view(),
                            all_schemas.deep_view(),
                        ).take(
                            i as int,
                        ),
                        models.deep_view() == part_models_of_properties(
                            props.take(i as int),
                            all_schemas.deep_view(),
                        ),
                {
                    let property = &obj.properties[i];
                    let ghost before = models.deep_view();
                    assert(props.take(i + 1).drop_last() == props.take(i as int));
                    let field_name = property.0.as_str();
                    let (info, model) = extract_field_info(field_name, &property.1, all_schemas);
                    fields.push(
                        Field {
                            name: property.0.clone(),
                            field_type: info.field_type,
                            format: info.format,
                            is_required: contains_text(&obj.required, field_name),
                            is_nullable: info.is_nullable || same_text(field_name, "value")
                                || same_text(field_name, "default_value"),
                            is_array_ref: info.is_array_ref,
                            flatten: false,
                            description: info.description,
                            custom_attrs: info.custom_attrs,
                        },
                    );
                    assert(fields@[i as int].deep_view() =~= part_field_of(
                        props[i as int],
                        obj.required.deep_view(),
                        all_schemas.deep_view(),
                    ));
                    assert(fields.deep_view() =~= part_fields_of_object(
                        obj.deep_view(),
                        all_schemas.deep_view(),
                    ).take(
                        i + 1,
                    ));
                    if let Some(model) = model {
                        let is_empty: bool = match &model {
                            ModelType::Struct(m) => m.fields.len() == 0,
                            _ => false,
                        };
                        if !is_empty {
                            models.push(model);
                            assert(models.deep_view() =~= before.push(model.deep_view()));
                        }
                    }
                }
                assert(props.take(props.len() as int) == props);
                assert(fields.deep_view() =~= part_fields_of_object(
                    obj.deep_view(),
                    all_schemas.deep_view(),
                ));
            },
            SchemaShape::Type(SchemaType::String(string_type)) => {
                if string_type.enumeration.len() > 0 {
                    let name = copy_title_or(schema, "AnonymousStringEnum");
                    let variants = to_pascal_all(&collect_texts(&string_type.enumeration));
                    models.push(make_enum(name.as_str(), variants, schema));
                    assert(models.deep_view() =~= part_models(
                        schema_ref.deep_view(),
                        all_schemas.deep_view(),
                    ));
                }
            },
            SchemaShape::Type(SchemaType::Integer(integer)) => {
                if integer.enumeration.len() > 0 {
                    let name = copy_title_or(schema, "AnonymousIntEnum");
                    let variants = collect_numbers(&integer.enumeration);
                    models.push(make_enum(name.as_str(), variants, schema));
                    assert(models.deep_view() =~= part_models(
                        schema_ref.deep_view(),
                        all_schemas.deep_view(),
                    ));
                }
            },
            _ => {},
        },
    }
    (fields, models)
}

} // verus!
