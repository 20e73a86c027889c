//! The fields of objects, and the models that their own schemas give rise to.
use crate::models::{
    EnumModel, EnumModelView, Field, FieldView, Model, ModelType, ModelTypeView, ModelView,
    TypeAliasModel, TypeAliasModelView,
};
use crate::openapi::view::{
    lemma_schema_view, ExtraPropertiesView, ObjectTypeView, RefOrView, SchemaShapeView,
    SchemaTypeView, SchemaView,
};
use crate::openapi::{
    find_entry, lookup, ExtraProperties, ObjectType, RefOr, SchemaDef, SchemaShape, SchemaType,
};
use crate::parser::types::{
    custom_attrs, extract_custom_attrs, extract_rust_type, extract_type_and_format, rust_type,
    type_and_format,
};
use crate::text::{
    concat2, concat3, decimal, decimal_text, pascal_case, same_text, strip_prefix, stripped,
    to_pascal_case,
};
use vstd::prelude::*;

verus! {

broadcast use lemma_schema_view;

/// What a schema says of a field that it describes.
#[derive(Debug)]
pub struct FieldInfo {
    pub field_type: String,
    pub format: String,
    pub is_nullable: bool,
    pub is_array_ref: bool,
    pub description: Option<String>,
    pub custom_attrs: Option<Vec<String>>,
}

/// The mathematical value of a [`FieldInfo`].
#[verifier::ext_equal]
pub struct FieldInfoView {
    pub field_type: Seq<char>,
    pub format: Seq<char>,
    pub is_nullable: bool,
    pub is_array_ref: bool,
    pub description: Option<Seq<char>>,
    pub custom_attrs: Option<Seq<Seq<char>>>,
}

impl DeepView for FieldInfo {
    type V = FieldInfoView;

    open spec fn deep_view(&self) -> FieldInfoView {
        FieldInfoView {
            field_type: self.field_type@,
            format: self.format@,
            is_nullable: self.is_nullable,
            is_array_ref: self.is_array_ref,
            description: self.description.deep_view(),
            custom_attrs: self.custom_attrs.deep_view(),
        }
    }
}

/// The schema that a reference to `#/components/schemas/` stands for.
pub open spec fn referenced_schema(
    reference: Seq<char>,
    schemas: Seq<(Seq<char>, RefOrView<SchemaView>)>,
) -> Option<RefOrView<SchemaView>> {
    match stripped(reference, "#/components/schemas/"@) {
        Some(name) => lookup(schemas, name),
        None => None,
    }
}

/// Finds the schema that a reference stands for.
pub(crate) fn find_schema<'a>(
    reference: &str,
    all_schemas: &'a Vec<(String, RefOr<SchemaDef>)>,
) -> (r: Option<&'a RefOr<SchemaDef>>)
    ensures
        r.deep_view() == referenced_schema(reference@, all_schemas.deep_view()),
{
    match strip_prefix(reference, "#/components/schemas/") {
        Some(name) => find_entry(all_schemas, name),
        None => None,
    }
}

/// The values of an enumeration of strings, without the nulls.
pub open spec fn listed_texts(values: Seq<Option<Seq<char>>>) -> Seq<Seq<char>>
    decreases values.len(),
{
    if values.len() == 0 {
        Seq::empty()
    } else {
        match values.last() {
            Some(s) => listed_texts(values.drop_last()).push(s),
            None => listed_texts(values.drop_last()),
        }
    }
}

/// Collects the values of an enumeration of strings.
pub(crate) fn collect_texts(values: &Vec<Option<String>>) -> (r: Vec<String>)
    ensures
        r.deep_view() == listed_texts(values.deep_view()),
{
    let ghost whole = values.deep_view();
    let mut out: Vec<String> = Vec::new();
    for i in 0..values.len()
        invariant
            whole == values.deep_view(),
            out.deep_view() == listed_texts(whole.take(i as int)),
    {
        assert(whole.take(i + 1).drop_last() =~= whole.take(i as int));
        if let Some(s) = &values[i] {
            out.push(s.clone());
            assert(out.deep_view() =~= listed_texts(whole.take(i as int)).push(s@));
        }
    }
    assert(whole.take(values.len() as int) =~= whole);
    out
}

/// The names that stand for the values of an enumeration of integers, without the nulls.
pub open spec fn listed_numbers(values: Seq<Option<i64>>) -> Seq<Seq<char>>
    decreases values.len(),
{
    if values.len() == 0 {
        Seq::empty()
    } else {
        match values.last() {
            Some(n) => listed_numbers(values.drop_last()).push("Value"@ + decimal(n as int)),
            None => listed_numbers(values.drop_last()),
        }
    }
}

/// Collects the names that stand for the values of an enumeration of integers.
pub(crate) fn collect_numbers(values: &Vec<Option<i64>>) -> (r: Vec<String>)
    ensures
        r.deep_view() == listed_numbers(values@),
{
    let mut out: Vec<String> = Vec::new();
    for i in 0..values.len()
        invariant
            out.deep_view() == listed_numbers(values@.take(i as int)),
    {
        assert(values@.take(i + 1).drop_last() == values@.take(i as int));
        if let Some(n) = values[i] {
            let name = concat2("Value", decimal_text(n as i128).as_str());
            out.push(name);
            assert(out.deep_view() =~= listed_numbers(values@.take(i as int)).push(name@));
        }
    }
    assert(values@.take(values.len() as int) == values@);
    out
}

/// The type of a map from names to values of the given type.
pub open spec fn map_of(value_type: Seq<char>) -> Seq<char> {
    "std::collections::HashMap<String, "@ + value_type + ">"@
}

/// The type of a field that is an object.
pub open spec fn object_field_type(
    field_name: Seq<char>,
    obj: ObjectTypeView,
    schemas: Seq<(Seq<char>, RefOrView<SchemaView>)>,
) -> Seq<char> {
    if obj.properties.len() > 0 {
        pascal_case(field_name)
    } else {
        match obj.additional_properties {
            Some(ExtraPropertiesView::Schema(value)) => map_of(
                type_and_format(*value, schemas).0,
            ),
            Some(ExtraPropertiesView::Any(true)) => map_of("serde_json::Value"@),
            _ => "serde_json::Value"@,
        }
    }
}

/// The type of a field with the given schema.
pub open spec fn field_type(
    field_name: Seq<char>,
    schema: RefOrView<SchemaView>,
    schemas: Seq<(Seq<char>, RefOrView<SchemaView>)>,
) -> Seq<char> {
    match schema {
        RefOrView::Reference { .. } => type_and_format(schema, schemas).0,
        RefOrView::Item(s) => match s.schema_kind {
            SchemaShapeView::Type(SchemaTypeView::Object(obj)) => object_field_type(
                field_name,
                obj,
                schemas,
            ),
            _ => if is_text_enum(s) {
                pascal_case(field_name)
            } else {
                match rust_type(s) {
                    Some(t) => t,
                    None => type_and_format(schema, schemas).0,
                }
            },
        },
    }
}

/// Whether a schema lists the strings that it allows.
pub open spec fn is_text_enum(schema: SchemaView) -> bool {
    schema.schema_kind matches SchemaShapeView::Type(
        SchemaTypeView::String(s),
    ) && s.enumeration.len() > 0
}

/// Whether a schema is an array whose items are not a choice between alternatives.
pub open spec fn is_plain_array(schema: SchemaView) -> bool {
    schema.schema_kind matches SchemaShapeView::Type(
        SchemaTypeView::Array(array),
    ) && !(array.items matches Some(
        items,
    ) && *items matches RefOrView::Item(item) && item.schema_kind is OneOf)
}

/// What a schema says of the field with the given name.
pub open spec fn field_info(
    field_name: Seq<char>,
    schema: RefOrView<SchemaView>,
    schemas: Seq<(Seq<char>, RefOrView<SchemaView>)>,
) -> FieldInfoView {
    let field_type = field_type(field_name, schema, schemas);
    let format = type_and_format(schema, schemas).1;
    match schema {
        RefOrView::Reference { reference } => match referenced_schema(reference, schemas) {
            Some(RefOrView::Item(target)) => FieldInfoView {
                field_type,
                format,
                is_nullable: target.schema_data.nullable,
                is_array_ref: is_plain_array(target),
                description: None,
                custom_attrs: custom_attrs(target),
            },
            _ => FieldInfoView {
                field_type,
                format,
                is_nullable: false,
                is_array_ref: false,
                description: None,
                custom_attrs: None,
            },
        },
        RefOrView::Item(s) => FieldInfoView {
            field_type,
            format,
            is_nullable: s.schema_data.nullable,
            is_array_ref: s.schema_kind matches SchemaShapeView::Type(SchemaTypeView::Array(_)),
            description: s.schema_data.description,
            custom_attrs: custom_attrs(s),
        },
    }
}

/// Another name for a type, with what the schema behind it carries.
pub open spec fn alias_of(
    name: Seq<char>,
    target_type: Seq<char>,
    schema: SchemaView,
) -> ModelTypeView {
    ModelTypeView::TypeAlias(
        TypeAliasModelView {
            name,
            target_type,
            description: schema.schema_data.description,
            custom_attrs: custom_attrs(schema),
        },
    )
}

/// An enumeration, with what the schema behind it carries.
pub open spec fn enum_of(
    name: Seq<char>,
    variants: Seq<Seq<char>>,
    schema: SchemaView,
) -> ModelTypeView {
    ModelTypeView::Enum(
        EnumModelView {
            name,
            variants,
            description: schema.schema_data.description,
            custom_attrs: custom_attrs(schema),
        },
    )
}

/// The field that a property of an object becomes.
pub open spec fn field_of(
    property: (Seq<char>, RefOrView<SchemaView>),
    required: Seq<Seq<char>>,
    schemas: Seq<(Seq<char>, RefOrView<SchemaView>)>,
) -> FieldView {
    let info = field_info(property.0, property.1, schemas);
    FieldView {
        name: property.0,
        field_type: info.field_type,
        format: info.format,
        is_required: required.contains(property.0),
        is_nullable: info.is_nullable,
        is_array_ref: info.is_array_ref,
        flatten: false,
        description: info.description,
        custom_attrs: info.custom_attrs,
    }
}

/// The fields of an object: one for each property, in order.
pub open spec fn object_fields(
    obj: ObjectTypeView,
    schemas: Seq<(Seq<char>, RefOrView<SchemaView>)>,
) -> Seq<FieldView> {
    obj.properties.map_values(
        |property: (Seq<char>, RefOrView<SchemaView>)|
            field_of(property, obj.required, schemas),
    )
}

/// The first structure among some models.
pub open spec fn first_struct(models: Seq<ModelTypeView>) -> Option<ModelTypeView>
    decreases models.len(),
{
    if models.len() == 0 {
        None
    } else if models[0] is Struct {
        Some(models[0])
    } else {
        first_struct(models.drop_first())
    }
}

/// The model that a field's own schema gives rise to: the enumeration of its values, or the
/// structure of its properties.
pub open spec fn field_model(
    field_name: Seq<char>,
    schema: RefOrView<SchemaView>,
    schemas: Seq<(Seq<char>, RefOrView<SchemaView>)>,
) -> Option<ModelTypeView>
    decreases schema,
{
    match schema {
        RefOrView::Reference { .. } => None,
        RefOrView::Item(s) => match s.schema_kind {
            SchemaShapeView::Type(SchemaTypeView::String(t)) => if t.enumeration.len() > 0 {
                Some(enum_of(pascal_case(field_name), listed_texts(t.enumeration), s))
            } else {
                None
            },
            SchemaShapeView::Type(SchemaTypeView::Object(obj)) => if obj.properties.len() > 0 {
                first_struct(object_models(pascal_case(field_name), s, schemas))
            } else {
                None
            },
            _ => None,
        },
    }
}

/// The models that a property gives rise to: those of an object written in place, and then the
/// one of the field.
pub open spec fn models_of_property(
    property: (Seq<char>, RefOrView<SchemaView>),
    schemas: Seq<(Seq<char>, RefOrView<SchemaView>)>,
) -> Seq<ModelTypeView>
    decreases property,
{
    let nested = match property.1 {
        RefOrView::Item(s) => if s.schema_kind matches SchemaShapeView::Type(
            SchemaTypeView::Object(_),
        ) {
            object_models(pascal_case(property.0), s, schemas)
        } else {
            Seq::empty()
        },
        _ => Seq::empty(),
    };
    match field_model(property.0, property.1, schemas) {
        Some(model) => nested.push(model),
        None => nested,
    }
}

/// The models that some properties give rise to, in order.
pub open spec fn models_of_properties(
    properties: Seq<(Seq<char>, RefOrView<SchemaView>)>,
    schemas: Seq<(Seq<char>, RefOrView<SchemaView>)>,
) -> Seq<ModelTypeView>
    decreases properties,
{
    if properties.len() == 0 {
        Seq::empty()
    } else {
        models_of_properties(properties.drop_last(), schemas) + models_of_property(
            properties.last(),
            schemas,
        )
    }
}

/// The models of an object: another name for the type that it names outright or for a map, or
/// the models of its properties followed by its own structure.
pub open spec fn object_models(
    name: Seq<char>,
    schema: SchemaView,
    schemas: Seq<(Seq<char>, RefOrView<SchemaView>)>,
) -> Seq<ModelTypeView>
    decreases schema,
{
    match (rust_type(schema), schema.schema_kind) {
        (Some(t), _) => seq![alias_of(pascal_case(name), t, schema)],
        (None, SchemaShapeView::Type(SchemaTypeView::Object(obj))) => if obj.properties.len() == 0
            && obj.additional_properties is Some {
            let value_type = match obj.additional_properties->0 {
                ExtraPropertiesView::Any(_) => "serde_json::Value"@,
                ExtraPropertiesView::Schema(value) => type_and_format(*value, schemas).0,
            };
            seq![alias_of(pascal_case(name), map_of(value_type), schema)]
        } else {
            models_of_properties(obj.properties, schemas).push(
                ModelTypeView::Struct(
                    ModelView {
                        name: pascal_case(name),
                        fields: object_fields(obj, schemas),
                        custom_attrs: custom_attrs(schema),
                        description: schema.schema_data.description,
                    },
                ),
            )
        },
        _ => Seq::empty(),
    }
}

/// A copy of a text that may be missing.
pub(crate) fn copy_text(text: &Option<String>) -> (r: Option<String>)
    ensures
        r.deep_view() == text.deep_view(),
{
    match text {
        Some(s) => Some(s.clone()),
        None => None,
    }
}

/// Whether a text is among some texts.
pub(crate) fn contains_text(texts: &Vec<String>, text: &str) -> (r: bool)
    ensures
        r == texts.deep_view().contains(text@),
{
    for i in 0..texts.len()
        invariant
            forall|k: int| 0 <= k < i ==> texts.deep_view()[k] != text@,
    {
        if same_text(texts[i].as_str(), text) {
            assert(texts.deep_view()[i as int] == text@);
            return true;
        }
    }
    false
}

/// Another name for a type.
pub(crate) fn make_alias(name: &str, target_type: String, schema: &SchemaDef) -> (r: ModelType)
    ensures
        r.deep_view() == alias_of(name@, target_type@, schema.deep_view()),
{
    ModelType::TypeAlias(
        TypeAliasModel {
            name: name.to_string(),
            target_type,
            description: copy_text(&schema.schema_data.description),
            custom_attrs: extract_custom_attrs(schema),
        },
    )
}

/// An enumeration.
pub(crate) fn make_enum(name: &str, variants: Vec<String>, schema: &SchemaDef) -> (r: ModelType)
    ensures
        r.deep_view() == enum_of(name@, variants.deep_view(), schema.deep_view()),
{
    ModelType::Enum(
        EnumModel {
            name: name.to_string(),
            variants,
            description: copy_text(&schema.schema_data.description),
            custom_attrs: extract_custom_attrs(schema),
        },
    )
}

/// The type of a map from names to values.
pub(crate) fn make_map_type(value_type: &str) -> (r: String)
    ensures
        r@ == map_of(value_type@),
{
    concat3("std::collections::HashMap<String, ", value_type, ">")
}

/// Takes the first structure out of some models.
fn take_first_struct(models: Vec<ModelType>) -> (r: Option<ModelType>)
    ensures
        r.deep_view() == first_struct(models.deep_view()),
{
    let ghost whole = models.deep_view();
    assert(whole.skip(0) == whole);
    for m in it: models
        invariant
            it.seq() == models@,
            whole == models.deep_view(),
            first_struct(whole) == first_struct(whole.skip(it.index())),
    {
        assert(whole.skip(it.index()).drop_first() == whole.skip(it.index() + 1));
        assert(whole[it.index()] == m.deep_view());
        if let ModelType::Struct(_) = &m {
            return Some(m);
        }
    }
    None
}

fn find_object_field_type(
    field_name: &str,
    obj: &ObjectType,
    all_schemas: &Vec<(String, RefOr<SchemaDef>)>,
) -> (r: String)
    ensures
        r@ == object_field_type(field_name@, obj.deep_view(), all_schemas.deep_view()),
{
    if obj.properties.len() > 0 {
        to_pascal_case(field_name)
    } else {
        match &obj.additional_properties {
            Some(ExtraProperties::Schema(value)) => {
                let (value_type, _) = extract_type_and_format(value, all_schemas);
                make_map_type(value_type.as_str())
            },
            Some(ExtraProperties::Any(true)) => make_map_type("serde_json::Value"),
            _ => "serde_json::Value".to_string(),
        }
    }
}

/// Extracts what a schema says of a field, and the model that the field's own schema gives
/// rise to.
pub fn extract_field_info(
    field_name: &str,
    schema: &RefOr<SchemaDef>,
    all_schemas: &Vec<(String, RefOr<SchemaDef>)>,
) -> (r: (FieldInfo, Option<ModelType>))
    ensures
        r.0.deep_view() == field_info(field_name@, schema.deep_view(), all_schemas.deep_view()),
        r.1.deep_view() == field_model(field_name@, schema.deep_view(), all_schemas.deep_view()),
    decreases *schema,
{
    let (mut field_type, format) = extract_type_and_format(schema, all_schemas);
    match schema {
        RefOr::Reference { reference } => {
            let mut is_array_ref: bool = false;
            let mut is_nullable: bool = false;
            let mut custom_attrs: Option<Vec<String>> = None;
            if let Some(RefOr::Item(target)) = find_schema(reference.as_str(), all_schemas) {
                is_nullable = target.schema_data.nullable;
                custom_attrs = extract_custom_attrs(target);
                if let SchemaShape::Type(SchemaType::Array(array)) = &target.schema_kind {
                    is_array_ref = match &array.items {
                        Some(items) => match &**items {
                            RefOr::Item(
                                SchemaDef { schema_kind: SchemaShape::OneOf { .. }, .. },
                            ) => false,
                            _ => true,
                        },
                        None => true,
                    };
                }
            }
            (
                FieldInfo {
                    field_type,
                    format,
                    is_nullable,
                    is_array_ref,
                    description: None,
                    custom_attrs,
                },
                None,
            )
        },
        RefOr::Item(s) => {
            if let Some(t) = extract_rust_type(s) {
                field_type = t;
            }
            let mut is_array_ref: bool = false;
            let mut model: Option<ModelType> = None;
            match &s.schema_kind {
                SchemaShape::Type(SchemaType::Array(_)) => {
                    is_array_ref = true;
                },
                SchemaShape::Type(SchemaType::String(string_type)) => {
                    if string_type.enumeration.len() > 0 {
                        field_type = to_pascal_case(field_name);
                        let variants = collect_texts(&string_type.enumeration);
                        model = Some(make_enum(field_type.as_str(), variants, s));
                    }
                },
                SchemaShape::Type(SchemaType::Object(obj)) => {
                    field_type = find_object_field_type(field_name, obj, all_schemas);
                    if obj.properties.len() > 0 {
                        model = take_first_struct(
                            parse_object(field_type.as_str(), s, all_schemas),
                        );
                    }
                },
                _ => {},
            }
            (
                FieldInfo {
                    field_type,
                    format,
                    is_nullable: s.schema_data.nullable,
                    is_array_ref,
                    description: copy_text(&s.schema_data.description),
                    custom_attrs: extract_custom_attrs(s),
                },
                model,
            )
        },
    }
}

/// The schema of a property is smaller than the object's.
proof fn lemma_property_is_smaller(schema: SchemaDef, i: int)
    requires
        schema.schema_kind matches SchemaShape::Type(SchemaType::Object(obj)) && 0 <= i
            < obj.properties@.len(),
    ensures
        decreases_to!(schema => schema.schema_kind->Type_0->Object_0.properties@[i].1),
{
    let obj = schema.schema_kind->Type_0->Object_0;
    assert(decreases_to!(schema => schema.schema_kind));
    assert(decreases_to!(schema.schema_kind => schema.schema_kind->Type_0));
    assert(decreases_to!(schema.schema_kind->Type_0 => obj));
    assert(decreases_to!(obj => obj.properties));
    assert(decreases_to!(obj.properties => obj.properties@));
    assert(decreases_to!(obj.properties@ => obj.properties@[i]));
    assert(decreases_to!(obj.properties@[i] => obj.properties@[i].1));
}

/// Turns an object into its models.
pub fn parse_object(
    name: &str,
    schema: &SchemaDef,
    all_schemas: &Vec<(String, RefOr<SchemaDef>)>,
) -> (r: Vec<ModelType>)
    ensures
        r.deep_view() == object_models(name@, schema.deep_view(), all_schemas.deep_view()),
    decreases *schema,
{
    let model_name = to_pascal_case(name);
    if let Some(t) = extract_rust_type(schema) {
        let mut models: Vec<ModelType> = Vec::new();
        models.push(make_alias(model_name.as_str(), t, schema));
        assert(models.deep_view() =~= object_models(
            name@,
            schema.deep_view(),
            all_schemas.deep_view(),
        ));
        return models;
    }
    match &schema.schema_kind {
        SchemaShape::Type(SchemaType::Object(obj)) => {
            let ghost props = obj.properties.deep_view();
            if obj.properties.len() == 0 {
                if let Some(additional) = &obj.additional_properties {
                    let value_type = match additional {
                        ExtraProperties::Any(_) => "serde_json::Value".to_string(),
                        ExtraProperties::Schema(value) => extract_type_and_format(
                            value,
                            all_schemas,
                        ).0,
                    };
                    let mut models: Vec<ModelType> = Vec::new();
                    models.push(
                        make_alias(
                            model_name.as_str(),
                            make_map_type(value_type.as_str()),
                            schema,
                        ),
                    );
                    assert(models.deep_view() =~= object_models(
                        name@,
                        schema.deep_view(),
                        all_schemas.deep_view(),
                    ));
                    return models;
                }
            }
            let mut fields: Vec<Field> = Vec::new();
            let mut models: Vec<ModelType> = Vec::new();
            for i in 0..obj.properties.len()
                invariant
                    schema.schema_kind == SchemaShape::Type(SchemaType::Object(*obj)),
                    props == obj.properties.deep_view(),
                    fields@.len() == i,
                    fields.deep_view() == object_fields(
                        obj.deep_view(),
                        all_schemas.deep_view(),
                    ).take(i as int),
                    models.deep_view() == models_of_properties(
                        props.take(i as int),
                        all_schemas.deep_view(),
                    ),
            {
                let property = &obj.properties[i];
                let ghost before = models.deep_view();
                assert(props.take(i + 1).drop_last() == props.take(i as int));
                proof {
                    lemma_property_is_smaller(*schema, i as int);
                }
                let field_name = property.0.as_str();
                if let RefOr::Item(item) = &property.1 {
                    if let SchemaShape::Type(SchemaType::Object(_)) = &item.schema_kind {
                        let struct_name = to_pascal_case(field_name);
                        let mut nested = parse_object(struct_name.as_str(), item, all_schemas);
                        let ghost more = nested.deep_view();
                        models.append(&mut nested);
                        assert(models.deep_view() =~= before + more);
                    }
                }
                let ghost between = models.deep_view();
                let (info, model) = extract_field_info(field_name, &property.1, all_schemas);
                if let Some(model) = model {
                    models.push(model);
                    assert(models.deep_view() =~= between.push(model.deep_view()));
                }
                fields.push(
                    Field {
                        name: property.0.clone(),
                        field_type: info.field_type,
                        format: info.format,
                        is_required: contains_text(&obj.required, field_name),
                        is_nullable: info.is_nullable,
                        is_array_ref: info.is_array_ref,
                        flatten: false,
                        description: info.description,
                        custom_attrs: info.custom_attrs,
                    },
                );
                assert(models.deep_view() =~= before + models_of_property(
                    props[i as int],
                    all_schemas.deep_view(),
                ));
                assert(fields@[i as int].deep_view() =~= field_of(
                    props[i as int],
                    obj.required.deep_view(),
                    all_schemas.deep_view(),
                ));
                assert(fields.deep_view() =~= object_fields(
                    obj.deep_view(),
                    all_schemas.deep_view(),
                ).take(i + 1));
            }
            assert(props.take(props.len() as int) == props);
            let ghost inner = models.deep_view();
            let ghost inner_fields = fields.deep_view();
            models.push(
                ModelType::Struct(
                    Model {
                        name: model_name,
                        fields,
                        custom_attrs: extract_custom_attrs(schema),
                        description: copy_text(&schema.schema_data.description),
                    },
                ),
            );
            assert(inner_fields =~= object_fields(obj.deep_view(), all_schemas.deep_view()));
            assert(models.deep_view() =~= object_models(
                name@,
                schema.deep_view(),
                all_schemas.deep_view(),
            ));
            models
        },
        _ => Vec::new(),
    }
}

} // verus!
