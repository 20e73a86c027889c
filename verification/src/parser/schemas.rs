//! The models of named schemas.
use crate::models::{
    CompositionModel, CompositionModelView, ModelType, ModelTypeView, UnionModel, UnionModelView,
    UnionType,
};
use crate::openapi::view::{
    lemma_schema_view, ArrayTypeView, RefOrView, SchemaShapeView, SchemaTypeView, SchemaView,
};
use crate::openapi::{ArrayType, RefOr, SchemaDef, SchemaShape, SchemaType};
use crate::parser::composition::{all_of_fields, models_of_parts, resolve_all_of_fields};
use crate::parser::fields::{
    alias_of, collect_numbers, collect_texts, enum_of, listed_numbers, listed_texts, make_alias,
    make_enum, object_models, parse_object,
};
use crate::parser::types::{
    custom_attrs, extract_custom_attrs, extract_rust_type, extract_type_and_format, rust_type,
    type_and_format,
};
use crate::parser::unions::{resolve_union_variants, union_models, union_variants};
use crate::text::{concat2, concat3, pascal_case, to_pascal_case};
use vstd::prelude::*;

verus! {

broadcast use lemma_schema_view;

/// The model of a union.
pub open spec fn union_of(
    name: Seq<char>,
    alternatives: Seq<RefOrView<SchemaView>>,
    union_type: UnionType,
    schema: SchemaView,
    schemas: Seq<(Seq<char>, RefOrView<SchemaView>)>,
) -> ModelTypeView {
    ModelTypeView::Union(
        UnionModelView {
            name,
            variants: union_variants(alternatives, schemas),
            union_type,
            custom_attrs: custom_attrs(schema),
        },
    )
}

/// The models of a composition: those of its parts, and its own where it has fields.
pub open spec fn composition_models(
    name: Seq<char>,
    parts: Seq<RefOrView<SchemaView>>,
    schema: SchemaView,
    schemas: Seq<(Seq<char>, RefOrView<SchemaView>)>,
) -> Seq<ModelTypeView> {
    let inner = models_of_parts(parts, schemas);
    let all_fields = all_of_fields(parts, schemas);
    if all_fields.len() > 0 {
        inner.push(
            ModelTypeView::Composition(
                CompositionModelView {
                    name: pascal_case(name),
                    all_fields,
                    custom_attrs: custom_attrs(schema),
                },
            ),
        )
    } else {
        inner
    }
}

/// The models of the items of an array that need models of their own: a choice between
/// alternatives, or a list of values.
pub open spec fn item_models(
    item_name: Seq<char>,
    items: RefOrView<SchemaView>,
    schemas: Seq<(Seq<char>, RefOrView<SchemaView>)>,
) -> Option<Seq<ModelTypeView>> {
    match items {
        RefOrView::Reference { .. } => None,
        RefOrView::Item(item) => match item.schema_kind {
            SchemaShapeView::OneOf { one_of } => Some(
                union_models(item_name, one_of, schemas).push(
                    union_of(item_name, one_of, UnionType::OneOf, item, schemas),
                ),
            ),
            SchemaShapeView::Type(SchemaTypeView::String(s)) => if s.enumeration.len() > 0 {
                Some(seq![enum_of(item_name, listed_texts(s.enumeration), item)])
            } else {
                None
            },
            SchemaShapeView::Type(SchemaTypeView::Integer(n)) => if n.enumeration.len() > 0 {
                Some(seq![enum_of(item_name, listed_numbers(n.enumeration), item)])
            } else {
                None
            },
            _ => None,
        },
    }
}

/// The models of an array: those of its items where they need any, and its own name for a
/// vector of them. An array that says nothing of its items has none.
pub open spec fn array_models(
    name: Seq<char>,
    array: ArrayTypeView,
    schema: SchemaView,
    schemas: Seq<(Seq<char>, RefOrView<SchemaView>)>,
) -> Seq<ModelTypeView> {
    match array.items {
        None => Seq::empty(),
        Some(items) => {
            let item_name = pascal_case(name) + "Item"@;
            match item_models(item_name, *items, schemas) {
                Some(models) => models.push(
                    alias_of(pascal_case(name), "Vec<"@ + item_name + ">"@, schema),
                ),
                None => seq![
                    alias_of(
                        pascal_case(name),
                        "Vec<"@ + type_and_format(*items, schemas).0 + ">"@,
                        schema,
                    ),
                ],
            }
        },
    }
}

/// The models of a schema under a name. A schema that names a Rust type outright becomes
/// another name for it, and a reference has no models of its own.
pub open spec fn model_types(
    name: Seq<char>,
    schema: RefOrView<SchemaView>,
    schemas: Seq<(Seq<char>, RefOrView<SchemaView>)>,
) -> Seq<ModelTypeView> {
    match schema {
        RefOrView::Reference { .. } => Seq::empty(),
        RefOrView::Item(s) => match (rust_type(s), s.schema_kind) {
            (Some(t), _) => seq![alias_of(pascal_case(name), t, s)],
            (None, SchemaShapeView::Type(SchemaTypeView::Object(_))) => object_models(
                name,
                s,
                schemas,
            ),
            (None, SchemaShapeView::AllOf { all_of }) => composition_models(
                name,
                all_of,
                s,
                schemas,
            ),
            (None, SchemaShapeView::OneOf { one_of }) => union_models(name, one_of, schemas).push(
                union_of(pascal_case(name), one_of, UnionType::OneOf, s, schemas),
            ),
            (None, SchemaShapeView::AnyOf { any_of }) => union_models(name, any_of, schemas).push(
                union_of(pascal_case(name), any_of, UnionType::AnyOf, s, schemas),
            ),
            (None, SchemaShapeView::Type(SchemaTypeView::String(string_type))) => {
                let variants = listed_texts(string_type.enumeration);
                if variants.len() > 0 {
                    seq![enum_of(pascal_case(name), variants, s)]
                } else {
                    Seq::empty()
                }
            },
            (None, SchemaShapeView::Type(SchemaTypeView::Array(array))) => array_models(
                name,
                array,
                s,
                schemas,
            ),
            _ => Seq::empty(),
        },
    }
}

/// Makes the model of a union, behind the models that it needs.
fn parse_union(
    needs_name: &str,
    name: &str,
    alternatives: &Vec<RefOr<SchemaDef>>,
    union_type: UnionType,
    schema: &SchemaDef,
    all_schemas: &Vec<(String, RefOr<SchemaDef>)>,
) -> (r: Vec<ModelType>)
    ensures
        r.deep_view() == union_models(
            needs_name@,
            alternatives.deep_view(),
            all_schemas.deep_view(),
        ).push(
            union_of(
                name@,
                alternatives.deep_view(),
                union_type,
                schema.deep_view(),
                all_schemas.deep_view(),
            ),
        ),
{
    let (variants, mut models) = resolve_union_variants(needs_name, alternatives, all_schemas);
    let ghost before = models.deep_view();
    let model = ModelType::Union(
        UnionModel {
            name: name.to_string(),
            variants,
            union_type,
            custom_attrs: extract_custom_attrs(schema),
        },
    );
    models.push(model);
    assert(models.deep_view() =~= before.push(model.deep_view()));
    models
}

fn single(model: ModelType) -> (r: Vec<ModelType>)
    ensures
        r.deep_view() == seq![model.deep_view()],
{
    let mut models: Vec<ModelType> = Vec::new();
    models.push(model);
    assert(models.deep_view() =~= seq![model.deep_view()]);
    models
}

fn parse_items(
    item_name: &str,
    items: &RefOr<SchemaDef>,
    all_schemas: &Vec<(String, RefOr<SchemaDef>)>,
) -> (r: Option<Vec<ModelType>>)
    ensures
        r.deep_view() == item_models(item_name@, items.deep_view(), all_schemas.deep_view()),
{
    match items {
        RefOr::Reference { .. } => None,
        RefOr::Item(item) => match &item.schema_kind {
            SchemaShape::OneOf { one_of } => Some(
                parse_union(item_name, item_name, one_of, UnionType::OneOf, item, all_schemas),
            ),
            SchemaShape::Type(SchemaType::String(s)) => {
                if s.enumeration.len() > 0 {
                    Some(single(make_enum(item_name, collect_texts(&s.enumeration), item)))
                } else {
                    None
                }
            },
            SchemaShape::Type(SchemaType::Integer(n)) => {
                if n.enumeration.len() > 0 {
                    Some(single(make_enum(item_name, collect_numbers(&n.enumeration), item)))
                } else {
                    None
                }
            },
            _ => None,
        },
    }
}

fn parse_array(
    name: &str,
    array: &ArrayType,
    schema: &SchemaDef,
    all_schemas: &Vec<(String, RefOr<SchemaDef>)>,
) -> (r: Vec<ModelType>)
    ensures
        r.deep_view() == array_models(
            name@,
            array.deep_view(),
            schema.deep_view(),
            all_schemas.deep_view(),
        ),
{
    let array_name = to_pascal_case(name);
    match &array.items {
        None => {
            let models: Vec<ModelType> = Vec::new();
            assert(models.deep_view() =~= Seq::<ModelTypeView>::empty());
            models
        },
        Some(items) => {
            let item_name = concat2(array_name.as_str(), "Item");
            match parse_items(item_name.as_str(), items, all_schemas) {
                Some(models) => {
                    let mut models = models;
                    let ghost before = models.deep_view();
                    let target = concat3("Vec<", item_name.as_str(), ">");
                    let alias = make_alias(array_name.as_str(), target, schema);
                    models.push(alias);
                    assert(models.deep_view() =~= before.push(alias.deep_view()));
                    models
                },
                None => {
                    let (inner_type, _) = extract_type_and_format(items, all_schemas);
                    let target = concat3("Vec<", inner_type.as_str(), ">");
                    single(make_alias(array_name.as_str(), target, schema))
                },
            }
        },
    }
}

fn parse_composition(
    name: &str,
    all_of: &Vec<RefOr<SchemaDef>>,
    schema: &SchemaDef,
    all_schemas: &Vec<(String, RefOr<SchemaDef>)>,
) -> (r: Vec<ModelType>)
    ensures
        r.deep_view() == composition_models(
            name@,
            all_of.deep_view(),
            schema.deep_view(),
            all_schemas.deep_view(),
        ),
{
    let (all_fields, mut models) = resolve_all_of_fields(all_of, all_schemas);
    let ghost before = models.deep_view();
    if all_fields.len() > 0 {
        let model = ModelType::Composition(
            CompositionModel {
                name: to_pascal_case(name),
                all_fields,
                custom_attrs: extract_custom_attrs(schema),
            },
        );
        models.push(model);
        assert(models.deep_view() =~= before.push(model.deep_view()));
    }
    models
}

/// Turns a schema under a name into its models.
pub fn parse_schema_to_model_type(
    name: &str,
    schema: &RefOr<SchemaDef>,
    all_schemas: &Vec<(String, RefOr<SchemaDef>)>,
) -> (r: Vec<ModelType>)
    ensures
        r.deep_view() == model_types(name@, schema.deep_view(), all_schemas.deep_view()),
{
    let none: Vec<ModelType> = Vec::new();
    assert(none.deep_view() =~= Seq::<ModelTypeView>::empty());
    match schema {
        RefOr::Reference { .. } => none,
        RefOr::Item(schema) => {
            let model_name = to_pascal_case(name);
            if let Some(t) = extract_rust_type(schema) {
                return single(make_alias(model_name.as_str(), t, schema));
            }
            match &schema.schema_kind {
                SchemaShape::Type(SchemaType::Object(_)) => parse_object(name, schema, all_schemas),
                SchemaShape::AllOf { all_of } => parse_composition(
                    name,
                    all_of,
                    schema,
                    all_schemas,
                ),
                SchemaShape::OneOf { one_of } => parse_union(
                    name,
                    model_name.as_str(),
                    one_of,
                    UnionType::OneOf,
                    schema,
                    all_schemas,
                ),
                SchemaShape::AnyOf { any_of } => parse_union(
                    name,
                    model_name.as_str(),
                    any_of,
                    UnionType::AnyOf,
                    schema,
                    all_schemas,
                ),
                SchemaShape::Type(SchemaType::String(string_type)) => {
                    let variants = collect_texts(&string_type.enumeration);
                    if variants.len() > 0 {
                        single(make_enum(model_name.as_str(), variants, schema))
                    } else {
                        none
                    }
                },
                SchemaShape::Type(SchemaType::Array(array)) => parse_array(
                    name,
                    array,
                    schema,
                    all_schemas,
                ),
                _ => none,
            }
        },
    }
}

} // verus!
