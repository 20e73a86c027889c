//! Choices between alternatives.
use crate::models::{
    EnumModel, EnumModelView, ModelType, ModelTypeView, UnionVariant, UnionVariantView,
};
use crate::openapi::view::{
    lemma_schema_view, RefOrView, SchemaShapeView, SchemaTypeView, SchemaView,
};
use crate::openapi::{find_entry, RefOr, SchemaDef, SchemaShape, SchemaType};
use crate::parser::composition::{resolve, resolved};
use crate::parser::fields::{
    collect_numbers, collect_texts, find_schema, listed_numbers, listed_texts, referenced_schema,
};
use crate::parser::parts::{
    extract_fields_from_schema, part_fields, part_models, pascal_all, to_pascal_all,
};
use crate::text::{
    add_text, concat2, decimal, decimal_text, pascal_case, strip_prefix, stripped, to_pascal_case,
    with_text,
};
use vstd::prelude::*;

verus! {

broadcast use lemma_schema_view;

/// The values that an alternative lists, if a list of values is all that it is.
///
/// An alternative that leads nowhere over two references lists no value.
pub open spec fn listed_values(
    alternative: RefOrView<SchemaView>,
    schemas: Seq<(Seq<char>, RefOrView<SchemaView>)>,
) -> Option<Seq<Seq<char>>> {
    match resolved(alternative, schemas) {
        None => None,
        Some(RefOrView::Item(schema)) => match schema.schema_kind {
            SchemaShapeView::Type(SchemaTypeView::String(s)) => if s.enumeration.len() > 0 {
                Some(listed_texts(s.enumeration))
            } else {
                None
            },
            SchemaShapeView::Type(SchemaTypeView::Integer(n)) => if n.enumeration.len() > 0 {
                Some(listed_numbers(n.enumeration))
            } else {
                None
            },
            _ => None,
        },
        Some(RefOrView::Reference { reference }) => match referenced_schema(
            reference,
            schemas,
        ) {
            Some(RefOrView::Item(inner)) => match inner.schema_kind {
                SchemaShapeView::Type(SchemaTypeView::String(s)) => Some(
                    listed_texts(s.enumeration),
                ),
                _ => None,
            },
            _ => Some(Seq::empty()),
        },
    }
}

/// Whether every alternative is a list of values.
pub open spec fn all_list_values(
    alternatives: Seq<RefOrView<SchemaView>>,
    schemas: Seq<(Seq<char>, RefOrView<SchemaView>)>,
) -> bool {
    forall|i: int|
        0 <= i < alternatives.len() ==> listed_values(#[trigger] alternatives[i], schemas) is Some
}

/// An ascending list with some more texts in their places.
pub open spec fn with_texts(texts: Seq<Seq<char>>, more: Seq<Seq<char>>) -> Seq<Seq<char>>
    decreases more.len(),
{
    if more.len() == 0 {
        texts
    } else {
        with_text(with_texts(texts, more.drop_last()), more.last())
    }
}

/// The values that the alternatives list, ascending and each of them once.
pub open spec fn union_values(
    alternatives: Seq<RefOrView<SchemaView>>,
    schemas: Seq<(Seq<char>, RefOrView<SchemaView>)>,
) -> Seq<Seq<char>>
    decreases alternatives.len(),
{
    if alternatives.len() == 0 {
        Seq::empty()
    } else {
        let before = union_values(alternatives.drop_last(), schemas);
        match listed_values(alternatives.last(), schemas) {
            Some(values) => with_texts(before, values),
            None => before,
        }
    }
}

/// Whether the alternatives together are no more than a list of values.
pub open spec fn is_simple_enum(
    alternatives: Seq<RefOrView<SchemaView>>,
    schemas: Seq<(Seq<char>, RefOrView<SchemaView>)>,
) -> bool {
    all_list_values(alternatives, schemas) && union_values(alternatives, schemas).len() > 0
}

/// A variant that holds a value of a primitive type.
pub open spec fn primitive_variant(name: Seq<char>, primitive_type: Seq<char>) -> UnionVariantView {
    UnionVariantView { name, fields: Seq::empty(), primitive_type: Some(primitive_type) }
}

/// The variant for an alternative, which stands at the given place among the alternatives.
pub open spec fn variant_of(
    alternative: RefOrView<SchemaView>,
    index: int,
    schemas: Seq<(Seq<char>, RefOrView<SchemaView>)>,
) -> Option<UnionVariantView> {
    match alternative {
        RefOrView::Reference { reference } => match (
            stripped(reference, "#/components/schemas/"@),
            referenced_schema(reference, schemas),
        ) {
            (Some(name), Some(RefOrView::Item(schema))) => Some(
                UnionVariantView {
                    name: pascal_case(name),
                    fields: if schema.schema_kind is OneOf {
                        Seq::empty()
                    } else {
                        part_fields(RefOrView::Item(schema), schemas)
                    },
                    primitive_type: None,
                },
            ),
            _ => None,
        },
        RefOrView::Item(schema) => Some(
            match schema.schema_kind {
                SchemaShapeView::Type(SchemaTypeView::String(_)) => primitive_variant(
                    "String"@,
                    "String"@,
                ),
                SchemaShapeView::Type(SchemaTypeView::Integer(_)) => primitive_variant(
                    "Integer"@,
                    "i64"@,
                ),
                SchemaShapeView::Type(SchemaTypeView::Number) => primitive_variant(
                    "Number"@,
                    "f64"@,
                ),
                SchemaShapeView::Type(SchemaTypeView::Boolean) => primitive_variant(
                    "Boolean"@,
                    "Boolean"@,
                ),
                _ => UnionVariantView {
                    name: "Variant"@ + decimal(index),
                    fields: part_fields(alternative, schemas),
                    primitive_type: None,
                },
            },
        ),
    }
}

/// The models that an alternative contributes.
pub open spec fn models_of_alternative(
    alternative: RefOrView<SchemaView>,
    schemas: Seq<(Seq<char>, RefOrView<SchemaView>)>,
) -> Seq<ModelTypeView> {
    match alternative {
        RefOrView::Reference { reference } => match referenced_schema(reference, schemas) {
            Some(RefOrView::Item(schema)) => if schema.schema_kind is OneOf {
                Seq::empty()
            } else {
                part_models(RefOrView::Item(schema), schemas)
            },
            _ => Seq::empty(),
        },
        RefOrView::Item(schema) => match schema.schema_kind {
            SchemaShapeView::Type(SchemaTypeView::String(_)) => Seq::empty(),
            SchemaShapeView::Type(SchemaTypeView::Integer(_)) => Seq::empty(),
            SchemaShapeView::Type(SchemaTypeView::Number) => Seq::empty(),
            SchemaShapeView::Type(SchemaTypeView::Boolean) => Seq::empty(),
            _ => part_models(alternative, schemas),
        },
    }
}

/// The variants for some alternatives, in order.
pub open spec fn variants_of(
    alternatives: Seq<RefOrView<SchemaView>>,
    schemas: Seq<(Seq<char>, RefOrView<SchemaView>)>,
) -> Seq<UnionVariantView>
    decreases alternatives.len(),
{
    if alternatives.len() == 0 {
        Seq::empty()
    } else {
        let before = variants_of(alternatives.drop_last(), schemas);
        match variant_of(alternatives.last(), alternatives.len() - 1, schemas) {
            Some(variant) => before.push(variant),
            None => before,
        }
    }
}

/// The models that some alternatives contribute, in order.
pub open spec fn models_of_alternatives(
    alternatives: Seq<RefOrView<SchemaView>>,
    schemas: Seq<(Seq<char>, RefOrView<SchemaView>)>,
) -> Seq<ModelTypeView>
    decreases alternatives.len(),
{
    if alternatives.len() == 0 {
        Seq::empty()
    } else {
        models_of_alternatives(alternatives.drop_last(), schemas) + models_of_alternative(
            alternatives.last(),
            schemas,
        )
    }
}

/// The variants of a union with the given name: none where one enumeration takes their place.
pub open spec fn union_variants(
    alternatives: Seq<RefOrView<SchemaView>>,
    schemas: Seq<(Seq<char>, RefOrView<SchemaView>)>,
) -> Seq<UnionVariantView> {
    if is_simple_enum(alternatives, schemas) {
        Seq::empty()
    } else {
        variants_of(alternatives, schemas)
    }
}

/// The models that a union with the given name needs: one enumeration where its alternatives
/// are no more than a list of values, and what they contribute otherwise.
pub open spec fn union_models(
    name: Seq<char>,
    alternatives: Seq<RefOrView<SchemaView>>,
    schemas: Seq<(Seq<char>, RefOrView<SchemaView>)>,
) -> Seq<ModelTypeView> {
    if is_simple_enum(alternatives, schemas) {
        seq![
            ModelTypeView::Enum(
                EnumModelView {
                    name: pascal_case(name),
                    variants: pascal_all(union_values(alternatives, schemas)),
                    description: None,
                    custom_attrs: None,
                },
            ),
        ]
    } else {
        models_of_alternatives(alternatives, schemas)
    }
}

fn collect_values(
    alternative: &RefOr<SchemaDef>,
    all_schemas: &Vec<(String, RefOr<SchemaDef>)>,
) -> (r: Option<Vec<String>>)
    ensures
        r.deep_view() == listed_values(alternative.deep_view(), all_schemas.deep_view()),
{
    match resolve(alternative, all_schemas) {
        None => None,
        Some(RefOr::Item(schema)) => match &schema.schema_kind {
            SchemaShape::Type(SchemaType::String(s)) => {
                if s.enumeration.len() > 0 {
                    Some(collect_texts(&s.enumeration))
                } else {
                    None
                }
            },
            SchemaShape::Type(SchemaType::Integer(n)) => {
                if n.enumeration.len() > 0 {
                    Some(collect_numbers(&n.enumeration))
                } else {
                    None
                }
            },
            _ => None,
        },
        Some(RefOr::Reference { reference }) => match find_schema(
            reference.as_str(),
            all_schemas,
        ) {
            Some(RefOr::Item(inner)) => match &inner.schema_kind {
                SchemaShape::Type(SchemaType::String(s)) => Some(collect_texts(&s.enumeration)),
                _ => None,
            },
            _ => {
                let none: Vec<String> = Vec::new();
                assert(none.deep_view() =~= Seq::<Seq<char>>::empty());
                Some(none)
            },
        },
    }
}

/// Collects the values that the alternatives list, if they are no more than a list of values.
fn collect_simple_enum(
    alternatives: &Vec<RefOr<SchemaDef>>,
    all_schemas: &Vec<(String, RefOr<SchemaDef>)>,
) -> (r: Option<Vec<String>>)
    ensures
        match r {
            Some(values) => is_simple_enum(
                alternatives.deep_view(),
                all_schemas.deep_view(),
            ) && values.deep_view()
                == union_values(alternatives.deep_view(), all_schemas.deep_view()),
            None => !is_simple_enum(alternatives.deep_view(), all_schemas.deep_view()),
        },
{
    let mut values: Vec<String> = Vec::new();
    for i in 0..alternatives.len()
        invariant
            all_list_values(alternatives.deep_view().take(i as int), all_schemas.deep_view()),
            values.deep_view() == union_values(
                alternatives.deep_view().take(i as int),
                all_schemas.deep_view(),
            ),
    {
        assert(alternatives.deep_view().take(i + 1).drop_last() =~= alternatives.deep_view().take(
            i as int,
        ));
        match collect_values(&alternatives[i], all_schemas) {
            None => {
                assert(alternatives.deep_view()[i as int] == alternatives[i as int].deep_view());
                return None;
            },
            Some(more) => {
                let ghost before = values.deep_view();
                let ghost added = more.deep_view();
                for text in it: more
                    invariant
                        it.seq() == more@,
                        added == more.deep_view(),
                        values.deep_view() == with_texts(before, added.take(it.index())),
                {
                    assert(added.take(it.index() + 1).drop_last() =~= added.take(it.index()));
                    assert(added[it.index()] == text@);
                    add_text(&mut values, text);
                }
                assert(added.take(added.len() as int) =~= added);
                assert forall|k: int| 0 <= k < i + 1 implies listed_values(
                    #[trigger] alternatives.deep_view().take(i + 1)[k],
                    all_schemas.deep_view(),
                ) is Some by {
                    if k < i {
                        assert(alternatives.deep_view().take(
                            i as int,
                        )[k] == alternatives.deep_view().take(i + 1)[k]);
                    }
                }
            },
        }
    }
    assert(alternatives.deep_view().take(alternatives.len() as int) =~= alternatives.deep_view());
    if values.len() == 0 {
        None
    } else {
        Some(values)
    }
}

fn make_primitive_variant(name: &str, primitive_type: &str) -> (r: UnionVariant)
    ensures
        r.deep_view() == primitive_variant(name@, primitive_type@),
{
    let r = UnionVariant {
        name: name.to_string(),
        fields: Vec::new(),
        primitive_type: Some(primitive_type.to_string()),
    };
    assert(r.deep_view() =~= primitive_variant(name@, primitive_type@));
    r
}

fn make_variant(
    alternative: &RefOr<SchemaDef>,
    index: usize,
    all_schemas: &Vec<(String, RefOr<SchemaDef>)>,
) -> (r: (Option<UnionVariant>, Vec<ModelType>))
    ensures
        r.0.deep_view() == variant_of(
            alternative.deep_view(),
            index as int,
            all_schemas.deep_view(),
        ),
        r.1.deep_view() == models_of_alternative(alternative.deep_view(), all_schemas.deep_view()),
{
    let none: Vec<ModelType> = Vec::new();
    assert(none.deep_view() =~= Seq::<ModelTypeView>::empty());
    match alternative {
        RefOr::Reference { reference } => {
            if let Some(schema_name) = strip_prefix(reference.as_str(), "#/components/schemas/") {
                if let Some(target) = find_entry(all_schemas, schema_name) {
                    if let RefOr::Item(schema) = target {
                        let name = to_pascal_case(schema_name);
                        let (fields, models) = match &schema.schema_kind {
                            SchemaShape::OneOf { .. } => (Vec::new(), none),
                            _ => extract_fields_from_schema(target, all_schemas),
                        };
                        let variant = UnionVariant { name, fields, primitive_type: None };
                        assert(variant.deep_view() =~= variant_of(
                            alternative.deep_view(),
                            index as int,
                            all_schemas.deep_view(),
                        )->0);
                        return (Some(variant), models);
                    }
                }
            }
            (None, none)
        },
        RefOr::Item(schema) => match &schema.schema_kind {
            SchemaShape::Type(SchemaType::String(_)) => (
                Some(make_primitive_variant("String", "String")),
                none,
            ),
            SchemaShape::Type(SchemaType::Integer(_)) => (
                Some(make_primitive_variant("Integer", "i64")),
                none,
            ),
            SchemaShape::Type(SchemaType::Number) => (Some(
                make_primitive_variant("Number", "f64"),
            ), none),
            SchemaShape::Type(SchemaType::Boolean) => (
                Some(make_primitive_variant("Boolean", "Boolean")),
                none,
            ),
            _ => {
                let (fields, models) = extract_fields_from_schema(alternative, all_schemas);
                let name = concat2("Variant", decimal_text(index as i128).as_str());
                (Some(UnionVariant { name, fields, primitive_type: None }), models)
            },
        },
    }
}

/// Turns the alternatives of a union into its variants, and collects the models that it needs.
pub fn resolve_union_variants(
    name: &str,
    alternatives: &Vec<RefOr<SchemaDef>>,
    all_schemas: &Vec<(String, RefOr<SchemaDef>)>,
) -> (r: (Vec<UnionVariant>, Vec<ModelType>))
    ensures
        r.0.deep_view() == union_variants(alternatives.deep_view(), all_schemas.deep_view()),
        r.1.deep_view() == union_models(name@, alternatives.deep_view(), all_schemas.deep_view()),
{
    let mut variants: Vec<UnionVariant> = Vec::new();
    let mut models: Vec<ModelType> = Vec::new();
    if let Some(values) = collect_simple_enum(alternatives, all_schemas) {
        models.push(
            ModelType::Enum(
                EnumModel {
                    name: to_pascal_case(name),
                    variants: to_pascal_all(&values),
                    description: None,
                    custom_attrs: None,
                },
            ),
        );
        assert(variants.deep_view() =~= union_variants(
            alternatives.deep_view(),
            all_schemas.deep_view(),
        ));
        assert(models.deep_view() =~= union_models(
            name@,
            alternatives.deep_view(),
            all_schemas.deep_view(),
        ));
        return (variants, models);
    }
    for i in 0..alternatives.len()
        invariant
            variants.deep_view() == variants_of(
                alternatives.deep_view().take(i as int),
                all_schemas.deep_view(),
            ),
            models.deep_view() == models_of_alternatives(
                alternatives.deep_view().take(i as int),
                all_schemas.deep_view(),
            ),
    {
        assert(alternatives.deep_view().take(i + 1).drop_last() =~= alternatives.deep_view().take(
            i as int,
        ));
        let ghost variants_before = variants.deep_view();
        let ghost models_before = models.deep_view();
        let (variant, mut more) = make_variant(&alternatives[i], i, all_schemas);
        if let Some(variant) = variant {
            variants.push(variant);
            assert(variants.deep_view() =~= variants_before.push(variant.deep_view()));
        }
        let ghost added = more.deep_view();
        models.append(&mut more);
        assert(models.deep_view() =~= models_before + added);
    }
    assert(alternatives.deep_view().take(alternatives.len() as int) =~= alternatives.deep_view());
    (variants, models)
}

} // verus!
