//! What a schema says of a value's Rust type, and of the attributes that it is to carry.
use crate::json::{lemma_json_view, Json, JsonView};
use crate::openapi::view::{
    lemma_schema_view, RefOrView, SchemaShapeView, SchemaTypeView, SchemaView, TextFormatView,
};
use crate::openapi::{
    find_entry, lookup, KnownFormat, RefOr, SchemaDef, SchemaShape, SchemaType, StringType,
    TextFormat,
};
use crate::text::{
    after_last_slash, last_segment, pascal_case, same_text, to_lowercase, to_pascal_case,
    unicode_lower,
};
use vstd::prelude::*;

verus! {

broadcast use lemma_schema_view;

/// The key of the extension that names a Rust type.
pub const X_RUST_TYPE: &'static str = "x-rust-type";

/// The key of the extension that lists Rust attributes.
pub const X_RUST_ATTRS: &'static str = "x-rust-attrs";

/// The texts among some JSON values, in order.
pub open spec fn texts(items: Seq<JsonView>) -> Seq<Seq<char>>
    decreases items.len(),
{
    if items.len() == 0 {
        Seq::empty()
    } else {
        match items.last() {
            JsonView::Text(s) => texts(items.drop_last()).push(s),
            _ => texts(items.drop_last()),
        }
    }
}

/// The attributes that a schema asks for: the texts in its `x-rust-attrs` list, if there are any.
pub open spec fn custom_attrs(schema: SchemaView) -> Option<Seq<Seq<char>>> {
    match lookup(schema.schema_data.extensions, "x-rust-attrs"@) {
        Some(JsonView::Array(items)) => if texts(items).len() == 0 {
            None
        } else {
            Some(texts(items))
        },
        _ => None,
    }
}

/// Extracts the attributes that a schema asks for.
pub fn extract_custom_attrs(schema: &SchemaDef) -> (r: Option<Vec<String>>)
    ensures
        r.deep_view() == custom_attrs(schema.deep_view()),
{
    match find_entry(&schema.schema_data.extensions, X_RUST_ATTRS) {
        Some(Json::Array(items)) => {
            let ghost whole = items.deep_view();
            proof {
                lemma_json_view(Json::Array(*items));
            }
            let mut attrs: Vec<String> = Vec::new();
            for i in 0..items.len()
                invariant
                    whole == items.deep_view(),
                    attrs.deep_view() == texts(whole.take(i as int)),
            {
                assert(whole.take(i + 1).drop_last() =~= whole.take(i as int));
                if let Json::Text(s) = &items[i] {
                    attrs.push(s.clone());
                    assert(attrs.deep_view() =~= texts(whole.take(i as int)).push(s@));
                }
            }
            assert(whole.take(items.len() as int) =~= whole);
            if attrs.len() == 0 {
                None
            } else {
                Some(attrs)
            }
        },
        _ => None,
    }
}

/// The Rust type that a schema names outright with `x-rust-type`.
pub open spec fn rust_type(schema: SchemaView) -> Option<Seq<char>> {
    match lookup(schema.schema_data.extensions, "x-rust-type"@) {
        Some(JsonView::Text(s)) => Some(s),
        _ => None,
    }
}

/// Reads the Rust type that a schema names outright.
pub(crate) fn extract_rust_type(schema: &SchemaDef) -> (r: Option<String>)
    ensures
        r.deep_view() == rust_type(schema.deep_view()),
{
    match find_entry(&schema.schema_data.extensions, X_RUST_TYPE) {
        Some(Json::Text(s)) => Some(s.clone()),
        _ => None,
    }
}

/// The name of a format, as it is written in Rust.
pub open spec fn format_name(format: KnownFormat) -> Seq<char> {
    match format {
        KnownFormat::Date => "Date"@,
        KnownFormat::DateTime => "DateTime"@,
        KnownFormat::Password => "Password"@,
        KnownFormat::Byte => "Byte"@,
        KnownFormat::Binary => "Binary"@,
    }
}

/// The type and the format of a string.
pub open spec fn text_type(format: TextFormatView) -> (Seq<char>, Seq<char>) {
    match format {
        TextFormatView::Item(KnownFormat::DateTime) => ("DateTime<Utc>"@, "date-time"@),
        TextFormatView::Item(KnownFormat::Date) => ("NaiveDate"@, "date"@),
        TextFormatView::Item(f) => ("String"@, format_name(f)),
        TextFormatView::Unknown(name) => if unicode_lower(name) == "uuid"@ {
            ("Uuid"@, "uuid"@)
        } else {
            ("String"@, name)
        },
        TextFormatView::Empty => ("String"@, "string"@),
    }
}

/// Whether a name stands for a schema that is a choice between alternatives.
pub open spec fn names_one_of(
    name: Seq<char>,
    schemas: Seq<(Seq<char>, RefOrView<SchemaView>)>,
) -> bool {
    lookup(schemas, name) matches Some(RefOrView::Item(schema)) && schema.schema_kind is OneOf
}

/// The type and the format of a value of the given schema. An array has those of its items.
pub open spec fn type_and_format(
    schema: RefOrView<SchemaView>,
    schemas: Seq<(Seq<char>, RefOrView<SchemaView>)>,
) -> (Seq<char>, Seq<char>)
    decreases schema,
{
    match schema {
        RefOrView::Reference { reference } => (
            pascal_case(last_segment(reference)),
            if names_one_of(last_segment(reference), schemas) {
                "oneOf"@
            } else {
                "reference"@
            },
        ),
        RefOrView::Item(schema) => match schema.schema_kind {
            SchemaShapeView::Type(SchemaTypeView::String(s)) => text_type(s.format),
            SchemaShapeView::Type(SchemaTypeView::Integer(_)) => ("i64"@, "integer"@),
            SchemaShapeView::Type(SchemaTypeView::Number) => ("f64"@, "number"@),
            SchemaShapeView::Type(SchemaTypeView::Boolean) => ("bool"@, "boolean"@),
            SchemaShapeView::Type(SchemaTypeView::Array(array)) => match array.items {
                Some(items) => type_and_format(*items, schemas),
                None => ("serde_json::Value"@, "array"@),
            },
            SchemaShapeView::Type(SchemaTypeView::Object(_)) => ("serde_json::Value"@, "object"@),
            SchemaShapeView::AllOf { all_of } => if all_of.len() == 1 {
                type_and_format(all_of[0], schemas)
            } else {
                ("serde_json::Value"@, "unknown"@)
            },
            _ => ("serde_json::Value"@, "unknown"@),
        },
    }
}

fn texts_of(field_type: &str, format: &str) -> (r: (String, String))
    ensures
        r.0@ == field_type@,
        r.1@ == format@,
{
    (field_type.to_string(), format.to_string())
}

fn extract_text_type(string_type: &StringType) -> (r: (String, String))
    ensures
        (r.0@, r.1@) == text_type(string_type.format.deep_view()),
{
    match &string_type.format {
        TextFormat::Item(KnownFormat::DateTime) => texts_of("DateTime<Utc>", "date-time"),
        TextFormat::Item(KnownFormat::Date) => texts_of("NaiveDate", "date"),
        TextFormat::Item(KnownFormat::Password) => texts_of("String", "Password"),
        TextFormat::Item(KnownFormat::Byte) => texts_of("String", "Byte"),
        TextFormat::Item(KnownFormat::Binary) => texts_of("String", "Binary"),
        TextFormat::Unknown(name) => {
            if same_text(to_lowercase(name.as_str()).as_str(), "uuid") {
                texts_of("Uuid", "uuid")
            } else {
                texts_of("String", name.as_str())
            }
        },
        TextFormat::Empty => texts_of("String", "string"),
    }
}

/// Extracts the type and the format of a value of the given schema.
pub fn extract_type_and_format(
    schema: &RefOr<SchemaDef>,
    all_schemas: &Vec<(String, RefOr<SchemaDef>)>,
) -> (r: (String, String))
    ensures
        (r.0@, r.1@) == type_and_format(schema.deep_view(), all_schemas.deep_view()),
    decreases *schema,
{
    match schema {
        RefOr::Reference { reference } => {
            let target = after_last_slash(reference.as_str());
            let format = match find_entry(all_schemas, target.as_str()) {
                Some(RefOr::Item(
                    SchemaDef { schema_kind: SchemaShape::OneOf { .. }, .. },
                )) => "oneOf",
                _ => "reference",
            };
            (to_pascal_case(target.as_str()), format.to_string())
        },
        RefOr::Item(schema) => match &schema.schema_kind {
            SchemaShape::Type(SchemaType::String(string_type)) => extract_text_type(string_type),
            SchemaShape::Type(SchemaType::Integer(_)) => texts_of("i64", "integer"),
            SchemaShape::Type(SchemaType::Number) => texts_of("f64", "number"),
            SchemaShape::Type(SchemaType::Boolean) => texts_of("bool", "boolean"),
            SchemaShape::Type(SchemaType::Array(array)) => match &array.items {
                Some(items) => extract_type_and_format(items, all_schemas),
                None => texts_of("serde_json::Value", "array"),
            },
            SchemaShape::Type(SchemaType::Object(_)) => texts_of("serde_json::Value", "object"),
            SchemaShape::AllOf { all_of } => {
                if all_of.len() == 1 {
                    extract_type_and_format(&all_of[0], all_schemas)
                } else {
                    texts_of("serde_json::Value", "unknown")
                }
            },
            _ => texts_of("serde_json::Value", "unknown"),
        },
    }
}

} // verus!
