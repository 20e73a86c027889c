//! What holds of the types and formats of schemas, and of what their extensions ask for.
use crate::json::JsonView;
use crate::laws::text::law_last_segment;
use crate::openapi::view::{
    RefOrView, SchemaShapeView, SchemaTypeView, SchemaView, TextFormatView,
};
use crate::openapi::{lookup, KnownFormat};
use crate::parser::types::{custom_attrs, rust_type, texts, type_and_format};
use crate::text::{pascal_case, unicode_lower};
use vstd::prelude::*;

verus! {

/// Whether the schema that is declared under a name is a `oneOf`.
pub open spec fn declares_one_of(
    schemas: Seq<(Seq<char>, RefOrView<SchemaView>)>,
    name: Seq<char>,
) -> bool {
    lookup(schemas, name) matches Some(RefOrView::Item(s)) && s.schema_kind is OneOf
}

/// A reference has the PascalCase of what follows its last slash as its type, and as its format
/// `oneOf` where a `oneOf` is declared under that, and `reference` elsewhere.
pub proof fn law_type_of_a_reference(
    before: Seq<char>,
    name: Seq<char>,
    schemas: Seq<(Seq<char>, RefOrView<SchemaView>)>,
)
    requires
        !name.contains('/'),
    ensures
        type_and_format(
            RefOrView::Reference { reference: before + seq!['/'] + name },
            schemas,
        ).0 == pascal_case(name),
        type_and_format(RefOrView::Reference { reference: name }, schemas).0 == pascal_case(name),
        declares_one_of(schemas, name) ==> type_and_format(
            RefOrView::Reference { reference: before + seq!['/'] + name },
            schemas,
        ).1 == "oneOf"@,
        !declares_one_of(schemas, name) ==> type_and_format(
            RefOrView::Reference { reference: before + seq!['/'] + name },
            schemas,
        ).1 == "reference"@,
        type_and_format(RefOrView::Reference { reference: name }, schemas).1 == type_and_format(
            RefOrView::Reference { reference: before + seq!['/'] + name },
            schemas,
        ).1,
{
    law_last_segment(before, name);
}

/// An array has the type and the format of its items, whether these are written in place or
/// given by reference; one that says nothing of its items holds any value.
pub proof fn law_type_of_an_array(
    array: SchemaView,
    schemas: Seq<(Seq<char>, RefOrView<SchemaView>)>,
)
    requires
        array.schema_kind is Type,
        array.schema_kind->Type_0 is Array,
    ensures
        array.schema_kind->Type_0->Array_0.items matches Some(items) ==> type_and_format(
            RefOrView::Item(array),
            schemas,
        ) == type_and_format(*items, schemas),
        array.schema_kind->Type_0->Array_0.items is None ==> type_and_format(
            RefOrView::Item(array),
            schemas,
        ) == ("serde_json::Value"@, "array"@),
{
}

/// An array whose items are given by reference has the PascalCase of what follows the last slash
/// of the reference as its type, and as its format `oneOf` where a `oneOf` is declared under
/// that, and `reference` elsewhere.
pub proof fn law_type_of_an_array_of_references(
    array: SchemaView,
    before: Seq<char>,
    name: Seq<char>,
    schemas: Seq<(Seq<char>, RefOrView<SchemaView>)>,
)
    requires
        array.schema_kind is Type,
        array.schema_kind->Type_0 is Array,
        array.schema_kind->Type_0->Array_0.items is Some,
        *array.schema_kind->Type_0->Array_0.items->0 is Reference,
        array.schema_kind->Type_0->Array_0.items->0->reference == before + seq!['/'] + name,
        !name.contains('/'),
    ensures
        type_and_format(RefOrView::Item(array), schemas).0 == pascal_case(name),
        declares_one_of(schemas, name) ==> type_and_format(RefOrView::Item(array), schemas).1
            == "oneOf"@,
        !declares_one_of(schemas, name) ==> type_and_format(RefOrView::Item(array), schemas).1
            == "reference"@,
{
    law_type_of_a_reference(before, name, schemas);
}

/// An `allOf` of one part has the type and the format of that part.
pub proof fn law_type_of_an_all_of(
    schema: SchemaView,
    schemas: Seq<(Seq<char>, RefOrView<SchemaView>)>,
)
    requires
        schema.schema_kind is AllOf,
    ensures
        schema.schema_kind->all_of.len() == 1 ==> type_and_format(RefOrView::Item(schema), schemas)
            == type_and_format(schema.schema_kind->all_of[0], schemas),
        schema.schema_kind->all_of.len() != 1 ==> type_and_format(RefOrView::Item(schema), schemas)
            == ("serde_json::Value"@, "unknown"@),
{
}

/// The types and formats of numbers, booleans, objects and of what is no one type.
pub proof fn law_types_of_plain_schemas(
    schema: SchemaView,
    schemas: Seq<(Seq<char>, RefOrView<SchemaView>)>,
)
    ensures
        schema.schema_kind matches SchemaShapeView::Type(SchemaTypeView::Integer(_))
            ==> type_and_format(RefOrView::Item(schema), schemas) == ("i64"@, "integer"@),
        schema.schema_kind == SchemaShapeView::Type(SchemaTypeView::Number) ==> type_and_format(
            RefOrView::Item(schema),
            schemas,
        ) == ("f64"@, "number"@),
        schema.schema_kind == SchemaShapeView::Type(SchemaTypeView::Boolean) ==> type_and_format(
            RefOrView::Item(schema),
            schemas,
        ) == ("bool"@, "boolean"@),
        schema.schema_kind matches SchemaShapeView::Type(SchemaTypeView::Object(_))
            ==> type_and_format(RefOrView::Item(schema), schemas) == (
            "serde_json::Value"@,
            "object"@,
        ),
        schema.schema_kind is OneOf || schema.schema_kind is AnyOf || schema.schema_kind is Not
            || schema.schema_kind is Any ==> type_and_format(RefOrView::Item(schema), schemas) == (
            "serde_json::Value"@,
            "unknown"@,
        ),
{
}

/// The types and formats of strings: dates, times and identifiers have types of their own, and
/// any other string keeps the name of its format.
pub proof fn law_types_of_strings(
    schema: SchemaView,
    schemas: Seq<(Seq<char>, RefOrView<SchemaView>)>,
)
    requires
        schema.schema_kind is Type,
        schema.schema_kind->Type_0 is String,
    ensures
        ({
            let format = schema.schema_kind->Type_0->String_0.format;
            let r = type_and_format(RefOrView::Item(schema), schemas);
            &&& format == TextFormatView::Item(KnownFormat::DateTime) ==> r == (
                "DateTime<Utc>"@,
                "date-time"@,
            )
            &&& format == TextFormatView::Item(KnownFormat::Date) ==> r == ("NaiveDate"@, "date"@)
            &&& format == TextFormatView::Item(KnownFormat::Password) ==> r == (
                "String"@,
                "Password"@,
            )
            &&& format == TextFormatView::Item(KnownFormat::Byte) ==> r == ("String"@, "Byte"@)
            &&& format == TextFormatView::Item(KnownFormat::Binary) ==> r == ("String"@, "Binary"@)
            &&& format == TextFormatView::Empty ==> r == ("String"@, "string"@)
            &&& format matches TextFormatView::Unknown(written) ==> {
                &&& unicode_lower(written) == "uuid"@ ==> r == ("Uuid"@, "uuid"@)
                &&& unicode_lower(written) != "uuid"@ ==> r == ("String"@, written)
            }
        }),
{
}

/// The texts of two lists, one behind the other, are those of the one and then those of the
/// other. A text is taken as it is, and nothing else is taken.
pub proof fn law_texts(first: Seq<JsonView>, second: Seq<JsonView>)
    ensures
        texts(first + second) == texts(first) + texts(second),
        first.len() == 0 ==> texts(first).len() == 0,
        first.len() == 1 && first[0] is Text ==> texts(first) == seq![first[0]->Text_0],
        first.len() == 1 && !(first[0] is Text) ==> texts(first).len() == 0,
    decreases second.len(),
{
    if first.len() == 1 {
        assert(first.drop_last() =~= Seq::empty());
        assert(texts(first.drop_last()) =~= Seq::empty());
        if first[0] is Text {
            assert(texts(first) =~= seq![first[0]->Text_0]);
        }
    }
    if second.len() == 0 {
        assert(first + second =~= first);
        assert(texts(second) =~= Seq::empty());
        assert(texts(first) + texts(second) =~= texts(first));
    } else {
        assert((first + second).drop_last() =~= first + second.drop_last());
        law_texts(first, second.drop_last());
        assert(texts(first + second) =~= texts(first) + texts(second));
    }
}

/// The attributes of a schema are the texts in the list under its extension `x-rust-attrs`, and
/// the type that it names outright is the text under `x-rust-type`. Where there is no such list,
/// no text in it, or no such text, there are none.
pub proof fn law_extensions(schema: SchemaView)
    ensures
        lookup(schema.schema_data.extensions, "x-rust-attrs"@) matches Some(JsonView::Array(items))
            ==> {
            &&& texts(items).len() > 0 ==> custom_attrs(schema) == Some(texts(items))
            &&& texts(items).len() == 0 ==> custom_attrs(schema) is None
        },
        custom_attrs(schema) is Some ==> {
            &&& lookup(schema.schema_data.extensions, "x-rust-attrs"@) is Some
            &&& lookup(schema.schema_data.extensions, "x-rust-attrs"@)->0 is Array
        },
        lookup(schema.schema_data.extensions, "x-rust-type"@) matches Some(JsonView::Text(written))
            ==> rust_type(schema) == Some(written),
        rust_type(schema) matches Some(written) ==> lookup(
            schema.schema_data.extensions,
            "x-rust-type"@,
        ) == Some(JsonView::Text(written)),
{
}

} // verus!
