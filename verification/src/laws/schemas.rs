//! What holds of the models of strings, arrays and of schemas that have none.
use crate::laws::fields::{is_alias, is_array, is_enumeration, lists_strings};
use crate::laws::unions::lists_integers;
use crate::models::UnionType;
use crate::openapi::view::{RefOrView, SchemaView};
use crate::parser::fields::{listed_numbers, listed_texts};
use crate::parser::schemas::model_types;
use crate::parser::types::{custom_attrs, rust_type, type_and_format};
use crate::parser::unions::{union_models, union_variants};
use crate::text::pascal_case;
use vstd::prelude::*;

verus! {

/// A schema that names a type outright is another name for it, whatever else it says; a
/// reference, a number, a boolean and what says nothing of its values have no model.
pub proof fn law_schemas_without_structure(
    name: Seq<char>,
    schema: RefOrView<SchemaView>,
    schemas: Seq<(Seq<char>, RefOrView<SchemaView>)>,
)
    ensures
        schema is Reference ==> model_types(name, schema, schemas).len() == 0,
        schema matches RefOrView::Item(s) ==> {
            let models = model_types(name, schema, schemas);
            &&& rust_type(s) matches Some(t) ==> models.len() == 1 && is_alias(
                models[0],
                pascal_case(name),
                t,
                s,
            )
            &&& rust_type(s) is None && (s.schema_kind is Not || s.schema_kind is Any
                || s.schema_kind is Type && (s.schema_kind->Type_0 is Integer
                || s.schema_kind->Type_0 is Number || s.schema_kind->Type_0 is Boolean))
                ==> models.len() == 0
        },
{
}

/// A string that lists values becomes the enumeration of them, as they are and in their order,
/// and one that lists none has no model.
pub proof fn law_models_of_a_string(
    name: Seq<char>,
    schema: SchemaView,
    schemas: Seq<(Seq<char>, RefOrView<SchemaView>)>,
)
    requires
        schema.schema_kind is Type,
        schema.schema_kind->Type_0 is String,
        rust_type(schema) is None,
    ensures
        ({
            let listed = listed_texts(schema.schema_kind->Type_0->String_0.enumeration);
            let models = model_types(name, RefOrView::Item(schema), schemas);
            if listed.len() > 0 {
                models.len() == 1 && is_enumeration(models[0], pascal_case(name), listed, schema)
            } else {
                models.len() == 0
            }
        }),
{
}

/// An array becomes another name for a vector of its items. Where these are written in place
/// and are a `oneOf` or list values, the vector is of a type called after the array with `Item`
/// behind, whose models come first; and else of the type of the items. An array that says
/// nothing of its items has no model.
pub proof fn law_models_of_an_array(
    name: Seq<char>,
    schema: SchemaView,
    schemas: Seq<(Seq<char>, RefOrView<SchemaView>)>,
)
    requires
        is_array(schema),
        rust_type(schema) is None,
    ensures
        ({
            let models = model_types(name, RefOrView::Item(schema), schemas);
            let item_name = pascal_case(name) + "Item"@;
            match schema.schema_kind->Type_0->Array_0.items {
                None => models.len() == 0,
                Some(items) => if *items is Item && items->Item_0.schema_kind is OneOf {
                    let item = items->Item_0;
                    let inner = models.drop_last();
                    let alternatives = item.schema_kind->one_of;
                    &&& models.len() > 1
                    &&& is_alias(
                        models.last(),
                        pascal_case(name),
                        "Vec<"@ + item_name + ">"@,
                        schema,
                    )
                    &&& inner.drop_last() == union_models(item_name, alternatives, schemas)
                    &&& inner.last() is Union
                    &&& inner.last()->Union_0.name == item_name
                    &&& inner.last()->Union_0.variants == union_variants(alternatives, schemas)
                    &&& inner.last()->Union_0.union_type == UnionType::OneOf
                    &&& inner.last()->Union_0.custom_attrs == custom_attrs(item)
                } else if *items is Item && lists_strings(items->Item_0) {
                    let item = items->Item_0;
                    &&& models.len() == 2
                    &&& is_enumeration(
                        models[0],
                        item_name,
                        listed_texts(item.schema_kind->Type_0->String_0.enumeration),
                        item,
                    )
                    &&& is_alias(models[1], pascal_case(name), "Vec<"@ + item_name + ">"@, schema)
                } else if *items is Item && lists_integers(items->Item_0) {
                    let item = items->Item_0;
                    &&& models.len() == 2
                    &&& is_enumeration(
                        models[0],
                        item_name,
                        listed_numbers(item.schema_kind->Type_0->Integer_0.enumeration),
                        item,
                    )
                    &&& is_alias(models[1], pascal_case(name), "Vec<"@ + item_name + ">"@, schema)
                } else {
                    &&& models.len() == 1
                    &&& is_alias(
                        models[0],
                        pascal_case(name),
                        "Vec<"@ + type_and_format(*items, schemas).0 + ">"@,
                        schema,
                    )
                },
            }
        }),
{
    let models = model_types(name, RefOrView::Item(schema), schemas);
    let item_name = pascal_case(name) + "Item"@;
    if let Some(items) = schema.schema_kind->Type_0->Array_0.items {
        if *items is Item && items->Item_0.schema_kind is OneOf {
            let alternatives = items->Item_0.schema_kind->one_of;
            assert(models.drop_last().drop_last() =~= union_models(
                item_name,
                alternatives,
                schemas,
            ));
        }
    }
}

} // verus!
