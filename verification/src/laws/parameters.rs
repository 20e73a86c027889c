//! What holds of query parameters and of the fields that they become.
use crate::laws::fields::{allows_null, is_object, schema_behind};
use crate::models::FieldView;
use crate::openapi::lookup;
use crate::openapi::view::{ParameterInfoView, ParameterView, RefOrView, SchemaView};
use crate::parser::laws::law_later_parameters_override;
use crate::parser::parameters::{
    component_name, lemma_query_parameters_of_both, operation_parameters, overridden,
    parameter_names, query_field, query_fields, query_parameters, resolved_parameter,
};
use crate::parser::types::{custom_attrs, type_and_format};
use crate::slots::{lemma_position_of, position_of};
use crate::text::pascal_case;
use vstd::prelude::*;

verus! {

/// Whether the schema in place, or the one that a reference names, is an object with properties.
pub open spec fn holds_properties(
    schema: RefOrView<SchemaView>,
    schemas: Seq<(Seq<char>, RefOrView<SchemaView>)>,
) -> bool {
    schema_behind(schema, schemas) matches Some(s) && is_object(s)
        && s.schema_kind->Type_0->Object_0.properties.len() > 0
}

/// A parameter in place stands for itself and has no declared name. A reference to
/// `#/components/parameters/` stands for the parameter that is declared in place under the rest
/// of it, which is its declared name; any other reference stands for nothing.
pub proof fn law_references_to_parameters(
    parameter: RefOrView<ParameterView>,
    name: Seq<char>,
    parameters: Seq<(Seq<char>, RefOrView<ParameterView>)>,
)
    ensures
        parameter matches RefOrView::Item(p) ==> resolved_parameter(parameter, parameters) == Some(
            p,
        ) && component_name(parameter) is None,
        parameter is Reference && parameter->reference == "#/components/parameters/"@ + name ==> {
            &&& component_name(parameter) == Some(name)
            &&& match lookup(parameters, name) {
                Some(RefOrView::Item(p)) => resolved_parameter(parameter, parameters) == Some(p),
                _ => resolved_parameter(parameter, parameters) is None,
            }
        },
        parameter is Reference && !"#/components/parameters/"@.is_prefix_of(parameter->reference)
            ==> resolved_parameter(parameter, parameters) is None,
{
    let prefix = "#/components/parameters/"@;
    assert((prefix + name).take(prefix.len() as int) =~= prefix);
    assert((prefix + name).skip(prefix.len() as int) =~= name);
}

/// The query parameters of two lists, one behind the other, are those of the one and then those
/// of the other. A parameter is taken, with its declared name, exactly where it stands in the
/// query.
pub proof fn law_query_parameters(
    first: Seq<RefOrView<ParameterView>>,
    second: Seq<RefOrView<ParameterView>>,
    parameters: Seq<(Seq<char>, RefOrView<ParameterView>)>,
)
    ensures
        query_parameters(first + second, parameters) == query_parameters(first, parameters)
            + query_parameters(second, parameters),
        first.len() == 0 ==> query_parameters(first, parameters).len() == 0,
        first.len() == 1 ==> match resolved_parameter(first[0], parameters) {
            Some(p) => if p.location is Query {
                query_parameters(first, parameters) == seq![(p, component_name(first[0]))]
            } else {
                query_parameters(first, parameters).len() == 0
            },
            None => query_parameters(first, parameters).len() == 0,
        },
{
    lemma_query_parameters_of_both(first, second, parameters);
    if first.len() == 1 {
        assert(query_parameters(first.drop_last(), parameters) =~= Seq::empty());
        if let Some(p) = resolved_parameter(first[0], parameters) {
            if p.location is Query {
                assert(query_parameters(first, parameters) =~= seq![(p, component_name(first[0]))]);
            }
        }
    }
}

/// One more query parameter takes the place of the one with its name, and stands behind the
/// others where there is none.
pub proof fn law_one_more_query_parameter(
    list: Seq<(ParameterView, Option<Seq<char>>)>,
    parameter: (ParameterView, Option<Seq<char>>),
    i: int,
)
    ensures
        overridden(Seq::empty()).len() == 0,
        0 <= i < overridden(list).len() ==> {
            &&& overridden(list.push(parameter)).len() >= overridden(list).len()
            &&& overridden(list.push(parameter))[i] == if overridden(
                list,
            )[i].0.parameter_data.name == parameter.0.parameter_data.name {
                parameter
            } else {
                overridden(list)[i]
            }
        },
        (forall|k: int|
            0 <= k < overridden(list).len() ==> (#[trigger] overridden(
                list,
            )[k]).0.parameter_data.name != parameter.0.parameter_data.name) ==> overridden(
            list.push(parameter),
        ) == overridden(list).push(parameter),
        0 <= i < overridden(list).len() && overridden(list)[i].0.parameter_data.name
            == parameter.0.parameter_data.name ==> overridden(list.push(parameter)).len()
            == overridden(list).len(),
{
    law_later_parameters_override(list);
    assert(list.push(parameter).drop_last() =~= list);
    let before = overridden(list);
    let names = parameter_names(before);
    let name = parameter.0.parameter_data.name;
    lemma_position_of(names, name);
    if let Some(p) = position_of(names, name) {
        assert(names[p] == before[p].0.parameter_data.name);
        if 0 <= i < before.len() {
            assert(names[i] == before[i].0.parameter_data.name);
        }
    } else if 0 <= i < before.len() {
        assert(names[i] == before[i].0.parameter_data.name);
    }
}

/// An operation takes the query parameters of its path, and then its own over them.
pub proof fn law_parameters_of_an_operation(
    path_parameters: Seq<RefOrView<ParameterView>>,
    own_parameters: Seq<RefOrView<ParameterView>>,
    parameters: Seq<(Seq<char>, RefOrView<ParameterView>)>,
)
    ensures
        operation_parameters(path_parameters, own_parameters, parameters) == overridden(
            query_parameters(path_parameters, parameters) + query_parameters(
                own_parameters,
                parameters,
            ),
        ),
{
    lemma_query_parameters_of_both(path_parameters, own_parameters, parameters);
}

/// Whether a field is what a query parameter becomes. The structure of its schema stands in its
/// place where that is an object with properties, or where both the parameter and its schema
/// are given by reference: it is then required and not null. Anywhere else it has the type of
/// the schema, is required exactly where the parameter is, and null where the schema allows it.
pub open spec fn is_query_field_of(
    field: FieldView,
    data: ParameterInfoView,
    declared_name: Option<Seq<char>>,
    schema: RefOrView<SchemaView>,
    schemas: Seq<(Seq<char>, RefOrView<SchemaView>)>,
) -> bool {
    &&& field.name == data.name
    &&& field.description == data.description
    &&& field.format.len() == 0
    &&& !field.is_array_ref
    &&& schema_behind(schema, schemas) matches Some(s) ==> field.custom_attrs == custom_attrs(s)
    &&& schema_behind(schema, schemas) is None ==> field.custom_attrs is None
    &&& field.flatten <==> holds_properties(schema, schemas) || (schema is Reference
        && declared_name is Some)
    &&& !field.flatten ==> {
        &&& field.field_type == type_and_format(schema, schemas).0
        &&& field.is_required <==> data.required
        &&& field.is_nullable <==> allows_null(schema, schemas)
    }
    &&& field.flatten ==> {
        &&& field.is_required
        &&& !field.is_nullable
        &&& declared_name matches Some(name) ==> field.field_type == pascal_case(name)
        &&& declared_name is None ==> field.field_type == pascal_case(data.name) + "Param"@
    }
}

/// The field that a query parameter becomes has its name and description, and its type, whether
/// it is required and whether it may be null follow from the parameter and its schema.
pub proof fn law_query_field(
    data: ParameterInfoView,
    declared_name: Option<Seq<char>>,
    schema: RefOrView<SchemaView>,
    schemas: Seq<(Seq<char>, RefOrView<SchemaView>)>,
)
    ensures
        is_query_field_of(
            query_field(data, declared_name, schema, schemas),
            data,
            declared_name,
            schema,
            schemas,
        ),
{
}

/// The fields of two lists of query parameters, one behind the other, are those of the one and
/// then those of the other. A parameter with a schema becomes one field, and one that holds
/// content becomes none.
pub proof fn law_query_fields(
    first: Seq<(ParameterView, Option<Seq<char>>)>,
    second: Seq<(ParameterView, Option<Seq<char>>)>,
    schemas: Seq<(Seq<char>, RefOrView<SchemaView>)>,
)
    ensures
        query_fields(first + second, schemas) == query_fields(first, schemas) + query_fields(
            second,
            schemas,
        ),
        first.len() == 0 ==> query_fields(first, schemas).len() == 0,
        first.len() == 1 && first[0].0.parameter_data.format is Content ==> query_fields(
            first,
            schemas,
        ).len() == 0,
        first.len() == 1 && first[0].0.parameter_data.format is Schema ==> {
            &&& query_fields(first, schemas).len() == 1
            &&& is_query_field_of(
                query_fields(first, schemas)[0],
                first[0].0.parameter_data,
                first[0].1,
                first[0].0.parameter_data.format->Schema_0,
                schemas,
            )
        },
    decreases second.len(),
{
    if first.len() == 1 {
        assert(query_fields(first.drop_last(), schemas) =~= Seq::empty());
    }
    if second.len() == 0 {
        assert(first + second =~= first);
        assert(query_fields(second, schemas) =~= Seq::empty());
        assert(query_fields(first, schemas) + query_fields(second, schemas) =~= query_fields(
            first,
            schemas,
        ));
    } else {
        assert((first + second).drop_last() =~= first + second.drop_last());
        law_query_fields(first, second.drop_last(), schemas);
        assert(query_fields(first + second, schemas) =~= query_fields(first, schemas)
            + query_fields(second, schemas));
    }
}

} // verus!
