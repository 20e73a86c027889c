//! What holds of the models, requests and responses of a whole document.
use crate::laws::fields::{allows_null, schema_behind};
use crate::laws::parameters::holds_properties;
use crate::models::ModelTypeView;
use crate::openapi::view::{
    ComponentsView, DocumentView, MediaTypeView, OperationView, ParameterInfoView, ParameterView,
    PathItemView, RefOrView, RequestBodyView, SchemaView,
};
use crate::parser::laws::law_first_of_each_name;
use crate::parser::operations::{operation_models, operation_requests, operation_responses};
use crate::parser::schemas::model_types;
use crate::parser::types::{custom_attrs, type_and_format};
use crate::parser::{
    all_models, document_models, document_operations, document_requests, document_responses,
    first_of_each_name, has_model, models_of_bodies, models_of_body, models_of_operations,
    models_of_parameter, models_of_parameters, models_of_schemas, operations_of,
    requests_of_operations, responses_of_operations,
};
use crate::text::pascal_case;
use vstd::prelude::*;

verus! {

/// A model is called by its name, whatever it is.
pub proof fn law_names_of_models(model: ModelTypeView)
    ensures
        model matches ModelTypeView::Struct(m) ==> model.name() == m.name,
        model matches ModelTypeView::Union(m) ==> model.name() == m.name,
        model matches ModelTypeView::Composition(m) ==> model.name() == m.name,
        model matches ModelTypeView::Enum(m) ==> model.name() == m.name,
        model matches ModelTypeView::TypeAlias(m) ==> model.name() == m.name,
{
}

/// One more model is kept behind the others exactly where none of them has its name.
pub proof fn law_one_more_model(models: Seq<ModelTypeView>, model: ModelTypeView)
    ensures
        first_of_each_name(Seq::empty()).len() == 0,
        (forall|i: int| 0 <= i < models.len() ==> (#[trigger] models[i]).name() != model.name())
            ==> first_of_each_name(models.push(model)) == first_of_each_name(models).push(model),
        (exists|i: int| 0 <= i < models.len() && (#[trigger] models[i]).name() == model.name())
            ==> first_of_each_name(models.push(model)) == first_of_each_name(models),
{
    assert(models.push(model).drop_last() =~= models);
    law_first_of_each_name(models);
    assert(has_model(first_of_each_name(models), model.name()) == has_model(models, model.name()));
}

/// The models of two lists of declared schemas, one behind the other, are those of the one and
/// then those of the other. A schema gives its own, under its name.
pub proof fn law_models_of_schemas(
    first: Seq<(Seq<char>, RefOrView<SchemaView>)>,
    second: Seq<(Seq<char>, RefOrView<SchemaView>)>,
    schemas: Seq<(Seq<char>, RefOrView<SchemaView>)>,
)
    ensures
        models_of_schemas(
            first + second,
            schemas,
        ) == models_of_schemas(first, schemas) + models_of_schemas(second, schemas),
        first.len() == 0 ==> models_of_schemas(first, schemas).len() == 0,
        first.len() == 1 ==> models_of_schemas(first, schemas) == model_types(
            first[0].0,
            first[0].1,
            schemas,
        ),
    decreases second.len(),
{
    if first.len() == 1 {
        assert(models_of_schemas(first.drop_last(), schemas) =~= Seq::empty());
        assert(models_of_schemas(first, schemas) =~= model_types(first[0].0, first[0].1, schemas));
    }
    if second.len() == 0 {
        assert(first + second =~= first);
    } else {
        assert((first + second).drop_last() =~= first + second.drop_last());
        law_models_of_schemas(first, second.drop_last(), schemas);
    }
    assert(models_of_schemas(
        first + second,
        schemas,
    ) =~= models_of_schemas(first, schemas) + models_of_schemas(second, schemas));
}

/// The models of two lists of content types, one behind the other, are those of the one and then
/// those of the other. A content type with a schema gives those of the schema, under the name of
/// the body.
pub proof fn law_models_of_a_declared_body(
    name: Seq<char>,
    first: Seq<(Seq<char>, MediaTypeView)>,
    second: Seq<(Seq<char>, MediaTypeView)>,
    schemas: Seq<(Seq<char>, RefOrView<SchemaView>)>,
)
    ensures
        models_of_body(
            name,
            first + second,
            schemas,
        ) == models_of_body(name, first, schemas) + models_of_body(name, second, schemas),
        first.len() == 0 ==> models_of_body(name, first, schemas).len() == 0,
        first.len() == 1 ==> match first[0].1.schema {
            Some(schema) => models_of_body(name, first, schemas) == model_types(
                name,
                schema,
                schemas,
            ),
            None => models_of_body(name, first, schemas).len() == 0,
        },
    decreases second.len(),
{
    if first.len() == 1 {
        assert(models_of_body(name, first.drop_last(), schemas) =~= Seq::empty());
        if let Some(schema) = first[0].1.schema {
            assert(models_of_body(name, first, schemas) =~= model_types(name, schema, schemas));
        }
    }
    if second.len() == 0 {
        assert(first + second =~= first);
    } else {
        assert((first + second).drop_last() =~= first + second.drop_last());
        law_models_of_a_declared_body(name, first, second.drop_last(), schemas);
    }
    assert(models_of_body(
        name,
        first + second,
        schemas,
    ) =~= models_of_body(name, first, schemas) + models_of_body(name, second, schemas));
}

/// The models of two lists of declared bodies, one behind the other, are those of the one and
/// then those of the other. A body in place gives those of its content, and a reference none.
pub proof fn law_models_of_declared_bodies(
    first: Seq<(Seq<char>, RefOrView<RequestBodyView>)>,
    second: Seq<(Seq<char>, RefOrView<RequestBodyView>)>,
    schemas: Seq<(Seq<char>, RefOrView<SchemaView>)>,
)
    ensures
        models_of_bodies(
            first + second,
            schemas,
        ) == models_of_bodies(first, schemas) + models_of_bodies(second, schemas),
        first.len() == 0 ==> models_of_bodies(first, schemas).len() == 0,
        first.len() == 1 ==> match first[0].1 {
            RefOrView::Item(body) => models_of_bodies(first, schemas) == models_of_body(
                first[0].0,
                body.content,
                schemas,
            ),
            _ => models_of_bodies(first, schemas).len() == 0,
        },
    decreases second.len(),
{
    if first.len() == 1 {
        assert(models_of_bodies(first.drop_last(), schemas) =~= Seq::empty());
        if let RefOrView::Item(body) = first[0].1 {
            assert(models_of_bodies(first, schemas) =~= models_of_body(
                first[0].0,
                body.content,
                schemas,
            ));
        }
    }
    if second.len() == 0 {
        assert(first + second =~= first);
    } else {
        assert((first + second).drop_last() =~= first + second.drop_last());
        law_models_of_declared_bodies(first, second.drop_last(), schemas);
    }
    assert(models_of_bodies(
        first + second,
        schemas,
    ) =~= models_of_bodies(first, schemas) + models_of_bodies(second, schemas));
}

/// Whether a model is the structure of a declared parameter: one field, which has the name, the
/// description and the type of the parameter, is required where the parameter is and null where
/// the schema allows it.
pub open spec fn is_structure_of_parameter(
    model: ModelTypeView,
    name: Seq<char>,
    data: ParameterInfoView,
    schema: RefOrView<SchemaView>,
    schemas: Seq<(Seq<char>, RefOrView<SchemaView>)>,
) -> bool {
    &&& model is Struct
    &&& model->Struct_0.name == pascal_case(name)
    &&& model->Struct_0.description == data.description
    &&& model->Struct_0.custom_attrs is None
    &&& model->Struct_0.fields.len() == 1
    &&& {
        let field = model->Struct_0.fields[0];
        &&& field.name == data.name
        &&& field.field_type == type_and_format(schema, schemas).0
        &&& field.format == type_and_format(schema, schemas).1
        &&& field.is_required <==> data.required
        &&& field.is_nullable <==> allows_null(schema, schemas)
        &&& !field.is_array_ref
        &&& !field.flatten
        &&& field.description == data.description
        &&& schema_behind(schema, schemas) matches Some(s) ==> field.custom_attrs == custom_attrs(s)
        &&& schema_behind(schema, schemas) is None ==> field.custom_attrs is None
    }
}

/// A declared parameter whose schema, in place or by reference, is an object with properties has
/// the models of that object under its name. Any other with a schema has one structure. One that
/// holds content, or is itself a reference, has no model.
pub proof fn law_models_of_a_declared_parameter(
    name: Seq<char>,
    parameter: RefOrView<ParameterView>,
    schemas: Seq<(Seq<char>, RefOrView<SchemaView>)>,
)
    ensures
        parameter is Reference ==> models_of_parameter(name, parameter, schemas).len() == 0,
        parameter is Item && parameter->Item_0.parameter_data.format is Content
            ==> models_of_parameter(name, parameter, schemas).len() == 0,
        parameter is Item && parameter->Item_0.parameter_data.format is Schema ==> {
            let data = parameter->Item_0.parameter_data;
            let schema = data.format->Schema_0;
            let models = models_of_parameter(name, parameter, schemas);
            if holds_properties(schema, schemas) {
                models == model_types(
                    name,
                    RefOrView::Item(schema_behind(schema, schemas)->0),
                    schemas,
                )
            } else {
                models.len() == 1 && is_structure_of_parameter(
                    models[0],
                    name,
                    data,
                    schema,
                    schemas,
                )
            }
        },
{
}

/// The models of two lists of declared parameters, one behind the other, are those of the one
/// and then those of the other.
pub proof fn law_models_of_declared_parameters(
    first: Seq<(Seq<char>, RefOrView<ParameterView>)>,
    second: Seq<(Seq<char>, RefOrView<ParameterView>)>,
    schemas: Seq<(Seq<char>, RefOrView<SchemaView>)>,
)
    ensures
        models_of_parameters(
            first + second,
            schemas,
        ) == models_of_parameters(first, schemas) + models_of_parameters(second, schemas),
        first.len() == 0 ==> models_of_parameters(first, schemas).len() == 0,
        first.len() == 1 ==> models_of_parameters(first, schemas) == models_of_parameter(
            first[0].0,
            first[0].1,
            schemas,
        ),
    decreases second.len(),
{
    if first.len() == 1 {
        assert(models_of_parameters(first.drop_last(), schemas) =~= Seq::empty());
        assert(models_of_parameters(first, schemas) =~= models_of_parameter(
            first[0].0,
            first[0].1,
            schemas,
        ));
    }
    if second.len() == 0 {
        assert(first + second =~= first);
    } else {
        assert((first + second).drop_last() =~= first + second.drop_last());
        law_models_of_declared_parameters(first, second.drop_last(), schemas);
    }
    assert(models_of_parameters(
        first + second,
        schemas,
    ) =~= models_of_parameters(first, schemas) + models_of_parameters(second, schemas));
}

/// A list of one operation, or of none.
pub open spec fn at_most_one(
    operation: Option<OperationView>,
    path_item: PathItemView,
) -> Seq<(OperationView, PathItemView)> {
    if operation is Some {
        seq![(operation->0, path_item)]
    } else {
        Seq::empty()
    }
}

/// The operations of two lists of paths, one behind the other, are those of the one and then
/// those of the other. A path in place has those under `get`, `post`, `put`, `delete` and
/// `patch`, in this order, and a reference none.
pub proof fn law_operations_of_paths(
    first: Seq<(Seq<char>, RefOrView<PathItemView>)>,
    second: Seq<(Seq<char>, RefOrView<PathItemView>)>,
)
    ensures
        document_operations(
            first + second,
        ) == document_operations(first) + document_operations(second),
        first.len() == 0 ==> document_operations(first).len() == 0,
        first.len() == 1 ==> match first[0].1 {
            RefOrView::Item(p) => document_operations(first) == at_most_one(p.get, p) + at_most_one(
                p.post,
                p,
            ) + at_most_one(p.put, p) + at_most_one(p.delete, p) + at_most_one(p.patch, p),
            _ => document_operations(first).len() == 0,
        },
    decreases second.len(),
{
    if first.len() == 1 {
        assert(document_operations(first.drop_last()) =~= Seq::empty());
        if let RefOrView::Item(p) = first[0].1 {
            assert(document_operations(first) =~= operations_of(p).map_values(
                |operation: OperationView| (operation, p),
            ));
            assert(operations_of(p).map_values(|operation: OperationView| (operation, p))
                =~= at_most_one(p.get, p) + at_most_one(p.post, p) + at_most_one(p.put, p)
                + at_most_one(p.delete, p) + at_most_one(p.patch, p));
        }
    }
    if second.len() == 0 {
        assert(first + second =~= first);
    } else {
        assert((first + second).drop_last() =~= first + second.drop_last());
        law_operations_of_paths(first, second.drop_last());
    }
    assert(document_operations(
        first + second,
    ) =~= document_operations(first) + document_operations(second));
}

/// The models of two lists of operations, one behind the other, are those of the one and then
/// those of the other. An operation gives its own.
pub proof fn law_models_of_operations(
    first: Seq<(OperationView, PathItemView)>,
    second: Seq<(OperationView, PathItemView)>,
    schemas: Seq<(Seq<char>, RefOrView<SchemaView>)>,
    parameters: Seq<(Seq<char>, RefOrView<ParameterView>)>,
)
    ensures
        models_of_operations(
            first + second,
            schemas,
            parameters,
        ) == models_of_operations(first, schemas, parameters) + models_of_operations(
            second,
            schemas,
            parameters,
        ),
        first.len() == 0 ==> models_of_operations(first, schemas, parameters).len() == 0,
        first.len() == 1 ==> models_of_operations(first, schemas, parameters) == operation_models(
            first[0].0,
            first[0].1,
            schemas,
            parameters,
        ),
    decreases second.len(),
{
    if first.len() == 1 {
        assert(models_of_operations(first.drop_last(), schemas, parameters) =~= Seq::empty());
        assert(models_of_operations(first, schemas, parameters) =~= operation_models(
            first[0].0,
            first[0].1,
            schemas,
            parameters,
        ));
    }
    if second.len() == 0 {
        assert(first + second =~= first);
    } else {
        assert((first + second).drop_last() =~= first + second.drop_last());
        law_models_of_operations(first, second.drop_last(), schemas, parameters);
    }
    assert(models_of_operations(
        first + second,
        schemas,
        parameters,
    ) =~= models_of_operations(first, schemas, parameters) + models_of_operations(
        second,
        schemas,
        parameters,
    ));
}

/// The requests of two lists of operations, one behind the other, are those of the one and then
/// those of the other. An operation gives its own.
pub proof fn law_requests_of_operations(
    first: Seq<(OperationView, PathItemView)>,
    second: Seq<(OperationView, PathItemView)>,
    schemas: Seq<(Seq<char>, RefOrView<SchemaView>)>,
    request_bodies: Seq<(Seq<char>, RefOrView<RequestBodyView>)>,
)
    ensures
        requests_of_operations(
            first + second,
            schemas,
            request_bodies,
        ) == requests_of_operations(first, schemas, request_bodies) + requests_of_operations(
            second,
            schemas,
            request_bodies,
        ),
        first.len() == 0 ==> requests_of_operations(first, schemas, request_bodies).len() == 0,
        first.len() == 1 ==> requests_of_operations(
            first,
            schemas,
            request_bodies,
        ) == operation_requests(
            first[0].0,
            schemas,
            request_bodies,
        ),
    decreases second.len(),
{
    if first.len() == 1 {
        assert(requests_of_operations(first.drop_last(), schemas, request_bodies) =~= Seq::empty());
        assert(requests_of_operations(first, schemas, request_bodies) =~= operation_requests(
            first[0].0,
            schemas,
            request_bodies,
        ));
    }
    if second.len() == 0 {
        assert(first + second =~= first);
    } else {
        assert((first + second).drop_last() =~= first + second.drop_last());
        law_requests_of_operations(first, second.drop_last(), schemas, request_bodies);
    }
    assert(requests_of_operations(
        first + second,
        schemas,
        request_bodies,
    ) =~= requests_of_operations(first, schemas, request_bodies) + requests_of_operations(
        second,
        schemas,
        request_bodies,
    ));
}

/// The responses of two lists of operations, one behind the other, are those of the one and then
/// those of the other. An operation gives its own.
pub proof fn law_responses_of_operations(
    first: Seq<(OperationView, PathItemView)>,
    second: Seq<(OperationView, PathItemView)>,
    schemas: Seq<(Seq<char>, RefOrView<SchemaView>)>,
)
    ensures
        responses_of_operations(
            first + second,
            schemas,
        ) == responses_of_operations(first, schemas) + responses_of_operations(second, schemas),
        first.len() == 0 ==> responses_of_operations(first, schemas).len() == 0,
        first.len() == 1 ==> responses_of_operations(first, schemas) == operation_responses(
            first[0].0,
            first[0].0.responses,
            schemas,
        ),
    decreases second.len(),
{
    if first.len() == 1 {
        assert(responses_of_operations(first.drop_last(), schemas) =~= Seq::empty());
        assert(responses_of_operations(first, schemas) =~= operation_responses(
            first[0].0,
            first[0].0.responses,
            schemas,
        ));
    }
    if second.len() == 0 {
        assert(first + second =~= first);
    } else {
        assert((first + second).drop_last() =~= first + second.drop_last());
        law_responses_of_operations(first, second.drop_last(), schemas);
    }
    assert(responses_of_operations(
        first + second,
        schemas,
    ) =~= responses_of_operations(first, schemas) + responses_of_operations(second, schemas));
}

/// What a document declares, or nothing where it declares nothing.
pub open spec fn components_of(document: DocumentView) -> ComponentsView {
    match document.components {
        Some(c) => c,
        None => ComponentsView {
            schemas: Seq::empty(),
            request_bodies: Seq::empty(),
            parameters: Seq::empty(),
        },
    }
}

/// The models of a document are the first of each name among those of its schemas, of its request
/// bodies, of its parameters and of its operations, in this order. Its requests and responses are
/// those of its operations. References are to what the document declares.
pub proof fn law_models_of_a_document(document: DocumentView)
    ensures
        ({
            let c = components_of(document);
            let operations = document_operations(document.paths);
            &&& document_models(document) == first_of_each_name(all_models(document))
            &&& all_models(document) == models_of_schemas(c.schemas, c.schemas) + models_of_bodies(
                c.request_bodies,
                c.schemas,
            ) + models_of_parameters(c.parameters, c.schemas) + models_of_operations(
                operations,
                c.schemas,
                c.parameters,
            )
            &&& document_requests(document) == requests_of_operations(
                operations,
                c.schemas,
                c.request_bodies,
            )
            &&& document_responses(document) == responses_of_operations(operations, c.schemas)
        }),
{
}

} // verus!
