//! What holds of the models, requests and responses of operations.
use crate::laws::fields::is_object;
use crate::models::{RequestModelView, ResponseModelView};
use crate::openapi::view::{
    MediaTypeView, OperationView, ParameterView, PathItemView, RefOrView, RequestBodyView,
    ResponseView, SchemaView,
};
use crate::openapi::{lookup, Status};
use crate::parser::operations::{
    body_models, models_of_content, operation_models, operation_requests, operation_responses,
    query_models, requests_of_content, resolved_body, responses_of_content, status_text,
};
use crate::parser::parameters::{operation_parameters, query_fields};
use crate::parser::schemas::model_types;
use crate::parser::types::type_and_format;
use crate::text::{decimal, pascal_case};
use vstd::prelude::*;

verus! {

/// Whether a name is the PascalCase of the identifier of an operation, or of `Unknown` where it
/// has none, with a suffix behind.
pub open spec fn is_named_after(
    name: Seq<char>,
    operation: OperationView,
    suffix: Seq<char>,
) -> bool {
    match operation.operation_id {
        Some(id) => name == pascal_case(id) + suffix,
        None => name == pascal_case("Unknown"@) + suffix,
    }
}

/// An operation whose query parameters become fields has one structure of them, called after
/// the operation with `Params` behind and described by its identifier; any other has none.
pub proof fn law_query_structure(
    operation: OperationView,
    path_item: PathItemView,
    schemas: Seq<(Seq<char>, RefOrView<SchemaView>)>,
    parameters: Seq<(Seq<char>, RefOrView<ParameterView>)>,
)
    ensures
        ({
            let models = query_models(operation, path_item, schemas, parameters);
            let fields = query_fields(
                operation_parameters(path_item.parameters, operation.parameters, parameters),
                schemas,
            );
            if fields.len() > 0 {
                &&& models.len() == 1
                &&& models[0] is Struct
                &&& is_named_after(models[0]->Struct_0.name, operation, "Params"@)
                &&& models[0]->Struct_0.fields == fields
                &&& models[0]->Struct_0.custom_attrs is None
                &&& models[0]->Struct_0.description is Some
                &&& models[0]->Struct_0.description->0 == "Query parameters for "@ + (
                if operation.operation_id is Some {
                    operation.operation_id->0
                } else {
                    "operation"@
                })
            } else {
                models.len() == 0
            }
        }),
{
}

/// Whether a schema is an object written in place.
pub open spec fn is_object_in_place(schema: RefOrView<SchemaView>) -> bool {
    schema is Item && is_object(schema->Item_0)
}

/// Whether a request is the one for a content type with the given schema.
pub open spec fn is_request_for(
    request: RequestModelView,
    operation: OperationView,
    content_type: Seq<char>,
    schema: RefOrView<SchemaView>,
    in_place: bool,
    schemas: Seq<(Seq<char>, RefOrView<SchemaView>)>,
) -> bool {
    &&& is_named_after(request.name, operation, "Request"@)
    &&& request.content_type == content_type
    &&& in_place && is_object_in_place(schema) ==> is_named_after(
        request.schema,
        operation,
        "RequestBody"@,
    )
    &&& !(in_place && is_object_in_place(schema)) ==> request.schema == type_and_format(
        schema,
        schemas,
    ).0
}

/// The requests for two lists of content types, one behind the other, are those for the one and
/// then those for the other. A content type with a schema has one request, which is called
/// after the operation, has the type of the schema, or of the structure for an object in place,
/// and is required where the body is. A content type without a schema has none.
pub proof fn law_requests_of_content(
    operation: OperationView,
    first: Seq<(Seq<char>, MediaTypeView)>,
    second: Seq<(Seq<char>, MediaTypeView)>,
    in_place: bool,
    is_required: bool,
    schemas: Seq<(Seq<char>, RefOrView<SchemaView>)>,
)
    ensures
        requests_of_content(operation, first + second, in_place, is_required, schemas)
            == requests_of_content(operation, first, in_place, is_required, schemas)
            + requests_of_content(operation, second, in_place, is_required, schemas),
        first.len() == 0 ==> requests_of_content(
            operation,
            first,
            in_place,
            is_required,
            schemas,
        ).len() == 0,
        first.len() == 1 ==> {
            let requests = requests_of_content(operation, first, in_place, is_required, schemas);
            match first[0].1.schema {
                Some(schema) => {
                    &&& requests.len() == 1
                    &&& requests[0].is_required == is_required
                    &&& is_request_for(
                        requests[0],
                        operation,
                        first[0].0,
                        schema,
                        in_place,
                        schemas,
                    )
                },
                None => requests.len() == 0,
            }
        },
    decreases second.len(),
{
    if first.len() == 1 {
        assert(requests_of_content(operation, first.drop_last(), in_place, is_required, schemas)
            =~= Seq::empty());
    }
    if second.len() == 0 {
        assert(first + second =~= first);
    } else {
        assert((first + second).drop_last() =~= first + second.drop_last());
        law_requests_of_content(
            operation,
            first,
            second.drop_last(),
            in_place,
            is_required,
            schemas,
        );
    }
    assert(requests_of_content(operation, first + second, in_place, is_required, schemas)
        =~= requests_of_content(operation, first, in_place, is_required, schemas)
        + requests_of_content(operation, second, in_place, is_required, schemas));
}

proof fn lemma_requests_are_required(
    operation: OperationView,
    content: Seq<(Seq<char>, MediaTypeView)>,
    in_place: bool,
    is_required: bool,
    i: int,
    schemas: Seq<(Seq<char>, RefOrView<SchemaView>)>,
)
    requires
        0 <= i < requests_of_content(operation, content, in_place, is_required, schemas).len(),
    ensures
        requests_of_content(operation, content, in_place, is_required, schemas)[i].is_required
            == is_required,
    decreases content.len(),
{
    let rest = content.drop_last();
    if i < requests_of_content(operation, rest, in_place, is_required, schemas).len() {
        lemma_requests_are_required(operation, rest, in_place, is_required, i, schemas);
    }
}

/// A request for a body in place is required exactly where the body says so, and a request for a
/// body by reference never is.
pub proof fn law_required_requests(
    operation: OperationView,
    i: int,
    schemas: Seq<(Seq<char>, RefOrView<SchemaView>)>,
    request_bodies: Seq<(Seq<char>, RefOrView<RequestBodyView>)>,
)
    requires
        0 <= i < operation_requests(operation, schemas, request_bodies).len(),
    ensures
        operation.request_body is Some,
        operation.request_body->0 matches RefOrView::Item(body) ==> (operation_requests(
            operation,
            schemas,
            request_bodies,
        )[i].is_required <==> body.required),
        operation.request_body->0 is Reference ==> !operation_requests(
            operation,
            schemas,
            request_bodies,
        )[i].is_required,
{
    let body = operation.request_body->0;
    let b = resolved_body(body, request_bodies)->0;
    lemma_requests_are_required(
        operation,
        b.content,
        body is Item,
        body is Item && b.required,
        i,
        schemas,
    );
}

/// An operation has the requests for the content of its body: of that in place, or of the one
/// that is declared in place under the rest of a reference to `#/components/requestBodies/`. An
/// operation without a body, or with another reference, has none.
pub proof fn law_requests_of_an_operation(
    operation: OperationView,
    name: Seq<char>,
    schemas: Seq<(Seq<char>, RefOrView<SchemaView>)>,
    request_bodies: Seq<(Seq<char>, RefOrView<RequestBodyView>)>,
)
    ensures
        operation.request_body is None ==> operation_requests(
            operation,
            schemas,
            request_bodies,
        ).len() == 0,
        operation.request_body matches Some(RefOrView::Item(body)) ==> operation_requests(
            operation,
            schemas,
            request_bodies,
        ) == requests_of_content(operation, body.content, true, body.required, schemas),
        operation.request_body matches Some(RefOrView::Reference { reference }) ==> {
            let requests = operation_requests(operation, schemas, request_bodies);
            &&& reference == "#/components/requestBodies/"@ + name ==> match lookup(
                request_bodies,
                name,
            ) {
                Some(RefOrView::Item(body)) => requests == requests_of_content(
                    operation,
                    body.content,
                    false,
                    false,
                    schemas,
                ),
                _ => requests.len() == 0,
            }
            &&& !"#/components/requestBodies/"@.is_prefix_of(reference) ==> requests.len() == 0
        },
{
    let prefix = "#/components/requestBodies/"@;
    assert((prefix + name).take(prefix.len() as int) =~= prefix);
    assert((prefix + name).skip(prefix.len() as int) =~= name);
}

/// The models of two lists of content types, one behind the other, are those of the one and
/// then those of the other. An object in place has the models of its schema, called after the
/// operation with `RequestBody` behind, and anything else has none.
pub proof fn law_models_of_content(
    operation: OperationView,
    first: Seq<(Seq<char>, MediaTypeView)>,
    second: Seq<(Seq<char>, MediaTypeView)>,
    name: Seq<char>,
    schemas: Seq<(Seq<char>, RefOrView<SchemaView>)>,
)
    requires
        is_named_after(name, operation, "RequestBody"@),
    ensures
        models_of_content(operation, first + second, schemas) == models_of_content(
            operation,
            first,
            schemas,
        ) + models_of_content(operation, second, schemas),
        first.len() == 0 ==> models_of_content(operation, first, schemas).len() == 0,
        first.len() == 1 ==> if first[0].1.schema is Some && is_object_in_place(
            first[0].1.schema->0,
        ) {
            models_of_content(operation, first, schemas) == model_types(
                name,
                first[0].1.schema->0,
                schemas,
            )
        } else {
            models_of_content(operation, first, schemas).len() == 0
        },
    decreases second.len(),
{
    if first.len() == 1 {
        assert(models_of_content(operation, first.drop_last(), schemas) =~= Seq::empty());
        if first[0].1.schema is Some && is_object_in_place(first[0].1.schema->0) {
            assert(models_of_content(operation, first, schemas) =~= model_types(
                name,
                first[0].1.schema->0,
                schemas,
            ));
        }
    }
    if second.len() == 0 {
        assert(first + second =~= first);
    } else {
        assert((first + second).drop_last() =~= first + second.drop_last());
        law_models_of_content(operation, first, second.drop_last(), name, schemas);
    }
    assert(models_of_content(operation, first + second, schemas) =~= models_of_content(
        operation,
        first,
        schemas,
    ) + models_of_content(operation, second, schemas));
}

/// The models of an operation are the structure of its query parameters and then the models of
/// its body, where that is written in place.
pub proof fn law_models_of_an_operation(
    operation: OperationView,
    path_item: PathItemView,
    schemas: Seq<(Seq<char>, RefOrView<SchemaView>)>,
    parameters: Seq<(Seq<char>, RefOrView<ParameterView>)>,
)
    ensures
        operation_models(operation, path_item, schemas, parameters) == query_models(
            operation,
            path_item,
            schemas,
            parameters,
        ) + body_models(operation, schemas),
        operation.request_body matches Some(RefOrView::Item(body)) ==> body_models(
            operation,
            schemas,
        ) == models_of_content(operation, body.content, schemas),
        operation.request_body is None || operation.request_body->0 is Reference ==> body_models(
            operation,
            schemas,
        ).len() == 0,
{
}

/// Whether a response is the one for a status and a content type with the given schema.
pub open spec fn is_response_for(
    response: ResponseModelView,
    operation: OperationView,
    status: Status,
    description: Seq<char>,
    content_type: Seq<char>,
    schema: RefOrView<SchemaView>,
    schemas: Seq<(Seq<char>, RefOrView<SchemaView>)>,
) -> bool {
    &&& is_named_after(response.name, operation, "Response"@)
    &&& status matches Status::Code(n) ==> response.status_code == decimal(n as int)
    &&& status matches Status::Range(n) ==> response.status_code == decimal(n as int) + "XX"@
    &&& response.content_type == content_type
    &&& response.schema == type_and_format(schema, schemas).0
    &&& response.description == Some(description)
}

/// The text of a status code is its decimal form, and that of a range of them has `XX` behind.
pub proof fn law_text_of_a_status(n: u16)
    ensures
        status_text(Status::Code(n)) == decimal(n as int),
        status_text(Status::Range(n)) == decimal(n as int) + "XX"@,
{
}

/// The responses for two lists of content types, one behind the other, are those for the one
/// and then those for the other. A content type with a schema has one response, which is called
/// after the operation and has the status, the description and the type of the schema. A
/// content type without a schema has none.
pub proof fn law_responses_of_content(
    operation: OperationView,
    status: Status,
    description: Seq<char>,
    first: Seq<(Seq<char>, MediaTypeView)>,
    second: Seq<(Seq<char>, MediaTypeView)>,
    schemas: Seq<(Seq<char>, RefOrView<SchemaView>)>,
)
    ensures
        responses_of_content(operation, status, description, first + second, schemas)
            == responses_of_content(operation, status, description, first, schemas)
            + responses_of_content(operation, status, description, second, schemas),
        first.len() == 0 ==> responses_of_content(
            operation,
            status,
            description,
            first,
            schemas,
        ).len() == 0,
        first.len() == 1 ==> {
            let responses = responses_of_content(operation, status, description, first, schemas);
            match first[0].1.schema {
                Some(schema) => responses.len() == 1 && is_response_for(
                    responses[0],
                    operation,
                    status,
                    description,
                    first[0].0,
                    schema,
                    schemas,
                ),
                None => responses.len() == 0,
            }
        },
    decreases second.len(),
{
    if first.len() == 1 {
        assert(responses_of_content(operation, status, description, first.drop_last(), schemas)
            =~= Seq::empty());
    }
    if second.len() == 0 {
        assert(first + second =~= first);
    } else {
        assert((first + second).drop_last() =~= first + second.drop_last());
        law_responses_of_content(
            operation,
            status,
            description,
            first,
            second.drop_last(),
            schemas,
        );
    }
    assert(responses_of_content(operation, status, description, first + second, schemas)
        =~= responses_of_content(operation, status, description, first, schemas)
        + responses_of_content(operation, status, description, second, schemas));
}

/// The responses of two lists, one behind the other, are those of the one and then those of the
/// other. A response in place has those of its content, with its description, and one by
/// reference has none.
pub proof fn law_responses_of_an_operation(
    operation: OperationView,
    first: Seq<(Status, RefOrView<ResponseView>)>,
    second: Seq<(Status, RefOrView<ResponseView>)>,
    schemas: Seq<(Seq<char>, RefOrView<SchemaView>)>,
)
    ensures
        operation_responses(operation, first + second, schemas) == operation_responses(
            operation,
            first,
            schemas,
        ) + operation_responses(operation, second, schemas),
        first.len() == 0 ==> operation_responses(operation, first, schemas).len() == 0,
        first.len() == 1 ==> match first[0].1 {
            RefOrView::Item(response) => operation_responses(operation, first, schemas)
                == responses_of_content(
                operation,
                first[0].0,
                response.description,
                response.content,
                schemas,
            ),
            _ => operation_responses(operation, first, schemas).len() == 0,
        },
    decreases second.len(),
{
    if first.len() == 1 {
        assert(operation_responses(operation, first.drop_last(), schemas) =~= Seq::empty());
        if let RefOrView::Item(response) = first[0].1 {
            assert(operation_responses(operation, first, schemas) =~= responses_of_content(
                operation,
                first[0].0,
                response.description,
                response.content,
                schemas,
            ));
        }
    }
    if second.len() == 0 {
        assert(first + second =~= first);
    } else {
        assert((first + second).drop_last() =~= first + second.drop_last());
        law_responses_of_an_operation(operation, first, second.drop_last(), schemas);
    }
    assert(operation_responses(operation, first + second, schemas) =~= operation_responses(
        operation,
        first,
        schemas,
    ) + operation_responses(operation, second, schemas));
}

} // verus!
