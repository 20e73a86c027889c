//! The models, requests and responses of operations.
use crate::models::{
    Model, ModelType, ModelTypeView, ModelView, RequestModel, RequestModelView, ResponseModel,
    ResponseModelView,
};
use crate::openapi::view::{
    lemma_schema_view, MediaTypeView, OperationView, ParameterView, PathItemView, RefOrView,
    RequestBodyView, ResponseView, SchemaShapeView, SchemaTypeView, SchemaView,
};
use crate::openapi::{
    find_entry, lookup, MediaType, OperationDef, ParameterDef, PathItemDef, RefOr, RequestBodyDef,
    ResponseDef, SchemaDef, SchemaShape, SchemaType, Status,
};
use crate::parser::parameters::{make_query_fields, operation_parameters, query_fields};
use crate::parser::schemas::{model_types, parse_schema_to_model_type};
use crate::parser::types::{extract_type_and_format, type_and_format};
use crate::text::{
    concat2, decimal, decimal_text, pascal_case, strip_prefix, stripped, to_pascal_case,
};
use vstd::prelude::*;

verus! {

broadcast use lemma_schema_view;

/// The identifier of an operation, or the given text where it has none.
pub open spec fn operation_id_or(operation: OperationView, text: Seq<char>) -> Seq<char> {
    match operation.operation_id {
        Some(id) => id,
        None => text,
    }
}

/// The name of an operation in models.
pub open spec fn operation_name(operation: OperationView) -> Seq<char> {
    pascal_case(operation_id_or(operation, "Unknown"@))
}

/// The structure of the query parameters of an operation, where it takes any with a schema.
pub open spec fn query_models(
    operation: OperationView,
    path_item: PathItemView,
    schemas: Seq<(Seq<char>, RefOrView<SchemaView>)>,
    parameters: Seq<(Seq<char>, RefOrView<ParameterView>)>,
) -> Seq<ModelTypeView> {
    let fields = query_fields(
        operation_parameters(path_item.parameters, operation.parameters, parameters),
        schemas,
    );
    if fields.len() > 0 {
        seq![
            ModelTypeView::Struct(
                ModelView {
                    name: operation_name(operation) + "Params"@,
                    fields,
                    custom_attrs: None,
                    description: Some(
                        "Query parameters for "@ + operation_id_or(operation, "operation"@),
                    ),
                },
            ),
        ]
    } else {
        Seq::empty()
    }
}

/// The request body that is given in place or by reference to `#/components/requestBodies/`.
pub open spec fn resolved_body(
    body: RefOrView<RequestBodyView>,
    request_bodies: Seq<(Seq<char>, RefOrView<RequestBodyView>)>,
) -> Option<RequestBodyView> {
    match body {
        RefOrView::Item(b) => Some(b),
        RefOrView::Reference { reference } => match stripped(
            reference,
            "#/components/requestBodies/"@,
        ) {
            Some(name) => match lookup(request_bodies, name) {
                Some(RefOrView::Item(b)) => Some(b),
                _ => None,
            },
            None => None,
        },
    }
}

/// Whether a schema is an object written in place.
pub open spec fn is_inline_object(schema: RefOrView<SchemaView>) -> bool {
    schema matches RefOrView::Item(s) && s.schema_kind matches SchemaShapeView::Type(
        SchemaTypeView::Object(_),
    )
}

/// The type of a request's body: the structure named after the operation for an object that
/// is written in place in a body that is, and otherwise that of its schema.
pub open spec fn request_type(
    operation: OperationView,
    inline: bool,
    schema: RefOrView<SchemaView>,
    schemas: Seq<(Seq<char>, RefOrView<SchemaView>)>,
) -> Seq<char> {
    if inline && is_inline_object(schema) {
        operation_name(operation) + "RequestBody"@
    } else {
        type_and_format(schema, schemas).0
    }
}

/// The requests for a body, one for each content type with a schema.
pub open spec fn requests_of_content(
    operation: OperationView,
    content: Seq<(Seq<char>, MediaTypeView)>,
    inline: bool,
    is_required: bool,
    schemas: Seq<(Seq<char>, RefOrView<SchemaView>)>,
) -> Seq<RequestModelView>
    decreases content.len(),
{
    if content.len() == 0 {
        Seq::empty()
    } else {
        let before = requests_of_content(
            operation,
            content.drop_last(),
            inline,
            is_required,
            schemas,
        );
        match content.last().1.schema {
            Some(schema) => before.push(
                RequestModelView {
                    name: operation_name(operation) + "Request"@,
                    content_type: content.last().0,
                    schema: request_type(operation, inline, schema, schemas),
                    is_required,
                },
            ),
            None => before,
        }
    }
}

/// The models of a body that is written in place: those of each object that is.
pub open spec fn models_of_content(
    operation: OperationView,
    content: Seq<(Seq<char>, MediaTypeView)>,
    schemas: Seq<(Seq<char>, RefOrView<SchemaView>)>,
) -> Seq<ModelTypeView>
    decreases content.len(),
{
    if content.len() == 0 {
        Seq::empty()
    } else {
        let before = models_of_content(operation, content.drop_last(), schemas);
        match content.last().1.schema {
            Some(schema) => if is_inline_object(schema) {
                before + model_types(
                    operation_name(operation) + "RequestBody"@,
                    schema,
                    schemas,
                )
            } else {
                before
            },
            None => before,
        }
    }
}

/// The requests of an operation. A body that is given by reference is not required.
pub open spec fn operation_requests(
    operation: OperationView,
    schemas: Seq<(Seq<char>, RefOrView<SchemaView>)>,
    request_bodies: Seq<(Seq<char>, RefOrView<RequestBodyView>)>,
) -> Seq<RequestModelView> {
    match operation.request_body {
        Some(body) => match resolved_body(body, request_bodies) {
            Some(b) => requests_of_content(
                operation,
                b.content,
                body is Item,
                body is Item && b.required,
                schemas,
            ),
            None => Seq::empty(),
        },
        None => Seq::empty(),
    }
}

/// The models of the body of an operation, where it is written in place.
pub open spec fn body_models(
    operation: OperationView,
    schemas: Seq<(Seq<char>, RefOrView<SchemaView>)>,
) -> Seq<ModelTypeView> {
    match operation.request_body {
        Some(RefOrView::Item(body)) => models_of_content(operation, body.content, schemas),
        _ => Seq::empty(),
    }
}

/// The models of an operation: that of its query parameters, and then those of its body.
pub open spec fn operation_models(
    operation: OperationView,
    path_item: PathItemView,
    schemas: Seq<(Seq<char>, RefOrView<SchemaView>)>,
    parameters: Seq<(Seq<char>, RefOrView<ParameterView>)>,
) -> Seq<ModelTypeView> {
    query_models(operation, path_item, schemas, parameters) + body_models(operation, schemas)
}

/// A status code as text.
pub open spec fn status_text(status: Status) -> Seq<char> {
    match status {
        Status::Code(n) => decimal(n as int),
        Status::Range(n) => decimal(n as int) + "XX"@,
    }
}

impl Status {
    /// The status code as text.
    pub fn to_text(&self) -> (r: String)
        ensures
            r@ == status_text(*self),
    {
        match self {
            Status::Code(n) => decimal_text(*n as i128),
            Status::Range(n) => concat2(decimal_text(*n as i128).as_str(), "XX"),
        }
    }
}

/// The responses for a status, one for each content type with a schema.
pub open spec fn responses_of_content(
    operation: OperationView,
    status: Status,
    description: Seq<char>,
    content: Seq<(Seq<char>, MediaTypeView)>,
    schemas: Seq<(Seq<char>, RefOrView<SchemaView>)>,
) -> Seq<ResponseModelView>
    decreases content.len(),
{
    if content.len() == 0 {
        Seq::empty()
    } else {
        let before = responses_of_content(
            operation,
            status,
            description,
            content.drop_last(),
            schemas,
        );
        match content.last().1.schema {
            Some(schema) => before.push(
                ResponseModelView {
                    name: operation_name(operation) + "Response"@,
                    status_code: status_text(status),
                    content_type: content.last().0,
                    schema: type_and_format(schema, schemas).0,
                    description: Some(description),
                },
            ),
            None => before,
        }
    }
}

/// The responses of an operation; one that is given by reference has none.
pub open spec fn operation_responses(
    operation: OperationView,
    responses: Seq<(Status, RefOrView<ResponseView>)>,
    schemas: Seq<(Seq<char>, RefOrView<SchemaView>)>,
) -> Seq<ResponseModelView>
    decreases responses.len(),
{
    if responses.len() == 0 {
        Seq::empty()
    } else {
        let before = operation_responses(operation, responses.drop_last(), schemas);
        match responses.last().1 {
            RefOrView::Item(response) => before + responses_of_content(
                operation,
                responses.last().0,
                response.description,
                response.content,
                schemas,
            ),
            _ => before,
        }
    }
}

fn copy_operation_id_or(operation: &OperationDef, text: &str) -> (r: String)
    ensures
        r@ == operation_id_or(operation.deep_view(), text@),
{
    match &operation.operation_id {
        Some(id) => id.clone(),
        None => text.to_string(),
    }
}

fn make_operation_name(operation: &OperationDef) -> (r: String)
    ensures
        r@ == operation_name(operation.deep_view()),
{
    to_pascal_case(copy_operation_id_or(operation, "Unknown").as_str())
}

fn process_query(
    operation: &OperationDef,
    path_item: &PathItemDef,
    all_schemas: &Vec<(String, RefOr<SchemaDef>)>,
    parameters: &Vec<(String, RefOr<ParameterDef>)>,
) -> (r: Vec<ModelType>)
    ensures
        r.deep_view() == query_models(
            operation.deep_view(),
            path_item.deep_view(),
            all_schemas.deep_view(),
            parameters.deep_view(),
        ),
{
    let mut models: Vec<ModelType> = Vec::new();
    let fields = make_query_fields(
        &path_item.parameters,
        &operation.parameters,
        parameters,
        all_schemas,
    );
    if fields.len() > 0 {
        models.push(
            ModelType::Struct(
                Model {
                    name: concat2(make_operation_name(operation).as_str(), "Params"),
                    fields,
                    custom_attrs: None,
                    description: Some(
                        concat2(
                            "Query parameters for ",
                            copy_operation_id_or(operation, "operation").as_str(),
                        ),
                    ),
                },
            ),
        );
    }
    assert(models.deep_view() =~= query_models(
        operation.deep_view(),
        path_item.deep_view(),
        all_schemas.deep_view(),
        parameters.deep_view(),
    ));
    models
}

fn check_inline_object(schema: &RefOr<SchemaDef>) -> (r: bool)
    ensures
        r == is_inline_object(schema.deep_view()),
{
    match schema {
        RefOr::Item(s) => match &s.schema_kind {
            SchemaShape::Type(SchemaType::Object(_)) => true,
            _ => false,
        },
        _ => false,
    }
}

fn process_content(
    operation: &OperationDef,
    content: &Vec<(String, MediaType)>,
    inline: bool,
    is_required: bool,
    requests: &mut Vec<RequestModel>,
    models: &mut Vec<ModelType>,
    all_schemas: &Vec<(String, RefOr<SchemaDef>)>,
)
    ensures
        final(requests).deep_view() == old(requests).deep_view() + requests_of_content(
            operation.deep_view(),
            content.deep_view(),
            inline,
            is_required,
            all_schemas.deep_view(),
        ),
        final(models).deep_view() == old(models).deep_view() + (if inline {
            models_of_content(operation.deep_view(), content.deep_view(), all_schemas.deep_view())
        } else {
            Seq::empty()
        }),
{
    let name = make_operation_name(operation);
    let ghost requests_start = requests.deep_view();
    let ghost models_start = models.deep_view();
    for i in 0..content.len()
        invariant
            name@ == operation_name(operation.deep_view()),
            requests.deep_view() =~= requests_start + requests_of_content(
                operation.deep_view(),
                content.deep_view().take(i as int),
                inline,
                is_required,
                all_schemas.deep_view(),
            ),
            models.deep_view() =~= models_start + (if inline {
                models_of_content(
                    operation.deep_view(),
                    content.deep_view().take(i as int),
                    all_schemas.deep_view(),
                )
            } else {
                Seq::empty()
            }),
    {
        assert(content.deep_view().take(i + 1).drop_last() =~= content.deep_view().take(i as int));
        let ghost requests_before = requests.deep_view();
        let ghost models_before = models.deep_view();
        if let Some(schema) = &content[i].1.schema {
            let schema_type = if inline && check_inline_object(schema) {
                let model_name = concat2(name.as_str(), "RequestBody");
                let mut more = parse_schema_to_model_type(
                    model_name.as_str(),
                    schema,
                    all_schemas,
                );
                let ghost added = more.deep_view();
                models.append(&mut more);
                assert(models.deep_view() =~= models_before + added);
                model_name
            } else {
                extract_type_and_format(schema, all_schemas).0
            };
            let request = RequestModel {
                name: concat2(name.as_str(), "Request"),
                content_type: content[i].0.clone(),
                schema: schema_type,
                is_required,
            };
            requests.push(request);
            assert(requests.deep_view() =~= requests_before.push(request.deep_view()));
        }
    }
    assert(content.deep_view().take(content.len() as int) =~= content.deep_view());
}

fn process_body(
    operation: &OperationDef,
    requests: &mut Vec<RequestModel>,
    models: &mut Vec<ModelType>,
    all_schemas: &Vec<(String, RefOr<SchemaDef>)>,
    request_bodies: &Vec<(String, RefOr<RequestBodyDef>)>,
)
    ensures
        final(requests).deep_view() == old(requests).deep_view() + operation_requests(
            operation.deep_view(),
            all_schemas.deep_view(),
            request_bodies.deep_view(),
        ),
        final(models).deep_view() == old(models).deep_view() + body_models(
            operation.deep_view(),
            all_schemas.deep_view(),
        ),
{
    let ghost requests_start = requests.deep_view();
    let ghost models_start = models.deep_view();
    assert(requests_start + Seq::<RequestModelView>::empty() =~= requests_start);
    assert(models_start + Seq::<ModelTypeView>::empty() =~= models_start);
    match &operation.request_body {
        Some(RefOr::Item(body)) => {
            process_content(
                operation,
                &body.content,
                true,
                body.required,
                requests,
                models,
                all_schemas,
            );
        },
        Some(RefOr::Reference { reference }) => {
            if let Some(name) = strip_prefix(reference.as_str(), "#/components/requestBodies/") {
                if let Some(RefOr::Item(body)) = find_entry(request_bodies, name) {
                    process_content(
                        operation,
                        &body.content,
                        false,
                        false,
                        requests,
                        models,
                        all_schemas,
                    );
                }
            }
        },
        None => {},
    }
}

fn process_response(
    operation: &OperationDef,
    status: &Status,
    response: &ResponseDef,
    responses: &mut Vec<ResponseModel>,
    all_schemas: &Vec<(String, RefOr<SchemaDef>)>,
)
    ensures
        final(responses).deep_view() == old(responses).deep_view() + responses_of_content(
            operation.deep_view(),
            *status,
            response.description@,
            response.content.deep_view(),
            all_schemas.deep_view(),
        ),
{
    let name = make_operation_name(operation);
    let ghost start = responses.deep_view();
    let ghost content = response.content.deep_view();
    for i in 0..response.content.len()
        invariant
            content == response.content.deep_view(),
            name@ == operation_name(operation.deep_view()),
            responses.deep_view() =~= start + responses_of_content(
                operation.deep_view(),
                *status,
                response.description@,
                content.take(i as int),
                all_schemas.deep_view(),
            ),
    {
        assert(content.take(i + 1).drop_last() =~= content.take(i as int));
        let ghost before = responses.deep_view();
        if let Some(schema) = &response.content[i].1.schema {
            let model = ResponseModel {
                name: concat2(name.as_str(), "Response"),
                status_code: status.to_text(),
                content_type: response.content[i].0.clone(),
                schema: extract_type_and_format(schema, all_schemas).0,
                description: Some(response.description.clone()),
            };
            responses.push(model);
            assert(responses.deep_view() =~= before.push(model.deep_view()));
        }
    }
    assert(content.take(content.len() as int) =~= content);
}

/// Adds the requests and the responses of an operation, and makes its models.
pub fn process_operation(
    operation: &OperationDef,
    path_item: &PathItemDef,
    requests: &mut Vec<RequestModel>,
    responses: &mut Vec<ResponseModel>,
    all_schemas: &Vec<(String, RefOr<SchemaDef>)>,
    request_bodies: &Vec<(String, RefOr<RequestBodyDef>)>,
    parameters: &Vec<(String, RefOr<ParameterDef>)>,
) -> (r: Vec<ModelType>)
    ensures
        r.deep_view() == operation_models(
            operation.deep_view(),
            path_item.deep_view(),
            all_schemas.deep_view(),
            parameters.deep_view(),
        ),
        final(requests).deep_view() == old(requests).deep_view() + operation_requests(
            operation.deep_view(),
            all_schemas.deep_view(),
            request_bodies.deep_view(),
        ),
        final(responses).deep_view() == old(responses).deep_view() + operation_responses(
            operation.deep_view(),
            operation.responses.deep_view(),
            all_schemas.deep_view(),
        ),
{
    let mut models = process_query(operation, path_item, all_schemas, parameters);
    process_body(operation, requests, &mut models, all_schemas, request_bodies);
    let ghost start = responses.deep_view();
    let ghost given = operation.responses.deep_view();
    for i in 0..operation.responses.len()
        invariant
            given == operation.responses.deep_view(),
            responses.deep_view() =~= start + operation_responses(
                operation.deep_view(),
                given.take(i as int),
                all_schemas.deep_view(),
            ),
    {
        assert(given.take(i + 1).drop_last() =~= given.take(i as int));
        let (status, response_ref) = &operation.responses[i];
        if let RefOr::Item(response) = response_ref {
            process_response(operation, status, response, responses, all_schemas);
        }
    }
    assert(given.take(given.len() as int) =~= given);
    models
}

} // verus!
