//! Documents as `openapiv3` holds them, turned into those of this library.
use crate::document::parts::{
    additional_properties_of, components_parts_view, content_of, document_of, named_schemas_of,
    open_additional_properties, open_document, open_operation, open_parameter, open_parameter_data,
    open_path_item, open_request_body, open_response, open_schema, open_schema_kind, open_type,
    operation_of, operation_option_of, parameter_data_of, parameter_of, parameters_of, path_item_of,
    read_format, read_status, request_body_of, response_of, schema_kind_of, schema_of,
    schema_option_of, schemas_of, status_of, type_of, AdditionalParts, ComponentsParts, KindParts,
    TypeParts,
};
use crate::document::value::{from_value, json_of};
use crate::json::Json;
use crate::openapi::view::{lemma_schema_view, MediaTypeView};
use crate::openapi::{
    ArrayType, Components, Document, ExtraProperties, IntegerType, MediaType, ObjectType,
    OperationDef, ParameterDef, ParameterInfo, ParameterSchemaOrContent, PathItemDef, RefOr,
    RequestBodyDef, ResponseDef, SchemaData, SchemaDef, SchemaShape, SchemaType, Status, StringType,
};
use vstd::prelude::*;

verus! {

broadcast use lemma_schema_view;

fn read_extensions(extensions: Vec<(String, serde_json::Value)>) -> (r: Vec<(String, Json)>)
    ensures
        r.deep_view() == extensions@.map_values(
            |e: (String, serde_json::Value)| (e.0@, json_of(e.1)),
        ),
{
    let ghost whole = extensions@.map_values(
        |e: (String, serde_json::Value)| (e.0@, json_of(e.1)),
    );
    let mut out: Vec<(String, Json)> = Vec::new();
    for entry in it: extensions
        invariant
            it.seq() == extensions@,
            whole == extensions@.map_values(
                |e: (String, serde_json::Value)| (e.0@, json_of(e.1)),
            ),
            out.deep_view() == whole.take(it.index()),
    {
        let ghost before = out.deep_view();
        assert(whole[it.index()] == (entry.0@, json_of(entry.1)));
        let (key, value) = entry;
        out.push((key, from_value(value)));
        assert(out.deep_view() =~= before.push(whole[it.index()]));
        assert(whole.take(it.index() + 1) =~= whole.take(it.index()).push(whole[it.index()]));
    }
    assert(whole.take(whole.len() as int) =~= whole);
    out
}

fn read_schema(schema: openapiv3::ReferenceOr<openapiv3::Schema>) -> (r: RefOr<SchemaDef>)
    ensures
        r.deep_view() == schema_of(schema),
    decreases schema_of(schema),
{
    let ghost view = schema_of(schema);
    match open_schema(schema) {
        RefOr::Reference { reference } => RefOr::Reference { reference },
        RefOr::Item(parts) => {
            assert(decreases_to!(view => view->Item_0));
            assert(decreases_to!(view->Item_0 => view->Item_0.schema_kind));
            RefOr::Item(
                SchemaDef {
                    schema_data: SchemaData {
                        nullable: parts.nullable,
                        title: parts.title,
                        description: parts.description,
                        extensions: read_extensions(parts.extensions),
                    },
                    schema_kind: read_schema_kind(parts.schema_kind),
                },
            )
        },
    }
}

fn read_schema_kind(kind: openapiv3::SchemaKind) -> (r: SchemaShape)
    ensures
        r.deep_view() == schema_kind_of(kind),
    decreases schema_kind_of(kind),
{
    let ghost view = schema_kind_of(kind);
    match open_schema_kind(kind) {
        KindParts::Type(t) => {
            assert(decreases_to!(view => view->Type_0));
            SchemaShape::Type(read_type(t))
        },
        KindParts::OneOf(list) => {
            assert(decreases_to!(view => view->one_of));
            SchemaShape::OneOf { one_of: read_schemas(list) }
        },
        KindParts::AllOf(list) => {
            assert(decreases_to!(view => view->all_of));
            SchemaShape::AllOf { all_of: read_schemas(list) }
        },
        KindParts::AnyOf(list) => {
            assert(decreases_to!(view => view->any_of));
            SchemaShape::AnyOf { any_of: read_schemas(list) }
        },
        KindParts::Not => SchemaShape::Not,
        KindParts::Any => SchemaShape::Any,
    }
}

fn read_schemas(list: Vec<openapiv3::ReferenceOr<openapiv3::Schema>>) -> (r: Vec<RefOr<SchemaDef>>)
    ensures
        r.deep_view() == schemas_of(list@),
    decreases schemas_of(list@),
{
    let ghost whole = schemas_of(list@);
    let mut out: Vec<RefOr<SchemaDef>> = Vec::new();
    for schema in it: list
        invariant
            it.seq() == list@,
            whole == schemas_of(list@),
            out.deep_view() == whole.take(it.index()),
    {
        let ghost before = out.deep_view();
        assert(whole[it.index()] == schema_of(schema));
        assert(decreases_to!(whole => whole[it.index()]));
        out.push(read_schema(schema));
        assert(out.deep_view() =~= before.push(whole[it.index()]));
        assert(whole.take(it.index() + 1) =~= whole.take(it.index()).push(whole[it.index()]));
    }
    assert(whole.take(whole.len() as int) =~= whole);
    out
}

fn read_named_schemas(
    entries: Vec<(String, openapiv3::ReferenceOr<openapiv3::Schema>)>,
) -> (r: Vec<(String, RefOr<SchemaDef>)>)
    ensures
        r.deep_view() == named_schemas_of(entries@),
    decreases named_schemas_of(entries@),
{
    let ghost whole = named_schemas_of(entries@);
    let mut out: Vec<(String, RefOr<SchemaDef>)> = Vec::new();
    for entry in it: entries
        invariant
            it.seq() == entries@,
            whole == named_schemas_of(entries@),
            out.deep_view() == whole.take(it.index()),
    {
        let ghost before = out.deep_view();
        assert(whole[it.index()] == (entry.0@, schema_of(entry.1)));
        assert(decreases_to!(whole => whole[it.index()]));
        assert(decreases_to!(whole[it.index()] => whole[it.index()].1));
        let (name, schema) = entry;
        out.push((name, read_schema(schema)));
        assert(out.deep_view() =~= before.push(whole[it.index()]));
        assert(whole.take(it.index() + 1) =~= whole.take(it.index()).push(whole[it.index()]));
    }
    assert(whole.take(whole.len() as int) =~= whole);
    out
}

fn read_type(t: openapiv3::Type) -> (r: SchemaType)
    ensures
        r.deep_view() == type_of(t),
    decreases type_of(t),
{
    let ghost view = type_of(t);
    match open_type(t) {
        TypeParts::Text(format, enumeration) => SchemaType::String(
            StringType { format: read_format(format), enumeration },
        ),
        TypeParts::Number => SchemaType::Number,
        TypeParts::Integer(enumeration) => SchemaType::Integer(IntegerType { enumeration }),
        TypeParts::Object(properties, required, additional) => {
            assert(decreases_to!(view => view->Object_0));
            assert(decreases_to!(view->Object_0 => view->Object_0.properties));
            assert(decreases_to!(view->Object_0 => view->Object_0.additional_properties));
            SchemaType::Object(
                ObjectType {
                    properties: read_named_schemas(properties),
                    required,
                    additional_properties: match additional {
                        Some(a) => {
                            assert(decreases_to!(view->Object_0.additional_properties
                                => view->Object_0.additional_properties->0));
                            Some(read_additional_properties(a))
                        },
                        None => None,
                    },
                },
            )
        },
        TypeParts::Array(items) => {
            assert(decreases_to!(view => view->Array_0));
            assert(decreases_to!(view->Array_0 => view->Array_0.items));
            SchemaType::Array(
                ArrayType {
                    items: match items {
                        Some(s) => {
                            assert(decreases_to!(view->Array_0.items => view->Array_0.items->0));
                            Some(Box::new(read_schema(s)))
                        },
                        None => None,
                    },
                },
            )
        },
        TypeParts::Boolean => SchemaType::Boolean,
    }
}

fn read_additional_properties(additional: openapiv3::AdditionalProperties) -> (r: ExtraProperties)
    ensures
        r.deep_view() == additional_properties_of(additional),
    decreases additional_properties_of(additional),
{
    let ghost view = additional_properties_of(additional);
    match open_additional_properties(additional) {
        AdditionalParts::Any(allowed) => ExtraProperties::Any(allowed),
        AdditionalParts::Schema(s) => {
            assert(decreases_to!(view => view->Schema_0));
            ExtraProperties::Schema(Box::new(read_schema(s)))
        },
    }
}

fn read_schema_option(schema: Option<openapiv3::ReferenceOr<openapiv3::Schema>>) -> (r: Option<
    RefOr<SchemaDef>,
>)
    ensures
        r.deep_view() == schema_option_of(schema),
{
    match schema {
        Some(s) => Some(read_schema(s)),
        None => None,
    }
}

fn read_content(
    content: Vec<(String, Option<openapiv3::ReferenceOr<openapiv3::Schema>>)>,
) -> (r: Vec<(String, MediaType)>)
    ensures
        r.deep_view() == content_of(content@),
{
    let ghost whole = content_of(content@);
    let mut out: Vec<(String, MediaType)> = Vec::new();
    for entry in it: content
        invariant
            it.seq() == content@,
            whole == content_of(content@),
            out.deep_view() == whole.take(it.index()),
    {
        let ghost before = out.deep_view();
        assert(whole[it.index()] == (
            entry.0@,
            MediaTypeView { schema: schema_option_of(entry.1) },
        ));
        let (name, schema) = entry;
        out.push((name, MediaType { schema: read_schema_option(schema) }));
        assert(out.deep_view() =~= before.push(whole[it.index()]));
        assert(whole.take(it.index() + 1) =~= whole.take(it.index()).push(whole[it.index()]));
    }
    assert(whole.take(whole.len() as int) =~= whole);
    out
}

fn read_parameter_data(data: openapiv3::ParameterData) -> (r: ParameterInfo)
    ensures
        r.deep_view() == parameter_data_of(data),
{
    let parts = open_parameter_data(data);
    ParameterInfo {
        name: parts.name,
        description: parts.description,
        required: parts.required,
        format: match parts.schema {
            Some(schema) => ParameterSchemaOrContent::Schema(read_schema(schema)),
            None => ParameterSchemaOrContent::Content,
        },
    }
}

fn read_parameter(parameter: openapiv3::ReferenceOr<openapiv3::Parameter>) -> (r: RefOr<
    ParameterDef,
>)
    ensures
        r.deep_view() == parameter_of(parameter),
{
    match open_parameter(parameter) {
        RefOr::Reference { reference } => RefOr::Reference { reference },
        RefOr::Item((location, data)) => RefOr::Item(
            ParameterDef { location, parameter_data: read_parameter_data(data) },
        ),
    }
}

fn read_parameters(list: Vec<openapiv3::ReferenceOr<openapiv3::Parameter>>) -> (r: Vec<
    RefOr<ParameterDef>,
>)
    ensures
        r.deep_view() == parameters_of(list@),
{
    let ghost whole = parameters_of(list@);
    let mut out: Vec<RefOr<ParameterDef>> = Vec::new();
    for parameter in it: list
        invariant
            it.seq() == list@,
            whole == parameters_of(list@),
            out.deep_view() == whole.take(it.index()),
    {
        let ghost before = out.deep_view();
        assert(whole[it.index()] == parameter_of(parameter));
        out.push(read_parameter(parameter));
        assert(out.deep_view() =~= before.push(whole[it.index()]));
        assert(whole.take(it.index() + 1) =~= whole.take(it.index()).push(whole[it.index()]));
    }
    assert(whole.take(whole.len() as int) =~= whole);
    out
}

fn read_request_body(body: openapiv3::ReferenceOr<openapiv3::RequestBody>) -> (r: RefOr<
    RequestBodyDef,
>)
    ensures
        r.deep_view() == request_body_of(body),
{
    match open_request_body(body) {
        RefOr::Reference { reference } => RefOr::Reference { reference },
        RefOr::Item(parts) => RefOr::Item(
            RequestBodyDef { content: read_content(parts.content), required: parts.required },
        ),
    }
}

fn read_response(response: openapiv3::ReferenceOr<openapiv3::Response>) -> (r: RefOr<ResponseDef>)
    ensures
        r.deep_view() == response_of(response),
{
    match open_response(response) {
        RefOr::Reference { reference } => RefOr::Reference { reference },
        RefOr::Item(parts) => RefOr::Item(
            ResponseDef { description: parts.description, content: read_content(parts.content) },
        ),
    }
}

fn read_operation(operation: openapiv3::Operation) -> (r: OperationDef)
    ensures
        r.deep_view() == operation_of(operation),
{
    let parts = open_operation(operation);
    let ghost given = parts.responses@;
    let ghost whole = operation_of(operation).responses;
    let mut responses: Vec<(Status, RefOr<ResponseDef>)> = Vec::new();
    for entry in it: parts.responses
        invariant
            it.seq() == given,
            whole == given.map_values(
                |e: (openapiv3::StatusCode, openapiv3::ReferenceOr<openapiv3::Response>)|
                    (status_of(e.0), response_of(e.1)),
            ),
            responses.deep_view() == whole.take(it.index()),
    {
        let ghost before = responses.deep_view();
        assert(whole[it.index()] == (status_of(entry.0), response_of(entry.1)));
        let (code, response) = entry;
        responses.push((read_status(code), read_response(response)));
        assert(responses.deep_view() =~= before.push(whole[it.index()]));
        assert(whole.take(it.index() + 1) =~= whole.take(it.index()).push(whole[it.index()]));
    }
    assert(whole.take(whole.len() as int) =~= whole);
    OperationDef {
        operation_id: parts.operation_id,
        parameters: read_parameters(parts.parameters),
        request_body: match parts.request_body {
            Some(body) => Some(read_request_body(body)),
            None => None,
        },
        responses,
    }
}

fn read_operation_option(operation: Option<openapiv3::Operation>) -> (r: Option<OperationDef>)
    ensures
        r.deep_view() == operation_option_of(operation),
{
    match operation {
        Some(o) => Some(read_operation(o)),
        None => None,
    }
}

fn read_path_item(item: openapiv3::ReferenceOr<openapiv3::PathItem>) -> (r: RefOr<PathItemDef>)
    ensures
        r.deep_view() == path_item_of(item),
{
    match open_path_item(item) {
        RefOr::Reference { reference } => RefOr::Reference { reference },
        RefOr::Item(parts) => RefOr::Item(
            PathItemDef {
                get: read_operation_option(parts.get),
                post: read_operation_option(parts.post),
                put: read_operation_option(parts.put),
                delete: read_operation_option(parts.delete),
                patch: read_operation_option(parts.patch),
                parameters: read_parameters(parts.parameters),
            },
        ),
    }
}

fn read_components(parts: ComponentsParts) -> (r: Components)
    ensures
        r.deep_view() == components_parts_view(parts),
{
    let ghost bodies_whole = components_parts_view(parts).request_bodies;
    let ghost given_bodies = parts.request_bodies@;
    let mut request_bodies: Vec<(String, RefOr<RequestBodyDef>)> = Vec::new();
    for entry in it: parts.request_bodies
        invariant
            it.seq() == given_bodies,
            bodies_whole == given_bodies.map_values(
                |e: (String, openapiv3::ReferenceOr<openapiv3::RequestBody>)|
                    (e.0@, request_body_of(e.1)),
            ),
            request_bodies.deep_view() == bodies_whole.take(it.index()),
    {
        let ghost before = request_bodies.deep_view();
        let ghost next = bodies_whole[it.index()];
        assert(next == (entry.0@, request_body_of(entry.1)));
        let (name, body) = entry;
        request_bodies.push((name, read_request_body(body)));
        assert(request_bodies.deep_view() =~= before.push(next));
        assert(bodies_whole.take(it.index() + 1) =~= bodies_whole.take(it.index()).push(next));
    }
    assert(bodies_whole.take(bodies_whole.len() as int) =~= bodies_whole);

    let ghost parameters_whole = components_parts_view(parts).parameters;
    let ghost given_parameters = parts.parameters@;
    let mut parameters: Vec<(String, RefOr<ParameterDef>)> = Vec::new();
    for entry in it: parts.parameters
        invariant
            it.seq() == given_parameters,
            parameters_whole == given_parameters.map_values(
                |e: (String, openapiv3::ReferenceOr<openapiv3::Parameter>)|
                    (e.0@, parameter_of(e.1)),
            ),
            parameters.deep_view() == parameters_whole.take(it.index()),
    {
        let ghost before = parameters.deep_view();
        let ghost next = parameters_whole[it.index()];
        assert(next == (entry.0@, parameter_of(entry.1)));
        let (name, parameter) = entry;
        parameters.push((name, read_parameter(parameter)));
        assert(parameters.deep_view() =~= before.push(next));
        assert(parameters_whole.take(it.index() + 1) =~= parameters_whole.take(
            it.index(),
        ).push(next));
    }
    assert(parameters_whole.take(parameters_whole.len() as int) =~= parameters_whole);

    Components { schemas: read_named_schemas(parts.schemas), request_bodies, parameters }
}

/// Turns a document as `openapiv3` holds it into one of this library.
pub fn read_document(document: openapiv3::OpenAPI) -> (r: Document)
    ensures
        r.deep_view() == document_of(document),
{
    let parts = open_document(document);
    let ghost given = parts.paths@;
    let ghost whole = document_of(document).paths;
    let mut paths: Vec<(String, RefOr<PathItemDef>)> = Vec::new();
    for entry in it: parts.paths
        invariant
            it.seq() == given,
            whole == given.map_values(
                |e: (String, openapiv3::ReferenceOr<openapiv3::PathItem>)|
                    (e.0@, path_item_of(e.1)),
            ),
            paths.deep_view() == whole.take(it.index()),
    {
        let ghost before = paths.deep_view();
        assert(whole[it.index()] == (entry.0@, path_item_of(entry.1)));
        let (path, item) = entry;
        paths.push((path, read_path_item(item)));
        assert(paths.deep_view() =~= before.push(whole[it.index()]));
        assert(whole.take(it.index() + 1) =~= whole.take(it.index()).push(whole[it.index()]));
    }
    assert(whole.take(whole.len() as int) =~= whole);
    Document {
        components: match parts.components {
            Some(c) => Some(read_components(c)),
            None => None,
        },
        paths,
    }
}

} // verus!
