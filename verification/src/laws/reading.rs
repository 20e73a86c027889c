//! What is kept of a document that is taken apart: every part of it, in its place.
use crate::document::parts::{
    additional_parts_view, additional_properties_of, components_parts_view, content_of,
    document_parts_view, format_of, kind_parts_view, named_schemas_of, operation_of,
    operation_parts_view, parameter_data_of, parameter_data_parts_view, parameter_of,
    parameter_parts_view, parameters_of, path_item_of, path_item_parts_view, request_body_of,
    request_body_parts_view, response_of, response_parts_view, schema_kind_of, schema_of,
    schema_parts_view, schemas_of, status_of, type_of, type_parts_view, AdditionalParts,
    ComponentsParts, DocumentParts, KindParts, OperationParts, ParameterParts, PathItemParts,
    RequestBodyParts, ResponseParts, SchemaParts, TypeParts,
};
use crate::document::value::{json_of, node_view, Node};
use crate::json::JsonView;
use crate::openapi::view::{
    ExtraPropertiesView, OperationView, ParameterSchemaOrContentView, SchemaShapeView,
};
use crate::openapi::{ParameterLocation, RefOr};
use vstd::prelude::*;

verus! {

/// A JSON value that is taken apart keeps its kind and what it holds, in order.
pub proof fn law_parts_of_a_json_value(node: Node, i: int)
    ensures
        node is Null ==> node_view(node) is Null,
        node matches Node::Bool(b) ==> node_view(node) == JsonView::Bool(b),
        node matches Node::Number(n) ==> node_view(node) == JsonView::Number(n),
        node matches Node::Text(s) ==> node_view(node) == JsonView::Text(s@),
        node matches Node::Array(items) ==> {
            &&& node_view(node) is Array
            &&& node_view(node)->Array_0.len() == items@.len()
            &&& 0 <= i < items@.len() ==> node_view(node)->Array_0[i] == json_of(items@[i])
        },
        node matches Node::Object(entries) ==> {
            &&& node_view(node) is Object
            &&& node_view(node)->Object_0.len() == entries@.len()
            &&& 0 <= i < entries@.len() ==> node_view(node)->Object_0[i] == (
                entries@[i].0@,
                json_of(entries@[i].1),
            )
        },
{
}

/// A schema that is taken apart keeps what it says of itself, its extensions and its kind.
pub proof fn law_parts_of_a_schema(parts: RefOr<SchemaParts>, i: int)
    ensures
        parts matches RefOr::Reference { reference } ==> schema_parts_view(parts) is Reference
            && schema_parts_view(parts)->reference == reference@,
        parts matches RefOr::Item(s) ==> {
            let schema = schema_parts_view(parts)->Item_0;
            &&& schema_parts_view(parts) is Item
            &&& schema.schema_data.nullable == s.nullable
            &&& schema.schema_data.title == s.title.deep_view()
            &&& schema.schema_data.description == s.description.deep_view()
            &&& schema.schema_data.extensions.len() == s.extensions@.len()
            &&& 0 <= i < s.extensions@.len() ==> schema.schema_data.extensions[i] == (
                s.extensions@[i].0@,
                json_of(s.extensions@[i].1),
            )
            &&& schema.schema_kind == schema_kind_of(s.schema_kind)
        },
{
}

/// Schemas that are listed, with or without names, keep their order.
pub proof fn law_parts_of_lists_of_schemas(
    list: Seq<openapiv3::ReferenceOr<openapiv3::Schema>>,
    entries: Seq<(String, openapiv3::ReferenceOr<openapiv3::Schema>)>,
    i: int,
)
    ensures
        schemas_of(list).len() == list.len(),
        0 <= i < list.len() ==> schemas_of(list)[i] == schema_of(list[i]),
        named_schemas_of(entries).len() == entries.len(),
        0 <= i < entries.len() ==> named_schemas_of(entries)[i] == (
            entries[i].0@,
            schema_of(entries[i].1),
        ),
{
}

/// The kind of a schema that is taken apart stays what it is and keeps what it is made of.
pub proof fn law_parts_of_a_kind(parts: KindParts)
    ensures
        parts matches KindParts::Type(t) ==> kind_parts_view(parts) == SchemaShapeView::Type(
            type_of(t),
        ),
        parts matches KindParts::OneOf(list) ==> kind_parts_view(parts) is OneOf
            && kind_parts_view(parts)->one_of == schemas_of(list@),
        parts matches KindParts::AllOf(list) ==> kind_parts_view(parts) is AllOf
            && kind_parts_view(parts)->all_of == schemas_of(list@),
        parts matches KindParts::AnyOf(list) ==> kind_parts_view(parts) is AnyOf
            && kind_parts_view(parts)->any_of == schemas_of(list@),
        parts is Not ==> kind_parts_view(parts) is Not,
        parts is Any ==> kind_parts_view(parts) is Any,
{
}

/// A type that is taken apart stays what it is and keeps what it is made of.
pub proof fn law_parts_of_a_type(parts: TypeParts)
    ensures
        parts matches TypeParts::Text(format, enumeration) ==> {
            &&& type_parts_view(parts) is String
            &&& type_parts_view(parts)->String_0.format == format_of(format)
            &&& type_parts_view(parts)->String_0.enumeration == enumeration.deep_view()
        },
        parts is Number ==> type_parts_view(parts) is Number,
        parts matches TypeParts::Integer(enumeration) ==> type_parts_view(parts) is Integer
            && type_parts_view(parts)->Integer_0.enumeration == enumeration@,
        parts matches TypeParts::Object(properties, required, additional) ==> {
            let obj = type_parts_view(parts)->Object_0;
            &&& type_parts_view(parts) is Object
            &&& obj.properties == named_schemas_of(properties@)
            &&& obj.required == required.deep_view()
            &&& additional matches Some(a) ==> obj.additional_properties == Some(
                additional_properties_of(a),
            )
            &&& additional is None ==> obj.additional_properties is None
        },
        parts matches TypeParts::Array(items) ==> {
            let array = type_parts_view(parts)->Array_0;
            &&& type_parts_view(parts) is Array
            &&& items matches Some(s) ==> array.items is Some && *array.items->0 == schema_of(s)
            &&& items is None ==> array.items is None
        },
        parts is Boolean ==> type_parts_view(parts) is Boolean,
{
}

/// What an object may hold besides its properties stays what it is.
pub proof fn law_parts_of_additional_properties(parts: AdditionalParts)
    ensures
        parts matches AdditionalParts::Any(allowed) ==> additional_parts_view(parts)
            == ExtraPropertiesView::Any(allowed),
        parts matches AdditionalParts::Schema(s) ==> additional_parts_view(parts) is Schema
            && *additional_parts_view(parts)->Schema_0 == schema_of(s),
{
}

/// A parameter that is taken apart keeps where it stands and what it says.
pub proof fn law_parts_of_a_parameter(
    parts: RefOr<(ParameterLocation, openapiv3::ParameterData)>,
    data: ParameterParts,
)
    ensures
        parts matches RefOr::Reference { reference } ==> parameter_parts_view(parts) is Reference
            && parameter_parts_view(parts)->reference == reference@,
        parts matches RefOr::Item((location, held)) ==> {
            &&& parameter_parts_view(parts) is Item
            &&& parameter_parts_view(parts)->Item_0.location == location
            &&& parameter_parts_view(parts)->Item_0.parameter_data == parameter_data_of(held)
        },
        parameter_data_parts_view(data).name == data.name@,
        parameter_data_parts_view(data).description == data.description.deep_view(),
        parameter_data_parts_view(data).required == data.required,
        data.schema matches Some(s) ==> parameter_data_parts_view(data).format
            == ParameterSchemaOrContentView::Schema(schema_of(s)),
        data.schema is None ==> parameter_data_parts_view(data).format is Content,
{
}

/// Content keeps its types in their order, each with its schema where it has one.
pub proof fn law_parts_of_content(
    content: Seq<(String, Option<openapiv3::ReferenceOr<openapiv3::Schema>>)>,
    i: int,
)
    ensures
        content_of(content).len() == content.len(),
        0 <= i < content.len() ==> {
            &&& content_of(content)[i].0 == content[i].0@
            &&& content[i].1 matches Some(s) ==> content_of(content)[i].1.schema == Some(
                schema_of(s),
            )
            &&& content[i].1 is None ==> content_of(content)[i].1.schema is None
        },
{
}

/// A request body that is taken apart keeps its content and whether it is required.
pub proof fn law_parts_of_a_request_body(parts: RefOr<RequestBodyParts>)
    ensures
        parts matches RefOr::Reference { reference } ==> request_body_parts_view(parts) is Reference
            && request_body_parts_view(parts)->reference == reference@,
        parts matches RefOr::Item(body) ==> {
            &&& request_body_parts_view(parts) is Item
            &&& request_body_parts_view(parts)->Item_0.required == body.required
            &&& request_body_parts_view(parts)->Item_0.content == content_of(body.content@)
        },
{
}

/// A response that is taken apart keeps its content and its description.
pub proof fn law_parts_of_a_response(parts: RefOr<ResponseParts>)
    ensures
        parts matches RefOr::Reference { reference } ==> response_parts_view(parts) is Reference
            && response_parts_view(parts)->reference == reference@,
        parts matches RefOr::Item(response) ==> {
            &&& response_parts_view(parts) is Item
            &&& response_parts_view(parts)->Item_0.description == response.description@
            &&& response_parts_view(parts)->Item_0.content == content_of(response.content@)
        },
{
}

/// An operation that is taken apart keeps its identifier, its parameters and its body, and its
/// responses with their statuses, in order.
pub proof fn law_parts_of_an_operation(parts: OperationParts, i: int)
    ensures
        ({
            let operation = operation_parts_view(parts);
            &&& operation.operation_id == parts.operation_id.deep_view()
            &&& operation.parameters.len() == parts.parameters@.len()
            &&& 0 <= i < parts.parameters@.len() ==> operation.parameters[i] == parameter_of(
                parts.parameters@[i],
            )
            &&& parts.request_body matches Some(body) ==> operation.request_body == Some(
                request_body_of(body),
            )
            &&& parts.request_body is None ==> operation.request_body is None
            &&& operation.responses.len() == parts.responses@.len()
            &&& 0 <= i < parts.responses@.len() ==> operation.responses[i] == (
                status_of(parts.responses@[i].0),
                response_of(parts.responses@[i].1),
            )
        }),
{
}

/// Whether a value is that of an operation that may be missing.
pub open spec fn is_operation_of(
    value: Option<OperationView>,
    operation: Option<openapiv3::Operation>,
) -> bool {
    match operation {
        Some(o) => value == Some(operation_of(o)),
        None => value is None,
    }
}

/// A path that is taken apart keeps each operation under its method, and its parameters in order.
pub proof fn law_parts_of_a_path(parts: RefOr<PathItemParts>, i: int)
    ensures
        parts matches RefOr::Reference { reference } ==> path_item_parts_view(parts) is Reference
            && path_item_parts_view(parts)->reference == reference@,
        parts matches RefOr::Item(item) ==> {
            let path = path_item_parts_view(parts)->Item_0;
            &&& path_item_parts_view(parts) is Item
            &&& is_operation_of(path.get, item.get)
            &&& is_operation_of(path.post, item.post)
            &&& is_operation_of(path.put, item.put)
            &&& is_operation_of(path.delete, item.delete)
            &&& is_operation_of(path.patch, item.patch)
            &&& path.parameters == parameters_of(item.parameters@)
            &&& path.parameters.len() == item.parameters@.len()
            &&& 0 <= i < item.parameters@.len() ==> path.parameters[i] == parameter_of(
                item.parameters@[i],
            )
        },
{
}

/// A document that is taken apart keeps what it declares and its paths, in order and by name.
pub proof fn law_parts_of_a_document(parts: DocumentParts, declared: ComponentsParts, i: int)
    ensures
        ({
            let document = document_parts_view(parts);
            &&& parts.components matches Some(c) ==> document.components == Some(
                components_parts_view(c),
            )
            &&& parts.components is None ==> document.components is None
            &&& document.paths.len() == parts.paths@.len()
            &&& 0 <= i < parts.paths@.len() ==> document.paths[i] == (
                parts.paths@[i].0@,
                path_item_of(parts.paths@[i].1),
            )
        }),
        ({
            let components = components_parts_view(declared);
            &&& components.schemas == named_schemas_of(declared.schemas@)
            &&& components.request_bodies.len() == declared.request_bodies@.len()
            &&& 0 <= i < declared.request_bodies@.len() ==> components.request_bodies[i] == (
                declared.request_bodies@[i].0@,
                request_body_of(declared.request_bodies@[i].1),
            )
            &&& components.parameters.len() == declared.parameters@.len()
            &&& 0 <= i < declared.parameters@.len() ==> components.parameters[i] == (
                declared.parameters@[i].0@,
                parameter_of(declared.parameters@[i].1),
            )
        }),
{
}

} // verus!
