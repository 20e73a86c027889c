//! Documents as `openapiv3` holds them, taken apart level by level.
//!
//! Each type of `openapiv3` that this library reads has a name for what a value of it holds, as
//! far as this library reads it, and a function that takes a value apart by one level: it moves
//! the public fields out. `indexmap::IndexMap::into_iter` hands the entries of a map out in the
//! order in which the map holds them.
use crate::document::value::{json_error_text, json_of};
use crate::json::JsonView;
use crate::openapi::view::{
    ArrayTypeView, ComponentsView, DocumentView, ExtraPropertiesView, IntegerTypeView,
    MediaTypeView, ObjectTypeView, OperationView, ParameterInfoView, ParameterSchemaOrContentView,
    ParameterView, PathItemView, RefOrView, RequestBodyView, ResponseView, SchemaDataView,
    SchemaShapeView, SchemaTypeView, SchemaView, StringTypeView, TextFormatView,
};
use crate::openapi::{KnownFormat, ParameterLocation, RefOr, Status, TextFormat};
use vstd::prelude::*;

verus! {

/// `openapiv3::OpenAPI`: a document.
#[verifier::external_type_specification]
#[verifier::external_body]
pub struct ExOpenAPI(openapiv3::OpenAPI);

/// `openapiv3::ReferenceOr`: a value that is given in place or by reference.
#[verifier::external_type_specification]
#[verifier::external_body]
#[verifier::reject_recursive_types(T)]
pub struct ExReferenceOr<T>(openapiv3::ReferenceOr<T>);

/// `openapiv3::PathItem`: the operations on a path.
#[verifier::external_type_specification]
#[verifier::external_body]
pub struct ExPathItem(openapiv3::PathItem);

/// `openapiv3::Operation`: an operation.
#[verifier::external_type_specification]
#[verifier::external_body]
pub struct ExOperation(openapiv3::Operation);

/// `openapiv3::Parameter`: a parameter.
#[verifier::external_type_specification]
#[verifier::external_body]
pub struct ExParameter(openapiv3::Parameter);

/// `openapiv3::ParameterData`: what every parameter carries.
#[verifier::external_type_specification]
#[verifier::external_body]
pub struct ExParameterData(openapiv3::ParameterData);

/// `openapiv3::RequestBody`: the body of a request.
#[verifier::external_type_specification]
#[verifier::external_body]
pub struct ExRequestBody(openapiv3::RequestBody);

/// `openapiv3::Response`: a response.
#[verifier::external_type_specification]
#[verifier::external_body]
pub struct ExResponse(openapiv3::Response);

/// `openapiv3::StatusCode`: a status code or a range of them.
#[verifier::external_type_specification]
#[verifier::external_body]
pub struct ExStatusCode(openapiv3::StatusCode);

/// `openapiv3::Schema`: a schema.
#[verifier::external_type_specification]
#[verifier::external_body]
pub struct ExSchema(openapiv3::Schema);

/// `openapiv3::SchemaKind`: the kind of a schema.
#[verifier::external_type_specification]
#[verifier::external_body]
pub struct ExSchemaKind(openapiv3::SchemaKind);

/// `openapiv3::Type`: the type that a schema names.
#[verifier::external_type_specification]
#[verifier::external_body]
pub struct ExType(openapiv3::Type);

/// `openapiv3::AdditionalProperties`: what an object may hold besides its properties.
#[verifier::external_type_specification]
#[verifier::external_body]
pub struct ExAdditionalProperties(openapiv3::AdditionalProperties);

/// `openapiv3::StringFormat`: a format of strings that is known.
#[verifier::external_type_specification]
#[verifier::external_body]
pub struct ExStringFormat(openapiv3::StringFormat);

/// `openapiv3::VariantOrUnknownOrEmpty`: a format that is known, another one, or none.
#[verifier::external_type_specification]
#[verifier::external_body]
#[verifier::reject_recursive_types(T)]
pub struct ExVariantOrUnknownOrEmpty<T>(openapiv3::VariantOrUnknownOrEmpty<T>);

/// The document that a JSON value stands for, or the message of why it stands for none, as
/// `serde_json::from_value` gives them.
pub uninterp spec fn document_value(j: JsonView) -> Result<DocumentView, Seq<char>>;

/// What an `openapiv3::OpenAPI` holds.
pub uninterp spec fn document_of(document: openapiv3::OpenAPI) -> DocumentView;

/// What an `openapiv3::PathItem` given in place or by reference holds.
pub uninterp spec fn path_item_of(
    item: openapiv3::ReferenceOr<openapiv3::PathItem>,
) -> RefOrView<PathItemView>;

/// What an `openapiv3::Operation` holds.
pub uninterp spec fn operation_of(operation: openapiv3::Operation) -> OperationView;

/// What an `openapiv3::Parameter` given in place or by reference holds.
pub uninterp spec fn parameter_of(
    parameter: openapiv3::ReferenceOr<openapiv3::Parameter>,
) -> RefOrView<ParameterView>;

/// What an `openapiv3::ParameterData` holds.
pub uninterp spec fn parameter_data_of(data: openapiv3::ParameterData) -> ParameterInfoView;

/// What an `openapiv3::RequestBody` given in place or by reference holds.
pub uninterp spec fn request_body_of(
    body: openapiv3::ReferenceOr<openapiv3::RequestBody>,
) -> RefOrView<RequestBodyView>;

/// What an `openapiv3::Response` given in place or by reference holds.
pub uninterp spec fn response_of(
    response: openapiv3::ReferenceOr<openapiv3::Response>,
) -> RefOrView<ResponseView>;

/// What an `openapiv3::StatusCode` holds.
pub uninterp spec fn status_of(code: openapiv3::StatusCode) -> Status;

/// What an `openapiv3::Schema` given in place or by reference holds.
pub uninterp spec fn schema_of(
    schema: openapiv3::ReferenceOr<openapiv3::Schema>,
) -> RefOrView<SchemaView>;

/// What an `openapiv3::SchemaKind` holds.
pub uninterp spec fn schema_kind_of(kind: openapiv3::SchemaKind) -> SchemaShapeView;

/// What an `openapiv3::Type` holds.
pub uninterp spec fn type_of(t: openapiv3::Type) -> SchemaTypeView;

/// What an `openapiv3::AdditionalProperties` holds.
pub uninterp spec fn additional_properties_of(
    additional: openapiv3::AdditionalProperties,
) -> ExtraPropertiesView;

/// What the format of an `openapiv3::StringType` holds.
pub uninterp spec fn format_of(
    format: openapiv3::VariantOrUnknownOrEmpty<openapiv3::StringFormat>,
) -> TextFormatView;

/// Calls `serde_json::from_value` for an `openapiv3::OpenAPI`. What it makes of a JSON value is a
/// function of the value, which only its name stands for.
#[verifier::external_body]
pub(crate) fn read_document_value(value: serde_json::Value) -> (r: Result<
    openapiv3::OpenAPI,
    serde_json::Error,
>)
    ensures
        document_value(json_of(value)) == (match r {
            Ok(document) => Ok::<DocumentView, Seq<char>>(document_of(document)),
            Err(error) => Err(json_error_text(error)),
        }),
{
    serde_json::from_value(value)
}

/// An `openapiv3::Schema` taken apart by one level.
pub struct SchemaParts {
    pub nullable: bool,
    pub title: Option<String>,
    pub description: Option<String>,
    pub extensions: Vec<(String, serde_json::Value)>,
    pub schema_kind: openapiv3::SchemaKind,
}

/// What the parts of a schema hold.
pub open spec fn schema_parts_view(parts: RefOr<SchemaParts>) -> RefOrView<SchemaView> {
    match parts {
        RefOr::Reference { reference } => RefOrView::Reference { reference: reference@ },
        RefOr::Item(s) => RefOrView::Item(
            SchemaView {
                schema_data: SchemaDataView {
                    nullable: s.nullable,
                    title: s.title.deep_view(),
                    description: s.description.deep_view(),
                    extensions: s.extensions@.map_values(
                        |e: (String, serde_json::Value)| (e.0@, json_of(e.1)),
                    ),
                },
                schema_kind: schema_kind_of(s.schema_kind),
            },
        ),
    }
}

/// Takes an `openapiv3::Schema` given in place or by reference apart by one level.
#[verifier::external_body]
pub(crate) fn open_schema(schema: openapiv3::ReferenceOr<openapiv3::Schema>) -> (r: RefOr<
    SchemaParts,
>)
    ensures
        schema_parts_view(r) == schema_of(schema),
{
    match schema {
        openapiv3::ReferenceOr::Reference { reference } => RefOr::Reference { reference },
        openapiv3::ReferenceOr::Item(s) => RefOr::Item(
            SchemaParts {
                nullable: s.schema_data.nullable,
                title: s.schema_data.title,
                description: s.schema_data.description,
                extensions: s.schema_data.extensions.into_iter().collect(),
                schema_kind: s.schema_kind,
            },
        ),
    }
}

/// An `openapiv3::SchemaKind` taken apart by one level.
pub enum KindParts {
    Type(openapiv3::Type),
    OneOf(Vec<openapiv3::ReferenceOr<openapiv3::Schema>>),
    AllOf(Vec<openapiv3::ReferenceOr<openapiv3::Schema>>),
    AnyOf(Vec<openapiv3::ReferenceOr<openapiv3::Schema>>),
    Not,
    Any,
}

/// What a list of schemas holds.
pub open spec fn schemas_of(list: Seq<openapiv3::ReferenceOr<openapiv3::Schema>>) -> Seq<
    RefOrView<SchemaView>,
> {
    list.map_values(|s: openapiv3::ReferenceOr<openapiv3::Schema>| schema_of(s))
}

/// What schemas with their names hold.
pub open spec fn named_schemas_of(
    entries: Seq<(String, openapiv3::ReferenceOr<openapiv3::Schema>)>,
) -> Seq<(Seq<char>, RefOrView<SchemaView>)> {
    entries.map_values(
        |e: (String, openapiv3::ReferenceOr<openapiv3::Schema>)| (e.0@, schema_of(e.1)),
    )
}

/// What the parts of a kind of schema hold.
pub open spec fn kind_parts_view(parts: KindParts) -> SchemaShapeView {
    match parts {
        KindParts::Type(t) => SchemaShapeView::Type(type_of(t)),
        KindParts::OneOf(list) => SchemaShapeView::OneOf { one_of: schemas_of(list@) },
        KindParts::AllOf(list) => SchemaShapeView::AllOf { all_of: schemas_of(list@) },
        KindParts::AnyOf(list) => SchemaShapeView::AnyOf { any_of: schemas_of(list@) },
        KindParts::Not => SchemaShapeView::Not,
        KindParts::Any => SchemaShapeView::Any,
    }
}

/// Takes an `openapiv3::SchemaKind` apart by one level. What a negated schema and a schema of no
/// single kind hold is left behind.
#[verifier::external_body]
pub(crate) fn open_schema_kind(kind: openapiv3::SchemaKind) -> (r: KindParts)
    ensures
        kind_parts_view(r) == schema_kind_of(kind),
{
    match kind {
        openapiv3::SchemaKind::Type(t) => KindParts::Type(t),
        openapiv3::SchemaKind::OneOf { one_of } => KindParts::OneOf(one_of),
        openapiv3::SchemaKind::AllOf { all_of } => KindParts::AllOf(all_of),
        openapiv3::SchemaKind::AnyOf { any_of } => KindParts::AnyOf(any_of),
        openapiv3::SchemaKind::Not { .. } => KindParts::Not,
        openapiv3::SchemaKind::Any(_) => KindParts::Any,
    }
}

/// An `openapiv3::Type` taken apart by one level.
pub enum TypeParts {
    Text(openapiv3::VariantOrUnknownOrEmpty<openapiv3::StringFormat>, Vec<Option<String>>),
    Number,
    Integer(Vec<Option<i64>>),
    Object(
        Vec<(String, openapiv3::ReferenceOr<openapiv3::Schema>)>,
        Vec<String>,
        Option<openapiv3::AdditionalProperties>,
    ),
    Array(Option<openapiv3::ReferenceOr<openapiv3::Schema>>),
    Boolean,
}

/// What the parts of a type hold.
pub open spec fn type_parts_view(parts: TypeParts) -> SchemaTypeView {
    match parts {
        TypeParts::Text(format, enumeration) => SchemaTypeView::String(
            StringTypeView {
                format: format_of(format),
                enumeration: enumeration.deep_view(),
            },
        ),
        TypeParts::Number => SchemaTypeView::Number,
        TypeParts::Integer(enumeration) => SchemaTypeView::Integer(
            IntegerTypeView { enumeration: enumeration@ },
        ),
        TypeParts::Object(properties, required, additional) => SchemaTypeView::Object(
            ObjectTypeView {
                properties: named_schemas_of(properties@),
                required: required.deep_view(),
                additional_properties: match additional {
                    Some(a) => Some(additional_properties_of(a)),
                    None => None,
                },
            },
        ),
        TypeParts::Array(items) => SchemaTypeView::Array(
            ArrayTypeView {
                items: match items {
                    Some(s) => Some(Box::new(schema_of(s))),
                    None => None,
                },
            },
        ),
        TypeParts::Boolean => SchemaTypeView::Boolean,
    }
}

/// Takes an `openapiv3::Type` apart by one level. The schemas of properties and items leave their
/// boxes by `ReferenceOr::unbox`.
#[verifier::external_body]
pub(crate) fn open_type(t: openapiv3::Type) -> (r: TypeParts)
    ensures
        type_parts_view(r) == type_of(t),
{
    match t {
        openapiv3::Type::String(s) => TypeParts::Text(s.format, s.enumeration),
        openapiv3::Type::Number(_) => TypeParts::Number,
        openapiv3::Type::Integer(i) => TypeParts::Integer(i.enumeration),
        openapiv3::Type::Object(o) => TypeParts::Object(
            o.properties.into_iter().map(|(name, s)| (name, s.unbox())).collect(),
            o.required,
            o.additional_properties,
        ),
        openapiv3::Type::Array(a) => TypeParts::Array(a.items.map(|s| s.unbox())),
        openapiv3::Type::Boolean(_) => TypeParts::Boolean,
    }
}

/// Reads the format of an `openapiv3::StringType`.
#[verifier::external_body]
pub(crate) fn read_format(
    format: openapiv3::VariantOrUnknownOrEmpty<openapiv3::StringFormat>,
) -> (r: TextFormat)
    ensures
        r.deep_view() == format_of(format),
{
    match format {
        openapiv3::VariantOrUnknownOrEmpty::Item(f) => TextFormat::Item(match f {
            openapiv3::StringFormat::Date => KnownFormat::Date,
            openapiv3::StringFormat::DateTime => KnownFormat::DateTime,
            openapiv3::StringFormat::Password => KnownFormat::Password,
            openapiv3::StringFormat::Byte => KnownFormat::Byte,
            openapiv3::StringFormat::Binary => KnownFormat::Binary,
        }),
        openapiv3::VariantOrUnknownOrEmpty::Unknown(name) => TextFormat::Unknown(name),
        openapiv3::VariantOrUnknownOrEmpty::Empty => TextFormat::Empty,
    }
}

/// An `openapiv3::AdditionalProperties` taken apart by one level.
pub enum AdditionalParts {
    Any(bool),
    Schema(openapiv3::ReferenceOr<openapiv3::Schema>),
}

/// What the parts of additional properties hold.
pub open spec fn additional_parts_view(parts: AdditionalParts) -> ExtraPropertiesView {
    match parts {
        AdditionalParts::Any(allowed) => ExtraPropertiesView::Any(allowed),
        AdditionalParts::Schema(s) => ExtraPropertiesView::Schema(Box::new(schema_of(s))),
    }
}

/// Takes an `openapiv3::AdditionalProperties` apart by one level.
#[verifier::external_body]
pub(crate) fn open_additional_properties(
    additional: openapiv3::AdditionalProperties,
) -> (r: AdditionalParts)
    ensures
        additional_parts_view(r) == additional_properties_of(additional),
{
    match additional {
        openapiv3::AdditionalProperties::Any(allowed) => AdditionalParts::Any(allowed),
        openapiv3::AdditionalProperties::Schema(s) => AdditionalParts::Schema(*s),
    }
}

/// What the location and the data of a parameter hold.
pub open spec fn parameter_parts_view(
    parts: RefOr<(ParameterLocation, openapiv3::ParameterData)>,
) -> RefOrView<ParameterView> {
    match parts {
        RefOr::Reference { reference } => RefOrView::Reference { reference: reference@ },
        RefOr::Item((location, data)) => RefOrView::Item(
            ParameterView { location, parameter_data: parameter_data_of(data) },
        ),
    }
}

/// Takes an `openapiv3::Parameter` given in place or by reference apart into its location and
/// its data.
#[verifier::external_body]
pub(crate) fn open_parameter(
    parameter: openapiv3::ReferenceOr<openapiv3::Parameter>,
) -> (r: RefOr<(ParameterLocation, openapiv3::ParameterData)>)
    ensures
        parameter_parts_view(r) == parameter_of(parameter),
{
    match parameter {
        openapiv3::ReferenceOr::Reference { reference } => RefOr::Reference { reference },
        openapiv3::ReferenceOr::Item(p) => RefOr::Item(match p {
            openapiv3::Parameter::Query { parameter_data: data, .. } => (ParameterLocation::Query, data),
            openapiv3::Parameter::Header { parameter_data: data, .. } => (ParameterLocation::Header, data),
            openapiv3::Parameter::Path { parameter_data: data, .. } => (ParameterLocation::Path, data),
            openapiv3::Parameter::Cookie { parameter_data: data, .. } => (ParameterLocation::Cookie, data),
        }),
    }
}

/// An `openapiv3::ParameterData` taken apart by one level.
pub struct ParameterParts {
    pub name: String,
    pub description: Option<String>,
    pub required: bool,
    pub schema: Option<openapiv3::ReferenceOr<openapiv3::Schema>>,
}

/// What a schema that may be missing holds.
pub open spec fn schema_option_of(
    schema: Option<openapiv3::ReferenceOr<openapiv3::Schema>>,
) -> Option<RefOrView<SchemaView>> {
    match schema {
        Some(s) => Some(schema_of(s)),
        None => None,
    }
}

/// What the parts of a parameter's data hold.
pub open spec fn parameter_data_parts_view(parts: ParameterParts) -> ParameterInfoView {
    ParameterInfoView {
        name: parts.name@,
        description: parts.description.deep_view(),
        required: parts.required,
        format: match parts.schema {
            Some(schema) => ParameterSchemaOrContentView::Schema(schema_of(schema)),
            None => ParameterSchemaOrContentView::Content,
        },
    }
}

/// Takes an `openapiv3::ParameterData` apart by one level. The content of a parameter that has
/// no schema is left behind.
#[verifier::external_body]
pub(crate) fn open_parameter_data(data: openapiv3::ParameterData) -> (r: ParameterParts)
    ensures
        parameter_data_parts_view(r) == parameter_data_of(data),
{
    ParameterParts {
        name: data.name,
        description: data.description,
        required: data.required,
        schema: match data.format {
            openapiv3::ParameterSchemaOrContent::Schema(schema) => Some(schema),
            openapiv3::ParameterSchemaOrContent::Content(_) => None,
        },
    }
}

/// What a body by content type holds.
pub open spec fn content_of(
    content: Seq<(String, Option<openapiv3::ReferenceOr<openapiv3::Schema>>)>,
) -> Seq<(Seq<char>, MediaTypeView)> {
    content.map_values(
        |e: (String, Option<openapiv3::ReferenceOr<openapiv3::Schema>>)|
            (e.0@, MediaTypeView { schema: schema_option_of(e.1) }),
    )
}

/// An `openapiv3::RequestBody` taken apart by one level.
pub struct RequestBodyParts {
    pub content: Vec<(String, Option<openapiv3::ReferenceOr<openapiv3::Schema>>)>,
    pub required: bool,
}

/// What the parts of a request's body hold.
pub open spec fn request_body_parts_view(parts: RefOr<RequestBodyParts>) -> RefOrView<
    RequestBodyView,
> {
    match parts {
        RefOr::Reference { reference } => RefOrView::Reference { reference: reference@ },
        RefOr::Item(body) => RefOrView::Item(
            RequestBodyView { content: content_of(body.content@), required: body.required },
        ),
    }
}

/// Takes an `openapiv3::RequestBody` given in place or by reference apart by one level, down to
/// the schemas of its media types.
#[verifier::external_body]
pub(crate) fn open_request_body(
    body: openapiv3::ReferenceOr<openapiv3::RequestBody>,
) -> (r: RefOr<RequestBodyParts>)
    ensures
        request_body_parts_view(r) == request_body_of(body),
{
    match body {
        openapiv3::ReferenceOr::Reference { reference } => RefOr::Reference { reference },
        openapiv3::ReferenceOr::Item(b) => RefOr::Item(
            RequestBodyParts {
                content: b.content.into_iter().map(|(name, m)| (name, m.schema)).collect(),
                required: b.required,
            },
        ),
    }
}

/// An `openapiv3::Response` taken apart by one level.
pub struct ResponseParts {
    pub description: String,
    pub content: Vec<(String, Option<openapiv3::ReferenceOr<openapiv3::Schema>>)>,
}

/// What the parts of a response hold.
pub open spec fn response_parts_view(parts: RefOr<ResponseParts>) -> RefOrView<ResponseView> {
    match parts {
        RefOr::Reference { reference } => RefOrView::Reference { reference: reference@ },
        RefOr::Item(response) => RefOrView::Item(
            ResponseView {
                description: response.description@,
                content: content_of(response.content@),
            },
        ),
    }
}

/// Takes an `openapiv3::Response` given in place or by reference apart by one level, down to the
/// schemas of its media types.
#[verifier::external_body]
pub(crate) fn open_response(
    response: openapiv3::ReferenceOr<openapiv3::Response>,
) -> (r: RefOr<ResponseParts>)
    ensures
        response_parts_view(r) == response_of(response),
{
    match response {
        openapiv3::ReferenceOr::Reference { reference } => RefOr::Reference { reference },
        openapiv3::ReferenceOr::Item(b) => RefOr::Item(
            ResponseParts {
                description: b.description,
                content: b.content.into_iter().map(|(name, m)| (name, m.schema)).collect(),
            },
        ),
    }
}

/// Reads an `openapiv3::StatusCode`.
#[verifier::external_body]
pub(crate) fn read_status(code: openapiv3::StatusCode) -> (r: Status)
    ensures
        r == status_of(code),
{
    match code {
        openapiv3::StatusCode::Code(n) => Status::Code(n),
        openapiv3::StatusCode::Range(n) => Status::Range(n),
    }
}

/// An `openapiv3::Operation` taken apart by one level.
pub struct OperationParts {
    pub operation_id: Option<String>,
    pub parameters: Vec<openapiv3::ReferenceOr<openapiv3::Parameter>>,
    pub request_body: Option<openapiv3::ReferenceOr<openapiv3::RequestBody>>,
    pub responses: Vec<(openapiv3::StatusCode, openapiv3::ReferenceOr<openapiv3::Response>)>,
}

/// What a list of parameters holds.
pub open spec fn parameters_of(
    list: Seq<openapiv3::ReferenceOr<openapiv3::Parameter>>,
) -> Seq<RefOrView<ParameterView>> {
    list.map_values(|p: openapiv3::ReferenceOr<openapiv3::Parameter>| parameter_of(p))
}

/// What the parts of an operation hold.
pub open spec fn operation_parts_view(parts: OperationParts) -> OperationView {
    OperationView {
        operation_id: parts.operation_id.deep_view(),
        parameters: parameters_of(parts.parameters@),
        request_body: match parts.request_body {
            Some(body) => Some(request_body_of(body)),
            None => None,
        },
        responses: parts.responses@.map_values(
            |e: (openapiv3::StatusCode, openapiv3::ReferenceOr<openapiv3::Response>)|
                (status_of(e.0), response_of(e.1)),
        ),
    }
}

/// Takes an `openapiv3::Operation` apart by one level. The default response is left behind.
#[verifier::external_body]
pub(crate) fn open_operation(operation: openapiv3::Operation) -> (r: OperationParts)
    ensures
        operation_parts_view(r) == operation_of(operation),
{
    OperationParts {
        operation_id: operation.operation_id,
        parameters: operation.parameters,
        request_body: operation.request_body,
        responses: operation.responses.responses.into_iter().collect(),
    }
}

/// An `openapiv3::PathItem` taken apart by one level.
pub struct PathItemParts {
    pub get: Option<openapiv3::Operation>,
    pub post: Option<openapiv3::Operation>,
    pub put: Option<openapiv3::Operation>,
    pub delete: Option<openapiv3::Operation>,
    pub patch: Option<openapiv3::Operation>,
    pub parameters: Vec<openapiv3::ReferenceOr<openapiv3::Parameter>>,
}

/// What an operation that may be missing holds.
pub open spec fn operation_option_of(
    operation: Option<openapiv3::Operation>,
) -> Option<OperationView> {
    match operation {
        Some(o) => Some(operation_of(o)),
        None => None,
    }
}

/// What the parts of a path item hold.
pub open spec fn path_item_parts_view(parts: RefOr<PathItemParts>) -> RefOrView<PathItemView> {
    match parts {
        RefOr::Reference { reference } => RefOrView::Reference { reference: reference@ },
        RefOr::Item(item) => RefOrView::Item(
            PathItemView {
                get: operation_option_of(item.get),
                post: operation_option_of(item.post),
                put: operation_option_of(item.put),
                delete: operation_option_of(item.delete),
                patch: operation_option_of(item.patch),
                parameters: parameters_of(item.parameters@),
            },
        ),
    }
}

/// Takes an `openapiv3::PathItem` given in place or by reference apart by one level. The
/// operations `options`, `head` and `trace` are left behind.
#[verifier::external_body]
pub(crate) fn open_path_item(
    item: openapiv3::ReferenceOr<openapiv3::PathItem>,
) -> (r: RefOr<PathItemParts>)
    ensures
        path_item_parts_view(r) == path_item_of(item),
{
    match item {
        openapiv3::ReferenceOr::Reference { reference } => RefOr::Reference { reference },
        openapiv3::ReferenceOr::Item(p) => RefOr::Item(
            PathItemParts {
                get: p.get,
                post: p.post,
                put: p.put,
                delete: p.delete,
                patch: p.patch,
                parameters: p.parameters,
            },
        ),
    }
}

/// The `openapiv3::Components` of a document taken apart by one level.
pub struct ComponentsParts {
    pub schemas: Vec<(String, openapiv3::ReferenceOr<openapiv3::Schema>)>,
    pub request_bodies: Vec<(String, openapiv3::ReferenceOr<openapiv3::RequestBody>)>,
    pub parameters: Vec<(String, openapiv3::ReferenceOr<openapiv3::Parameter>)>,
}

/// What the parts of components hold.
pub open spec fn components_parts_view(parts: ComponentsParts) -> ComponentsView {
    ComponentsView {
        schemas: named_schemas_of(parts.schemas@),
        request_bodies: parts.request_bodies@.map_values(
            |e: (String, openapiv3::ReferenceOr<openapiv3::RequestBody>)|
                (e.0@, request_body_of(e.1)),
        ),
        parameters: parts.parameters@.map_values(
            |e: (String, openapiv3::ReferenceOr<openapiv3::Parameter>)|
                (e.0@, parameter_of(e.1)),
        ),
    }
}

/// An `openapiv3::OpenAPI` taken apart by one level.
pub struct DocumentParts {
    pub components: Option<ComponentsParts>,
    pub paths: Vec<(String, openapiv3::ReferenceOr<openapiv3::PathItem>)>,
}

/// What the parts of a document hold.
pub open spec fn document_parts_view(parts: DocumentParts) -> DocumentView {
    DocumentView {
        components: match parts.components {
            Some(c) => Some(components_parts_view(c)),
            None => None,
        },
        paths: parts.paths@.map_values(
            |e: (String, openapiv3::ReferenceOr<openapiv3::PathItem>)|
                (e.0@, path_item_of(e.1)),
        ),
    }
}

/// Takes an `openapiv3::OpenAPI` apart into its paths and its components.
#[verifier::external_body]
pub(crate) fn open_document(document: openapiv3::OpenAPI) -> (r: DocumentParts)
    ensures
        document_parts_view(r) == document_of(document),
{
    DocumentParts {
        components: match document.components {
            Some(c) => Some(ComponentsParts {
                schemas: c.schemas.into_iter().collect(),
                request_bodies: c.request_bodies.into_iter().collect(),
                parameters: c.parameters.into_iter().collect(),
            }),
            None => None,
        },
        paths: document.paths.paths.into_iter().collect(),
    }
}

} // verus!
