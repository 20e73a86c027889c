//! What the mathematical value of each type holds: all that the type does, part by part.
use crate::error::{DocumentError, DocumentErrorView};
use crate::json::{lemma_json_view, Json, JsonView};
use crate::models::{
    CompositionModel, EnumModel, Field, Model, ModelType, ModelTypeView, RequestModel,
    ResponseModel, TypeAliasModel, UnionModel, UnionVariant,
};
use crate::openapi::view::{
    lemma_schema_view, ExtraPropertiesView, ParameterSchemaOrContentView, RefOrView,
    SchemaShapeView, TextFormatView,
};
use crate::openapi::{
    Components, Document, ExtraProperties, MediaType, OperationDef, ParameterDef, ParameterInfo,
    ParameterSchemaOrContent, PathItemDef, RefOr, RequestBodyDef, ResponseDef, SchemaData,
    SchemaDef, SchemaShape, SchemaType, Status, TextFormat,
};
use vstd::prelude::*;

verus! {

/// The value of a field has each part of the field.
pub proof fn law_value_of_field(field: Field)
    ensures
        field.deep_view().name == field.name@,
        field.deep_view().field_type == field.field_type@,
        field.deep_view().format == field.format@,
        field.deep_view().is_required == field.is_required,
        field.deep_view().is_nullable == field.is_nullable,
        field.deep_view().is_array_ref == field.is_array_ref,
        field.deep_view().flatten == field.flatten,
        field.deep_view().description == field.description.deep_view(),
        field.deep_view().custom_attrs == field.custom_attrs.deep_view(),
{
}

/// The value of a structure has each part of it.
pub proof fn law_value_of_structure(structure: Model)
    ensures
        structure.deep_view().name == structure.name@,
        structure.deep_view().fields == structure.fields.deep_view(),
        structure.deep_view().custom_attrs == structure.custom_attrs.deep_view(),
        structure.deep_view().description == structure.description.deep_view(),
{
}

/// The value of an enumeration has each part of it.
pub proof fn law_value_of_enumeration(enumeration: EnumModel)
    ensures
        enumeration.deep_view().name == enumeration.name@,
        enumeration.deep_view().variants == enumeration.variants.deep_view(),
        enumeration.deep_view().description == enumeration.description.deep_view(),
        enumeration.deep_view().custom_attrs == enumeration.custom_attrs.deep_view(),
{
}

/// The value of an alias has each part of it.
pub proof fn law_value_of_alias(alias: TypeAliasModel)
    ensures
        alias.deep_view().name == alias.name@,
        alias.deep_view().target_type == alias.target_type@,
        alias.deep_view().description == alias.description.deep_view(),
        alias.deep_view().custom_attrs == alias.custom_attrs.deep_view(),
{
}

/// The value of a composition has each part of it.
pub proof fn law_value_of_composition(composition: CompositionModel)
    ensures
        composition.deep_view().name == composition.name@,
        composition.deep_view().all_fields == composition.all_fields.deep_view(),
        composition.deep_view().custom_attrs == composition.custom_attrs.deep_view(),
{
}

/// The value of a variant has each part of it.
pub proof fn law_value_of_variant(variant: UnionVariant)
    ensures
        variant.deep_view().name == variant.name@,
        variant.deep_view().fields == variant.fields.deep_view(),
        variant.deep_view().primitive_type == variant.primitive_type.deep_view(),
{
}

/// The value of a union has each part of it.
pub proof fn law_value_of_union_model(union_model: UnionModel)
    ensures
        union_model.deep_view().name == union_model.name@,
        union_model.deep_view().variants == union_model.variants.deep_view(),
        union_model.deep_view().union_type == union_model.union_type,
        union_model.deep_view().custom_attrs == union_model.custom_attrs.deep_view(),
{
}

/// The value of a request has each part of it.
pub proof fn law_value_of_request(request: RequestModel)
    ensures
        request.deep_view().name == request.name@,
        request.deep_view().content_type == request.content_type@,
        request.deep_view().schema == request.schema@,
        request.deep_view().is_required == request.is_required,
{
}

/// The value of a response has each part of it.
pub proof fn law_value_of_response(response: ResponseModel)
    ensures
        response.deep_view().name == response.name@,
        response.deep_view().status_code == response.status_code@,
        response.deep_view().content_type == response.content_type@,
        response.deep_view().schema == response.schema@,
        response.deep_view().description == response.description.deep_view(),
{
}

/// The value of a model says what it is, and has the value of that.
pub proof fn law_value_of_model(model: ModelType)
    ensures
        model matches ModelType::Struct(m) ==> model.deep_view() == ModelTypeView::Struct(
            m.deep_view(),
        ),
        model matches ModelType::Union(m) ==> model.deep_view() == ModelTypeView::Union(
            m.deep_view(),
        ),
        model matches ModelType::Composition(m) ==> model.deep_view() == ModelTypeView::Composition(
            m.deep_view(),
        ),
        model matches ModelType::Enum(m) ==> model.deep_view() == ModelTypeView::Enum(
            m.deep_view(),
        ),
        model matches ModelType::TypeAlias(m) ==> model.deep_view() == ModelTypeView::TypeAlias(
            m.deep_view(),
        ),
{
}

/// The value of an error says which it is, and has its message.
pub proof fn law_value_of_error(error: DocumentError)
    ensures
        error matches DocumentError::OpenApi(m) ==> error.deep_view() == DocumentErrorView::OpenApi(
            m@,
        ),
        error matches DocumentError::Yaml(m) ==> error.deep_view() == DocumentErrorView::Yaml(m@),
        error matches DocumentError::Json(m) ==> error.deep_view() == DocumentErrorView::Json(m@),
{
}

/// The value of a JSON value is of its kind and has what it holds.
pub proof fn law_value_of_json(j: Json)
    ensures
        j is Null ==> j.deep_view() is Null,
        j matches Json::Bool(b) ==> j.deep_view() == JsonView::Bool(b),
        j matches Json::Number(n) ==> j.deep_view() == JsonView::Number(n),
        j matches Json::Text(s) ==> j.deep_view() == JsonView::Text(s@),
        j matches Json::Array(items) ==> j.deep_view() == JsonView::Array(items.deep_view()),
        j matches Json::Object(entries) ==> j.deep_view() == JsonView::Object(entries.deep_view()),
{
    lemma_json_view(j);
}

/// The value of what is given in place or by reference says which, and has the one or the other.
pub proof fn law_value_of_reference<T: DeepView>(given: RefOr<T>)
    ensures
        given matches RefOr::Reference { reference } ==> given.deep_view() is Reference
            && given.deep_view()->reference == reference@,
        given matches RefOr::Item(item) ==> given.deep_view() == RefOrView::Item(item.deep_view()),
{
}

/// The value of what a schema says of itself has each part of it.
pub proof fn law_value_of_data(data: SchemaData)
    ensures
        data.deep_view().nullable == data.nullable,
        data.deep_view().title == data.title.deep_view(),
        data.deep_view().description == data.description.deep_view(),
        data.deep_view().extensions == data.extensions.deep_view(),
{
}

/// The value of a schema is of its kind and has each part of it, however deep.
pub proof fn law_value_of_schema(schema: SchemaDef)
    ensures
        schema.deep_view().schema_data == schema.schema_data.deep_view(),
        match schema.schema_kind {
            SchemaShape::Type(t) => schema.deep_view().schema_kind == SchemaShapeView::Type(
                t.deep_view(),
            ),
            SchemaShape::OneOf { one_of } => schema.deep_view().schema_kind is OneOf
                && schema.deep_view().schema_kind->one_of == one_of.deep_view(),
            SchemaShape::AllOf { all_of } => schema.deep_view().schema_kind is AllOf
                && schema.deep_view().schema_kind->all_of == all_of.deep_view(),
            SchemaShape::AnyOf { any_of } => schema.deep_view().schema_kind is AnyOf
                && schema.deep_view().schema_kind->any_of == any_of.deep_view(),
            SchemaShape::Not => schema.deep_view().schema_kind is Not,
            SchemaShape::Any => schema.deep_view().schema_kind is Any,
        },
{
    lemma_schema_view(schema);
}

/// The value of a type is of its kind and has each part of it.
pub proof fn law_value_of_type(t: SchemaType)
    ensures
        match t {
            SchemaType::String(s) => {
                &&& t.deep_view() is String
                &&& t.deep_view()->String_0.enumeration == s.enumeration.deep_view()
                &&& match s.format {
                    TextFormat::Item(f) => t.deep_view()->String_0.format == TextFormatView::Item(
                        f,
                    ),
                    TextFormat::Unknown(name) => t.deep_view()->String_0.format
                        == TextFormatView::Unknown(name@),
                    TextFormat::Empty => t.deep_view()->String_0.format is Empty,
                }
            },
            SchemaType::Number => t.deep_view() is Number,
            SchemaType::Integer(n) => t.deep_view() is Integer
                && t.deep_view()->Integer_0.enumeration == n.enumeration@,
            SchemaType::Object(obj) => {
                let value = t.deep_view()->Object_0;
                &&& t.deep_view() is Object
                &&& value.properties == obj.properties.deep_view()
                &&& value.required == obj.required.deep_view()
                &&& match obj.additional_properties {
                    Some(ExtraProperties::Any(allowed)) => value.additional_properties == Some(
                        ExtraPropertiesView::Any(allowed),
                    ),
                    Some(ExtraProperties::Schema(s)) => value.additional_properties is Some
                        && value.additional_properties->0 is Schema
                        && *value.additional_properties->0->Schema_0 == s.deep_view(),
                    None => value.additional_properties is None,
                }
            },
            SchemaType::Array(array) => {
                &&& t.deep_view() is Array
                &&& match array.items {
                    Some(items) => t.deep_view()->Array_0.items is Some
                        && *t.deep_view()->Array_0.items->0 == items.deep_view(),
                    None => t.deep_view()->Array_0.items is None,
                }
            },
            SchemaType::Boolean => t.deep_view() is Boolean,
        },
{
}

/// The value of what a parameter holds is of its kind, and has the schema where there is one.
pub proof fn law_value_of_format(format: ParameterSchemaOrContent)
    ensures
        format matches ParameterSchemaOrContent::Schema(schema) ==> format.deep_view()
            == ParameterSchemaOrContentView::Schema(schema.deep_view()),
        format is Content ==> format.deep_view() is Content,
{
}

/// The value of what a parameter says has each part of it.
pub proof fn law_value_of_info(info: ParameterInfo)
    ensures
        info.deep_view().name == info.name@,
        info.deep_view().description == info.description.deep_view(),
        info.deep_view().required == info.required,
        info.deep_view().format == info.format.deep_view(),
{
}

/// The value of a parameter has each part of it.
pub proof fn law_value_of_parameter(parameter: ParameterDef)
    ensures
        parameter.deep_view().location == parameter.location,
        parameter.deep_view().parameter_data == parameter.parameter_data.deep_view(),
{
}

/// The value of a content type has its schema.
pub proof fn law_value_of_media_type(media_type: MediaType)
    ensures
        media_type.deep_view().schema == media_type.schema.deep_view(),
{
}

/// The value of a request body has each part of it.
pub proof fn law_value_of_body(body: RequestBodyDef)
    ensures
        body.deep_view().content == body.content.deep_view(),
        body.deep_view().required == body.required,
{
}

/// The value of a declared response has each part of it.
pub proof fn law_value_of_declared_response(declared_response: ResponseDef)
    ensures
        declared_response.deep_view().description == declared_response.description@,
        declared_response.deep_view().content == declared_response.content.deep_view(),
{
}

/// The value of an operation has each part of it.
pub proof fn law_value_of_operation(operation: OperationDef)
    ensures
        operation.deep_view().operation_id == operation.operation_id.deep_view(),
        operation.deep_view().parameters == operation.parameters.deep_view(),
        operation.deep_view().request_body == operation.request_body.deep_view(),
        operation.deep_view().responses == operation.responses.deep_view(),
{
}

/// The value of a path has each part of it.
pub proof fn law_value_of_path_item(path_item: PathItemDef)
    ensures
        path_item.deep_view().get == path_item.get.deep_view(),
        path_item.deep_view().post == path_item.post.deep_view(),
        path_item.deep_view().put == path_item.put.deep_view(),
        path_item.deep_view().delete == path_item.delete.deep_view(),
        path_item.deep_view().patch == path_item.patch.deep_view(),
        path_item.deep_view().parameters == path_item.parameters.deep_view(),
{
}

/// The value of what is declared has each part of it.
pub proof fn law_value_of_components(components: Components)
    ensures
        components.deep_view().schemas == components.schemas.deep_view(),
        components.deep_view().request_bodies == components.request_bodies.deep_view(),
        components.deep_view().parameters == components.parameters.deep_view(),
{
}

/// The value of a document has each part of it.
pub proof fn law_value_of_document(document: Document)
    ensures
        document.deep_view().components == document.components.deep_view(),
        document.deep_view().paths == document.paths.deep_view(),
{
}

/// The value of a status is the status.
pub proof fn law_value_of_status(status: Status)
    ensures
        status.deep_view() == status,
{
}

} // verus!
