//! The mathematical value of a document.
use crate::json::JsonView;
use crate::openapi::{
    ArrayType, Components, Document, ExtraProperties, IntegerType, KnownFormat, MediaType,
    ObjectType, OperationDef, ParameterDef, ParameterInfo, ParameterLocation,
    ParameterSchemaOrContent, PathItemDef, RefOr, RequestBodyDef, ResponseDef, SchemaData,
    SchemaDef, SchemaShape, SchemaType, Status, StringType, TextFormat,
};
use vstd::prelude::*;

verus! {

/// The mathematical value of a [`RefOr`].
#[verifier::ext_equal]
pub enum RefOrView<T> {
    Reference { reference: Seq<char> },
    Item(T),
}

/// The mathematical value of a [`SchemaData`].
#[verifier::ext_equal]
pub struct SchemaDataView {
    pub nullable: bool,
    pub title: Option<Seq<char>>,
    pub description: Option<Seq<char>>,
    pub extensions: Seq<(Seq<char>, JsonView)>,
}

/// The mathematical value of a [`SchemaDef`].
#[verifier::ext_equal]
pub struct SchemaView {
    pub schema_data: SchemaDataView,
    pub schema_kind: SchemaShapeView,
}

/// The mathematical value of a [`SchemaShape`].
#[verifier::ext_equal]
pub enum SchemaShapeView {
    Type(SchemaTypeView),
    OneOf { one_of: Seq<RefOrView<SchemaView>> },
    AllOf { all_of: Seq<RefOrView<SchemaView>> },
    AnyOf { any_of: Seq<RefOrView<SchemaView>> },
    Not,
    Any,
}

/// The mathematical value of a [`SchemaType`].
#[verifier::ext_equal]
pub enum SchemaTypeView {
    String(StringTypeView),
    Number,
    Integer(IntegerTypeView),
    Object(ObjectTypeView),
    Array(ArrayTypeView),
    Boolean,
}

/// The mathematical value of a [`TextFormat`].
#[verifier::ext_equal]
pub enum TextFormatView {
    Item(KnownFormat),
    Unknown(Seq<char>),
    Empty,
}

/// The mathematical value of a [`StringType`].
#[verifier::ext_equal]
pub struct StringTypeView {
    pub format: TextFormatView,
    pub enumeration: Seq<Option<Seq<char>>>,
}

/// The mathematical value of an [`IntegerType`].
#[verifier::ext_equal]
pub struct IntegerTypeView {
    pub enumeration: Seq<Option<i64>>,
}

/// The mathematical value of an [`ObjectType`].
#[verifier::ext_equal]
pub struct ObjectTypeView {
    pub properties: Seq<(Seq<char>, RefOrView<SchemaView>)>,
    pub required: Seq<Seq<char>>,
    pub additional_properties: Option<ExtraPropertiesView>,
}

/// The mathematical value of an [`ExtraProperties`].
#[verifier::ext_equal]
pub enum ExtraPropertiesView {
    Any(bool),
    Schema(Box<RefOrView<SchemaView>>),
}

/// The mathematical value of an [`ArrayType`].
#[verifier::ext_equal]
pub struct ArrayTypeView {
    pub items: Option<Box<RefOrView<SchemaView>>>,
}

/// The mathematical value of a [`ParameterSchemaOrContent`].
#[verifier::ext_equal]
pub enum ParameterSchemaOrContentView {
    Schema(RefOrView<SchemaView>),
    Content,
}

/// The mathematical value of a [`ParameterInfo`].
#[verifier::ext_equal]
pub struct ParameterInfoView {
    pub name: Seq<char>,
    pub description: Option<Seq<char>>,
    pub required: bool,
    pub format: ParameterSchemaOrContentView,
}

/// The mathematical value of a [`ParameterDef`].
#[verifier::ext_equal]
pub struct ParameterView {
    pub location: ParameterLocation,
    pub parameter_data: ParameterInfoView,
}

/// The mathematical value of a [`MediaType`].
#[verifier::ext_equal]
pub struct MediaTypeView {
    pub schema: Option<RefOrView<SchemaView>>,
}

/// The mathematical value of a [`RequestBodyDef`].
#[verifier::ext_equal]
pub struct RequestBodyView {
    pub content: Seq<(Seq<char>, MediaTypeView)>,
    pub required: bool,
}

/// The mathematical value of a [`ResponseDef`].
#[verifier::ext_equal]
pub struct ResponseView {
    pub description: Seq<char>,
    pub content: Seq<(Seq<char>, MediaTypeView)>,
}

/// The mathematical value of an [`OperationDef`].
#[verifier::ext_equal]
pub struct OperationView {
    pub operation_id: Option<Seq<char>>,
    pub parameters: Seq<RefOrView<ParameterView>>,
    pub request_body: Option<RefOrView<RequestBodyView>>,
    pub responses: Seq<(Status, RefOrView<ResponseView>)>,
}

/// The mathematical value of a [`PathItemDef`].
#[verifier::ext_equal]
pub struct PathItemView {
    pub get: Option<OperationView>,
    pub post: Option<OperationView>,
    pub put: Option<OperationView>,
    pub delete: Option<OperationView>,
    pub patch: Option<OperationView>,
    pub parameters: Seq<RefOrView<ParameterView>>,
}

/// The mathematical value of a [`Components`].
#[verifier::ext_equal]
pub struct ComponentsView {
    pub schemas: Seq<(Seq<char>, RefOrView<SchemaView>)>,
    pub request_bodies: Seq<(Seq<char>, RefOrView<RequestBodyView>)>,
    pub parameters: Seq<(Seq<char>, RefOrView<ParameterView>)>,
}

/// The mathematical value of a [`Document`].
#[verifier::ext_equal]
pub struct DocumentView {
    pub components: Option<ComponentsView>,
    pub paths: Seq<(Seq<char>, RefOrView<PathItemView>)>,
}

impl<T: DeepView> DeepView for RefOr<T> {
    type V = RefOrView<T::V>;

    open spec fn deep_view(&self) -> RefOrView<T::V> {
        match self {
            RefOr::Reference { reference } => RefOrView::Reference { reference: reference@ },
            RefOr::Item(item) => RefOrView::Item(item.deep_view()),
        }
    }
}

impl DeepView for SchemaData {
    type V = SchemaDataView;

    open spec fn deep_view(&self) -> SchemaDataView {
        SchemaDataView {
            nullable: self.nullable,
            title: self.title.deep_view(),
            description: self.description.deep_view(),
            extensions: self.extensions.deep_view(),
        }
    }
}

/// The mathematical value of a schema.
pub open spec fn schema_view(schema: SchemaDef) -> SchemaView
    decreases schema,
{
    SchemaView {
        schema_data: schema.schema_data.deep_view(),
        schema_kind: match schema.schema_kind {
            SchemaShape::Type(t) => SchemaShapeView::Type(type_view(t)),
            SchemaShape::OneOf { one_of } => SchemaShapeView::OneOf {
                one_of: schema_list_view(one_of@),
            },
            SchemaShape::AllOf { all_of } => SchemaShapeView::AllOf {
                all_of: schema_list_view(all_of@),
            },
            SchemaShape::AnyOf { any_of } => SchemaShapeView::AnyOf {
                any_of: schema_list_view(any_of@),
            },
            SchemaShape::Not => SchemaShapeView::Not,
            SchemaShape::Any => SchemaShapeView::Any,
        },
    }
}

/// The mathematical value of a schema given in place or by reference.
pub open spec fn schema_ref_view(schema: RefOr<SchemaDef>) -> RefOrView<SchemaView>
    decreases schema,
{
    match schema {
        RefOr::Reference { reference } => RefOrView::Reference { reference: reference@ },
        RefOr::Item(s) => RefOrView::Item(schema_view(s)),
    }
}

/// The mathematical value of a list of schemas.
pub open spec fn schema_list_view(list: Seq<RefOr<SchemaDef>>) -> Seq<RefOrView<SchemaView>>
    decreases list,
{
    Seq::new(
        list.len(),
        |i: int|
            if 0 <= i < list.len() {
                schema_ref_view(list[i])
            } else {
                RefOrView::Reference { reference: Seq::empty() }
            },
    )
}

/// The mathematical value of schemas with their names.
pub open spec fn schema_entries_view(entries: Seq<(String, RefOr<SchemaDef>)>) -> Seq<
    (Seq<char>, RefOrView<SchemaView>),
>
    decreases entries,
{
    Seq::new(
        entries.len(),
        |i: int|
            if 0 <= i < entries.len() {
                (entries[i].0@, schema_ref_view(entries[i].1))
            } else {
                (Seq::empty(), RefOrView::Reference { reference: Seq::empty() })
            },
    )
}

/// The mathematical value of a type.
pub open spec fn type_view(t: SchemaType) -> SchemaTypeView
    decreases t,
{
    match t {
        SchemaType::String(s) => SchemaTypeView::String(s.deep_view()),
        SchemaType::Number => SchemaTypeView::Number,
        SchemaType::Integer(i) => SchemaTypeView::Integer(i.deep_view()),
        SchemaType::Object(obj) => SchemaTypeView::Object(
            ObjectTypeView {
                properties: schema_entries_view(obj.properties@),
                required: obj.required.deep_view(),
                additional_properties: match obj.additional_properties {
                    Some(extra) => Some(extra_properties_view(extra)),
                    None => None,
                },
            },
        ),
        SchemaType::Array(array) => SchemaTypeView::Array(
            ArrayTypeView {
                items: match array.items {
                    Some(items) => Some(Box::new(schema_ref_view(*items))),
                    None => None,
                },
            },
        ),
        SchemaType::Boolean => SchemaTypeView::Boolean,
    }
}

/// The mathematical value of what an object may hold besides its properties.
pub open spec fn extra_properties_view(extra: ExtraProperties) -> ExtraPropertiesView
    decreases extra,
{
    match extra {
        ExtraProperties::Any(allowed) => ExtraPropertiesView::Any(allowed),
        ExtraProperties::Schema(schema) => ExtraPropertiesView::Schema(
            Box::new(schema_ref_view(*schema)),
        ),
    }
}

impl DeepView for TextFormat {
    type V = TextFormatView;

    open spec fn deep_view(&self) -> TextFormatView {
        match self {
            TextFormat::Item(f) => TextFormatView::Item(*f),
            TextFormat::Unknown(name) => TextFormatView::Unknown(name@),
            TextFormat::Empty => TextFormatView::Empty,
        }
    }
}

impl DeepView for StringType {
    type V = StringTypeView;

    open spec fn deep_view(&self) -> StringTypeView {
        StringTypeView {
            format: self.format.deep_view(),
            enumeration: self.enumeration.deep_view(),
        }
    }
}

impl DeepView for IntegerType {
    type V = IntegerTypeView;

    open spec fn deep_view(&self) -> IntegerTypeView {
        IntegerTypeView { enumeration: self.enumeration@ }
    }
}

impl DeepView for SchemaDef {
    type V = SchemaView;

    open spec fn deep_view(&self) -> SchemaView {
        schema_view(*self)
    }
}

impl DeepView for ExtraProperties {
    type V = ExtraPropertiesView;

    open spec fn deep_view(&self) -> ExtraPropertiesView {
        match self {
            ExtraProperties::Any(allowed) => ExtraPropertiesView::Any(*allowed),
            ExtraProperties::Schema(schema) => ExtraPropertiesView::Schema(
                Box::new(schema.deep_view()),
            ),
        }
    }
}

impl DeepView for ObjectType {
    type V = ObjectTypeView;

    open spec fn deep_view(&self) -> ObjectTypeView {
        ObjectTypeView {
            properties: self.properties.deep_view(),
            required: self.required.deep_view(),
            additional_properties: self.additional_properties.deep_view(),
        }
    }
}

impl DeepView for ArrayType {
    type V = ArrayTypeView;

    open spec fn deep_view(&self) -> ArrayTypeView {
        ArrayTypeView {
            items: match self.items {
                Some(items) => Some(Box::new(items.deep_view())),
                None => None,
            },
        }
    }
}

impl DeepView for SchemaType {
    type V = SchemaTypeView;

    open spec fn deep_view(&self) -> SchemaTypeView {
        match self {
            SchemaType::String(s) => SchemaTypeView::String(s.deep_view()),
            SchemaType::Number => SchemaTypeView::Number,
            SchemaType::Integer(i) => SchemaTypeView::Integer(i.deep_view()),
            SchemaType::Object(obj) => SchemaTypeView::Object(obj.deep_view()),
            SchemaType::Array(array) => SchemaTypeView::Array(array.deep_view()),
            SchemaType::Boolean => SchemaTypeView::Boolean,
        }
    }
}

impl DeepView for SchemaShape {
    type V = SchemaShapeView;

    open spec fn deep_view(&self) -> SchemaShapeView {
        match self {
            SchemaShape::Type(t) => SchemaShapeView::Type(t.deep_view()),
            SchemaShape::OneOf { one_of } => SchemaShapeView::OneOf { one_of: one_of.deep_view() },
            SchemaShape::AllOf { all_of } => SchemaShapeView::AllOf { all_of: all_of.deep_view() },
            SchemaShape::AnyOf { any_of } => SchemaShapeView::AnyOf { any_of: any_of.deep_view() },
            SchemaShape::Not => SchemaShapeView::Not,
            SchemaShape::Any => SchemaShapeView::Any,
        }
    }
}

proof fn lemma_schema_list_view(list: Vec<RefOr<SchemaDef>>)
    ensures
        schema_list_view(list@) == list.deep_view(),
{
    reveal_with_fuel(schema_ref_view, 2);
    assert(schema_list_view(list@) =~= list.deep_view());
}

proof fn lemma_schema_entries_view(entries: Vec<(String, RefOr<SchemaDef>)>)
    ensures
        schema_entries_view(entries@) == entries.deep_view(),
{
    reveal_with_fuel(schema_ref_view, 2);
    assert(schema_entries_view(entries@) =~= entries.deep_view());
}

/// A schema is viewed part by part.
pub broadcast proof fn lemma_schema_view(schema: SchemaDef)
    ensures
        #[trigger] schema_view(schema) == (SchemaView {
            schema_data: schema.schema_data.deep_view(),
            schema_kind: schema.schema_kind.deep_view(),
        }),
{
    match schema.schema_kind {
        SchemaShape::Type(SchemaType::Object(obj)) => {
            lemma_schema_entries_view(obj.properties);
            if let Some(ExtraProperties::Schema(s)) = obj.additional_properties {
                assert(schema_ref_view(*s) == s.deep_view());
            }
            if let Some(extra) = obj.additional_properties {
                assert(extra_properties_view(extra) == extra.deep_view());
            }
            assert(type_view(SchemaType::Object(obj)) == SchemaTypeView::Object(obj.deep_view()));
        },
        SchemaShape::Type(SchemaType::Array(array)) => {
            if let Some(items) = array.items {
                assert(schema_ref_view(*items) == items.deep_view());
            }
            assert(type_view(SchemaType::Array(array)) == SchemaTypeView::Array(
                array.deep_view(),
            ));
        },
        SchemaShape::Type(t) => {
            assert(type_view(t) == t.deep_view());
        },
        SchemaShape::OneOf { one_of } => {
            lemma_schema_list_view(one_of);
        },
        SchemaShape::AllOf { all_of } => {
            lemma_schema_list_view(all_of);
        },
        SchemaShape::AnyOf { any_of } => {
            lemma_schema_list_view(any_of);
        },
        _ => {},
    }
}

impl DeepView for ParameterSchemaOrContent {
    type V = ParameterSchemaOrContentView;

    open spec fn deep_view(&self) -> ParameterSchemaOrContentView {
        match self {
            ParameterSchemaOrContent::Schema(schema) => ParameterSchemaOrContentView::Schema(
                schema.deep_view(),
            ),
            ParameterSchemaOrContent::Content => ParameterSchemaOrContentView::Content,
        }
    }
}

impl DeepView for ParameterInfo {
    type V = ParameterInfoView;

    open spec fn deep_view(&self) -> ParameterInfoView {
        ParameterInfoView {
            name: self.name@,
            description: self.description.deep_view(),
            required: self.required,
            format: self.format.deep_view(),
        }
    }
}

impl DeepView for ParameterDef {
    type V = ParameterView;

    open spec fn deep_view(&self) -> ParameterView {
        ParameterView {
            location: self.location,
            parameter_data: self.parameter_data.deep_view(),
        }
    }
}

impl DeepView for MediaType {
    type V = MediaTypeView;

    open spec fn deep_view(&self) -> MediaTypeView {
        MediaTypeView { schema: self.schema.deep_view() }
    }
}

impl DeepView for RequestBodyDef {
    type V = RequestBodyView;

    open spec fn deep_view(&self) -> RequestBodyView {
        RequestBodyView { content: self.content.deep_view(), required: self.required }
    }
}

impl DeepView for ResponseDef {
    type V = ResponseView;

    open spec fn deep_view(&self) -> ResponseView {
        ResponseView { description: self.description@, content: self.content.deep_view() }
    }
}

impl DeepView for Status {
    type V = Status;

    open spec fn deep_view(&self) -> Status {
        *self
    }
}

impl DeepView for OperationDef {
    type V = OperationView;

    open spec fn deep_view(&self) -> OperationView {
        OperationView {
            operation_id: self.operation_id.deep_view(),
            parameters: self.parameters.deep_view(),
            request_body: self.request_body.deep_view(),
            responses: self.responses.deep_view(),
        }
    }
}

impl DeepView for PathItemDef {
    type V = PathItemView;

    open spec fn deep_view(&self) -> PathItemView {
        PathItemView {
            get: self.get.deep_view(),
            post: self.post.deep_view(),
            put: self.put.deep_view(),
            delete: self.delete.deep_view(),
            patch: self.patch.deep_view(),
            parameters: self.parameters.deep_view(),
        }
    }
}

impl DeepView for Components {
    type V = ComponentsView;

    open spec fn deep_view(&self) -> ComponentsView {
        ComponentsView {
            schemas: self.schemas.deep_view(),
            request_bodies: self.request_bodies.deep_view(),
            parameters: self.parameters.deep_view(),
        }
    }
}

impl DeepView for Document {
    type V = DocumentView;

    open spec fn deep_view(&self) -> DocumentView {
        DocumentView { components: self.components.deep_view(), paths: self.paths.deep_view() }
    }
}

} // verus!
