//! The models that a document is turned into, and the mathematical value of each.
use vstd::prelude::*;

verus! {

/// Whether exactly one or at least one alternative of a union holds.
#[derive(Debug, Clone, Copy, PartialEq, Eq, Structural)]
pub enum UnionType {
    OneOf,
    AnyOf,
}

/// One field of a generated structure.
#[derive(Debug)]
pub struct Field {
    /// The name in the document.
    pub name: String,
    /// The Rust type.
    pub field_type: String,
    /// The format that the type was chosen from.
    pub format: String,
    /// Whether the document requires the field.
    pub is_required: bool,
    /// Whether the field may be null.
    pub is_nullable: bool,
    /// Whether the field holds an array of its type.
    pub is_array_ref: bool,
    /// Whether the fields of the type stand in place of this field.
    pub flatten: bool,
    /// The description in the document.
    pub description: Option<String>,
    /// Rust attributes that the document asks for.
    pub custom_attrs: Option<Vec<String>>,
}

/// The mathematical value of a [`Field`].
#[verifier::ext_equal]
pub struct FieldView {
    pub name: Seq<char>,
    pub field_type: Seq<char>,
    pub format: Seq<char>,
    pub is_required: bool,
    pub is_nullable: bool,
    pub is_array_ref: bool,
    pub flatten: bool,
    pub description: Option<Seq<char>>,
    pub custom_attrs: Option<Seq<Seq<char>>>,
}

impl DeepView for Field {
    type V = FieldView;

    open spec fn deep_view(&self) -> FieldView {
        FieldView {
            name: self.name@,
            field_type: self.field_type@,
            format: self.format@,
            is_required: self.is_required,
            is_nullable: self.is_nullable,
            is_array_ref: self.is_array_ref,
            flatten: self.flatten,
            description: self.description.deep_view(),
            custom_attrs: self.custom_attrs.deep_view(),
        }
    }
}

/// A structure with named fields.
#[derive(Debug)]
pub struct Model {
    pub name: String,
    pub fields: Vec<Field>,
    pub custom_attrs: Option<Vec<String>>,
    pub description: Option<String>,
}

/// The mathematical value of a [`Model`].
#[verifier::ext_equal]
pub struct ModelView {
    pub name: Seq<char>,
    pub fields: Seq<FieldView>,
    pub custom_attrs: Option<Seq<Seq<char>>>,
    pub description: Option<Seq<char>>,
}

impl DeepView for Model {
    type V = ModelView;

    open spec fn deep_view(&self) -> ModelView {
        ModelView {
            name: self.name@,
            fields: self.fields.deep_view(),
            custom_attrs: self.custom_attrs.deep_view(),
            description: self.description.deep_view(),
        }
    }
}

/// An enumeration of plain values.
#[derive(Debug)]
pub struct EnumModel {
    pub name: String,
    pub variants: Vec<String>,
    pub description: Option<String>,
    pub custom_attrs: Option<Vec<String>>,
}

/// The mathematical value of a [`EnumModel`].
#[verifier::ext_equal]
pub struct EnumModelView {
    pub name: Seq<char>,
    pub variants: Seq<Seq<char>>,
    pub description: Option<Seq<char>>,
    pub custom_attrs: Option<Seq<Seq<char>>>,
}

impl DeepView for EnumModel {
    type V = EnumModelView;

    open spec fn deep_view(&self) -> EnumModelView {
        EnumModelView {
            name: self.name@,
            variants: self.variants.deep_view(),
            description: self.description.deep_view(),
            custom_attrs: self.custom_attrs.deep_view(),
        }
    }
}

/// Another name for a type.
#[derive(Debug)]
pub struct TypeAliasModel {
    pub name: String,
    pub target_type: String,
    pub description: Option<String>,
    pub custom_attrs: Option<Vec<String>>,
}

/// The mathematical value of a [`TypeAliasModel`].
#[verifier::ext_equal]
pub struct TypeAliasModelView {
    pub name: Seq<char>,
    pub target_type: Seq<char>,
    pub description: Option<Seq<char>>,
    pub custom_attrs: Option<Seq<Seq<char>>>,
}

impl DeepView for TypeAliasModel {
    type V = TypeAliasModelView;

    open spec fn deep_view(&self) -> TypeAliasModelView {
        TypeAliasModelView {
            name: self.name@,
            target_type: self.target_type@,
            description: self.description.deep_view(),
            custom_attrs: self.custom_attrs.deep_view(),
        }
    }
}

/// A structure put together from several schemas.
#[derive(Debug)]
pub struct CompositionModel {
    pub name: String,
    pub all_fields: Vec<Field>,
    pub custom_attrs: Option<Vec<String>>,
}

/// The mathematical value of a [`CompositionModel`].
#[verifier::ext_equal]
pub struct CompositionModelView {
    pub name: Seq<char>,
    pub all_fields: Seq<FieldView>,
    pub custom_attrs: Option<Seq<Seq<char>>>,
}

impl DeepView for CompositionModel {
    type V = CompositionModelView;

    open spec fn deep_view(&self) -> CompositionModelView {
        CompositionModelView {
            name: self.name@,
            all_fields: self.all_fields.deep_view(),
            custom_attrs: self.custom_attrs.deep_view(),
        }
    }
}

/// One alternative of a union.
#[derive(Debug)]
pub struct UnionVariant {
    pub name: String,
    pub fields: Vec<Field>,
    pub primitive_type: Option<String>,
}

/// The mathematical value of a [`UnionVariant`].
#[verifier::ext_equal]
pub struct UnionVariantView {
    pub name: Seq<char>,
    pub fields: Seq<FieldView>,
    pub primitive_type: Option<Seq<char>>,
}

impl DeepView for UnionVariant {
    type V = UnionVariantView;

    open spec fn deep_view(&self) -> UnionVariantView {
        UnionVariantView {
            name: self.name@,
            fields: self.fields.deep_view(),
            primitive_type: self.primitive_type.deep_view(),
        }
    }
}

/// A choice between alternatives.
#[derive(Debug)]
pub struct UnionModel {
    pub name: String,
    pub variants: Vec<UnionVariant>,
    pub union_type: UnionType,
    pub custom_attrs: Option<Vec<String>>,
}

/// The mathematical value of a [`UnionModel`].
#[verifier::ext_equal]
pub struct UnionModelView {
    pub name: Seq<char>,
    pub variants: Seq<UnionVariantView>,
    pub union_type: UnionType,
    pub custom_attrs: Option<Seq<Seq<char>>>,
}

impl DeepView for UnionModel {
    type V = UnionModelView;

    open spec fn deep_view(&self) -> UnionModelView {
        UnionModelView {
            name: self.name@,
            variants: self.variants.deep_view(),
            union_type: self.union_type,
            custom_attrs: self.custom_attrs.deep_view(),
        }
    }
}

/// The body of a request in one content type.
#[derive(Debug)]
pub struct RequestModel {
    pub name: String,
    pub content_type: String,
    pub schema: String,
    pub is_required: bool,
}

/// The mathematical value of a [`RequestModel`].
#[verifier::ext_equal]
pub struct RequestModelView {
    pub name: Seq<char>,
    pub content_type: Seq<char>,
    pub schema: Seq<char>,
    pub is_required: bool,
}

impl DeepView for RequestModel {
    type V = RequestModelView;

    open spec fn deep_view(&self) -> RequestModelView {
        RequestModelView {
            name: self.name@,
            content_type: self.content_type@,
            schema: self.schema@,
            is_required: self.is_required,
        }
    }
}

/// The body of a response in one content type.
#[derive(Debug)]
pub struct ResponseModel {
    pub name: String,
    pub status_code: String,
    pub content_type: String,
    pub schema: String,
    pub description: Option<String>,
}

/// The mathematical value of a [`ResponseModel`].
#[verifier::ext_equal]
pub struct ResponseModelView {
    pub name: Seq<char>,
    pub status_code: Seq<char>,
    pub content_type: Seq<char>,
    pub schema: Seq<char>,
    pub description: Option<Seq<char>>,
}

impl DeepView for ResponseModel {
    type V = ResponseModelView;

    open spec fn deep_view(&self) -> ResponseModelView {
        ResponseModelView {
            name: self.name@,
            status_code: self.status_code@,
            content_type: self.content_type@,
            schema: self.schema@,
            description: self.description.deep_view(),
        }
    }
}

/// A generated type.
#[derive(Debug)]
pub enum ModelType {
    Struct(Model),
    Union(UnionModel),
    Composition(CompositionModel),
    Enum(EnumModel),
    TypeAlias(TypeAliasModel),
}

/// The mathematical value of a [`ModelType`].
#[verifier::ext_equal]
pub enum ModelTypeView {
    Struct(ModelView),
    Union(UnionModelView),
    Composition(CompositionModelView),
    Enum(EnumModelView),
    TypeAlias(TypeAliasModelView),
}

impl DeepView for ModelType {
    type V = ModelTypeView;

    open spec fn deep_view(&self) -> ModelTypeView {
        match self {
            ModelType::Struct(m) => ModelTypeView::Struct(m.deep_view()),
            ModelType::Union(m) => ModelTypeView::Union(m.deep_view()),
            ModelType::Composition(m) => ModelTypeView::Composition(m.deep_view()),
            ModelType::Enum(m) => ModelTypeView::Enum(m.deep_view()),
            ModelType::TypeAlias(m) => ModelTypeView::TypeAlias(m.deep_view()),
        }
    }
}

impl ModelTypeView {
    /// The name of the type.
    pub open spec fn name(self) -> Seq<char> {
        match self {
            ModelTypeView::Struct(m) => m.name,
            ModelTypeView::Union(m) => m.name,
            ModelTypeView::Composition(m) => m.name,
            ModelTypeView::Enum(m) => m.name,
            ModelTypeView::TypeAlias(m) => m.name,
        }
    }
}

impl ModelType {
    /// The name of the type.
    pub fn name(&self) -> (r: &str)
        ensures
            r@ == self.deep_view().name(),
    {
        match self {
            ModelType::Struct(m) => m.name.as_str(),
            ModelType::Union(m) => m.name.as_str(),
            ModelType::Composition(m) => m.name.as_str(),
            ModelType::Enum(m) => m.name.as_str(),
            ModelType::TypeAlias(m) => m.name.as_str(),
        }
    }
}

} // verus!
