//! An OpenAPI document: the parts of it that models are made from.
use crate::json::Json;
use vstd::prelude::*;

pub mod view;

verus! {

/// A value that is given in place or by reference.
#[derive(Debug)]
pub enum RefOr<T> {
    Reference { reference: String },
    Item(T),
}

/// What every schema carries, whatever its kind.
#[derive(Debug)]
pub struct SchemaData {
    pub nullable: bool,
    pub title: Option<String>,
    pub description: Option<String>,
    /// The entries of the schema whose key starts with `x-`.
    pub extensions: Vec<(String, Json)>,
}

/// A schema.
#[derive(Debug)]
pub struct SchemaDef {
    pub schema_data: SchemaData,
    pub schema_kind: SchemaShape,
}

/// The kinds of schemas.
#[derive(Debug)]
pub enum SchemaShape {
    Type(SchemaType),
    OneOf { one_of: Vec<RefOr<SchemaDef>> },
    AllOf { all_of: Vec<RefOr<SchemaDef>> },
    AnyOf { any_of: Vec<RefOr<SchemaDef>> },
    Not,
    Any,
}

/// The types that a schema can name.
#[derive(Debug)]
pub enum SchemaType {
    String(StringType),
    Number,
    Integer(IntegerType),
    Object(ObjectType),
    Array(ArrayType),
    Boolean,
}

/// The formats that a string can be declared with.
#[derive(Debug, Clone, Copy, PartialEq, Eq, Structural)]
pub enum KnownFormat {
    Date,
    DateTime,
    Password,
    Byte,
    Binary,
}

/// The format of a string: one that is known, another one, or none.
#[derive(Debug)]
pub enum TextFormat {
    Item(KnownFormat),
    Unknown(String),
    Empty,
}

/// A string, possibly one of a list of values.
#[derive(Debug)]
pub struct StringType {
    pub format: TextFormat,
    pub enumeration: Vec<Option<String>>,
}

/// An integer, possibly one of a list of values.
#[derive(Debug)]
pub struct IntegerType {
    pub enumeration: Vec<Option<i64>>,
}

/// An object with its properties in the order of the document.
#[derive(Debug)]
pub struct ObjectType {
    pub properties: Vec<(String, RefOr<SchemaDef>)>,
    pub required: Vec<String>,
    pub additional_properties: Option<ExtraProperties>,
}

/// What an object may hold besides its properties.
#[derive(Debug)]
pub enum ExtraProperties {
    Any(bool),
    Schema(Box<RefOr<SchemaDef>>),
}

/// An array.
#[derive(Debug)]
pub struct ArrayType {
    pub items: Option<Box<RefOr<SchemaDef>>>,
}

/// Where a parameter stands in a request.
#[derive(Debug, Clone, Copy, PartialEq, Eq, Structural)]
pub enum ParameterLocation {
    Query,
    Header,
    Path,
    Cookie,
}

/// What a parameter holds: a schema, or content of some media type.
#[derive(Debug)]
pub enum ParameterSchemaOrContent {
    Schema(RefOr<SchemaDef>),
    Content,
}

/// What every parameter carries, wherever it stands.
#[derive(Debug)]
pub struct ParameterInfo {
    pub name: String,
    pub description: Option<String>,
    pub required: bool,
    pub format: ParameterSchemaOrContent,
}

/// A parameter of an operation.
#[derive(Debug)]
pub struct ParameterDef {
    pub location: ParameterLocation,
    pub parameter_data: ParameterInfo,
}

/// A body in one content type.
#[derive(Debug)]
pub struct MediaType {
    pub schema: Option<RefOr<SchemaDef>>,
}

/// The body of a request, by content type.
#[derive(Debug)]
pub struct RequestBodyDef {
    pub content: Vec<(String, MediaType)>,
    pub required: bool,
}

/// A response, with its body by content type.
#[derive(Debug)]
pub struct ResponseDef {
    pub description: String,
    pub content: Vec<(String, MediaType)>,
}

/// A status code, or a range of status codes given by their first digit.
#[derive(Debug, Clone, Copy, PartialEq, Eq, Structural)]
pub enum Status {
    Code(u16),
    Range(u16),
}

/// An operation on a path.
#[derive(Debug)]
pub struct OperationDef {
    pub operation_id: Option<String>,
    pub parameters: Vec<RefOr<ParameterDef>>,
    pub request_body: Option<RefOr<RequestBodyDef>>,
    pub responses: Vec<(Status, RefOr<ResponseDef>)>,
}

/// The operations on a path, and the parameters that all of them take.
#[derive(Debug)]
pub struct PathItemDef {
    pub get: Option<OperationDef>,
    pub post: Option<OperationDef>,
    pub put: Option<OperationDef>,
    pub delete: Option<OperationDef>,
    pub patch: Option<OperationDef>,
    pub parameters: Vec<RefOr<ParameterDef>>,
}

/// What a document declares under a name for use by reference.
#[derive(Debug)]
pub struct Components {
    pub schemas: Vec<(String, RefOr<SchemaDef>)>,
    pub request_bodies: Vec<(String, RefOr<RequestBodyDef>)>,
    pub parameters: Vec<(String, RefOr<ParameterDef>)>,
}

/// A document.
#[derive(Debug)]
pub struct Document {
    pub components: Option<Components>,
    pub paths: Vec<(String, RefOr<PathItemDef>)>,
}

/// The value under the first entry with the given key.
pub open spec fn lookup<V>(entries: Seq<(Seq<char>, V)>, key: Seq<char>) -> Option<V>
    decreases entries.len(),
{
    if entries.len() == 0 {
        None
    } else if entries[0].0 == key {
        Some(entries[0].1)
    } else {
        lookup(entries.drop_first(), key)
    }
}

/// Finds the value under a key.
pub(crate) fn find_entry<'a, V: DeepView>(entries: &'a Vec<(String, V)>, key: &str) -> (r: Option<
    &'a V,
>)
    ensures
        r.deep_view() == lookup(entries.deep_view(), key@),
{
    let ghost whole = entries.deep_view();
    assert(whole.skip(0) =~= whole);
    for i in 0..entries.len()
        invariant
            whole == entries.deep_view(),
            lookup(whole, key@) == lookup(whole.skip(i as int), key@),
    {
        assert(whole.skip(i as int).drop_first() =~= whole.skip(i + 1));
        if crate::text::same_text(entries[i].0.as_str(), key) {
            return Some(&entries[i].1);
        }
    }
    None
}

} // verus!
