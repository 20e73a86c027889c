use openapi_model_generator::load_openapi_from_json;
use openapi_model_generator::models::{
    CompositionModel, EnumModel, Field, Model, ModelType, RequestModel, ResponseModel,
    TypeAliasModel, UnionModel, UnionType,
};
use openapi_model_generator::parse_openapi;

type Parsed = (Vec<ModelType>, Vec<RequestModel>, Vec<ResponseModel>);

fn parse(components: &str, paths: &str) -> Parsed {
    let json = format!(
        r#"{{"openapi": "3.0.0", "info": {{"title": "T", "version": "1"}},
            "paths": {paths}, "components": {components}}}"#
    );
    let openapi = load_openapi_from_json(&json).expect("load");
    parse_openapi(&openapi).expect("parse")
}

fn models(schemas: &str) -> Vec<ModelType> {
    parse(&format!(r#"{{"schemas": {schemas}}}"#), "{}").0
}

fn names(models: &[ModelType]) -> Vec<&str> {
    models.iter().map(|m| m.name()).collect()
}

fn find<'a>(models: &'a [ModelType], name: &str) -> &'a ModelType {
    models.iter().find(|m| m.name() == name).expect("model")
}

fn structure<'a>(models: &'a [ModelType], name: &str) -> &'a Model {
    match find(models, name) {
        ModelType::Struct(m) => m,
        other => panic!("expected a structure, got {:?}", other),
    }
}

fn alias<'a>(models: &'a [ModelType], name: &str) -> &'a TypeAliasModel {
    match find(models, name) {
        ModelType::TypeAlias(m) => m,
        other => panic!("expected another name, got {:?}", other),
    }
}

fn enumeration<'a>(models: &'a [ModelType], name: &str) -> &'a EnumModel {
    match find(models, name) {
        ModelType::Enum(m) => m,
        other => panic!("expected an enumeration, got {:?}", other),
    }
}

fn composition<'a>(models: &'a [ModelType], name: &str) -> &'a CompositionModel {
    match find(models, name) {
        ModelType::Composition(m) => m,
        other => panic!("expected a composition, got {:?}", other),
    }
}

fn union_model<'a>(models: &'a [ModelType], name: &str) -> &'a UnionModel {
    models
        .iter()
        .find_map(|m| match m {
            ModelType::Union(u) if u.name == name => Some(u),
            _ => None,
        })
        .expect("union")
}

fn field<'a>(fields: &'a [Field], name: &str) -> &'a Field {
    fields.iter().find(|f| f.name == name).expect("field")
}

#[test]
fn fields_have_the_types_of_their_schemas() {
    let models = models(
        r##"{
        "Odd": {"oneOf": [{"type": "string"}, {"type": "integer"}]},
        "Color": {"type": "string", "enum": ["red"]},
        "Record": {"type": "object", "properties": {
            "a": {"type": "string"},
            "b": {"type": "string", "format": "date-time"},
            "c": {"type": "string", "format": "date"},
            "d": {"type": "string", "format": "password"},
            "e": {"type": "string", "format": "UUID"},
            "f": {"type": "string", "format": "odd"},
            "g": {"type": "integer"},
            "h": {"type": "number"},
            "i": {"type": "boolean"},
            "j": {"type": "array", "items": {"type": "integer"}},
            "k": {"type": "array"},
            "l": {"type": "object"},
            "m": {"$ref": "#/components/schemas/Odd"},
            "n": {"$ref": "#/components/schemas/Color"},
            "o": {"$ref": "#/components/schemas/no-such_thing"},
            "p": {"allOf": [{"type": "integer"}]},
            "q": {"allOf": [{"type": "integer"}, {"type": "string"}]},
            "r": {"not": {}},
            "s": {"type": "object", "additionalProperties": true},
            "t": {"type": "object", "additionalProperties": false},
            "u": {"type": "object", "additionalProperties": {"type": "integer"}}
        }}
    }"##,
    );
    let s = structure(&models, "Record");
    let seen: Vec<(&str, &str)> =
        s.fields.iter().map(|f| (f.field_type.as_str(), f.format.as_str())).collect();
    let map = "std::collections::HashMap<String, serde_json::Value>";
    let expected = [
        ("String", "string"),
        ("DateTime<Utc>", "date-time"),
        ("NaiveDate", "date"),
        ("String", "Password"),
        ("Uuid", "uuid"),
        ("String", "odd"),
        ("i64", "integer"),
        ("f64", "number"),
        ("bool", "boolean"),
        ("i64", "integer"),
        ("serde_json::Value", "array"),
        ("serde_json::Value", "object"),
        ("Odd", "oneOf"),
        ("Color", "reference"),
        ("NoSuchThing", "reference"),
        ("i64", "integer"),
        ("serde_json::Value", "unknown"),
        ("serde_json::Value", "unknown"),
        (map, "object"),
        ("serde_json::Value", "object"),
        ("std::collections::HashMap<String, i64>", "object"),
    ];
    assert_eq!(seen, expected);
    assert!(field(&s.fields, "j").is_array_ref);
    assert!(field(&s.fields, "k").is_array_ref);
    assert!(!field(&s.fields, "g").is_array_ref);
}

#[test]
fn references_to_arrays_are_marked() {
    let models = models(
        r##"{
        "Plain": {"type": "array", "items": {"type": "string"}},
        "Choice": {"type": "array", "items": {"oneOf": [{"type": "string"}, {"type": "integer"}]}},
        "S": {"type": "object", "properties": {
            "a": {"$ref": "#/components/schemas/Plain"},
            "b": {"$ref": "#/components/schemas/Choice"},
            "c": {"$ref": "other.json#/components/schemas/Plain"}
        }}
    }"##,
    );
    let s = structure(&models, "S");
    assert!(field(&s.fields, "a").is_array_ref);
    assert!(!field(&s.fields, "b").is_array_ref);
    assert!(!field(&s.fields, "c").is_array_ref);
    assert_eq!(field(&s.fields, "c").field_type, "Plain");
}

#[test]
fn nested_objects_and_lists_of_values_become_models() {
    let models = models(
        r##"{
        "Outer": {"type": "object", "description": "o", "required": ["inner-one"], "properties": {
            "inner-one": {"type": "object", "properties": {"x": {"type": "string"}}},
            "kind": {"type": "string", "enum": ["a-b", null, "c"], "description": "k"},
            "empty": {"type": "object"}
        }}
    }"##,
    );
    assert_eq!(names(&models), ["Empty", "InnerOne", "Kind", "Outer"]);
    let outer = structure(&models, "Outer");
    assert_eq!(outer.description.as_deref(), Some("o"));
    assert_eq!(field(&outer.fields, "inner-one").field_type, "InnerOne");
    assert!(field(&outer.fields, "inner-one").is_required);
    assert!(!field(&outer.fields, "kind").is_required);
    assert_eq!(field(&outer.fields, "kind").field_type, "Kind");
    assert_eq!(field(&outer.fields, "empty").field_type, "serde_json::Value");
    let kind = enumeration(&models, "Kind");
    assert_eq!(kind.variants, ["a-b", "c"]);
    assert_eq!(kind.description.as_deref(), Some("k"));
    assert!(structure(&models, "Empty").fields.is_empty());
}

#[test]
fn the_first_model_of_a_name_is_kept() {
    let models = models(
        r##"{
        "A": {"type": "object", "properties": {
            "same": {"type": "object", "properties": {"first": {"type": "string"}}}
        }},
        "B": {"type": "object", "properties": {
            "same": {"type": "object", "properties": {"second": {"type": "string"}}}
        }}
    }"##,
    );
    assert_eq!(names(&models), ["Same", "A", "B"]);
    assert_eq!(structure(&models, "Same").fields[0].name, "first");
}

#[test]
fn schemas_become_models_of_their_kind() {
    let models = models(
        r##"{
        "a-map": {"type": "object", "additionalProperties": {"type": "boolean"}},
        "any_map": {"type": "object", "additionalProperties": false},
        "just-text": {"type": "string"},
        "just-number": {"type": "integer", "enum": [1, 2]},
        "levels": {"type": "array", "items": {"type": "integer", "enum": [-1, 2, null]}},
        "names": {"type": "array", "items": {"type": "string", "enum": ["x", "y"]}},
        "none": {"type": "string", "enum": [null]},
        "open": {"type": "array"},
        "others": {"type": "array", "items": {"$ref": "#/components/schemas/a-map"}},
        "pointer": {"$ref": "#/components/schemas/a-map"},
        "words": {"type": "array", "description": "w", "items": {"type": "string"}}
    }"##,
    );
    assert_eq!(
        names(&models),
        ["AMap", "AnyMap", "LevelsItem", "Levels", "NamesItem", "Names", "Others", "Words"]
    );
    assert_eq!(alias(&models, "AMap").target_type, "std::collections::HashMap<String, bool>");
    assert_eq!(
        alias(&models, "AnyMap").target_type,
        "std::collections::HashMap<String, serde_json::Value>"
    );
    assert_eq!(enumeration(&models, "LevelsItem").variants, ["Value-1", "Value2"]);
    assert_eq!(alias(&models, "Levels").target_type, "Vec<LevelsItem>");
    assert_eq!(enumeration(&models, "NamesItem").variants, ["x", "y"]);
    assert_eq!(alias(&models, "Others").target_type, "Vec<AMap>");
    assert_eq!(alias(&models, "Words").target_type, "Vec<String>");
    assert_eq!(alias(&models, "Words").description.as_deref(), Some("w"));
}

#[test]
fn alternatives_become_variants() {
    let models = models(
        r##"{
        "Cat": {"type": "object", "properties": {"value": {"type": "string"}}},
        "Inner": {"oneOf": [{"type": "string"}, {"type": "boolean"}]},
        "Pet": {"oneOf": [
            {"$ref": "#/components/schemas/Cat"},
            {"$ref": "#/components/schemas/Inner"},
            {"$ref": "#/components/schemas/Missing"},
            {"type": "string"},
            {"type": "integer"},
            {"type": "number"},
            {"type": "boolean"},
            {"type": "object", "properties": {"mood": {"type": "string", "enum": ["good"]}}}
        ], "x-rust-attrs": ["#[serde(untagged)]", 1]},
        "Some": {"anyOf": [{"type": "string"}]}
    }"##,
    );
    let pet = union_model(&models, "Pet");
    assert_eq!(pet.union_type, UnionType::OneOf);
    assert_eq!(pet.custom_attrs.as_deref(), Some(&["#[serde(untagged)]".to_string()][..]));
    let variants: Vec<(&str, Option<&str>, usize)> = pet
        .variants
        .iter()
        .map(|v| (v.name.as_str(), v.primitive_type.as_deref(), v.fields.len()))
        .collect();
    assert_eq!(
        variants,
        [
            ("Cat", None, 1),
            ("Inner", None, 0),
            ("String", Some("String"), 0),
            ("Integer", Some("i64"), 0),
            ("Number", Some("f64"), 0),
            ("Boolean", Some("Boolean"), 0),
            ("Variant7", None, 1)
        ]
    );
    assert!(pet.variants[0].fields[0].is_nullable, "a part's `value` may be null");
    assert_eq!(enumeration(&models, "Mood").variants, ["good"]);
    assert_eq!(union_model(&models, "Some").union_type, UnionType::AnyOf);
}

#[test]
fn alternatives_that_list_values_become_one_enumeration() {
    let schemas = r##"{
        "Base": {"type": "string", "enum": ["m", "b", null]},
        "Far": {"$ref": "#/components/schemas/Base"},
        "All": {"oneOf": [
            {"type": "string", "enum": ["z-last", "b"]},
            {"$ref": "#/components/schemas/Base"},
            {"$ref": "#/components/schemas/Far"},
            {"type": "integer", "enum": [10, 9]}
        ]}
    }"##;
    let models = models(schemas);
    assert_eq!(enumeration(&models, "All").variants, ["Value10", "Value9", "B", "M", "ZLast"]);
    assert!(!models.iter().any(|m| matches!(m, ModelType::Union(_))));
}

#[test]
fn compositions_merge_their_parts() {
    let models = models(
        r##"{
        "Base": {"type": "object", "required": ["id"], "properties": {
            "id": {"type": "string"},
            "extra": {"type": "object"},
            "more": {"type": "object", "additionalProperties": true},
            "fixed": {"type": "integer"}
        }},
        "Whole": {"x-rust-attrs": ["#[a]"], "allOf": [
            {"$ref": "#/components/schemas/Base"},
            {"type": "object", "required": ["extra", "late"], "properties": {
                "extra": {"type": "string", "description": "now known"},
                "more": {"type": "integer"},
                "fixed": {"type": "string"},
                "kind": {"type": "string", "enum": ["k"]}
            }},
            {"type": "object", "properties": {"late": {"type": "boolean"}}},
            {"$ref": "#/components/schemas/Missing"},
            {"type": "string", "enum": ["p-q"], "title": "Named"}
        ]},
        "Nothing": {"allOf": [{"type": "string"}]}
    }"##,
    );
    let whole = composition(&models, "Whole");
    assert_eq!(whole.custom_attrs.as_deref(), Some(&["#[a]".to_string()][..]));
    let fields: Vec<(&str, &str, bool)> = whole
        .all_fields
        .iter()
        .map(|f| (f.name.as_str(), f.field_type.as_str(), f.is_required))
        .collect();
    assert_eq!(
        fields,
        [
            ("extra", "String", true),
            ("fixed", "i64", false),
            ("id", "String", true),
            ("more", "i64", false),
            ("kind", "Kind", false),
            ("late", "bool", true)
        ]
    );
    assert_eq!(field(&whole.all_fields, "extra").description.as_deref(), Some("now known"));
    assert_eq!(enumeration(&models, "Named").variants, ["PQ"]);
    assert_eq!(enumeration(&models, "Kind").variants, ["k"]);
    assert!(!names(&models).contains(&"Nothing"));
}

#[test]
fn later_parts_fill_in_unknown_item_types() {
    let refine = |first: &str, second: &str| {
        let schemas = format!(
            r#"{{"W": {{"allOf": [
                {{"type": "object", "properties": {{"f": {first}}}}},
                {{"type": "object", "properties": {{"f": {second}}}}}
            ]}}}}"#
        );
        composition(&models(&schemas), "W").all_fields[0].field_type.clone()
    };
    let named = |t: &str| format!(r#"{{"type": "string", "x-rust-type": "{t}"}}"#);
    let number = r#"{"type": "number"}"#;
    assert_eq!(refine(&named("Option<serde_json::Value>"), number), "Option<f64>");
    assert_eq!(refine(&named("Vec<serde_json::Value>"), number), "Vec<f64>");
    assert_eq!(refine(&named("Option<Vec<serde_json::Value>>"), number), "Option<Vec<f64>>");
    assert_eq!(
        refine(
            &named("Option<std::collections::HashMap<String, serde_json::Value>>"),
            number
        ),
        "Option<f64>"
    );
    assert_eq!(
        refine(&named("std::collections::HashMap<String, serde_json::Value>"), number),
        "f64"
    );
    assert_eq!(refine(&named("Vec<u8>"), number), "Vec<u8>");
}

const QUERY: &str = r##"{
    "/items": {
        "parameters": [
            {"name": "limit", "in": "query", "required": true, "schema": {"type": "integer"}},
            {"name": "page", "in": "query", "schema": {"type": "integer"}},
            {"name": "trace", "in": "header", "schema": {"type": "string"}}
        ],
        "get": {
            "operationId": "list-items",
            "parameters": [
                {"name": "sort", "in": "query", "schema": {"$ref": "#/components/schemas/Sort"}},
                {"name": "limit", "in": "query", "description": "own",
                    "schema": {"type": "string", "nullable": true}},
                {"name": "raw", "in": "query", "content": {"text/plain": {}}},
                {"name": "filter", "in": "query", "required": false, "schema": {
                    "type": "object", "nullable": true,
                    "properties": {"x": {"type": "string"}}}},
                {"$ref": "#/components/parameters/SortBy"},
                {"$ref": "#/components/parameters/Missing"}
            ],
            "responses": {}
        },
        "delete": {"operationId": "drop", "parameters": [], "responses": {}},
        "head": {"operationId": "peek", "responses": {}}
    }
}"##;

#[test]
fn query_parameters_become_a_structure() {
    let components = r##"{
        "schemas": {"Sort": {"type": "string", "enum": ["up"], "nullable": true,
            "x-rust-attrs": ["#[s]"]}},
        "parameters": {"SortBy": {"name": "by", "in": "query", "required": true,
            "schema": {"$ref": "#/components/schemas/Sort"}}}
    }"##;
    let (models, requests, responses) = parse(components, QUERY);
    assert!(requests.is_empty() && responses.is_empty());
    assert_eq!(names(&models), ["Sort", "SortBy", "ListItemsParams", "DropParams"]);

    let own = structure(&models, "SortBy");
    assert_eq!(own.fields.len(), 1);
    assert_eq!(own.fields[0].name, "by");
    assert_eq!(own.fields[0].field_type, "Sort");
    assert_eq!(own.fields[0].format, "reference");
    assert!(own.fields[0].is_required && own.fields[0].is_nullable);
    assert_eq!(own.fields[0].custom_attrs.as_deref(), Some(&["#[s]".to_string()][..]));

    let params = structure(&models, "ListItemsParams");
    assert_eq!(params.description.as_deref(), Some("Query parameters for list-items"));
    let fields: Vec<(&str, &str, bool, bool, bool)> = params
        .fields
        .iter()
        .map(|f| {
            (f.name.as_str(), f.field_type.as_str(), f.is_required, f.is_nullable, f.flatten)
        })
        .collect();
    assert_eq!(
        fields,
        [
            ("limit", "String", false, true, false),
            ("page", "i64", false, false, false),
            ("sort", "Sort", false, true, false),
            ("filter", "FilterParam", true, false, true),
            ("by", "SortBy", true, false, true)
        ]
    );
    assert_eq!(params.fields[0].description.as_deref(), Some("own"));
    assert_eq!(params.fields[0].format, "");

    let drop = structure(&models, "DropParams");
    let inherited: Vec<&str> = drop.fields.iter().map(|f| f.name.as_str()).collect();
    assert_eq!(inherited, ["limit", "page"]);
}

#[test]
fn operations_without_an_identifier_are_called_unknown() {
    let paths = r#"{"/a": {"patch": {
        "parameters": [{"name": "q", "in": "query", "schema": {"type": "string"}}],
        "requestBody": {"content": {"text/plain": {"schema": {"type": "string"}}}},
        "responses": {}
    }}}"#;
    let (models, requests, _) = parse("{}", paths);
    assert_eq!(names(&models), ["UnknownParams"]);
    assert_eq!(
        structure(&models, "UnknownParams").description.as_deref(),
        Some("Query parameters for operation")
    );
    assert_eq!(requests[0].name, "UnknownRequest");
}

#[test]
fn bodies_become_requests() {
    let components = r##"{
        "schemas": {"Item": {"type": "object", "properties": {"id": {"type": "string"}}}},
        "requestBodies": {
            "Shared": {"required": true, "content": {
                "application/json": {"schema": {"type": "object", "properties": {
                    "n": {"type": "integer"}}}},
                "text/plain": {}
            }},
            "Pointer": {"$ref": "#/components/requestBodies/Shared"}
        }
    }"##;
    let paths = r##"{
        "/b": {
            "post": {"operationId": "send", "responses": {}, "requestBody": {
                "required": true,
                "content": {
                    "application/json": {"schema": {"type": "object", "properties": {
                        "x": {"type": "string"}}}},
                    "application/xml": {"schema": {"$ref": "#/components/schemas/Item"}},
                    "text/plain": {"schema": {"type": "array", "items": {"type": "string"}}},
                    "image/png": {}
                }
            }},
            "put": {"operationId": "share", "responses": {},
                "requestBody": {"$ref": "#/components/requestBodies/Shared"}},
            "patch": {"operationId": "point", "responses": {},
                "requestBody": {"$ref": "#/components/requestBodies/Pointer"}},
            "delete": {"operationId": "lose", "responses": {},
                "requestBody": {"$ref": "elsewhere.json"}}
        }
    }"##;
    let (models, requests, _) = parse(components, paths);
    assert_eq!(names(&models), ["Item", "Shared", "SendRequestBody"]);
    let seen: Vec<(&str, &str, &str, bool)> = requests
        .iter()
        .map(|r| (r.name.as_str(), r.content_type.as_str(), r.schema.as_str(), r.is_required))
        .collect();
    assert_eq!(
        seen,
        [
            ("SendRequest", "application/json", "SendRequestBody", true),
            ("SendRequest", "application/xml", "Item", true),
            ("SendRequest", "text/plain", "String", true),
            ("ShareRequest", "application/json", "serde_json::Value", false)
        ]
    );
}

#[test]
fn responses_name_their_status() {
    let components = r##"{"schemas": {"Item": {"type": "object"}}}"##;
    let paths = r##"{"/r": {"get": {"operationId": "read_it", "responses": {
        "200": {"description": "fine", "content": {
            "application/json": {"schema": {"$ref": "#/components/schemas/Item"}},
            "text/plain": {"schema": {"type": "string"}},
            "image/png": {}
        }},
        "4XX": {"description": "bad", "content": {
            "application/json": {"schema": {"type": "integer"}}}},
        "500": {"$ref": "#/components/responses/Broken"},
        "default": {"description": "other", "content": {
            "application/json": {"schema": {"type": "boolean"}}}}
    }}}}"##;
    let (_, _, responses) = parse(components, paths);
    let seen: Vec<(&str, &str, &str, &str, Option<&str>)> = responses
        .iter()
        .map(|r| {
            (
                r.name.as_str(),
                r.status_code.as_str(),
                r.content_type.as_str(),
                r.schema.as_str(),
                r.description.as_deref(),
            )
        })
        .collect();
    assert_eq!(
        seen,
        [
            ("ReadItResponse", "200", "application/json", "Item", Some("fine")),
            ("ReadItResponse", "200", "text/plain", "String", Some("fine")),
            ("ReadItResponse", "4XX", "application/json", "i64", Some("bad"))
        ]
    );
}

#[test]
fn operations_are_taken_in_a_fixed_order() {
    let operation = |id: &str| {
        format!(
            r#"{{"operationId": "{id}", "responses": {{}}, "requestBody": {{"content": {{
                "text/plain": {{"schema": {{"type": "string"}}}}}}}}}}"#
        )
    };
    let paths = format!(
        r#"{{"/z": {{"delete": {}, "get": {}, "patch": {}, "post": {}, "put": {}, "trace": {}}},
            "/a": {{"$ref": "other.json"}}}}"#,
        operation("d"),
        operation("g"),
        operation("pa"),
        operation("po"),
        operation("pu"),
        operation("t")
    );
    let (_, requests, _) = parse("{}", &paths);
    let seen: Vec<&str> = requests.iter().map(|r| r.name.as_str()).collect();
    assert_eq!(
        seen,
        ["GRequest", "PoRequest", "PuRequest", "DRequest", "PaRequest"]
    );
}

#[test]
fn a_document_without_components_has_no_models() {
    let json = r#"{"openapi": "3.0.0", "info": {"title": "T", "version": "1"}, "paths": {}}"#;
    let openapi = load_openapi_from_json(json).expect("load");
    let (models, requests, responses) = parse_openapi(&openapi).expect("parse");
    assert!(models.is_empty() && requests.is_empty() && responses.is_empty());
}
