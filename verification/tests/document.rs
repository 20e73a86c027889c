use openapi_model_generator::document::normalize::{
    normalize_document, normalize_type_array, normalize_type_arrays,
};
use openapi_model_generator::document::version::{is_openapi_30, is_openapi_31};
use openapi_model_generator::json::Json;
use openapi_model_generator::models::ModelType;
use openapi_model_generator::openapi::{
    Document, ExtraProperties, ObjectType, ParameterLocation, ParameterSchemaOrContent, RefOr,
    SchemaDef, SchemaShape, SchemaType, Status,
};
use openapi_model_generator::{
    load_openapi_from_file_text, load_openapi_from_json, load_openapi_from_value,
    load_openapi_from_yaml, parse_openapi, DocumentError,
};

fn text(s: &str) -> Json {
    Json::Text(s.to_string())
}

fn object(entries: Vec<(&str, Json)>) -> Json {
    let mut entries: Vec<(String, Json)> =
        entries.into_iter().map(|(k, v)| (k.to_string(), v)).collect();
    entries.sort_by(|a, b| a.0.cmp(&b.0));
    Json::Object(entries)
}

fn get<'a>(value: &'a Json, key: &str) -> Option<&'a Json> {
    match value {
        Json::Object(entries) => entries.iter().find(|e| e.0 == key).map(|e| &e.1),
        _ => None,
    }
}

/// The value under a path of keys.
fn at<'a>(value: &'a Json, path: &[&str]) -> &'a Json {
    path.iter().fold(value, |v, key| get(v, key).expect("key"))
}

/// A document with one schema, `Item`, that has one property.
fn with_property(version: &str, name: &str, schema: Json) -> Json {
    object(vec![
        ("openapi", text(version)),
        ("info", object(vec![("title", text("T")), ("version", text("1"))])),
        ("paths", object(vec![])),
        (
            "components",
            object(vec![(
                "schemas",
                object(vec![(
                    "Item",
                    object(vec![
                        ("type", text("object")),
                        ("properties", object(vec![(name, schema)])),
                    ]),
                )]),
            )]),
        ),
    ])
}

const PROPERTIES: [&str; 4] = ["components", "schemas", "Item", "properties"];

fn property_at<'a>(value: &'a Json, name: &str) -> &'a Json {
    at(at(value, &PROPERTIES), &[name])
}

fn item(schema: &RefOr<SchemaDef>) -> &SchemaDef {
    match schema {
        RefOr::Item(s) => s,
        RefOr::Reference { .. } => panic!("expected a schema in place"),
    }
}

fn declared<'a>(openapi: &'a Document, name: &str) -> &'a SchemaDef {
    let schemas = &openapi.components.as_ref().unwrap().schemas;
    item(&schemas.iter().find(|e| e.0 == name).unwrap().1)
}

fn property<'a>(obj: &'a ObjectType, name: &str) -> &'a SchemaDef {
    item(&obj.properties.iter().find(|e| e.0 == name).unwrap().1)
}

fn number(n: u64) -> Json {
    Json::Number(serde_json::Number::from(n))
}

#[test]
fn test_normalize_singleton_type_array() {
    let list = Json::Array(vec![text("string")]);
    let mut value = with_property("3.1.1", "name", object(vec![("type", list)]));
    normalize_document(&mut value).expect("normalize");
    let name = property_at(&value, "name");
    assert!(matches!(at(name, &["type"]), Json::Text(t) if t == "string"));
    assert!(get(name, "nullable").is_none());
}

#[test]
fn test_openapi_30_unchanged() {
    let schema = object(vec![("type", text("string")), ("nullable", Json::Bool(true))]);
    let mut value = with_property("3.0.3", "name", schema);
    let before = format!("{:?}", value);
    normalize_document(&mut value).expect("normalize");
    assert_eq!(format!("{:?}", value), before);
}

#[test]
fn test_reject_empty_type_array() {
    let schema = object(vec![("type", Json::Array(vec![]))]);
    let mut value = with_property("3.1.1", "value", schema);
    let err = normalize_document(&mut value).expect_err("must reject");
    assert!(err.message().contains("must not be empty"));
}

#[test]
fn test_reject_non_string_type_array_entry() {
    let list = Json::Array(vec![number(1), text("null")]);
    let mut value = with_property("3.1.1", "value", object(vec![("type", list)]));
    let err = normalize_document(&mut value).expect_err("must reject");
    assert!(err.message().contains("must be strings"));
}

#[test]
fn test_reject_multi_type_union() {
    let yaml = r#"
openapi: 3.1.1
info:
  title: Test
  version: 1.0.0
paths: {}
components:
  schemas:
    Item:
      type: object
      properties:
        value:
          type: [string, integer]
"#;
    let err = load_openapi_from_yaml(yaml).expect_err("must reject");
    let msg = err.message();
    assert!(
        msg.contains("multi-type unions are not supported"),
        "unexpected error: {msg}"
    );
    assert!(
        msg.contains("components.schemas.Item.properties.value.type"),
        "error should include path: {msg}"
    );
}

#[test]
fn test_reject_null_only_type_array() {
    let json = r#"{
        "openapi": "3.1.1",
        "info": {"title": "T", "version": "1"},
        "paths": {},
        "components": {
            "schemas": {
                "Item": {
                    "type": "object",
                    "properties": {
                        "value": {"type": ["null"]}
                    }
                }
            }
        }
    }"#;
    let err = load_openapi_from_json(json).expect_err("must reject");
    assert!(err
        .message()
        .contains("type array containing only 'null'"));
}

#[test]
fn test_reject_unsupported_version() {
    let yaml = r#"
openapi: "2.0"
info:
  title: Test
  version: 1.0.0
paths: {}
"#;
    let err = load_openapi_from_yaml(yaml).expect_err("must reject");
    assert!(
        err.message().contains("unsupported OpenAPI version"),
        "unexpected: {:?}",
        err
    );
}

#[test]
fn test_reject_missing_version() {
    let json = r#"{"info": {"title": "T", "version": "1"}, "paths": {}}"#;
    let err = load_openapi_from_json(json).expect_err("must reject");
    assert!(err.message().contains("missing required openapi version"));
}

#[test]
fn test_openapi_31_nullable_end_to_end_models() {
    let yaml = r#"
openapi: 3.1.1
info:
  title: Test
  version: 1.0.0
paths: {}
components:
  schemas:
    CreateTrailRequest:
      type: object
      properties:
        message:
          type:
            - string
            - 'null'
        parent_id:
          type:
            - integer
            - 'null'
          format: int64
        title:
          type: [string]
      required:
        - parent_id
"#;
    let openapi = load_openapi_from_yaml(yaml).expect("load");
    let (models, _, _) = parse_openapi(&openapi).expect("parse");
    let model = models
        .iter()
        .find(|m| m.name() == "CreateTrailRequest")
        .expect("model");
    if let ModelType::Struct(s) = model {
        let message = s.fields.iter().find(|f| f.name == "message").unwrap();
        assert!(message.is_nullable);
        assert_eq!(message.field_type, "String");
        assert!(!message.is_required);

        let parent_id = s.fields.iter().find(|f| f.name == "parent_id").unwrap();
        assert!(parent_id.is_nullable);
        assert!(parent_id.is_required);
        assert_eq!(parent_id.field_type, "i64");

        let title = s.fields.iter().find(|f| f.name == "title").unwrap();
        assert!(!title.is_nullable);
        assert_eq!(title.field_type, "String");
    } else {
        panic!("expected struct");
    }

}

#[test]
fn test_openapi_31_inline_operation_schema() {
    let json = r#"{
        "openapi": "3.1.0",
        "info": {"title": "Test", "version": "1.0.0"},
        "paths": {
            "/items": {
                "post": {
                    "operationId": "createItem",
                    "requestBody": {
                        "content": {
                            "application/json": {
                                "schema": {
                                    "type": "object",
                                    "properties": {
                                        "description": {
                                            "type": ["string", "null"]
                                        }
                                    },
                                    "required": ["description"]
                                }
                            }
                        }
                    },
                    "responses": {"200": {"description": "OK"}}
                }
            }
        }
    }"#;
    let openapi = load_openapi_from_json(json).expect("load");
    let (models, _, _) = parse_openapi(&openapi).expect("parse");
    let model = models
        .iter()
        .find(|m| m.name() == "CreateItemRequestBody")
        .expect("inline request body model");
    if let ModelType::Struct(s) = model {
        let desc = s.fields.iter().find(|f| f.name == "description").unwrap();
        assert!(desc.is_nullable);
        assert!(desc.is_required);
        assert_eq!(desc.field_type, "String");
    } else {
        panic!("expected struct");
    }
}

#[test]
fn test_normalize_nullable_string_type_array() {
    let yaml = r#"
openapi: 3.1.1
info:
  title: Test
  version: 1.0.0
paths: {}
components:
  schemas:
    Item:
      type: object
      properties:
        message:
          type:
            - string
            - 'null'
"#;
    let openapi = load_openapi_from_yaml(yaml).expect("parse");
    let schema = declared(&openapi, "Item");
    if let SchemaShape::Type(SchemaType::Object(obj)) = &schema.schema_kind {
        let message = property(obj, "message");
        assert!(message.schema_data.nullable);
        assert!(matches!(
            message.schema_kind,
            SchemaShape::Type(SchemaType::String(_))
        ));
    } else {
        panic!("expected object schema");
    }
}

#[test]
fn test_normalize_reversed_null_order() {
    let json = r#"{
        "openapi": "3.1.0",
        "info": {"title": "Test", "version": "1.0.0"},
        "paths": {},
        "components": {
            "schemas": {
                "Item": {
                    "type": "object",
                    "properties": {
                        "count": {
                            "type": ["null", "integer"],
                            "format": "int64"
                        }
                    }
                }
            }
        }
    }"#;
    let openapi = load_openapi_from_json(json).expect("parse");
    let schema = declared(&openapi, "Item");
    if let SchemaShape::Type(SchemaType::Object(obj)) = &schema.schema_kind {
        let count = property(obj, "count");
        assert!(count.schema_data.nullable);
        assert!(matches!(
            count.schema_kind,
            SchemaShape::Type(SchemaType::Integer(_))
        ));
    } else {
        panic!("expected object schema");
    }
}

#[test]
fn test_normalize_nested_array_items() {
    let yaml = r#"
openapi: 3.1.1
info:
  title: Test
  version: 1.0.0
paths: {}
components:
  schemas:
    Item:
      type: object
      properties:
        tags:
          type: array
          items:
            type:
              - string
              - 'null'
"#;
    let openapi = load_openapi_from_yaml(yaml).expect("parse");
    let schema = declared(&openapi, "Item");
    if let SchemaShape::Type(SchemaType::Object(obj)) = &schema.schema_kind {
        let tags = property(obj, "tags");
        if let SchemaShape::Type(SchemaType::Array(arr)) = &tags.schema_kind {
            let items = item(arr.items.as_ref().unwrap());
            assert!(items.schema_data.nullable);
        } else {
            panic!("expected array");
        }
    } else {
        panic!("expected object");
    }
}

fn normalize_error(value: &mut Json) -> String {
    normalize_document(value).expect_err("must reject").message().to_string()
}

/// A document of version 3.1 whose `Item` has a property `value` with the given list of types.
fn with_types(types: Vec<Json>) -> Json {
    with_property("3.1.0", "value", object(vec![("type", Json::Array(types))]))
}

#[test]
fn type_list_errors_are_exact() {
    let place = "$.components.schemas.Item.properties.value";
    assert_eq!(
        normalize_error(&mut with_types(vec![])),
        format!("{place}.type: type array must not be empty")
    );
    assert_eq!(
        normalize_error(&mut with_types(vec![text("string"), number(1)])),
        format!("{place}.type[1]: type array entries must be strings")
    );
    assert_eq!(
        normalize_error(&mut with_types(vec![text("null"), text("null")])),
        format!("{place}.type: type array containing only 'null' is not supported")
    );
    assert_eq!(
        normalize_error(&mut with_types(vec![text("string"), text("null"), text("integer")])),
        format!(
            "{place}.type: multi-type unions are not supported (got [string, integer]); \
             only a single non-null type optionally combined with 'null' is allowed"
        )
    );
    assert!(matches!(
        normalize_type_array(&text("string"), "$.x"),
        Err(DocumentError::OpenApi(m)) if m == "$.x.type: expected array during normalization"
    ));
}

#[test]
fn type_lists_of_one_type_are_accepted() {
    let forms = vec![
        (vec![text("string")], false),
        (vec![text("string"), text("null")], true),
        (vec![text("null"), text("string")], true),
        (vec![text("null"), text("string"), text("null")], true),
    ];
    for (types, nullable) in forms {
        let (t, n) = normalize_type_array(&Json::Array(types), "$").expect("accepted");
        assert_eq!((t.as_str(), n), ("string", nullable));
    }
    let twice = Json::Array(vec![text("string"), text("string")]);
    assert!(normalize_type_array(&twice, "$").is_err());
}

#[test]
fn a_list_with_null_sets_nullable() {
    let list = Json::Array(vec![text("integer"), text("null")]);
    let schema = object(vec![("type", list), ("nullable", Json::Bool(false))]);
    let mut value = with_property("3.1.0", "count", schema);
    normalize_document(&mut value).expect("normalize");
    let count = property_at(&value, "count");
    assert!(matches!(at(count, &["type"]), Json::Text(t) if t == "integer"));
    assert!(matches!(at(count, &["nullable"]), Json::Bool(true)));
}

#[test]
fn a_list_without_null_keeps_nullable() {
    let list = Json::Array(vec![text("integer")]);
    let schema = object(vec![("type", list), ("nullable", Json::Bool(true))]);
    let mut value = with_property("3.1.0", "count", schema);
    normalize_document(&mut value).expect("normalize");
    assert!(matches!(at(property_at(&value, "count"), &["nullable"]), Json::Bool(true)));
}

#[test]
fn added_keys_stand_in_order() {
    let list = Json::Array(vec![text("string"), text("null")]);
    let schema = object(vec![("description", text("d")), ("type", list), ("maxLength", number(3))]);
    let mut value = with_property("3.1.0", "name", schema);
    normalize_document(&mut value).expect("normalize");
    match property_at(&value, "name") {
        Json::Object(entries) => {
            let keys: Vec<&str> = entries.iter().map(|e| e.0.as_str()).collect();
            assert_eq!(keys, ["description", "maxLength", "nullable", "type"]);
        }
        _ => panic!("expected object"),
    }
}

#[test]
fn normalizing_twice_is_normalizing_once() {
    let list = Json::Array(vec![text("string"), text("null")]);
    let mut value = with_property("3.1.0", "name", object(vec![("type", list)]));
    normalize_document(&mut value).expect("first");
    let once = format!("{:?}", value);
    assert!(!once.contains("Array"));
    normalize_document(&mut value).expect("second");
    assert_eq!(format!("{:?}", value), once);
}

#[test]
fn plain_documents_of_version_31_stay_as_they_are() {
    let mut value = with_property("3.1.0", "name", object(vec![("type", text("string"))]));
    let before = format!("{:?}", value);
    normalize_document(&mut value).expect("normalize");
    assert_eq!(format!("{:?}", value), before);
}

#[test]
fn type_lists_in_version_30_are_left_alone() {
    let list = Json::Array(vec![text("string"), text("integer")]);
    let mut value = with_property("3.0.0", "name", object(vec![("type", list)]));
    let before = format!("{:?}", value);
    normalize_document(&mut value).expect("normalize");
    assert_eq!(format!("{:?}", value), before);
}

#[test]
fn normalization_stops_at_the_first_error() {
    let good = object(vec![("type", Json::Array(vec![text("string"), text("null")]))]);
    let bad = object(vec![("type", Json::Array(vec![]))]);
    let late = object(vec![("type", Json::Array(vec![text("number")]))]);
    let mut value = Json::Array(vec![good, bad, late]);
    let err = normalize_type_arrays(&mut value, "$.list").expect_err("must reject");
    assert_eq!(err.message(), "$.list[1].type: type array must not be empty");
    match &value {
        Json::Array(items) => {
            assert!(matches!(at(&items[0], &["type"]), Json::Text(t) if t == "string"));
            assert!(matches!(at(&items[1], &["type"]), Json::Array(_)));
            assert!(matches!(at(&items[2], &["type"]), Json::Array(_)));
        }
        _ => panic!("expected array"),
    }
}

#[test]
fn versions_belong_to_a_line() {
    for version in ["3.0", "3.0.0", "3.0.3", "3.0.x"] {
        assert!(is_openapi_30(version) && !is_openapi_31(version), "{version}");
    }
    for version in ["3.1", "3.1.0", "3.1.1"] {
        assert!(is_openapi_31(version) && !is_openapi_30(version), "{version}");
    }
    for version in ["", "3", "2.0", "3.00", "3.10.0", "3.2.0", " 3.0.0"] {
        assert!(!is_openapi_30(version) && !is_openapi_31(version), "{version}");
    }
}

#[test]
fn refused_versions_are_named() {
    let mut old = object(vec![("openapi", text("2.0"))]);
    assert_eq!(
        normalize_error(&mut old),
        "unsupported OpenAPI version '2.0'; supported: 3.0.x and 3.1.x"
    );
    let mut flag = object(vec![("openapi", Json::Bool(true))]);
    assert_eq!(normalize_error(&mut flag), "openapi field must be a string");
    let mut none = object(vec![("info", Json::Null)]);
    assert_eq!(normalize_error(&mut none), "missing required openapi version field");
    let mut list = Json::Array(vec![]);
    assert_eq!(normalize_error(&mut list), "missing required openapi version field");
}

#[test]
fn a_version_given_as_a_number_becomes_text() {
    let float = serde_json::Number::from_f64(3.1).unwrap();
    let mut value = object(vec![("openapi", Json::Number(float))]);
    normalize_document(&mut value).expect("normalize");
    assert!(matches!(at(&value, &["openapi"]), Json::Text(v) if v == "3.1"));

    let mut whole = object(vec![("openapi", number(3))]);
    assert_eq!(
        normalize_error(&mut whole),
        "unsupported OpenAPI version '3'; supported: 3.0.x and 3.1.x"
    );

    let yaml = "openapi: 3.1\ninfo: {title: T, version: '1'}\npaths: {}\n";
    assert!(load_openapi_from_yaml(yaml).is_ok());
}

#[test]
fn broken_texts_are_refused() {
    assert!(matches!(
        load_openapi_from_json("{"),
        Err(DocumentError::Json(m)) if m.contains("EOF while parsing")
    ));
    assert!(matches!(
        load_openapi_from_yaml("a: [1"),
        Err(DocumentError::Yaml(m)) if !m.is_empty()
    ));
    assert!(matches!(
        load_openapi_from_json(r#"{"openapi": "3.0.0"}"#),
        Err(DocumentError::Json(m)) if m.contains("missing field")
    ));
}

#[test]
fn yaml_and_json_load_alike() {
    let yaml = r#"
openapi: 3.1.0
info: {title: T, version: '1'}
paths:
  /a:
    get:
      operationId: getA
      responses: {'200': {description: OK}}
components:
  schemas:
    S: {type: [string, 'null'], enum: [b, a]}
"#;
    let json = r#"{
        "components": {"schemas": {"S": {"enum": ["b", "a"], "type": ["string", "null"]}}},
        "paths": {"/a": {"get": {"responses": {"200": {"description": "OK"}},
            "operationId": "getA"}}},
        "info": {"version": "1", "title": "T"},
        "openapi": "3.1.0"
    }"#;
    let from_yaml = load_openapi_from_yaml(yaml).expect("yaml");
    let from_json = load_openapi_from_json(json).expect("json");
    assert_eq!(format!("{:?}", from_yaml), format!("{:?}", from_json));
}

const SMALL_YAML: &str = "openapi: 3.0.0\ninfo: {title: T, version: '1'}\npaths: {}\n";
const SMALL_JSON: &str =
    r#"{"openapi": "3.0.0", "info": {"title": "T", "version": "1"}, "paths": {}}"#;

#[test]
fn the_extension_says_how_a_file_is_written() {
    for extension in ["yaml", "yml", "YAML", "Yml"] {
        assert!(load_openapi_from_file_text(SMALL_YAML, Some(extension)).is_ok());
    }
    for extension in ["json", "JSON", "Json"] {
        assert!(load_openapi_from_file_text(SMALL_JSON, Some(extension)).is_ok());
    }
    assert!(matches!(
        load_openapi_from_file_text(SMALL_YAML, Some("json")),
        Err(DocumentError::Json(_))
    ));
}

#[test]
fn test_load_unsupported_extension() {
    let err = load_openapi_from_file_text("", Some("txt")).expect_err("must reject");
    let msg = err.message();
    assert!(
        msg.contains("No such file") || msg.contains("unsupported OpenAPI file extension"),
        "unexpected: {msg}"
    );
}

#[test]
fn test_reject_unsupported_extension_existing_file() {
    let err = load_openapi_from_file_text("openapi: 3.1.1\n", Some("txt")).expect_err("must reject");
    assert!(
        err.message().contains("unsupported OpenAPI file extension"),
        "unexpected: {:?}",
        err
    );
}

#[test]
fn unknown_extensions_are_refused() {
    let err = load_openapi_from_file_text("openapi: 3.1.1\n", Some("TXT")).expect_err("refused");
    assert_eq!(
        err.message(),
        "unsupported OpenAPI file extension '.txt'; expected .yaml, .yml, or .json"
    );
    let err = load_openapi_from_file_text(SMALL_YAML, None).expect_err("refused");
    assert_eq!(
        err.message(),
        "OpenAPI file has no extension; expected .yaml, .yml, or .json"
    );
}

#[test]
fn a_value_loads_like_its_text() {
    let list = Json::Array(vec![text("null"), text("string")]);
    let value = with_property("3.1.0", "name", object(vec![("type", list)]));
    let openapi = load_openapi_from_value(value).expect("load");
    match &declared(&openapi, "Item").schema_kind {
        SchemaShape::Type(SchemaType::Object(obj)) => {
            assert!(property(obj, "name").schema_data.nullable);
        }
        _ => panic!("expected object"),
    }
}

#[test]
fn a_document_loads_like_its_normalized_form() {
    let given = || {
        let list = Json::Array(vec![text("integer"), text("null")]);
        with_property("3.1.0", "count", object(vec![("type", list)]))
    };
    let mut normalized = given();
    normalize_document(&mut normalized).expect("normalize");
    let first = load_openapi_from_value(given()).expect("load");
    let second = load_openapi_from_value(normalized).expect("load");
    assert_eq!(format!("{:?}", first), format!("{:?}", second));
}

/// A document with types at several depths, written by the given forms.
fn with_forms(name: &str, nullable_name: &str, nullable_count: &str) -> String {
    format!(
        r#"
openapi: 3.1.0
info: {{title: T, version: '1'}}
paths:
  /items:
    post:
      operationId: createItem
      requestBody:
        content:
          application/json:
            schema:
              type: object
              properties:
                note: {{{nullable_name}, description: d}}
      responses: {{'200': {{description: OK}}}}
components:
  schemas:
    Item:
      allOf:
        - type: object
          properties:
            name: {{{name}, maxLength: 3}}
            type: {{{nullable_name}}}
            counts: {{type: array, items: {{{nullable_count}}}}}
"#
    )
}

#[test]
fn type_lists_load_as_plain_types() {
    let plain = with_forms(
        "type: string",
        "type: string, nullable: true",
        "type: integer, nullable: true",
    );
    let expected = load_openapi_from_yaml(&plain).expect("plain");
    let expected_models = format!("{:?}", parse_openapi(&expected).expect("parse"));
    let forms = [
        ("type: [string]", "type: [string, 'null']", "type: ['null', integer]"),
        ("type: string", "type: ['null', string]", "type: integer, nullable: true"),
        ("type: [string]", "type: string, nullable: true", "type: [integer, 'null']"),
        ("type: [string]", "type: [string, 'null'], nullable: false", "nullable: true, type: [integer]"),
    ];
    for (name, nullable_name, nullable_count) in forms {
        let openapi = load_openapi_from_yaml(&with_forms(name, nullable_name, nullable_count))
            .expect("lists");
        assert_eq!(format!("{:?}", openapi), format!("{:?}", expected));
        let models = format!("{:?}", parse_openapi(&openapi).expect("parse"));
        assert_eq!(models, expected_models);
    }
}

#[test]
fn the_type_null_is_not_written_as_a_list() {
    let plain = with_forms("type: 'null'", "type: string", "type: integer");
    assert!(load_openapi_from_yaml(&plain).is_ok());
    let listed = with_forms("type: ['null']", "type: string", "type: integer");
    assert!(matches!(
        load_openapi_from_yaml(&listed),
        Err(DocumentError::OpenApi(m)) if m.contains("type array containing only 'null'")
    ));
}

#[test]
fn every_part_of_a_document_is_read() {
    let json = r##"{
        "openapi": "3.0.0",
        "info": {"title": "T", "version": "1"},
        "paths": {
            "/a": {
                "parameters": [{"$ref": "#/components/parameters/P"}],
                "get": {"operationId": "g", "responses": {
                    "200": {"description": "ok", "content": {"text/plain": {}}},
                    "4XX": {"$ref": "#/components/responses/R"},
                    "default": {"description": "other"}
                }},
                "put": {"responses": {}, "requestBody": {"$ref": "#/components/requestBodies/B"}},
                "head": {"responses": {}}
            },
            "/b": {"$ref": "other.json"}
        },
        "components": {
            "requestBodies": {"B": {"required": true, "content": {
                "application/json": {"schema": {"$ref": "#/components/schemas/S"}}
            }}},
            "parameters": {
                "P": {"name": "p", "in": "header", "required": true, "description": "d",
                    "schema": {"type": "boolean"}},
                "Q": {"name": "q", "in": "cookie", "content": {"text/plain": {}}},
                "R": {"name": "r", "in": "path", "required": true, "schema": {"type": "string"}},
                "T": {"name": "t", "in": "query", "schema": {"type": "string"}}
            },
            "schemas": {
                "S": {"type": "object", "title": "t", "description": "d", "nullable": true,
                    "x-one": {"a": [null, true, 1, "s"]},
                    "required": ["a"],
                    "properties": {
                        "a": {"type": "string", "format": "date"},
                        "b": {"type": "string", "format": "date-time"},
                        "c": {"type": "string", "format": "password"},
                        "d": {"type": "string", "format": "byte"},
                        "e": {"type": "string", "format": "binary"},
                        "f": {"type": "string", "format": "odd"},
                        "g": {"type": "string", "enum": ["x", null]},
                        "h": {"type": "integer", "enum": [1, null]},
                        "i": {"type": "number"},
                        "j": {"type": "array", "items": {"$ref": "#/components/schemas/S"}},
                        "k": {"type": "array", "items": {"type": "boolean"}},
                        "l": {"$ref": "#/components/schemas/S"},
                        "m": {"not": {"type": "string"}},
                        "n": {},
                        "o": {"oneOf": [{"type": "string"}]},
                        "p": {"anyOf": [{"type": "string"}]},
                        "q": {"allOf": [{"type": "string"}]}
                    },
                    "additionalProperties": false},
                "M": {"type": "object", "additionalProperties": {"type": "integer"}}
            }
        }
    }"##;
    let openapi = load_openapi_from_json(json).expect("load");

    assert_eq!(openapi.paths.len(), 2);
    let path = match &openapi.paths[0].1 {
        RefOr::Item(path) => path,
        _ => panic!("expected path in place"),
    };
    assert!(matches!(&openapi.paths[1].1, RefOr::Reference { reference } if reference == "other.json"));
    assert!(matches!(
        &path.parameters[..],
        [RefOr::Reference { reference }] if reference == "#/components/parameters/P"
    ));
    assert!(path.post.is_none() && path.delete.is_none() && path.patch.is_none());
    let get = path.get.as_ref().expect("get");
    assert_eq!(get.operation_id.as_deref(), Some("g"));
    assert_eq!(get.responses.len(), 2);
    assert_eq!(get.responses[0].0, Status::Code(200));
    assert!(matches!(&get.responses[0].1, RefOr::Item(r)
        if r.description == "ok" && r.content.len() == 1 && r.content[0].1.schema.is_none()));
    assert_eq!(get.responses[1].0, Status::Range(4));
    assert!(matches!(&get.responses[1].1, RefOr::Reference { .. }));
    let put = path.put.as_ref().expect("put");
    assert!(put.operation_id.is_none());
    assert!(matches!(&put.request_body, Some(RefOr::Reference { reference })
        if reference == "#/components/requestBodies/B"));

    let components = openapi.components.as_ref().expect("components");
    assert!(matches!(&components.request_bodies[0].1, RefOr::Item(b)
        if b.required && matches!(&b.content[0].1.schema, Some(RefOr::Reference { .. }))));
    let places: Vec<ParameterLocation> = components
        .parameters
        .iter()
        .map(|(_, p)| match p {
            RefOr::Item(p) => p.location,
            _ => panic!("expected parameter in place"),
        })
        .collect();
    assert_eq!(
        places,
        [
            ParameterLocation::Header,
            ParameterLocation::Cookie,
            ParameterLocation::Path,
            ParameterLocation::Query
        ]
    );
    match &components.parameters[0].1 {
        RefOr::Item(p) => {
            assert_eq!(p.parameter_data.name, "p");
            assert_eq!(p.parameter_data.description.as_deref(), Some("d"));
            assert!(p.parameter_data.required);
            assert!(matches!(p.parameter_data.format, ParameterSchemaOrContent::Schema(_)));
        }
        _ => panic!("expected parameter in place"),
    }
    match &components.parameters[1].1 {
        RefOr::Item(p) => {
            assert!(!p.parameter_data.required);
            assert!(matches!(p.parameter_data.format, ParameterSchemaOrContent::Content));
        }
        _ => panic!("expected parameter in place"),
    }

    let s = declared(&openapi, "S");
    assert!(s.schema_data.nullable);
    assert_eq!(s.schema_data.title.as_deref(), Some("t"));
    assert_eq!(s.schema_data.description.as_deref(), Some("d"));
    assert_eq!(
        format!("{:?}", s.schema_data.extensions),
        r#"[("x-one", Object([("a", Array([Null, Bool(true), Number(Number(1)), Text("s")]))]))]"#
    );
    let obj = match &s.schema_kind {
        SchemaShape::Type(SchemaType::Object(obj)) => obj,
        _ => panic!("expected object"),
    };
    assert_eq!(obj.required, ["a"]);
    assert!(matches!(obj.additional_properties, Some(ExtraProperties::Any(false))));
    let shapes: Vec<String> = obj
        .properties
        .iter()
        .map(|(name, p)| match p {
            RefOr::Item(p) => format!("{name}: {:?}", p.schema_kind),
            RefOr::Reference { reference } => format!("{name}: {reference}"),
        })
        .collect();
    let text_type = |format: &str| {
        format!("Type(String(StringType {{ format: {format}, enumeration: [] }}))")
    };
    assert_eq!(shapes[0], format!("a: {}", text_type("Item(Date)")));
    assert_eq!(shapes[1], format!("b: {}", text_type("Item(DateTime)")));
    assert_eq!(shapes[2], format!("c: {}", text_type("Item(Password)")));
    assert_eq!(shapes[3], format!("d: {}", text_type("Item(Byte)")));
    assert_eq!(shapes[4], format!("e: {}", text_type("Item(Binary)")));
    assert_eq!(shapes[5], format!("f: {}", text_type("Unknown(\"odd\")")));
    assert_eq!(
        shapes[6],
        "g: Type(String(StringType { format: Empty, enumeration: [Some(\"x\"), None] }))"
    );
    assert_eq!(shapes[7], "h: Type(Integer(IntegerType { enumeration: [Some(1), None] }))");
    assert_eq!(shapes[8], "i: Type(Number)");
    assert!(shapes[9].contains("Reference { reference: \"#/components/schemas/S\" }"));
    assert!(shapes[10].contains("Type(Boolean)"));
    assert_eq!(shapes[11], "l: #/components/schemas/S");
    assert_eq!(shapes[12], "m: Not");
    assert_eq!(shapes[13], "n: Any");
    assert!(shapes[14].starts_with("o: OneOf"));
    assert!(shapes[15].starts_with("p: AnyOf"));
    assert!(shapes[16].starts_with("q: AllOf"));
    match &declared(&openapi, "M").schema_kind {
        SchemaShape::Type(SchemaType::Object(obj)) => {
            assert!(matches!(obj.additional_properties, Some(ExtraProperties::Schema(_))));
        }
        _ => panic!("expected object"),
    }
}
