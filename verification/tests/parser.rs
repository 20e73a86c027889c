use openapi_model_generator::document::load_openapi_from_json;
use openapi_model_generator::models::ModelType;
use openapi_model_generator::parser::parse_openapi;

#[test]
fn test_parse_inline_request_body_generates_model() {
    let openapi_spec = load_openapi_from_json(
        r##"{
        "openapi": "3.0.0",
        "info": { "title": "Test API", "version": "1.0.0" },
        "paths": {
            "/items": {
                "post": {
                    "operationId": "createItem",
                    "requestBody": {
                        "content": {
                            "application/json": {
                                "schema": {
                                    "type": "object",
                                    "properties": {
                                        "name": { "type": "string" },
                                        "value": { "type": "integer" }
                                    },
                                    "required": ["name"]
                                }
                            }
                        }
                    },
                    "responses": { "200": { "description": "OK" } }
                }
            }
        }
    }"##,
    )
    .expect("Failed to deserialize OpenAPI spec");

    let (models, requests, _responses) =
        parse_openapi(&openapi_spec).expect("Failed to parse OpenAPI spec");

    // 1. Verify that request model was created
    assert_eq!(requests.len(), 1);
    let request_model = &requests[0];
    assert_eq!(request_model.name, "CreateItemRequest");

    // 2. Verify that request schema references a NEW model, not Value
    assert_eq!(request_model.schema, "CreateItemRequestBody");

    // 3. Verify that the request body model itself was generated
    let inline_model = models.iter().find(|m| m.name() == "CreateItemRequestBody");
    assert!(
        inline_model.is_some(),
        "Expected a model named 'CreateItemRequestBody' to be generated"
    );

    if let Some(ModelType::Struct(model)) = inline_model {
        assert_eq!(model.fields.len(), 2);
        assert_eq!(model.fields[0].name, "name");
        assert_eq!(model.fields[0].field_type, "String");
        assert!(model.fields[0].is_required);

        assert_eq!(model.fields[1].name, "value");
        assert_eq!(model.fields[1].field_type, "i64");
        assert!(!model.fields[1].is_required);
    } else {
        panic!("Expected a Struct model for CreateItemRequestBody");
    }
}

#[test]
fn test_parse_ref_request_body_works() {
    let openapi_spec = load_openapi_from_json(
        r##"{
        "openapi": "3.0.0",
        "info": { "title": "Test API", "version": "1.0.0" },
        "components": {
            "schemas": {
                "ItemData": {
                    "type": "object",
                    "properties": {
                        "name": { "type": "string" }
                    }
                }
            },
            "requestBodies": {
                "CreateItem": {
                    "content": {
                        "application/json": {
                            "schema": { "$ref": "#/components/schemas/ItemData" }
                        }
                    }
                }
            }
        },
        "paths": {
            "/items": {
                "post": {
                    "operationId": "createItem",
                    "requestBody": { "$ref": "#/components/requestBodies/CreateItem" },
                    "responses": { "200": { "description": "OK" } }
                }
            }
        }
    }"##,
    )
    .expect("Failed to deserialize OpenAPI spec");

    let (models, requests, _responses) =
        parse_openapi(&openapi_spec).expect("Failed to parse OpenAPI spec");

    // Verify that request model was created
    assert_eq!(requests.len(), 1);
    let request_model = &requests[0];
    assert_eq!(request_model.name, "CreateItemRequest");

    // Verify that schema references an existing model
    assert_eq!(request_model.schema, "ItemData");

    // Verify that ItemData model exists in the models list
    assert!(models.iter().any(|m| m.name() == "ItemData"));
}

#[test]
fn test_parse_no_request_body() {
    let openapi_spec = load_openapi_from_json(
        r##"{
        "openapi": "3.0.0",
        "info": { "title": "Test API", "version": "1.0.0" },
        "paths": {
            "/items": {
                "get": {
                    "operationId": "listItems",
                    "responses": { "200": { "description": "OK" } }
                }
            }
        }
    }"##,
    )
    .expect("Failed to deserialize OpenAPI spec");

    let (_models, requests, _responses) =
        parse_openapi(&openapi_spec).expect("Failed to parse OpenAPI spec");

    // Verify that no request models were created
    assert!(requests.is_empty());
}

#[test]
fn test_parse_components_parameters() {
    let openapi_spec = load_openapi_from_json(
        r##"{
        "openapi": "3.0.0",
        "info": { "title": "Test API", "version": "1.0.0" },
        "paths": {},
        "components": {
            "schemas": {
                "Sex": {
                    "type": "string",
                    "enum": ["MALE", "FEMALE"]
                }
            },
            "parameters": {
                "LimitParam": {
                    "name": "limit",
                    "in": "query",
                    "description": "Maximum number of items to return per page",
                    "required": false,
                    "schema": {
                        "type": "integer",
                        "minimum": 1,
                        "maximum": 100,
                        "default": 20
                    }
                },
                "OffsetParam": {
                    "name": "offset",
                    "in": "query",
                    "description": "Number of items to skip",
                    "required": false,
                    "schema": {
                        "type": "integer",
                        "minimum": 0,
                        "default": 0
                    }
                },
                "SexParam": {
                    "name": "sex",
                    "in": "query",
                    "description": "Filter by sex",
                    "required": false,
                    "schema": { "$ref": "#/components/schemas/Sex" }
                }
            }
        }
    }"##,
    )
    .expect("Failed to deserialize OpenAPI spec");

    let (models, _, _) = parse_openapi(&openapi_spec).expect("Failed to parse OpenAPI spec");

    // Verify LimitParam struct
    let limit_param = models.iter().find(|m| m.name() == "LimitParam");
    assert!(limit_param.is_some(), "Expected LimitParam model");
    if let Some(ModelType::Struct(model)) = limit_param {
        assert_eq!(model.fields.len(), 1);
        assert_eq!(model.fields[0].name, "limit");
        assert_eq!(model.fields[0].field_type, "i64");
        assert!(!model.fields[0].is_required);
    }

    // Verify OffsetParam struct
    let offset_param = models.iter().find(|m| m.name() == "OffsetParam");
    assert!(offset_param.is_some(), "Expected OffsetParam model");
    if let Some(ModelType::Struct(model)) = offset_param {
        assert_eq!(model.fields.len(), 1);
        assert_eq!(model.fields[0].name, "offset");
        assert_eq!(model.fields[0].field_type, "i64");
        assert!(!model.fields[0].is_required);
    }

    // Verify SexParam struct (schema ref resolves to Sex enum)
    let sex_param = models.iter().find(|m| m.name() == "SexParam");
    assert!(sex_param.is_some(), "Expected SexParam model");
    if let Some(ModelType::Struct(model)) = sex_param {
        assert_eq!(model.fields.len(), 1);
        assert_eq!(model.fields[0].name, "sex");
        assert_eq!(model.fields[0].field_type, "Sex");
        assert!(!model.fields[0].is_required);
    }

    // Verify Sex enum was also generated (from schemas)
    assert!(models.iter().any(|m| m.name() == "Sex"));
}

#[test]
fn test_endpoint_params_struct_with_flatten() {
    let openapi_spec = load_openapi_from_json(
        r##"{
        "openapi": "3.0.0",
        "info": { "title": "Test API", "version": "1.0.0" },
        "paths": {
            "/items": {
                "get": {
                    "operationId": "listItems",
                    "parameters": [
                        { "$ref": "#/components/parameters/PaginateParam" },
                        {
                            "name": "filter",
                            "in": "query",
                            "schema": { "type": "string" }
                        }
                    ],
                    "responses": { "200": { "description": "OK" } }
                }
            }
        },
        "components": {
            "parameters": {
                "PaginateParam": {
                    "name": "pagination",
                    "in": "query",
                    "schema": {
                        "type": "object",
                        "properties": {
                            "limit": { "type": "integer", "default": 20 },
                            "offset": { "type": "integer", "default": 0 }
                        }
                    }
                }
            }
        }
    }"##,
    )
    .expect("Failed to deserialize OpenAPI spec");

    let (models, _, _) = parse_openapi(&openapi_spec).expect("Failed to parse OpenAPI spec");

    // ListItemsParams should exist with pagination (flatten) and filter
    let params = models.iter().find(|m| m.name() == "ListItemsParams");
    assert!(
        params.is_some(),
        "Expected ListItemsParams for endpoint with query params"
    );
    if let Some(ModelType::Struct(model)) = params {
        let pagination_field = model.fields.iter().find(|f| f.name == "pagination");
        assert!(pagination_field.is_some(), "Expected pagination field");
        assert!(
            pagination_field.unwrap().flatten,
            "pagination should have flatten for GET query"
        );
        assert_eq!(pagination_field.unwrap().field_type, "PaginateParam");

        let filter_field = model.fields.iter().find(|f| f.name == "filter");
        assert!(filter_field.is_some(), "Expected filter field");
        assert!(!filter_field.unwrap().flatten);
    }
}

#[test]
fn test_parse_parameter_with_object_schema_paginate_param() {
    let openapi_spec = load_openapi_from_json(
        r##"{
        "openapi": "3.0.0",
        "info": { "title": "Test API", "version": "1.0.0" },
        "paths": {},
        "components": {
            "parameters": {
                "PaginateParam": {
                    "name": "pagination",
                    "in": "query",
                    "description": "Pagination parameters (limit and offset)",
                    "required": false,
                    "style": "form",
                    "explode": true,
                    "schema": {
                        "type": "object",
                        "properties": {
                            "limit": {
                                "type": "integer",
                                "minimum": 1,
                                "maximum": 100,
                                "default": 20,
                                "description": "Maximum number of items to return per page"
                            },
                            "offset": {
                                "type": "integer",
                                "minimum": 0,
                                "default": 0,
                                "description": "Number of items to skip"
                            }
                        }
                    }
                }
            }
        }
    }"##,
    )
    .expect("Failed to deserialize OpenAPI spec");

    let (models, _, _) = parse_openapi(&openapi_spec).expect("Failed to parse OpenAPI spec");

    // Verify PaginateParam struct has both limit and offset fields
    let paginate_param = models.iter().find(|m| m.name() == "PaginateParam");
    assert!(
        paginate_param.is_some(),
        "Expected PaginateParam model with object schema"
    );
    if let Some(ModelType::Struct(model)) = paginate_param {
        assert_eq!(model.fields.len(), 2, "PaginateParam should have 2 fields");
        let limit_field = model.fields.iter().find(|f| f.name == "limit");
        let offset_field = model.fields.iter().find(|f| f.name == "offset");
        assert!(limit_field.is_some(), "Expected limit field");
        assert!(offset_field.is_some(), "Expected offset field");
        assert_eq!(limit_field.unwrap().field_type, "i64");
        assert_eq!(offset_field.unwrap().field_type, "i64");
        assert!(!limit_field.unwrap().is_required);
        assert!(!offset_field.unwrap().is_required);
    }
}

#[test]
fn test_nullable_reference_field() {
    // Test verifies that nullable is correctly read from the target schema when using $ref
    let openapi_spec = load_openapi_from_json(
        r##"{
        "openapi": "3.0.0",
        "info": { "title": "Test API", "version": "1.0.0" },
        "paths": {},
        "components": {
            "schemas": {
                "NullableUser": {
                    "type": "object",
                    "nullable": true,
                    "properties": {
                        "name": { "type": "string" }
                    }
                },
                "Post": {
                    "type": "object",
                    "properties": {
                        "author": {
                            "$ref": "#/components/schemas/NullableUser"
                        }
                    }
                }
            }
        }
    }"##,
    )
    .expect("Failed to deserialize OpenAPI spec");

    let (models, _, _) = parse_openapi(&openapi_spec).expect("Failed to parse OpenAPI spec");

    // Find Post model
    let post_model = models.iter().find(|m| m.name() == "Post");
    assert!(post_model.is_some(), "Expected Post model to be generated");

    if let Some(ModelType::Struct(post)) = post_model {
        let author_field = post.fields.iter().find(|f| f.name == "author");
        assert!(author_field.is_some(), "Expected author field");

        // Verify that nullable is correctly handled for reference type
        // (nullable is taken from the target schema NullableUser)
        let author = author_field.unwrap();
        assert!(
            author.is_nullable,
            "Expected author field to be nullable (from referenced schema)"
        );
    } else {
        panic!("Expected Post to be a Struct");
    }
}

#[test]
fn test_allof_single_ref_nullable_field() {
    // allOf with one $ref, description and nullable as siblings (canonical format)
    let openapi_spec = load_openapi_from_json(
        r##"{
        "openapi": "3.0.0",
        "info": { "title": "Test API", "version": "1.0.0" },
        "paths": {},
        "components": {
            "schemas": {
                "SceneSeries": {
                    "type": "object",
                    "nullable": false,
                    "required": ["slug", "label"],
                    "properties": {
                        "slug": { "type": "string" },
                        "label": { "type": "string" }
                    }
                },
                "SceneItem": {
                    "type": "object",
                    "properties": {
                        "series": {
                            "allOf": [{ "$ref": "#/components/schemas/SceneSeries" }],
                            "description": "Series this scene belongs to; null if standalone",
                            "nullable": true
                        }
                    }
                }
            }
        }
    }"##,
    )
    .expect("Failed to deserialize OpenAPI spec");

    let (models, _, _) = parse_openapi(&openapi_spec).expect("Failed to parse OpenAPI spec");

    let scene_item = models.iter().find(|m| m.name() == "SceneItem");
    assert!(scene_item.is_some(), "Expected SceneItem model");

    if let Some(ModelType::Struct(model)) = scene_item {
        let series_field = model.fields.iter().find(|f| f.name == "series");
        assert!(series_field.is_some(), "Expected series field");
        let series = series_field.unwrap();
        assert_eq!(
            series.field_type, "SceneSeries",
            "Expected field type SceneSeries, got {}",
            series.field_type
        );
        assert!(
            series.is_nullable,
            "Expected series field to be nullable (sibling nullable: true)"
        );
    } else {
        panic!("Expected SceneItem to be a Struct");
    }
}

#[test]
fn test_allof_required_fields_merge() {
    let openapi_spec = load_openapi_from_json(
        r##"{
        "openapi": "3.0.0",
        "info": { "title": "Test API", "version": "1.0.0" },
        "paths": {},
        "components": {
            "schemas": {
                "BaseEntity": {
                    "type": "object",
                    "properties": {
                        "id": { "type": "string" },
                        "created": { "type": "string" }
                    },
                    "required": ["id"]
                },
                "Person": {
                    "allOf": [
                        { "$ref": "#/components/schemas/BaseEntity" },
                        {
                            "type": "object",
                            "properties": {
                                "name": { "type": "string" },
                                "age": { "type": "integer" }
                            },
                            "required": ["name"]
                        }
                    ]
                }
            }
        }
    }"##,
    )
    .expect("Failed to deserialize OpenAPI spec");

    let (models, _, _) = parse_openapi(&openapi_spec).expect("Failed to parse OpenAPI spec");

    // Find Person model
    let person_model = models.iter().find(|m| m.name() == "Person");
    assert!(
        person_model.is_some(),
        "Expected Person model to be generated"
    );

    if let Some(ModelType::Composition(person)) = person_model {
        // Verify that id (from BaseEntity) is required
        let id_field = person.all_fields.iter().find(|f| f.name == "id");
        assert!(id_field.is_some(), "Expected id field");
        assert!(
            id_field.unwrap().is_required,
            "Expected id to be required from BaseEntity"
        );

        // Verify that name (from second object) is required
        let name_field = person.all_fields.iter().find(|f| f.name == "name");
        assert!(name_field.is_some(), "Expected name field");
        assert!(
            name_field.unwrap().is_required,
            "Expected name to be required from inline object"
        );

        // Verify that created and age are not required
        let created_field = person.all_fields.iter().find(|f| f.name == "created");
        assert!(created_field.is_some(), "Expected created field");
        assert!(
            !created_field.unwrap().is_required,
            "Expected created to be optional"
        );

        let age_field = person.all_fields.iter().find(|f| f.name == "age");
        assert!(age_field.is_some(), "Expected age field");
        assert!(
            !age_field.unwrap().is_required,
            "Expected age to be optional"
        );
    } else {
        panic!("Expected Person to be a Composition");
    }
}

#[test]
fn test_x_rust_type_generates_type_alias() {
    let openapi_spec = load_openapi_from_json(
        r##"{
        "openapi": "3.0.0",
        "info": { "title": "Test API", "version": "1.0.0" },
        "paths": {},
        "components": {
            "schemas": {
                "User": {
                    "type": "object",
                    "x-rust-type": "crate::domain::User",
                    "description": "Custom domain user type",
                    "properties": {
                        "name": { "type": "string" },
                        "age": { "type": "integer" }
                    }
                }
            }
        }
    }"##,
    )
    .expect("Failed to deserialize OpenAPI spec");

    let (models, _, _) = parse_openapi(&openapi_spec).expect("Failed to parse OpenAPI spec");

    // Verify that TypeAlias is created, not Struct
    let user_model = models.iter().find(|m| m.name() == "User");
    assert!(user_model.is_some(), "Expected User model");

    match user_model.unwrap() {
        ModelType::TypeAlias(alias) => {
            assert_eq!(alias.name, "User");
            assert_eq!(alias.target_type, "crate::domain::User");
            assert_eq!(
                alias.description,
                Some("Custom domain user type".to_string())
            );
        }
        _ => panic!("Expected TypeAlias, got different type"),
    }
}

#[test]
fn test_x_rust_type_works_with_enum() {
    let openapi_spec = load_openapi_from_json(
        r##"{
        "openapi": "3.0.0",
        "info": { "title": "Test API", "version": "1.0.0" },
        "paths": {},
        "components": {
            "schemas": {
                "Status": {
                    "type": "string",
                    "enum": ["active", "inactive"],
                    "x-rust-type": "crate::domain::Status"
                }
            }
        }
    }"##,
    )
    .expect("Failed to deserialize OpenAPI spec");

    let (models, _, _) = parse_openapi(&openapi_spec).expect("Failed to parse OpenAPI spec");

    let status_model = models.iter().find(|m| m.name() == "Status");
    assert!(status_model.is_some(), "Expected Status model");

    // Should be TypeAlias, not Enum
    assert!(
        matches!(status_model.unwrap(), ModelType::TypeAlias(_)),
        "Expected TypeAlias for enum with x-rust-type"
    );
}

#[test]
fn test_x_rust_type_works_with_oneof() {
    let openapi_spec = load_openapi_from_json(
        r##"{
        "openapi": "3.0.0",
        "info": { "title": "Test API", "version": "1.0.0" },
        "paths": {},
        "components": {
            "schemas": {
                "Payment": {
                    "oneOf": [
                        { "type": "object", "properties": { "card": { "type": "string" } } },
                        { "type": "object", "properties": { "cash": { "type": "number" } } }
                    ],
                    "x-rust-type": "payments::Payment"
                }
            }
        }
    }"##,
    )
    .expect("Failed to deserialize OpenAPI spec");

    let (models, _, _) = parse_openapi(&openapi_spec).expect("Failed to parse OpenAPI spec");

    let payment_model = models.iter().find(|m| m.name() == "Payment");
    assert!(payment_model.is_some(), "Expected Payment model");

    // Should be TypeAlias, not Union
    match payment_model.unwrap() {
        ModelType::TypeAlias(alias) => {
            assert_eq!(alias.target_type, "payments::Payment");
        }
        _ => panic!("Expected TypeAlias for oneOf with x-rust-type"),
    }
}

#[test]
fn test_x_rust_attrs_on_struct() {
    let openapi_spec = load_openapi_from_json(
        r##"{
        "openapi": "3.0.0",
        "info": { "title": "Test API", "version": "1.0.0" },
        "paths": {},
        "components": {
            "schemas": {
                "User": {
                    "type": "object",
                    "x-rust-attrs": [
                        "#[derive(Serialize, Deserialize)]",
                        "#[serde(rename_all = \"camelCase\")]"
                    ],
                    "properties": {
                        "name": { "type": "string" }
                    }
                }
            }
        }
    }"##,
    )
    .expect("Failed to deserialize OpenAPI spec");

    let (models, _, _) = parse_openapi(&openapi_spec).expect("Failed to parse OpenAPI spec");

    let user_model = models.iter().find(|m| m.name() == "User");
    assert!(user_model.is_some(), "Expected User model");

    match user_model.unwrap() {
        ModelType::Struct(model) => {
            assert!(model.custom_attrs.is_some(), "Expected custom_attrs");
            let attrs = model.custom_attrs.as_ref().unwrap();
            assert_eq!(attrs.len(), 2);
            assert_eq!(attrs[0], "#[derive(Serialize, Deserialize)]");
            assert_eq!(attrs[1], "#[serde(rename_all = \"camelCase\")]");
        }
        _ => panic!("Expected Struct model"),
    }
}

#[test]
fn test_x_rust_attrs_on_enum() {
    let openapi_spec = load_openapi_from_json(
        r##"{
        "openapi": "3.0.0",
        "info": { "title": "Test API", "version": "1.0.0" },
        "paths": {},
        "components": {
            "schemas": {
                "Status": {
                    "type": "string",
                    "enum": ["active", "inactive"],
                    "x-rust-attrs": ["#[serde(rename_all = \"UPPERCASE\")]"]
                }
            }
        }
    }"##,
    )
    .expect("Failed to deserialize OpenAPI spec");

    let (models, _, _) = parse_openapi(&openapi_spec).expect("Failed to parse OpenAPI spec");

    let status_model = models.iter().find(|m| m.name() == "Status");
    assert!(status_model.is_some(), "Expected Status model");

    match status_model.unwrap() {
        ModelType::Enum(enum_model) => {
            assert!(enum_model.custom_attrs.is_some());
            let attrs = enum_model.custom_attrs.as_ref().unwrap();
            assert_eq!(attrs.len(), 1);
            assert_eq!(attrs[0], "#[serde(rename_all = \"UPPERCASE\")]");
        }
        _ => panic!("Expected Enum model"),
    }
}

#[test]
fn test_x_rust_attrs_with_x_rust_type() {
    let openapi_spec = load_openapi_from_json(
        r##"{
        "openapi": "3.0.0",
        "info": { "title": "Test API", "version": "1.0.0" },
        "paths": {},
        "components": {
            "schemas": {
                "User": {
                    "type": "object",
                    "x-rust-type": "crate::domain::User",
                    "x-rust-attrs": ["#[cfg_attr(test, derive(Default))]"],
                    "properties": {
                        "name": { "type": "string" }
                    }
                }
            }
        }
    }"##,
    )
    .expect("Failed to deserialize OpenAPI spec");

    let (models, _, _) = parse_openapi(&openapi_spec).expect("Failed to parse OpenAPI spec");

    let user_model = models.iter().find(|m| m.name() == "User");
    assert!(user_model.is_some(), "Expected User model");

    // Should be TypeAlias with attributes
    match user_model.unwrap() {
        ModelType::TypeAlias(alias) => {
            assert_eq!(alias.target_type, "crate::domain::User");
            assert!(alias.custom_attrs.is_some());
            let attrs = alias.custom_attrs.as_ref().unwrap();
            assert_eq!(attrs.len(), 1);
            assert_eq!(attrs[0], "#[cfg_attr(test, derive(Default))]");
        }
        _ => panic!("Expected TypeAlias with custom attrs"),
    }
}

#[test]
fn test_x_rust_attrs_empty_array() {
    let openapi_spec = load_openapi_from_json(
        r##"{
        "openapi": "3.0.0",
        "info": { "title": "Test API", "version": "1.0.0" },
        "paths": {},
        "components": {
            "schemas": {
                "User": {
                    "type": "object",
                    "x-rust-attrs": [],
                    "properties": {
                        "name": { "type": "string" }
                    }
                }
            }
        }
    }"##,
    )
    .expect("Failed to deserialize OpenAPI spec");

    let (models, _, _) = parse_openapi(&openapi_spec).expect("Failed to parse OpenAPI spec");

    let user_model = models.iter().find(|m| m.name() == "User");
    assert!(user_model.is_some());

    match user_model.unwrap() {
        ModelType::Struct(model) => {
            // Empty array should result in None
            assert!(model.custom_attrs.is_none());
        }
        _ => panic!("Expected Struct"),
    }
}

#[test]
fn test_x_rust_type_on_string_property() {
    let openapi_spec = load_openapi_from_json(
        r##"{
        "openapi": "3.0.0",
        "info": { "title": "Test API", "version": "1.0.0" },
        "paths": {},
        "components": {
            "schemas": {
                "Document": {
                    "type": "object",
                    "description": "Document with custom version type",
                    "properties": {
                        "title": { "type": "string", "description": "Document title." },
                        "content": { "type": "string", "description": "Document content." },
                        "version": {
                            "type": "string",
                            "format": "semver",
                            "x-rust-type": "semver::Version",
                            "description": "Semantic version."
                        }
                    },
                    "required": ["title", "content", "version"]
                }
            }
        }
    }"##,
    )
    .expect("Failed to deserialize OpenAPI spec");

    let (models, _, _) = parse_openapi(&openapi_spec).expect("Failed to parse OpenAPI spec");

    let document_model = models.iter().find(|m| m.name() == "Document");
    assert!(document_model.is_some(), "Expected Document model");

    match document_model.unwrap() {
        ModelType::Struct(model) => {
            // Verify that version field has custom type
            let version_field = model.fields.iter().find(|f| f.name == "version");
            assert!(version_field.is_some(), "Expected version field");
            assert_eq!(version_field.unwrap().field_type, "semver::Version");

            // Verify other fields have regular types
            let title_field = model.fields.iter().find(|f| f.name == "title");
            assert_eq!(title_field.unwrap().field_type, "String");

            let content_field = model.fields.iter().find(|f| f.name == "content");
            assert_eq!(content_field.unwrap().field_type, "String");
        }
        _ => panic!("Expected Struct"),
    }
}

#[test]
fn test_x_rust_type_on_integer_property() {
    let openapi_spec = load_openapi_from_json(
        r##"{
        "openapi": "3.0.0",
        "info": { "title": "Test API", "version": "1.0.0" },
        "paths": {},
        "components": {
            "schemas": {
                "Configuration": {
                    "type": "object",
                    "description": "Configuration with custom duration type",
                    "properties": {
                        "timeout": {
                            "type": "integer",
                            "x-rust-type": "std::time::Duration",
                            "description": "Timeout duration."
                        },
                        "retries": { "type": "integer" }
                    },
                    "required": ["timeout", "retries"]
                }
            }
        }
    }"##,
    )
    .expect("Failed to deserialize OpenAPI spec");

    let (models, _, _) = parse_openapi(&openapi_spec).expect("Failed to parse OpenAPI spec");

    let config_model = models.iter().find(|m| m.name() == "Configuration");
    assert!(config_model.is_some(), "Expected Configuration model");

    match config_model.unwrap() {
        ModelType::Struct(model) => {
            // Verify that timeout field has custom type
            let timeout_field = model.fields.iter().find(|f| f.name == "timeout");
            assert!(timeout_field.is_some(), "Expected timeout field");
            assert_eq!(timeout_field.unwrap().field_type, "std::time::Duration");

            // Verify other field has regular i64 type
            let retries_field = model.fields.iter().find(|f| f.name == "retries");
            assert_eq!(retries_field.unwrap().field_type, "i64");
        }
        _ => panic!("Expected Struct"),
    }
}

#[test]
fn test_x_rust_type_on_number_property() {
    let openapi_spec = load_openapi_from_json(
        r##"{
        "openapi": "3.0.0",
        "info": { "title": "Test API", "version": "1.0.0" },
        "paths": {},
        "components": {
            "schemas": {
                "Product": {
                    "type": "object",
                    "description": "Product with custom decimal type",
                    "properties": {
                        "price": {
                            "type": "number",
                            "x-rust-type": "decimal::Decimal",
                            "description": "Product price."
                        },
                        "quantity": { "type": "number" }
                    },
                    "required": ["price", "quantity"]
                }
            }
        }
    }"##,
    )
    .expect("Failed to deserialize OpenAPI spec");

    let (models, _, _) = parse_openapi(&openapi_spec).expect("Failed to parse OpenAPI spec");

    let product_model = models.iter().find(|m| m.name() == "Product");
    assert!(product_model.is_some(), "Expected Product model");

    match product_model.unwrap() {
        ModelType::Struct(model) => {
            // Verify that price field has custom type
            let price_field = model.fields.iter().find(|f| f.name == "price");
            assert!(price_field.is_some(), "Expected price field");
            assert_eq!(price_field.unwrap().field_type, "decimal::Decimal");

            // Verify other field has regular f64 type
            let quantity_field = model.fields.iter().find(|f| f.name == "quantity");
            assert_eq!(quantity_field.unwrap().field_type, "f64");
        }
        _ => panic!("Expected Struct"),
    }
}

#[test]
fn test_x_rust_type_on_nullable_property() {
    let openapi_spec = load_openapi_from_json(
        r##"{
        "openapi": "3.0.0",
        "info": { "title": "Test API", "version": "1.0.0" },
        "paths": {},
        "components": {
            "schemas": {
                "Settings": {
                    "type": "object",
                    "description": "Settings with nullable custom type",
                    "properties": {
                        "settings": {
                            "type": "string",
                            "x-rust-type": "serde_json::Value",
                            "nullable": true,
                            "description": "Optional settings."
                        }
                    }
                }
            }
        }
    }"##,
    )
    .expect("Failed to deserialize OpenAPI spec");

    let (models, _, _) = parse_openapi(&openapi_spec).expect("Failed to parse OpenAPI spec");

    let settings_model = models.iter().find(|m| m.name() == "Settings");
    assert!(settings_model.is_some(), "Expected Settings model");

    match settings_model.unwrap() {
        ModelType::Struct(model) => {
            let settings_field = model.fields.iter().find(|f| f.name == "settings");
            assert!(settings_field.is_some(), "Expected settings field");

            let field = settings_field.unwrap();
            assert_eq!(field.field_type, "serde_json::Value");
            assert!(field.is_nullable, "Expected field to be nullable");
        }
        _ => panic!("Expected Struct"),
    }
}

#[test]
fn test_multiple_properties_with_x_rust_type() {
    let openapi_spec = load_openapi_from_json(
        r##"{
        "openapi": "3.0.0",
        "info": { "title": "Test API", "version": "1.0.0" },
        "paths": {},
        "components": {
            "schemas": {
                "ComplexModel": {
                    "type": "object",
                    "description": "Model with multiple custom-typed properties",
                    "properties": {
                        "id": {
                            "type": "string",
                            "format": "uuid",
                            "x-rust-type": "uuid::Uuid"
                        },
                        "price": {
                            "type": "number",
                            "x-rust-type": "decimal::Decimal"
                        },
                        "timeout": {
                            "type": "integer",
                            "x-rust-type": "std::time::Duration"
                        },
                        "regular_field": { "type": "string" }
                    },
                    "required": ["id", "price", "timeout"]
                }
            }
        }
    }"##,
    )
    .expect("Failed to deserialize OpenAPI spec");

    let (models, _, _) = parse_openapi(&openapi_spec).expect("Failed to parse OpenAPI spec");

    let model = models.iter().find(|m| m.name() == "ComplexModel");
    assert!(model.is_some(), "Expected ComplexModel model");

    match model.unwrap() {
        ModelType::Struct(struct_model) => {
            // Verify all custom types
            let id_field = struct_model.fields.iter().find(|f| f.name == "id");
            assert_eq!(id_field.unwrap().field_type, "uuid::Uuid");

            let price_field = struct_model.fields.iter().find(|f| f.name == "price");
            assert_eq!(price_field.unwrap().field_type, "decimal::Decimal");

            let timeout_field = struct_model.fields.iter().find(|f| f.name == "timeout");
            assert_eq!(timeout_field.unwrap().field_type, "std::time::Duration");

            // Verify regular field
            let regular_field = struct_model
                .fields
                .iter()
                .find(|f| f.name == "regular_field");
            assert_eq!(regular_field.unwrap().field_type, "String");

            // Verify nullable flags for required/optional fields
            assert!(!id_field.unwrap().is_nullable, "id should not be nullable");
            assert!(
                !price_field.unwrap().is_nullable,
                "price should not be nullable"
            );
            assert!(
                !timeout_field.unwrap().is_nullable,
                "timeout should not be nullable"
            );
            // regular_field is not in required, but generator doesn't mark it as nullable
            // (this is expected behavior - nullable only for explicitly nullable fields)
        }
        _ => panic!("Expected Struct"),
    }
}

#[test]
fn test_x_rust_attrs_on_field() {
    let openapi_spec = load_openapi_from_json(
        r##"{
        "openapi": "3.0.0",
        "info": { "title": "Test API", "version": "1.0.0" },
        "paths": {},
        "components": {
            "schemas": {
                "FrontendEvent": {
                    "type": "object",
                    "properties": {
                        "field": {
                            "type": "integer",
                            "minimum": 0,
                            "maximum": 100,
                            "nullable": true,
                            "x-rust-attrs": ["#[validate(range(min = 0, max = 100))]"]
                        },
                        "name": { "type": "string" }
                    }
                }
            }
        }
    }"##,
    )
    .expect("Failed to deserialize OpenAPI spec");

    let (models, _, _) = parse_openapi(&openapi_spec).expect("Failed to parse OpenAPI spec");

    let model = models.iter().find(|m| m.name() == "FrontendEvent");
    assert!(model.is_some(), "Expected FrontendEvent model");

    match model.unwrap() {
        ModelType::Struct(struct_model) => {
            let field = struct_model.fields.iter().find(|f| f.name == "field");
            assert!(field.is_some(), "Expected progress_percent field");
            let field = field.unwrap();
            assert_eq!(field.field_type, "i64");
            assert!(
                field.custom_attrs.is_some(),
                "Expected field-level x-rust-attrs"
            );
            let attrs = field.custom_attrs.as_ref().unwrap();
            assert_eq!(attrs.len(), 1);
            assert_eq!(attrs[0], "#[validate(range(min = 0, max = 100))]");

            let name_field = struct_model.fields.iter().find(|f| f.name == "name");
            assert!(name_field.unwrap().custom_attrs.is_none());
        }
        _ => panic!("Expected Struct"),
    }
}
