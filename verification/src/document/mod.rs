//! OpenAPI documents as they are written down.
//!
//! Documents of version 3.0 are taken as they are. Documents of version 3.1 that list types
//! (`type: [T, "null"]`) are first brought into the terms of version 3.0 (`type: T`,
//! `nullable: true`).
use crate::document::normalize::{
    lemma_normalized_document_is_well_formed, normalize_document, normalized_document,
};
use crate::document::parts::{document_value, read_document_value};
use crate::document::read::read_document;
use crate::document::value::{
    from_value, json_value, read_json, read_yaml, to_value, write_json_error, write_yaml_error,
    yaml_value,
};
use crate::error::{DocumentError, DocumentErrorView};
use crate::json::{well_formed, Json, JsonView};
use crate::openapi::view::DocumentView;
use crate::openapi::Document;
use crate::text::{ascii_lower_text, concat3, same_text, to_ascii_lower};
use vstd::prelude::*;

pub mod laws;
pub mod normalize;
pub mod parts;
pub mod read;
pub mod rewriting;
pub mod value;
pub mod version;

verus! {

/// The document that a JSON value stands for, or what is wrong with it.
pub open spec fn loaded_value(j: JsonView) -> Result<DocumentView, DocumentErrorView> {
    match normalized_document(j) {
        (_, Some(message)) => Err(DocumentErrorView::OpenApi(message)),
        (normalized, None) => match document_value(normalized) {
            Ok(document) => Ok(document),
            Err(message) => Err(DocumentErrorView::Json(message)),
        },
    }
}

/// The document that a YAML text stands for, or what is wrong with it.
pub open spec fn loaded_yaml(content: Seq<char>) -> Result<DocumentView, DocumentErrorView> {
    match yaml_value(content) {
        Ok(j) => loaded_value(j),
        Err(message) => Err(DocumentErrorView::Yaml(message)),
    }
}

/// The document that a JSON text stands for, or what is wrong with it.
pub open spec fn loaded_json(content: Seq<char>) -> Result<DocumentView, DocumentErrorView> {
    match json_value(content) {
        Ok(j) => loaded_value(j),
        Err(message) => Err(DocumentErrorView::Json(message)),
    }
}

/// The document that the text of a file with the given extension stands for, or what is wrong
/// with it.
pub open spec fn loaded_file(content: Seq<char>, extension: Option<Seq<char>>) -> Result<
    DocumentView,
    DocumentErrorView,
> {
    match extension {
        Some(name) => {
            let lower = ascii_lower_text(name);
            if lower == "yaml"@ || lower == "yml"@ {
                loaded_yaml(content)
            } else if lower == "json"@ {
                loaded_json(content)
            } else {
                Err(
                    DocumentErrorView::OpenApi(
                        "unsupported OpenAPI file extension '."@ + lower
                            + "'; expected .yaml, .yml, or .json"@,
                    ),
                )
            }
        },
        None => Err(
            DocumentErrorView::OpenApi(
                "OpenAPI file has no extension; expected .yaml, .yml, or .json"@,
            ),
        ),
    }
}

/// Whether a result is the one that is said: the document, or what is wrong.
pub open spec fn is_loaded(
    r: Result<Document, DocumentError>,
    expected: Result<DocumentView, DocumentErrorView>,
) -> bool {
    match expected {
        Ok(document) => r matches Ok(d) && d.deep_view() == document,
        Err(error) => r matches Err(e) && e.deep_view() == error,
    }
}

/// Loads the document that a JSON value stands for.
pub fn load_openapi_from_value(value: Json) -> (r: Result<Document, DocumentError>)
    requires
        well_formed(value.deep_view()),
    ensures
        is_loaded(r, loaded_value(value.deep_view())),
{
    let mut value = value;
    proof {
        lemma_normalized_document_is_well_formed(value.deep_view());
    }
    if let Err(e) = normalize_document(&mut value) {
        return Err(e);
    }
    match read_document_value(to_value(value)) {
        Ok(document) => Ok(read_document(document)),
        Err(e) => Err(DocumentError::Json(write_json_error(&e))),
    }
}

/// Loads the document that a YAML text stands for. The value of the text is well-formed.
pub fn load_openapi_from_yaml(content: &str) -> (r: Result<Document, DocumentError>)
    ensures
        is_loaded(r, loaded_yaml(content@)),
        yaml_value(content@) matches Ok(j) ==> well_formed(j),
{
    match read_yaml(content) {
        Ok(value) => load_openapi_from_value(from_value(value)),
        Err(e) => Err(DocumentError::Yaml(write_yaml_error(&e))),
    }
}

/// Loads the document that a JSON text stands for. The value of the text is well-formed.
pub fn load_openapi_from_json(content: &str) -> (r: Result<Document, DocumentError>)
    ensures
        is_loaded(r, loaded_json(content@)),
        json_value(content@) matches Ok(j) ==> well_formed(j),
{
    match read_json(content) {
        Ok(value) => load_openapi_from_value(from_value(value)),
        Err(e) => Err(DocumentError::Json(write_json_error(&e))),
    }
}

/// Loads the document that the text of a file stands for; the extension of the file, in any
/// case, says how it is written.
pub fn load_openapi_from_file_text(content: &str, extension: Option<&str>) -> (r: Result<
    Document,
    DocumentError,
>)
    ensures
        is_loaded(r, loaded_file(content@, extension.deep_view())),
{
    match extension {
        Some(name) => {
            let lower = to_ascii_lower(name);
            if same_text(lower.as_str(), "yaml") || same_text(lower.as_str(), "yml") {
                load_openapi_from_yaml(content)
            } else if same_text(lower.as_str(), "json") {
                load_openapi_from_json(content)
            } else {
                Err(
                    DocumentError::OpenApi(
                        concat3(
                            "unsupported OpenAPI file extension '.",
                            lower.as_str(),
                            "'; expected .yaml, .yml, or .json",
                        ),
                    ),
                )
            }
        },
        None => Err(
            DocumentError::OpenApi(
                "OpenAPI file has no extension; expected .yaml, .yml, or .json".to_string(),
            ),
        ),
    }
}

} // verus!
