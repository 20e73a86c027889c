//! Rust models from OpenAPI documents.
pub mod document;
pub mod error;
pub mod json;
pub mod laws;
pub mod models;
pub mod openapi;
pub mod parser;
pub mod slots;
pub mod text;

pub use document::{
    load_openapi_from_file_text, load_openapi_from_json, load_openapi_from_value,
    load_openapi_from_yaml,
};
pub use error::DocumentError;
pub use parser::parse_openapi;
