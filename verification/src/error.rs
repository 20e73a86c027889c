//! What can be wrong with a document.
use vstd::prelude::*;

verus! {

/// An error, with its message.
#[derive(Debug)]
pub enum DocumentError {
    /// The document is not one that this library takes.
    OpenApi(String),
    /// The text is not YAML.
    Yaml(String),
    /// The text is not JSON, or the JSON is not an OpenAPI document.
    Json(String),
}

/// The mathematical value of a [`DocumentError`].
pub enum DocumentErrorView {
    OpenApi(Seq<char>),
    Yaml(Seq<char>),
    Json(Seq<char>),
}

impl DeepView for DocumentError {
    type V = DocumentErrorView;

    open spec fn deep_view(&self) -> DocumentErrorView {
        match self {
            DocumentError::OpenApi(m) => DocumentErrorView::OpenApi(m@),
            DocumentError::Yaml(m) => DocumentErrorView::Yaml(m@),
            DocumentError::Json(m) => DocumentErrorView::Json(m@),
        }
    }
}

impl DocumentError {
    /// The message.
    pub fn message(&self) -> (r: &str)
        ensures
            r@ == (match self.deep_view() {
                DocumentErrorView::OpenApi(m) => m,
                DocumentErrorView::Yaml(m) => m,
                DocumentErrorView::Json(m) => m,
            }),
    {
        match self {
            DocumentError::OpenApi(m) => m.as_str(),
            DocumentError::Yaml(m) => m.as_str(),
            DocumentError::Json(m) => m.as_str(),
        }
    }
}

} // verus!
