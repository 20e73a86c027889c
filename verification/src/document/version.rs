//! The versions of OpenAPI that documents are written in.
use crate::text::{same_text, strip_prefix};
use vstd::prelude::*;

verus! {

/// Whether a version belongs to the 3.0 line.
pub open spec fn version_30(version: Seq<char>) -> bool {
    "3.0."@.is_prefix_of(version) || version == "3.0"@
}

/// Whether a version belongs to the 3.1 line.
pub open spec fn version_31(version: Seq<char>) -> bool {
    "3.1."@.is_prefix_of(version) || version == "3.1"@
}

/// Whether a version belongs to the 3.0 line.
pub fn is_openapi_30(version: &str) -> (r: bool)
    ensures
        r == version_30(version@),
{
    strip_prefix(version, "3.0.").is_some() || same_text(version, "3.0")
}

/// Whether a version belongs to the 3.1 line.
pub fn is_openapi_31(version: &str) -> (r: bool)
    ensures
        r == version_31(version@),
{
    strip_prefix(version, "3.1.").is_some() || same_text(version, "3.1")
}

} // verus!
