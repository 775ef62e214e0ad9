//! YAML parsing with line/column diagnostics for the manifest editor.

use vstd::prelude::*;

use crate::theme::{tree_of_value, tree_view, JsonTree, JsonTreeView};

verus! {

/// A YAML parse error with a 1-based line/column location.
#[derive(Debug, Clone, PartialEq, Eq)]
pub struct Diagnostic {
    pub line: u64,
    pub column: u64,
    pub message: String,
}

/// What `serde_saphyr::from_str` makes of `text`: the document it parses
/// to (as the library reads it), or the failure as `(line, column,
/// message)`. The location is `(0, 0)` when the parser knows none.
pub uninterp spec fn yaml_document_of(text: Seq<char>) -> Result<JsonTreeView, (u64, u64, Seq<char>)>;

/// Parse a YAML document, or report the first syntax error with its
/// line/column location. Trusted: `serde_saphyr::from_str` decides, as a
/// function of the text alone, the document or the error; the document's
/// strings and objects are carried over entry by entry, every other value
/// reads as `Other`.
#[verifier::external_body]
pub fn parse_yaml(text: &str) -> (r: Result<JsonTree, Diagnostic>)
    ensures
        match (r, yaml_document_of(text@)) {
            (Ok(t), Ok(v)) => tree_view(t) == v,
            (Err(d), Err(f)) => (d.line, d.column, d.message@) == f,
            _ => false,
        },
{
    match serde_saphyr::from_str::<serde_json::Value>(text) {
        Ok(v) => Ok(tree_of_value(&v)),
        Err(err) => {
            let (line, column) = match err.location() {
                Some(loc) => (loc.line(), loc.column()),
                None => (0, 0),
            };
            Err(Diagnostic { line, column, message: err.to_string() })
        },
    }
}

} // verus!
