//! The manifest editor: its modes, the resource triple it shows, the
//! diagnostics rows under the YAML, and the starter manifest a new resource
//! begins from.

use vstd::prelude::*;

use crate::crud::{
    edit_validation, fields_view, manifest_of, parse_manifest, validate_for_edit,
    validate_manifest, validation, ManifestFields, Mutation,
};
use crate::text::{text_eq, text_of};
use crate::yaml::{parse_yaml, yaml_document_of, Diagnostic};

verus! {

/// What the editor is doing: create-from-blank or patch-an-existing.
#[derive(Debug, Clone, Copy, PartialEq, Eq, Structural)]
pub enum EditorMode {
    New,
    Edit,
}

impl EditorMode {
    /// The editor's title.
    pub fn label(self) -> (r: &'static str)
        ensures
            self == EditorMode::New ==> r@ == "New resource"@,
            self == EditorMode::Edit ==> r@ == "Edit resource"@,
    {
        match self {
            EditorMode::New => "New resource",
            EditorMode::Edit => "Edit resource",
        }
    }
}

/// The resource triple as a one-line eyebrow: `kind · namespace/name`, or
/// `kind · name` for a cluster-scoped resource.
pub open spec fn resource_triple(kind: Seq<char>, namespace: Option<Seq<char>>, name: Seq<char>) -> Seq<char> {
    match namespace {
        Some(ns) => kind + " · "@ + ns + "/"@ + name,
        None => kind + " · "@ + name,
    }
}

/// Render the resource triple as a one-line eyebrow (kind · namespace/name).
pub fn format_resource_triple(kind: &str, namespace: Option<&str>, name: &str) -> (r: String)
    ensures
        r@ == resource_triple(
            kind@,
            match namespace {
                Some(ns) => Some(ns@),
                None => None,
            },
            name@,
        ),
{
    let mut r = text_of(kind);
    r.append(" · ");
    match namespace {
        Some(ns) => {
            r.append(ns);
            r.append("/");
            r.append(name);
        },
        None => {
            r.append(name);
        },
    }
    r
}

/// Cache-buster id for the vendored CodeMirror bundle.
pub fn code_editor_path() -> (r: &'static str)
    ensures
        r@ == "cm-bundle-v1"@,
{
    "cm-bundle-v1"
}

/// The diagnostics a manifest text shows: none when it parses, else the one
/// error the parser reports.
pub open spec fn diagnostics_for(text: Seq<char>) -> Seq<(u64, u64, Seq<char>)> {
    match yaml_document_of(text) {
        Ok(_) => Seq::empty(),
        Err(d) => seq![d],
    }
}

/// Parse `text` and return the syntax errors (at most one today).
pub fn compute_diagnostics(text: &str) -> (r: Vec<Diagnostic>)
    ensures
        r@.map_values(|d: Diagnostic| (d.line, d.column, d.message@)) == diagnostics_for(text@),
{
    match parse_yaml(text) {
        Ok(_) => {
            let r: Vec<Diagnostic> = Vec::new();
            assert(r@.map_values(|d: Diagnostic| (d.line, d.column, d.message@)) =~= Seq::<(u64, u64, Seq<char>)>::empty());
            r
        },
        Err(diag) => {
            let ghost dv = (diag.line, diag.column, diag.message@);
            let mut r: Vec<Diagnostic> = Vec::new();
            r.push(diag);
            assert(r@.map_values(|d: Diagnostic| (d.line, d.column, d.message@)) =~= seq![dv]);
            r
        },
    }
}

/// The `(line, column, message)` rows the diagnostics block renders, in
/// order.
pub fn diagnostics_rows(diagnostics: &[Diagnostic]) -> (r: Vec<(u64, u64, String)>)
    ensures
        r@.map_values(|x: (u64, u64, String)| (x.0, x.1, x.2@)) == diagnostics@.map_values(
            |d: Diagnostic| (d.line, d.column, d.message@),
        ),
{
    let mut out: Vec<(u64, u64, String)> = Vec::new();
    let mut i: usize = 0;
    while i < diagnostics.len()
        invariant
            i <= diagnostics@.len(),
            out@.map_values(|x: (u64, u64, String)| (x.0, x.1, x.2@)) == diagnostics@.subrange(
                0,
                i as int,
            ).map_values(|d: Diagnostic| (d.line, d.column, d.message@)),
        decreases diagnostics@.len() - i,
    {
        let d = &diagnostics[i];
        let ghost before = out@;
        let row = (d.line, d.column, d.message.clone());
        out.push(row);
        assert(out@.map_values(|x: (u64, u64, String)| (x.0, x.1, x.2@)) =~= before.map_values(
            |x: (u64, u64, String)| (x.0, x.1, x.2@),
        ).push((d.line, d.column, d.message@)));
        assert(diagnostics@.subrange(0, i + 1) =~= diagnostics@.subrange(0, i as int).push(*d));
        i = i + 1;
    }
    assert(diagnostics@.subrange(0, i as int) =~= diagnostics@);
    out
}

/// The check a parsed manifest must pass before Apply, by mode: a new
/// resource needs `apiVersion`, `kind` and `metadata.name`; an edit also
/// needs the live `metadata.resourceVersion`.
pub open spec fn mode_validation(mode: EditorMode, doc: ManifestFields) -> Result<(), Seq<char>> {
    match mode {
        EditorMode::New => match validation(doc) {
            Ok(_) => Ok(()),
            Err(e) => Err(e),
        },
        EditorMode::Edit => edit_validation(doc),
    }
}

/// The validation message the editor shows under a parsed manifest, if any.
pub fn validation_error(mode: EditorMode, doc: &ManifestFields) -> (r: Option<String>)
    ensures
        match mode_validation(mode, *doc) {
            Ok(()) => r is None,
            Err(e) => r matches Some(m) && m@ == e,
        },
{
    match mode {
        EditorMode::New => match validate_manifest(doc) {
            Ok(_) => None,
            Err(e) => Some(e),
        },
        EditorMode::Edit => match validate_for_edit(doc) {
            Ok(()) => None,
            Err(e) => Some(e),
        },
    }
}

/// Whether Apply is enabled: the text parsed, the manifest passes the
/// mode's check, and no earlier request is pending.
pub fn can_apply(mode: EditorMode, parsed: &Result<ManifestFields, Diagnostic>, pending: bool) -> (r:
    bool)
    ensures
        r == (!pending && (match parsed {
            Ok(doc) => mode_validation(mode, *doc) is Ok,
            Err(_) => false,
        })),
{
    if pending {
        return false;
    }
    match parsed {
        Ok(doc) => validation_error(mode, doc).is_none(),
        Err(_) => false,
    }
}

/// The mutation Apply dispatches for a parsed manifest: a create for a new
/// resource, an edit otherwise.
pub fn apply_request(mode: EditorMode, doc: ManifestFields) -> (r: Mutation)
    ensures
        r == (match mode {
            EditorMode::New => Mutation::Create(doc),
            EditorMode::Edit => Mutation::Edit(doc),
        }),
{
    match mode {
        EditorMode::New => Mutation::Create(doc),
        EditorMode::Edit => Mutation::Edit(doc),
    }
}

/// What Apply dispatches for the editor's text: the manifest read from the
/// parsed text, as a create for a new resource or an edit otherwise; the
/// parser's error when the text does not parse.
pub fn apply_from_text(mode: EditorMode, text: &str) -> (r: Result<Mutation, Diagnostic>)
    ensures
        match (r, yaml_document_of(text@)) {
            (Ok(Mutation::Create(f)), Ok(t)) => mode == EditorMode::New && fields_view(f)
                == manifest_of(t),
            (Ok(Mutation::Edit(f)), Ok(t)) => mode == EditorMode::Edit && fields_view(f)
                == manifest_of(t),
            (Err(d), Err(e)) => (d.line, d.column, d.message@) == e,
            _ => false,
        },
{
    match parse_manifest(text) {
        Ok(doc) => Ok(apply_request(mode, doc)),
        Err(d) => Err(d),
    }
}

} // verus!
