//! Resource CRUD: manifest identity, the mutations the UI dispatches, and the
//! typed-name gate of the destructive confirm modal. Sending a mutation to
//! the cluster is the host's job; today every mutation answers that it is
//! not wired yet.

use vstd::prelude::*;

use crate::text::{parse_unsigned, parsed_unsigned, text_eq, text_of};
use crate::theme::{lemma_tree_entries_index, tree_entries_view, tree_view, JsonTree, JsonTreeView};
use crate::yaml::{parse_yaml, yaml_document_of, Diagnostic};

verus! {

/// The minimal identity of a Kubernetes manifest.
#[derive(Debug, Clone, PartialEq, Eq)]
pub struct ManifestRef {
    pub api_version: String,
    pub kind: String,
    pub name: String,
    pub namespace: Option<String>,
}

/// What manifest validation reads of a metadata object: each field when it
/// is present as a string.
#[derive(Debug, Clone, PartialEq, Eq)]
pub struct MetadataFields {
    pub name: Option<String>,
    pub namespace: Option<String>,
    pub resource_version: Option<String>,
}

/// What manifest validation reads of a parsed manifest: `apiVersion` and
/// `kind` when present as strings, and the `metadata` object when the key
/// is present (a `metadata` that is not an object reads as holding no
/// fields).
#[derive(Debug, Clone, PartialEq, Eq)]
pub struct ManifestFields {
    pub api_version: Option<String>,
    pub kind: Option<String>,
    pub metadata: Option<MetadataFields>,
}

/// The character view of an optional text.
pub open spec fn text_opt(o: Option<String>) -> Option<Seq<char>> {
    match o {
        Some(s) => Some(s@),
        None => None,
    }
}

/// The outcome of validating a manifest: its identity, or the first missing
/// field in the order `apiVersion`, `kind`, `metadata`, `metadata.name`.
pub open spec fn validation(doc: ManifestFields) -> Result<
    (Seq<char>, Seq<char>, Seq<char>, Option<Seq<char>>),
    Seq<char>,
> {
    match doc.api_version {
        None => Err("missing apiVersion"@),
        Some(v) => match doc.kind {
            None => Err("missing kind"@),
            Some(k) => match doc.metadata {
                None => Err("missing metadata"@),
                Some(m) => match m.name {
                    None => Err("missing metadata.name"@),
                    Some(n) => Ok((v@, k@, n@, text_opt(m.namespace))),
                },
            },
        },
    }
}

/// The view of a manifest identity.
pub open spec fn ref_view(r: ManifestRef) -> (Seq<char>, Seq<char>, Seq<char>, Option<Seq<char>>) {
    (r.api_version@, r.kind@, r.name@, text_opt(r.namespace))
}

fn opt_copy(o: &Option<String>) -> (r: Option<String>)
    ensures
        text_opt(r) == text_opt(*o),
{
    match o {
        Some(s) => Some(s.clone()),
        None => None,
    }
}

/// Validate a parsed manifest has the fields required to apply it.
///
/// Rejects manifests missing `apiVersion`, `kind`, or `metadata.name` with a
/// human-readable message — the first gate in the create/edit flow.
pub fn validate_manifest(doc: &ManifestFields) -> (r: Result<ManifestRef, String>)
    ensures
        match (r, validation(*doc)) {
            (Ok(m), Ok(v)) => ref_view(m) == v,
            (Err(e), Err(f)) => e@ == f,
            _ => false,
        },
{
    let api_version = match &doc.api_version {
        Some(v) => v,
        None => return Err(text_of("missing apiVersion")),
    };
    let kind = match &doc.kind {
        Some(k) => k,
        None => return Err(text_of("missing kind")),
    };
    let metadata = match &doc.metadata {
        Some(m) => m,
        None => return Err(text_of("missing metadata")),
    };
    let name = match &metadata.name {
        Some(n) => n,
        None => return Err(text_of("missing metadata.name")),
    };
    Ok(
        ManifestRef {
            api_version: api_version.clone(),
            kind: kind.clone(),
            name: name.clone(),
            namespace: opt_copy(&metadata.namespace),
        },
    )
}

/// The outcome of the edit-time guard: validation first, then a present,
/// non-empty `metadata.resourceVersion`.
pub open spec fn edit_validation(doc: ManifestFields) -> Result<(), Seq<char>> {
    match validation(doc) {
        Err(e) => Err(e),
        Ok(_) => match doc.metadata {
            Some(m) => match m.resource_version {
                None => Err("missing metadata.resourceVersion (edit requires the live RV)"@),
                Some(rv) => if rv@.len() == 0 {
                    Err("metadata.resourceVersion must not be empty"@)
                } else {
                    Ok(())
                },
            },
            None => Err("missing metadata"@),
        },
    }
}

/// Edit-time guard: a patch payload must carry `metadata.resourceVersion` so
/// the server can detect lost-update. Runs after [`validate_manifest`].
pub fn validate_for_edit(doc: &ManifestFields) -> (r: Result<(), String>)
    ensures
        match (r, edit_validation(*doc)) {
            (Ok(()), Ok(())) => true,
            (Err(e), Err(f)) => e@ == f,
            _ => false,
        },
{
    match validate_manifest(doc) {
        Err(e) => return Err(e),
        Ok(_) => {},
    }
    match &doc.metadata {
        Some(m) => match &m.resource_version {
            None => Err(text_of("missing metadata.resourceVersion (edit requires the live RV)")),
            Some(rv) => if rv.as_str().is_empty() {
                Err(text_of("metadata.resourceVersion must not be empty"))
            } else {
                Ok(())
            },
        },
        None => Err(text_of("missing metadata")),
    }
}

/// One propagation policy today: `Default` (kubectl foreground). Future
/// variants (`Orphan`, `Foreground`, `Background`) are additive.
#[derive(Debug, Clone, Copy, PartialEq, Eq, Structural)]
pub enum PropagationPolicy {
    Default,
}

impl Default for PropagationPolicy {
    fn default() -> (r: Self)
        ensures
            r == PropagationPolicy::Default,
    {
        PropagationPolicy::Default
    }
}

impl PropagationPolicy {
    /// A short label for the confirm modal eyebrow.
    pub fn label(self) -> (r: &'static str)
        ensures
            r@ == "Default (foreground)"@,
    {
        match self {
            PropagationPolicy::Default => "Default (foreground)",
        }
    }

}

/// The four CRUD operations the UI dispatches.
#[derive(Debug, Clone, PartialEq, Eq)]
pub enum Mutation {
    /// Apply a new manifest to the cluster (by what the UI reads of it).
    Create(ManifestFields),
    /// Patch an existing manifest. The payload must carry
    /// `metadata.resourceVersion` so the server can detect lost-update.
    Edit(ManifestFields),
    /// Delete a single resource by triple. The propagation policy is fixed
    /// at `Default` today; a follow-up adds the select.
    Delete { kind: String, namespace: Option<String>, name: String, propagation: PropagationPolicy },
    /// Scale a workload to a new replica count via SSA. The kind is one of
    /// Deployment / StatefulSet / ReplicaSet.
    Scale { kind: String, namespace: Option<String>, name: String, replicas: u32 },
}

/// The verb of a mutation.
pub open spec fn mutation_verb(m: Mutation) -> Seq<char> {
    match m {
        Mutation::Create(_) => "create"@,
        Mutation::Edit(_) => "edit"@,
        Mutation::Delete { .. } => "delete"@,
        Mutation::Scale { .. } => "scale"@,
    }
}

impl Mutation {
    /// Short verb for logs and toast copy (`create` / `edit` / `delete` /
    /// `scale`).
    pub fn verb(&self) -> (r: &'static str)
        ensures
            r@ == mutation_verb(*self),
    {
        match self {
            Mutation::Create(_) => "create",
            Mutation::Edit(_) => "edit",
            Mutation::Delete { .. } => "delete",
            Mutation::Scale { .. } => "scale",
        }
    }
}

/// A text, or empty when absent.
pub open spec fn or_empty(o: Option<String>) -> Seq<char> {
    match o {
        Some(s) => s@,
        None => Seq::empty(),
    }
}

/// The triple the confirm modal renders for a mutation: what a manifest
/// carries (missing fields read empty) for create and edit, the explicit
/// fields (with no `apiVersion`) for delete and scale.
pub open spec fn summary_of(m: Mutation) -> (Seq<char>, Seq<char>, Seq<char>, Option<Seq<char>>) {
    match m {
        Mutation::Create(doc) | Mutation::Edit(doc) => (
            or_empty(doc.api_version),
            or_empty(doc.kind),
            match doc.metadata {
                Some(md) => or_empty(md.name),
                None => Seq::empty(),
            },
            match doc.metadata {
                Some(md) => text_opt(md.namespace),
                None => None,
            },
        ),
        Mutation::Delete { kind, namespace, name, .. } | Mutation::Scale {
            kind,
            namespace,
            name,
            ..
        } => (Seq::empty(), kind@, name@, text_opt(namespace)),
    }
}

fn text_or_empty(o: &Option<String>) -> (r: String)
    ensures
        r@ == or_empty(*o),
{
    match o {
        Some(s) => s.clone(),
        None => String::new(),
    }
}

/// One-line triple the confirm modal renders.
pub fn target_summary(m: &Mutation) -> (r: ManifestRef)
    ensures
        ref_view(r) == summary_of(*m),
{
    match m {
        Mutation::Create(doc) | Mutation::Edit(doc) => ManifestRef {
            api_version: text_or_empty(&doc.api_version),
            kind: text_or_empty(&doc.kind),
            name: match &doc.metadata {
                Some(md) => text_or_empty(&md.name),
                None => String::new(),
            },
            namespace: match &doc.metadata {
                Some(md) => opt_copy(&md.namespace),
                None => None,
            },
        },
        Mutation::Delete { kind, namespace, name, .. } | Mutation::Scale {
            kind,
            namespace,
            name,
            ..
        } => ManifestRef {
            api_version: String::new(),
            kind: kind.clone(),
            name: name.clone(),
            namespace: opt_copy(namespace),
        },
    }
}

/// The answer every mutation gets until cluster mutations are wired:
/// `<verb>: cluster mutation lands in Phase 1`.
pub open spec fn pending_mutation_text(m: Mutation) -> Seq<char> {
    mutation_verb(m) + ": cluster mutation lands in Phase 1"@
}

/// Dispatch a mutation. Today every mutation is refused with the
/// not-wired-yet error, so the UI flows run end to end.
pub fn apply_mutation(m: &Mutation) -> (r: Result<(), String>)
    ensures
        r matches Err(e) && e@ == pending_mutation_text(*m),
{
    let mut e = text_of(m.verb());
    e.append(": cluster mutation lands in Phase 1");
    Err(e)
}

/// The "you typed this to confirm" gate for the destructive confirm modal:
/// `true` only when the typed string exactly equals the resource name
/// (case-sensitive, no fuzzy, no trim).
pub fn typed_name_matches(typed: &str, name: &str) -> (r: bool)
    ensures
        r == (typed@ == name@),
{
    text_eq(typed, name)
}

/// The edit guard only accepts manifests that pass validation, and then
/// only with a non-empty resource version.
pub proof fn law_edit_guard_implies_valid_manifest(doc: ManifestFields)
    ensures
        edit_validation(doc) is Ok ==> validation(doc) is Ok,
        edit_validation(doc) is Ok ==> (doc.metadata matches Some(m) && (
        m.resource_version matches Some(rv) && rv@.len() > 0)),
{
}

/// The replica count typed into the scale dialog: the input's trimmed text
/// read as a `u32`, `None` when it does not read as one.
pub fn parse_replicas(raw: &str) -> (r: Option<u32>)
    ensures
        r == parsed_unsigned(raw@, u32::MAX as int),
{
    parse_unsigned(raw, u32::MAX)
}

/// The request the scale dialog dispatches on confirm: a scale of the named
/// workload to the typed replica count, or nothing while the input does not
/// read as a count or an earlier request is still pending.
pub fn scale_request(
    kind: String,
    namespace: Option<String>,
    name: String,
    raw: &str,
    pending: bool,
) -> (r: Option<Mutation>)
    ensures
        r is Some <==> (!pending && parsed_unsigned(raw@, u32::MAX as int) is Some),
        r matches Some(m) ==> m == (Mutation::Scale {
            kind,
            namespace,
            name,
            replicas: parsed_unsigned(raw@, u32::MAX as int)->0,
        }),
{
    if pending {
        return None;
    }
    match parse_replicas(raw) {
        Some(replicas) => Some(Mutation::Scale { kind, namespace, name, replicas }),
        None => None,
    }
}

/// Whether entry `i` is the first entry of `es` under `key`.
pub open spec fn first_entry(es: Seq<(Seq<char>, JsonTreeView)>, key: Seq<char>, i: int) -> bool {
    &&& 0 <= i < es.len()
    &&& es[i].0 == key
    &&& forall|j: int| 0 <= j < i ==> es[j].0 != key
}

/// The value under `key` in an object (the first entry with that key);
/// `None` for a missing key or a value that is not an object.
pub open spec fn member(t: JsonTreeView, key: Seq<char>) -> Option<JsonTreeView> {
    match t {
        JsonTreeView::Object(es) => if exists|i: int| first_entry(es, key, i) {
            Some(es[choose|i: int| first_entry(es, key, i)].1)
        } else {
            None
        },
        _ => None,
    }
}

/// The text under `key` in an object, when it is a string.
pub open spec fn member_text(t: JsonTreeView, key: Seq<char>) -> Option<Seq<char>> {
    match member(t, key) {
        Some(JsonTreeView::Str(s)) => Some(s),
        _ => None,
    }
}

/// What validation reads of a manifest, as plain values: `apiVersion`,
/// `kind`, and (when the `metadata` key is present) its `name`,
/// `namespace` and `resourceVersion`.
pub type FieldsView = (
    Option<Seq<char>>,
    Option<Seq<char>>,
    Option<(Option<Seq<char>>, Option<Seq<char>>, Option<Seq<char>>)>,
);

/// The fields of a parsed manifest document.
pub open spec fn manifest_of(t: JsonTreeView) -> FieldsView {
    (
        member_text(t, "apiVersion"@),
        member_text(t, "kind"@),
        match member(t, "metadata"@) {
            Some(m) => Some(
                (member_text(m, "name"@), member_text(m, "namespace"@), member_text(m, "resourceVersion"@)),
            ),
            None => None,
        },
    )
}

/// The view of a manifest's fields.
pub open spec fn fields_view(f: ManifestFields) -> FieldsView {
    (
        text_opt(f.api_version),
        text_opt(f.kind),
        match f.metadata {
            Some(m) => Some((text_opt(m.name), text_opt(m.namespace), text_opt(m.resource_version))),
            None => None,
        },
    )
}

/// The value under `key` in the object `t`.
fn member_of<'a>(t: &'a JsonTree, key: &str) -> (r: Option<&'a JsonTree>)
    ensures
        match r {
            Some(c) => member(tree_view(*t), key@) == Some(tree_view(*c)),
            None => member(tree_view(*t), key@) is None,
        },
{
    match t {
        JsonTree::Object(es) => {
            let ghost vs = tree_entries_view(es@);
            proof {
                lemma_tree_entries_index(es@);
                assert(*t == JsonTree::Object(*es));
                assert(tree_view(JsonTree::Object(*es)) == JsonTreeView::Object(vs));
            }
            let mut i: usize = 0;
            while i < es.len()
                invariant
                    i <= es@.len(),
                    vs == tree_entries_view(es@),
                    tree_view(*t) == JsonTreeView::Object(vs),
                    vs.len() == es@.len(),
                    forall|k: int| 0 <= k < es@.len() ==> #[trigger] vs[k] == (es@[k].0@, tree_view(es@[k].1)),
                    forall|j: int| 0 <= j < i ==> vs[j].0 != key@,
                decreases es@.len() - i,
            {
                assert(vs[i as int] == (es@[i as int].0@, tree_view(es@[i as int].1)));
                if text_eq(es[i].0.as_str(), key) {
                    proof {
                        assert(first_entry(vs, key@, i as int));
                        let c = choose|c: int| first_entry(vs, key@, c);
                        if c < i {
                        } else if c > i {
                            assert(vs[i as int].0 == key@);
                        }
                        assert(c == i);
                        assert(tree_view(*t) == JsonTreeView::Object(vs));
                        assert(member(tree_view(*t), key@) == Some(vs[i as int].1));
                    }
                    return Some(&es[i].1);
                }
                i = i + 1;
            }
            assert(tree_view(*t) == JsonTreeView::Object(vs));
            None
        },
        _ => None,
    }
}

/// The text under `key` in the object `t`, when it is a string.
fn member_text_of(t: &JsonTree, key: &str) -> (r: Option<String>)
    ensures
        text_opt(r) == member_text(tree_view(*t), key@),
{
    match member_of(t, key) {
        Some(JsonTree::Str(s)) => Some(s.clone()),
        _ => None,
    }
}

/// What validation reads of a parsed manifest document.
pub fn manifest_fields_of(doc: &JsonTree) -> (r: ManifestFields)
    ensures
        fields_view(r) == manifest_of(tree_view(*doc)),
{
    let metadata = match member_of(doc, "metadata") {
        Some(m) => Some(
            MetadataFields {
                name: member_text_of(m, "name"),
                namespace: member_text_of(m, "namespace"),
                resource_version: member_text_of(m, "resourceVersion"),
            },
        ),
        None => None,
    };
    ManifestFields {
        api_version: member_text_of(doc, "apiVersion"),
        kind: member_text_of(doc, "kind"),
        metadata,
    }
}

/// Parse manifest text and read what validation needs from it, or report
/// the parser's error.
pub fn parse_manifest(text: &str) -> (r: Result<ManifestFields, Diagnostic>)
    ensures
        match (r, yaml_document_of(text@)) {
            (Ok(f), Ok(t)) => fields_view(f) == manifest_of(t),
            (Err(d), Err(e)) => (d.line, d.column, d.message@) == e,
            _ => false,
        },
{
    match parse_yaml(text) {
        Ok(doc) => Ok(manifest_fields_of(&doc)),
        Err(d) => Err(d),
    }
}

/// A manifest validates exactly when it names its `apiVersion`, `kind` and
/// `metadata.name`, and the identity it then gives back is the manifest's
/// own: those three texts and the namespace `metadata.namespace` holds.
pub proof fn law_validated_identity_is_the_manifests(doc: ManifestFields)
    ensures
        validation(doc) is Ok <==> (doc.api_version is Some && doc.kind is Some
            && doc.metadata is Some && doc.metadata->0.name is Some),
        validation(doc) matches Ok(t) ==> Some(t.0) == text_opt(doc.api_version) && Some(t.1)
            == text_opt(doc.kind) && Some(t.2) == text_opt(doc.metadata->0.name) && t.3
            == text_opt(doc.metadata->0.namespace),
{
}

} // verus!
