//! Decisions behind the Workloads view.

use vstd::prelude::*;

use crate::text::{chars_of, string_from_chars};
use crate::crud::{fields_view, text_opt, ManifestFields, MetadataFields};
use crate::workloads::{api_kind, api_version_of, object_id_of, WorkloadKind};

verus! {

/// The position of the first `/` at or after `i`, if any.
pub open spec fn slash_from(s: Seq<char>, i: int) -> Option<int>
    decreases s.len() - i,
{
    if i < 0 || i >= s.len() {
        None
    } else if s[i] == '/' {
        Some(i)
    } else {
        slash_from(s, i + 1)
    }
}

/// A row id split at its first `/` into namespace and name; an id without a
/// `/` is a bare name.
pub open spec fn split_id(id: Seq<char>) -> (Option<Seq<char>>, Seq<char>) {
    match slash_from(id, 0) {
        Some(k) => (Some(id.subrange(0, k)), id.subrange(k + 1, id.len() as int)),
        None => (None, id),
    }
}

/// Split a row id (the object-id format: `ns/name` or bare `name`) back
/// into namespace + name for the CRUD modal targets.
pub fn split_row_id(id: &str) -> (r: (Option<String>, String))
    ensures
        (
            match r.0 {
                Some(ns) => Some(ns@),
                None => None,
            },
            r.1@,
        ) == split_id(id@),
{
    let v = chars_of(id);
    let mut i: usize = 0;
    while i < v.len()
        invariant
            v@ == id@,
            i <= v@.len(),
            slash_from(id@, i as int) == slash_from(id@, 0),
        decreases v@.len() - i,
    {
        if v[i] == '/' {
            let mut ns: Vec<char> = Vec::new();
            let mut j: usize = 0;
            while j < i
                invariant
                    v@ == id@,
                    j <= i < v@.len(),
                    ns@ == id@.subrange(0, j as int),
                decreases i - j,
            {
                ns.push(v[j]);
                j = j + 1;
                assert(ns@ =~= id@.subrange(0, j as int));
            }
            let mut name: Vec<char> = Vec::new();
            let mut k: usize = i + 1;
            while k < v.len()
                invariant
                    v@ == id@,
                    i + 1 <= k <= v@.len(),
                    name@ == id@.subrange(i + 1, k as int),
                decreases v@.len() - k,
            {
                name.push(v[k]);
                k = k + 1;
                assert(name@ =~= id@.subrange(i + 1, k as int));
            }
            return (Some(string_from_chars(&ns)), string_from_chars(&name));
        }
        i = i + 1;
    }
    (None, string_from_chars(&v))
}

proof fn lemma_no_slash_from(s: Seq<char>, i: int)
    requires
        0 <= i <= s.len(),
        forall|k: int| i <= k < s.len() ==> s[k] != '/',
    ensures
        slash_from(s, i) is None,
    decreases s.len() - i,
{
    if i < s.len() {
        lemma_no_slash_from(s, i + 1);
    }
}

proof fn lemma_slash_from_prefix(s: Seq<char>, i: int, k: int)
    requires
        0 <= i <= k < s.len(),
        s[k] == '/',
        forall|j: int| i <= j < k ==> s[j] != '/',
    ensures
        slash_from(s, i) == Some(k),
    decreases k - i,
{
    if i < k {
        lemma_slash_from_prefix(s, i + 1, k);
    }
}

/// Splitting a row id undoes building it: an id made from a namespace
/// without `/` and a name splits back into that namespace and name, and a
/// bare name without `/` stays a bare name.
pub proof fn law_split_row_id_inverts_object_id(ns: Option<Seq<char>>, name: Seq<char>)
    requires
        ns matches Some(n) ==> !n.contains('/'),
        ns is None ==> !name.contains('/'),
    ensures
        split_id(object_id_of(ns, name)) == (ns, name),
{
    reveal_strlit("/");
    let id = object_id_of(ns, name);
    match ns {
        Some(n) => {
            assert(id[n.len() as int] == '/');
            assert forall|j: int| 0 <= j < n.len() implies id[j] != '/' by {
                assert(id[j] == n[j]);
                if n[j] == '/' {
                    assert(n.contains('/'));
                }
            }
            lemma_slash_from_prefix(id, 0, n.len() as int);
            assert(id.subrange(0, n.len() as int) =~= n);
            assert(id.subrange(n.len() as int + 1, id.len() as int) =~= name);
        },
        None => {
            assert forall|j: int| 0 <= j < name.len() implies name[j] != '/' by {
                if name[j] == '/' {
                    assert(name.contains('/'));
                }
            }
            lemma_no_slash_from(name, 0);
        },
    }
}

/// A per-row action of the workloads table.
#[derive(Debug, Clone, Copy, PartialEq, Eq, Structural)]
pub enum RowAction {
    Edit,
    Delete,
    Scale,
}

/// What a row action opens: the editor on a stub manifest of the row, the
/// delete confirm, or the scale dialog.
#[derive(Debug, Clone, PartialEq, Eq)]
pub enum RowTarget {
    /// Edit the row's resource, pre-loaded with its identity.
    Edit { kind: String, doc: ManifestFields },
    /// Confirm deleting the row's resource.
    Delete { kind: String, namespace: Option<String>, name: String },
    /// Scale the row's workload, starting from one replica.
    Scale { kind: String, namespace: Option<String>, name: String, current_replicas: u32 },
}

/// What the row with id `id` opens for `action` while the `kind` tab is
/// active: the row id is split into namespace and name; the editor's stub
/// carries the kind's `apiVersion` and `kind` and that identity; the scale
/// dialog starts at one replica.
pub fn row_target(kind: WorkloadKind, action: RowAction, id: &str) -> (r: RowTarget)
    ensures
        match (action, r) {
            (RowAction::Edit, RowTarget::Edit { kind: k, doc }) => k@ == api_kind(kind)
                && fields_view(doc) == (
                Some(api_version_of(kind)),
                Some(api_kind(kind)),
                Some((Some(split_id(id@).1), split_id(id@).0, None::<Seq<char>>)),
            ),
            (RowAction::Delete, RowTarget::Delete { kind: k, namespace, name }) => k@ == api_kind(
                kind,
            ) && text_opt(namespace) == split_id(id@).0 && name@ == split_id(id@).1,
            (RowAction::Scale, RowTarget::Scale { kind: k, namespace, name, current_replicas }) =>
                k@ == api_kind(kind) && text_opt(namespace) == split_id(id@).0 && name@ == split_id(
                id@,
            ).1 && current_replicas == 1,
            _ => false,
        },
{
    let (namespace, name) = split_row_id(id);
    let k = String::from_str(kind.kind_str());
    match action {
        RowAction::Edit => RowTarget::Edit {
            kind: k,
            doc: ManifestFields {
                api_version: Some(String::from_str(kind.api_version())),
                kind: Some(String::from_str(kind.kind_str())),
                metadata: Some(MetadataFields { name: Some(name), namespace, resource_version: None }),
            },
        },
        RowAction::Delete => RowTarget::Delete { kind: k, namespace, name },
        RowAction::Scale => RowTarget::Scale { kind: k, namespace, name, current_replicas: 1 },
    }
}

} // verus!
