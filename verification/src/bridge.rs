//! The plugin bridge's decisions: which requests are answered at once, and
//! how a registered UI contribution merges into a plugin's registration.
//! Talking to the cluster and parsing the webview's JSON is the host's job.

use vstd::prelude::*;

use crate::plugin_api::{
    entries_error, registration_error, registrations, ApiRequest, PluginRegistration,
    RegistrationStore, RouteSpec, SidebarItem, StatusItem,
};
use crate::text::{chars_of, concat, text_eq, text_of};

verus! {

/// The answer to a cluster request when no cluster is connected.
pub const NO_CLUSTER: &'static str = "no cluster connected";

/// The answer to an exec request until exec lands.
pub const EXEC_UNSUPPORTED: &'static str = "exec is not supported yet";

/// Which kind of UI contribution a `register` request carries.
#[derive(Debug, Clone, Copy, PartialEq, Eq, Structural)]
pub enum ContributionKind {
    Sidebar,
    Route,
    Status,
}

/// The contribution kind a `register` request names, or the message for an
/// unknown one.
pub open spec fn kind_of(kind: Seq<char>) -> Result<ContributionKind, Seq<char>> {
    if kind == "sidebar"@ {
        Ok(ContributionKind::Sidebar)
    } else if kind == "route"@ {
        Ok(ContributionKind::Route)
    } else if kind == "status"@ {
        Ok(ContributionKind::Status)
    } else {
        Err("unknown registration kind '"@ + kind + "'"@)
    }
}

/// Read the kind of a `register` request (`sidebar`, `route` or `status`).
pub fn contribution_kind(kind: &str) -> (r: Result<ContributionKind, String>)
    ensures
        match (r, kind_of(kind@)) {
            (Ok(a), Ok(b)) => a == b,
            (Err(e), Err(f)) => e@ == f,
            _ => false,
        },
{
    if text_eq(kind, "sidebar") {
        Ok(ContributionKind::Sidebar)
    } else if text_eq(kind, "route") {
        Ok(ContributionKind::Route)
    } else if text_eq(kind, "status") {
        Ok(ContributionKind::Status)
    } else {
        let mut e = text_of("unknown registration kind '");
        e.append(kind);
        e.append("'");
        Err(e)
    }
}

/// One UI contribution, parsed from a `register` payload.
#[derive(Debug, Clone, PartialEq, Eq)]
pub enum Contribution {
    Sidebar(SidebarItem),
    Route(RouteSpec),
    Status(StatusItem),
}

/// The answer a request gets before any cluster work: exec is refused, a
/// cluster request without a cluster is refused, everything else proceeds.
pub open spec fn immediate_answer(request: ApiRequest, connected: bool) -> Option<Seq<char>> {
    match request {
        ApiRequest::Exec { .. } => Some(EXEC_UNSUPPORTED@),
        ApiRequest::Register { .. } => None,
        _ => if connected {
            None
        } else {
            Some(NO_CLUSTER@)
        },
    }
}

/// The error a request is answered with at once, if any. `connected` says
/// whether a cluster client is available.
pub fn immediate_error(request: &ApiRequest, connected: bool) -> (r: Option<String>)
    ensures
        match (r, immediate_answer(*request, connected)) {
            (Some(e), Some(f)) => e@ == f,
            (None, None) => true,
            _ => false,
        },
{
    match request {
        ApiRequest::Exec { .. } => Some(text_of(EXEC_UNSUPPORTED)),
        ApiRequest::Register { .. } => None,
        _ => if connected {
            None
        } else {
            Some(text_of(NO_CLUSTER))
        },
    }
}

fn copy_sidebar(v: &Vec<SidebarItem>) -> (r: Vec<SidebarItem>)
    ensures
        r@ == v@,
{
    let mut out: Vec<SidebarItem> = Vec::new();
    let mut i: usize = 0;
    while i < v.len()
        invariant
            i <= v@.len(),
            out@ == v@.subrange(0, i as int),
        decreases v@.len() - i,
    {
        let x = &v[i];
        out.push(SidebarItem { label: x.label.clone(), icon: x.icon.clone(), route: x.route.clone() });
        i = i + 1;
        assert(out@ =~= v@.subrange(0, i as int));
    }
    assert(v@.subrange(0, i as int) =~= v@);
    out
}

fn copy_routes(v: &Vec<RouteSpec>) -> (r: Vec<RouteSpec>)
    ensures
        r@ == v@,
{
    let mut out: Vec<RouteSpec> = Vec::new();
    let mut i: usize = 0;
    while i < v.len()
        invariant
            i <= v@.len(),
            out@ == v@.subrange(0, i as int),
        decreases v@.len() - i,
    {
        let x = &v[i];
        out.push(RouteSpec { path: x.path.clone(), title: x.title.clone() });
        i = i + 1;
        assert(out@ =~= v@.subrange(0, i as int));
    }
    assert(v@.subrange(0, i as int) =~= v@);
    out
}

fn copy_status(v: &Vec<StatusItem>) -> (r: Vec<StatusItem>)
    ensures
        r@ == v@,
{
    let mut out: Vec<StatusItem> = Vec::new();
    let mut i: usize = 0;
    while i < v.len()
        invariant
            i <= v@.len(),
            out@ == v@.subrange(0, i as int),
        decreases v@.len() - i,
    {
        let x = &v[i];
        out.push(StatusItem { label: x.label.clone(), color: x.color.clone() });
        i = i + 1;
        assert(out@ =~= v@.subrange(0, i as int));
    }
    assert(v@.subrange(0, i as int) =~= v@);
    out
}

/// A plugin's registration before a new contribution: what it had, or
/// nothing.
pub open spec fn current_entries(
    m: Map<Seq<char>, PluginRegistration>,
    plugin: Seq<char>,
) -> (Seq<SidebarItem>, Seq<RouteSpec>, Seq<StatusItem>) {
    if m.contains_key(plugin) {
        (m[plugin].sidebar@, m[plugin].routes@, m[plugin].status@)
    } else {
        (Seq::empty(), Seq::empty(), Seq::empty())
    }
}

/// The entries after appending a contribution to its list.
pub open spec fn with_contribution(
    e: (Seq<SidebarItem>, Seq<RouteSpec>, Seq<StatusItem>),
    c: Contribution,
) -> (Seq<SidebarItem>, Seq<RouteSpec>, Seq<StatusItem>) {
    match c {
        Contribution::Sidebar(item) => (e.0.push(item), e.1, e.2),
        Contribution::Route(route) => (e.0, e.1.push(route), e.2),
        Contribution::Status(item) => (e.0, e.1, e.2.push(item)),
    }
}

/// The entries a registration holds.
pub open spec fn entries_of(r: PluginRegistration) -> (
    Seq<SidebarItem>,
    Seq<RouteSpec>,
    Seq<StatusItem>,
) {
    (r.sidebar@, r.routes@, r.status@)
}

/// Merge one UI contribution into the plugin's registration.
///
/// Re-registers are appends, not upserts — the host clears a plugin's entry
/// before re-evaluating its bundle on hot reload. A registration that fails
/// validation leaves the store untouched and answers the validation error.
pub fn apply_register(store: &mut RegistrationStore, plugin: &str, contribution: Contribution) -> (r:
    Result<(), String>)
    ensures
        final(store).wf(),
        ({
            let next = with_contribution(
                current_entries(registrations(old(store)@), plugin@),
                contribution,
            );
            match entries_error(next.0, next.1, next.2) {
                None => r is Ok && registrations(final(store)@).dom() == registrations(
                    old(store)@,
                ).dom().insert(plugin@) && entries_of(registrations(final(store)@)[plugin@])
                    == next && forall|k: Seq<char>|
                    k != plugin@ && #[trigger] registrations(old(store)@).contains_key(k)
                        ==> registrations(final(store)@)[k] == registrations(old(store)@)[k],
                Some(msg) => r matches Err(e) && e@ == msg && *final(store) == *old(store),
            }
        }),
{
    proof {
        use_type_invariant(&*store);
    }
    let mut registration = match store.get(plugin) {
        Some(existing) => PluginRegistration {
            sidebar: copy_sidebar(&existing.sidebar),
            routes: copy_routes(&existing.routes),
            status: copy_status(&existing.status),
        },
        None => PluginRegistration::empty(),
    };
    let ghost base = entries_of(registration);
    assert(base == current_entries(registrations(store@), plugin@));
    match contribution {
        Contribution::Sidebar(item) => registration.sidebar.push(item),
        Contribution::Route(route) => registration.routes.push(route),
        Contribution::Status(item) => registration.status.push(item),
    }
    assert(entries_of(registration) == with_contribution(base, contribution));
    match registration.validate() {
        Err(e) => Err(e),
        Ok(()) => {
            store.upsert(plugin, registration);
            Ok(())
        },
    }
}

/// The code of a character with ASCII letters folded to lower case.
pub open spec fn ascii_lower(c: char) -> u32 {
    if 'A' <= c && c <= 'Z' {
        ((c as u32) + 32) as u32
    } else {
        c as u32
    }
}

/// Equality of two texts ignoring ASCII case.
pub open spec fn eq_ascii_fold(a: Seq<char>, b: Seq<char>) -> bool {
    a.len() == b.len() && forall|i: int| 0 <= i < a.len() ==> ascii_lower(#[trigger] a[i]) == ascii_lower(b[i])
}

fn fold_char(c: char) -> (r: u32)
    ensures
        r == ascii_lower(c),
{
    if 'A' <= c && c <= 'Z' {
        (c as u32) + 32
    } else {
        c as u32
    }
}

/// Whether two texts are equal ignoring ASCII case.
pub fn eq_ignore_ascii_case(a: &str, b: &str) -> (r: bool)
    ensures
        r == eq_ascii_fold(a@, b@),
{
    let x = chars_of(a);
    let y = chars_of(b);
    if x.len() != y.len() {
        return false;
    }
    let mut i: usize = 0;
    while i < x.len()
        invariant
            x@ == a@,
            y@ == b@,
            x@.len() == y@.len(),
            i <= x@.len(),
            forall|j: int| 0 <= j < i ==> ascii_lower(#[trigger] x@[j]) == ascii_lower(y@[j]),
        decreases x@.len() - i,
    {
        if fold_char(x[i]) != fold_char(y[i]) {
            return false;
        }
        i = i + 1;
    }
    true
}

/// Whether a discovered resource answers to a plugin-supplied kind string:
/// its plural or its kind, ignoring ASCII case.
pub open spec fn answers_to(plural: Seq<char>, kind: Seq<char>, wanted: Seq<char>) -> bool {
    eq_ascii_fold(plural, wanted) || eq_ascii_fold(kind, wanted)
}

/// The first of the discovered resources (each by its plural and kind, in
/// discovery order: groups alphabetically, the core group first, each
/// group's preferred version) that a bare kind string such as `pods`, `Pod`
/// or `applications` names; `None` when none does.
pub fn pick_resource(resources: &Vec<(String, String)>, wanted: &str) -> (r: Option<usize>)
    ensures
        match r {
            Some(i) => i < resources@.len() && answers_to(resources@[i as int].0@, resources@[i as int].1@, wanted@)
                && forall|j: int| 0 <= j < i ==> !answers_to(#[trigger] resources@[j].0@, resources@[j].1@, wanted@),
            None => forall|j: int| 0 <= j < resources@.len() ==> !answers_to(#[trigger] resources@[j].0@, resources@[j].1@, wanted@),
        },
{
    let mut i: usize = 0;
    while i < resources.len()
        invariant
            i <= resources@.len(),
            forall|j: int| 0 <= j < i ==> !answers_to(#[trigger] resources@[j].0@, resources@[j].1@, wanted@),
        decreases resources@.len() - i,
    {
        let (plural, kind) = &resources[i];
        if eq_ignore_ascii_case(plural.as_str(), wanted) || eq_ignore_ascii_case(kind.as_str(), wanted) {
            return Some(i);
        }
        i = i + 1;
    }
    None
}

/// The message for a kind string that names no discovered resource.
pub open spec fn unknown_kind_text(kind: Seq<char>) -> Seq<char> {
    "unknown resource kind '"@ + kind + "'"@
}

/// The answer to a kind string that names no discovered resource.
pub fn unknown_kind(kind: &str) -> (r: String)
    ensures
        r@ == unknown_kind_text(kind@),
{
    let head = concat("unknown resource kind '", kind);
    concat(head.as_str(), "'")
}

/// The namespace a `list` is narrowed to: the requested one, when the kind
/// is namespaced and a non-empty namespace was asked for; otherwise the list
/// spans every namespace the client can see.
pub fn list_namespace<'a>(namespaced: bool, ns: Option<&'a str>) -> (r: Option<&'a str>)
    ensures
        match (r, ns) {
            (Some(a), Some(b)) => namespaced && b@.len() > 0 && a@ == b@,
            (None, Some(b)) => !namespaced || b@.len() == 0,
            (None, None) => true,
            (Some(_), None) => false,
        },
{
    match ns {
        Some(n) => if namespaced && !n.is_empty() {
            Some(n)
        } else {
            None
        },
        None => None,
    }
}

/// The namespace a `get` reads in: namespaced kinds require one (the
/// message names the kind and object), cluster-scoped kinds ignore it.
pub fn get_namespace<'a>(namespaced: bool, kind: &str, ns: &'a str, name: &str) -> (r: Result<
    Option<&'a str>,
    String,
>)
    ensures
        !namespaced ==> r matches Ok(None),
        namespaced && ns@.len() > 0 ==> (r matches Ok(Some(n)) && n@ == ns@),
        namespaced && ns@.len() == 0 ==> (r matches Err(e) && e@ == "get "@ + kind@ + "/"@ + name@
            + ": namespace required"@),
{
    if !namespaced {
        return Ok(None);
    }
    if ns.is_empty() {
        let a = concat("get ", kind);
        let b = concat(a.as_str(), "/");
        let c = concat(b.as_str(), name);
        return Err(concat(c.as_str(), ": namespace required"));
    }
    Ok(Some(ns))
}

/// The refusal of a `logs` request without a namespace, if it has none.
pub fn logs_namespace_error(name: &str, ns: &str) -> (r: Option<String>)
    ensures
        ns@.len() > 0 ==> r is None,
        ns@.len() == 0 ==> (r matches Some(e) && e@ == "logs "@ + name@ + ": namespace required"@),
{
    if ns.is_empty() {
        let a = concat("logs ", name);
        Some(concat(a.as_str(), ": namespace required"))
    } else {
        None
    }
}

} // verus!
