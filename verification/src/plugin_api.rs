//! Plugin API bridge: the typed model of what a plugin registers, the kube
//! operations a plugin can request, the per-plugin registration store, and
//! the injected `window.openkite` bootstrap script.

use vstd::prelude::*;

use crate::keyed::{
    as_map, get_entry, keys_of, keys_sorted, pairs_view, remove_entry, upsert_entry, entry_keys,
};
use crate::text::{blank, concat, has_char, is_blank, lex_lt, text_of};

verus! {

/// The JSON value type of `serde_json`, carried opaquely through requests
/// and responses.
#[verifier::external_type_specification]
#[verifier::external_body]
pub struct ExJsonValue(serde_json::Value);

/// `serde_json::Value`'s derived `Clone`, used by the derived `Clone` of the
/// request and response types; the contract states nothing of the copy.
pub assume_specification[ <serde_json::Value as Clone>::clone ](v: &serde_json::Value) -> serde_json::Value;

/// A sidebar entry a plugin contributes (shown under a plugin section).
#[derive(Debug, Clone, PartialEq, Eq)]
pub struct SidebarItem {
    pub label: String,
    pub icon: String,
    pub route: String,
}

/// A routed plugin view (`path` must start with `/`).
#[derive(Debug, Clone, PartialEq, Eq)]
pub struct RouteSpec {
    pub path: String,
    pub title: String,
}

/// A status-bar widget a plugin registers (label + optional dot color).
#[derive(Debug, Clone, PartialEq, Eq)]
pub struct StatusItem {
    pub label: String,
    pub color: String,
}

/// Everything a plugin registered, keyed by kind.
#[derive(Debug, Clone, PartialEq, Eq)]
pub struct PluginRegistration {
    pub sidebar: Vec<SidebarItem>,
    pub routes: Vec<RouteSpec>,
    pub status: Vec<StatusItem>,
}

/// A route path is acceptable when it starts with `/` and has no space.
pub open spec fn route_path_ok(p: Seq<char>) -> bool {
    p.len() > 0 && p[0] == '/' && !p.contains(' ')
}

/// A route is acceptable when its path is and its title is not blank.
pub open spec fn route_ok(r: RouteSpec) -> bool {
    route_path_ok(r.path@) && !is_blank(r.title@)
}

/// The first route at or after `i` that is not acceptable.
pub open spec fn first_bad_route(routes: Seq<RouteSpec>, i: int) -> int
    decreases routes.len() - i,
{
    if i < 0 || i >= routes.len() {
        routes.len() as int
    } else if !route_ok(routes[i]) {
        i
    } else {
        first_bad_route(routes, i + 1)
    }
}

/// The message for a rejected route: its path when that is what is wrong,
/// else its blank title.
pub open spec fn route_error(r: RouteSpec) -> Seq<char> {
    if !route_path_ok(r.path@) {
        "route path '"@ + r.path@ + "' must start with / and have no spaces"@
    } else {
        "route '"@ + r.path@ + "' title must not be empty"@
    }
}

/// The first problem among a registration's sidebar items, routes and
/// status items, in that order, or `None` when every entry is acceptable.
pub open spec fn entries_error(
    sidebar: Seq<SidebarItem>,
    routes: Seq<RouteSpec>,
    status: Seq<StatusItem>,
) -> Option<Seq<char>> {
    if exists|i: int| 0 <= i < sidebar.len() && is_blank(#[trigger] sidebar[i].label@) {
        Some("sidebar item label must not be empty"@)
    } else if first_bad_route(routes, 0) < routes.len() {
        Some(route_error(routes[first_bad_route(routes, 0)]))
    } else if exists|i: int| 0 <= i < status.len() && is_blank(#[trigger] status[i].label@) {
        Some("status item label must not be empty"@)
    } else {
        None
    }
}

/// What `validate` reports: the first problem in sidebar, route, status
/// order, or `None` when every entry is acceptable.
pub open spec fn registration_error(r: PluginRegistration) -> Option<Seq<char>> {
    entries_error(r.sidebar@, r.routes@, r.status@)
}

impl Default for PluginRegistration {
    fn default() -> (r: Self)
        ensures
            r.sidebar@.len() == 0,
            r.routes@.len() == 0,
            r.status@.len() == 0,
    {
        PluginRegistration::empty()
    }
}

impl PluginRegistration {
    /// A registration with nothing in it.
    pub fn empty() -> (r: Self)
        ensures
            r.sidebar@.len() == 0,
            r.routes@.len() == 0,
            r.status@.len() == 0,
    {
        PluginRegistration { sidebar: Vec::new(), routes: Vec::new(), status: Vec::new() }
    }

    /// Validate every entry: non-empty labels and route titles, route paths
    /// start with `/` and contain no spaces.
    pub fn validate(&self) -> (r: Result<(), String>)
        ensures
            match registration_error(*self) {
                None => r is Ok,
                Some(msg) => r matches Err(e) && e@ == msg,
            },
    {
        let mut i: usize = 0;
        while i < self.sidebar.len()
            invariant
                i <= self.sidebar.len(),
                forall|j: int| 0 <= j < i ==> !is_blank(#[trigger] self.sidebar@[j].label@),
            decreases self.sidebar.len() - i,
        {
            if blank(self.sidebar[i].label.as_str()) {
                return Err(text_of("sidebar item label must not be empty"));
            }
            i = i + 1;
        }
        let mut i: usize = 0;
        while i < self.routes.len()
            invariant
                i <= self.routes.len(),
                forall|j: int| 0 <= j < i ==> route_ok(#[trigger] self.routes@[j]),
                forall|j: int| 0 <= j < self.sidebar@.len() ==> !is_blank(
                    #[trigger] self.sidebar@[j].label@,
                ),
                first_bad_route(self.routes@, 0) == first_bad_route(self.routes@, i as int),
            decreases self.routes.len() - i,
        {
            let path = self.routes[i].path.as_str();
            let starts = path.unicode_len() > 0 && path.get_char(0) == '/';
            let spaced = has_char(path, ' ');
            assert(starts == (path@.len() > 0 && path@[0] == '/'));
            if !starts || spaced {
                assert(!route_path_ok(self.routes@[i as int].path@));
                assert(first_bad_route(self.routes@, i as int) == i);
                let head = concat("route path '", path);
                let msg = concat(head.as_str(), "' must start with / and have no spaces");
                return Err(msg);
            }
            if blank(self.routes[i].title.as_str()) {
                assert(!route_ok(self.routes@[i as int]));
                assert(first_bad_route(self.routes@, i as int) == i);
                let head = concat("route '", path);
                let msg = concat(head.as_str(), "' title must not be empty");
                return Err(msg);
            }
            i = i + 1;
        }
        let mut i: usize = 0;
        while i < self.status.len()
            invariant
                i <= self.status.len(),
                first_bad_route(self.routes@, 0) == self.routes@.len(),
                forall|j: int| 0 <= j < self.sidebar@.len() ==> !is_blank(
                    #[trigger] self.sidebar@[j].label@,
                ),
                forall|j: int| 0 <= j < i ==> !is_blank(#[trigger] self.status@[j].label@),
            decreases self.status.len() - i,
        {
            if blank(self.status[i].label.as_str()) {
                return Err(text_of("status item label must not be empty"));
            }
            i = i + 1;
        }
        Ok(())
    }
}

/// A kube operation a plugin requests through `openkite.api.*`.
#[derive(Debug, Clone, PartialEq)]
pub enum ApiRequest {
    /// Register a UI contribution (`kind`: `sidebar` | `route` | `status`).
    Register { kind: String, payload: serde_json::Value },
    /// List a resource kind, optionally namespaced (`ns: None` = all).
    List { kind: String, ns: Option<String> },
    /// Fetch one resource.
    Get { kind: String, ns: String, name: String },
    /// Open a watch stream on a kind.
    Watch { kind: String, ns: Option<String> },
    /// Tail/follow container logs.
    Logs { name: String, ns: String, container: Option<String> },
    /// Spawn a command in a container.
    Exec { name: String, ns: String, container: Option<String>, cmd: Vec<String> },
}

/// `parts` joined with single spaces.
pub open spec fn space_joined(parts: Seq<Seq<char>>) -> Seq<char>
    decreases parts.len(),
{
    if parts.len() == 0 {
        Seq::empty()
    } else if parts.len() == 1 {
        parts[0]
    } else {
        space_joined(parts.drop_last()) + " "@ + parts.last()
    }
}

/// The label `describe` gives a request.
pub open spec fn describe_text(r: ApiRequest) -> Seq<char> {
    match r {
        ApiRequest::Register { kind, .. } => "register "@ + kind@,
        ApiRequest::List { kind, .. } => "list "@ + kind@,
        ApiRequest::Get { kind, name, .. } => "get "@ + kind@ + "/"@ + name@,
        ApiRequest::Watch { kind, .. } => "watch "@ + kind@,
        ApiRequest::Logs { name, .. } => "logs "@ + name@,
        ApiRequest::Exec { name, cmd, .. } => "exec "@ + name@ + " "@ + space_joined(
            cmd@.map_values(|s: String| s@),
        ),
    }
}

/// Joins `parts` with single spaces (`[String]::join(" ")`).
pub fn join_with_spaces(parts: &Vec<String>) -> (r: String)
    ensures
        r@ == space_joined(parts@.map_values(|s: String| s@)),
{
    let ghost pv = parts@.map_values(|s: String| s@);
    let mut out = String::new();
    let mut i: usize = 0;
    while i < parts.len()
        invariant
            i <= parts.len(),
            pv == parts@.map_values(|s: String| s@),
            out@ == space_joined(pv.subrange(0, i as int)),
        decreases parts.len() - i,
    {
        proof {
            let next = pv.subrange(0, i + 1);
            assert(next.drop_last() =~= pv.subrange(0, i as int));
            assert(next.last() == parts@[i as int]@);
            if i == 0 {
                assert(next =~= seq![parts@[0]@]);
            }
        }
        if i > 0 {
            out.append(" ");
        }
        out.append(parts[i].as_str());
        proof {
            if i == 0 {
                assert(out@ =~= parts@[0]@);
            }
        }
        i = i + 1;
    }
    assert(pv.subrange(0, i as int) =~= pv);
    out
}

impl ApiRequest {
    /// A short human-readable label for logs/debugging (e.g. `list pods`).
    pub fn describe(&self) -> (r: String)
        ensures
            r@ == describe_text(*self),
    {
        match self {
            ApiRequest::Register { kind, .. } => concat("register ", kind.as_str()),
            ApiRequest::List { kind, .. } => concat("list ", kind.as_str()),
            ApiRequest::Get { kind, name, .. } => {
                let a = concat("get ", kind.as_str());
                let b = concat(a.as_str(), "/");
                concat(b.as_str(), name.as_str())
            },
            ApiRequest::Watch { kind, .. } => concat("watch ", kind.as_str()),
            ApiRequest::Logs { name, .. } => concat("logs ", name.as_str()),
            ApiRequest::Exec { name, cmd, .. } => {
                let a = concat("exec ", name.as_str());
                let b = concat(a.as_str(), " ");
                let c = join_with_spaces(cmd);
                concat(b.as_str(), c.as_str())
            },
        }
    }
}

/// A bridge response: tagged ok/error so the wire format is unambiguous.
#[derive(Debug, Clone, PartialEq)]
pub enum ApiResponse {
    /// Structured payload (JSON of the resource/list).
    Success { result: serde_json::Value },
    /// Human-readable failure.
    Error { error: String },
}

/// Envelope exchanged with the webview: `{id, plugin, request}`.
#[derive(Debug, Clone, PartialEq)]
pub struct BridgeRequest {
    pub id: u64,
    pub plugin: String,
    pub request: ApiRequest,
}

/// Per-plugin registration store, keyed by plugin name (the manifest `name`)
/// and kept in ascending name order.
#[derive(Debug, PartialEq, Eq)]
pub struct RegistrationStore {
    by_plugin: Vec<(String, PluginRegistration)>,
}

impl Default for RegistrationStore {
    fn default() -> (r: Self)
        ensures
            r.wf(),
            r@ == Seq::<(Seq<char>, PluginRegistration)>::empty(),
    {
        RegistrationStore::new()
    }
}

impl Clone for RegistrationStore {
    fn clone(&self) -> (r: Self)
        ensures
            keys_of(r@) == keys_of(self@),
    {
        proof {
            use_type_invariant(self);
        }
        let mut by_plugin: Vec<(String, PluginRegistration)> = Vec::new();
        let mut i: usize = 0;
        while i < self.by_plugin.len()
            invariant
                i <= self.by_plugin@.len(),
                by_plugin@.len() == i,
                keys_sorted(self@),
                forall|k: int| 0 <= k < i ==> #[trigger] by_plugin@[k].0@ == self.by_plugin@[k].0@,
            decreases self.by_plugin@.len() - i,
        {
            let entry = &self.by_plugin[i];
            by_plugin.push((entry.0.clone(), entry.1.clone()));
            i = i + 1;
        }
        proof {
            let v = pairs_view(by_plugin@);
            assert forall|a: int, b: int| 0 <= a < b < v.len() implies lex_lt(
                #[trigger] v[a].0,
                #[trigger] v[b].0,
            ) by {
                assert(v[a].0 == self@[a].0 && v[b].0 == self@[b].0);
            }
            assert(keys_of(v) =~= keys_of(self@));
        }
        RegistrationStore { by_plugin }
    }
}

impl View for RegistrationStore {
    type V = Seq<(Seq<char>, PluginRegistration)>;

    closed spec fn view(&self) -> Seq<(Seq<char>, PluginRegistration)> {
        pairs_view(self.by_plugin@)
    }
}

/// Plugin name → registration, as a map.
pub open spec fn registrations(s: Seq<(Seq<char>, PluginRegistration)>) -> Map<
    Seq<char>,
    PluginRegistration,
> {
    as_map(s)
}

/// The sidebar items of every plugin, in plugin-name order then
/// registration order, each with its plugin's name.
pub open spec fn flat_sidebar(s: Seq<(Seq<char>, PluginRegistration)>) -> Seq<
    (Seq<char>, SidebarItem),
>
    decreases s.len(),
{
    if s.len() == 0 {
        Seq::empty()
    } else {
        flat_sidebar(s.drop_last()) + s.last().1.sidebar@.map_values(
            |it: SidebarItem| (s.last().0, it),
        )
    }
}

/// The routes of every plugin, in plugin-name order then registration order.
pub open spec fn flat_routes(s: Seq<(Seq<char>, PluginRegistration)>) -> Seq<(Seq<char>, RouteSpec)>
    decreases s.len(),
{
    if s.len() == 0 {
        Seq::empty()
    } else {
        flat_routes(s.drop_last()) + s.last().1.routes@.map_values(
            |it: RouteSpec| (s.last().0, it),
        )
    }
}

/// The status items of every plugin, in plugin-name order then
/// registration order.
pub open spec fn flat_status(s: Seq<(Seq<char>, PluginRegistration)>) -> Seq<
    (Seq<char>, StatusItem),
>
    decreases s.len(),
{
    if s.len() == 0 {
        Seq::empty()
    } else {
        flat_status(s.drop_last()) + s.last().1.status@.map_values(
            |it: StatusItem| (s.last().0, it),
        )
    }
}

impl RegistrationStore {
    /// The store's entries are in strictly ascending name order; every store
    /// keeps this.
    #[verifier::type_invariant]
    pub open spec fn wf(&self) -> bool {
        keys_sorted(self@)
    }

    /// An empty store.
    pub fn new() -> (r: Self)
        ensures
            r.wf(),
            r@ == Seq::<(Seq<char>, PluginRegistration)>::empty(),
    {
        let r = RegistrationStore { by_plugin: Vec::new() };
        assert(r@ =~= Seq::<(Seq<char>, PluginRegistration)>::empty());
        r
    }

    /// Insert or replace a plugin's registrations.
    pub fn upsert(&mut self, plugin: &str, registration: PluginRegistration)
        ensures
            final(self).wf(),
            registrations(final(self)@) == registrations(old(self)@).insert(plugin@, registration),
    {
        proof {
            use_type_invariant(&*self);
        }
        let mut entries: Vec<(String, PluginRegistration)> = Vec::new();
        std::mem::swap(&mut entries, &mut self.by_plugin);
        upsert_entry(&mut entries, text_of(plugin), registration);
        self.by_plugin = entries;
    }

    /// Drop a plugin's registrations; whether it had any.
    pub fn remove(&mut self, plugin: &str) -> (r: bool)
        ensures
            final(self).wf(),
            registrations(final(self)@) == registrations(old(self)@).remove(plugin@),
            r == registrations(old(self)@).contains_key(plugin@),
    {
        proof {
            use_type_invariant(&*self);
        }
        let mut entries: Vec<(String, PluginRegistration)> = Vec::new();
        std::mem::swap(&mut entries, &mut self.by_plugin);
        let removed = remove_entry(&mut entries, plugin).is_some();
        self.by_plugin = entries;
        removed
    }

    /// A plugin's registrations, if present.
    pub fn get(&self, plugin: &str) -> (r: Option<&PluginRegistration>)
        ensures
            self.wf(),
            r is Some <==> registrations(self@).contains_key(plugin@),
            r matches Some(v) ==> *v == registrations(self@)[plugin@],
    {
        proof {
            use_type_invariant(self);
        }
        get_entry(&self.by_plugin, plugin)
    }

    /// All registered sidebar items across plugins (for the shell sidebar).
    pub fn all_sidebar_items(&self) -> (r: Vec<(&str, &SidebarItem)>)
        ensures
            r@.map_values(|e: (&str, &SidebarItem)| (e.0@, *e.1)) == flat_sidebar(self@),
    {
        let ghost s = self@;
        let mut out: Vec<(&str, &SidebarItem)> = Vec::new();
        let mut i: usize = 0;
        while i < self.by_plugin.len()
            invariant
                i <= self.by_plugin.len(),
                s == self@,
                out@.map_values(|e: (&str, &SidebarItem)| (e.0@, *e.1)) == flat_sidebar(
                    s.subrange(0, i as int),
                ),
            decreases self.by_plugin.len() - i,
        {
            let name = self.by_plugin[i].0.as_str();
            let items = &self.by_plugin[i].1.sidebar;
            let ghost before = out@.map_values(|e: (&str, &SidebarItem)| (e.0@, *e.1));
            let mut j: usize = 0;
            while j < items.len()
                invariant
                    j <= items.len(),
                    name@ == s[i as int].0,
                    items@ == s[i as int].1.sidebar@,
                    out@.map_values(|e: (&str, &SidebarItem)| (e.0@, *e.1)) == before
                        + items@.subrange(0, j as int).map_values(|it: SidebarItem| (name@, it)),
                decreases items.len() - j,
            {
                let ghost old_out = out@;
                out.push((name, &items[j]));
                proof {
                    let f = |e: (&str, &SidebarItem)| (e.0@, *e.1);
                    let g = |it: SidebarItem| (name@, it);
                    assert(out@.map_values(f) =~= old_out.map_values(f).push((name@, items@[j as int])));
                    assert(items@.subrange(0, j + 1).map_values(g) =~= items@.subrange(0, j as int).map_values(g).push((name@, items@[j as int])));
                    assert(out@.map_values(|e: (&str, &SidebarItem)| (e.0@, *e.1)) =~= before
                        + items@.subrange(0, j + 1).map_values(|it: SidebarItem| (name@, it)));
                }
                j = j + 1;
            }
            proof {
                let next = s.subrange(0, i + 1);
                assert(next.drop_last() =~= s.subrange(0, i as int));
                assert(items@.subrange(0, j as int) =~= items@);
            }
            i = i + 1;
        }
        assert(s.subrange(0, i as int) =~= s);
        out
    }

    /// All registered routes across plugins (for the router).
    pub fn all_routes(&self) -> (r: Vec<(&str, &RouteSpec)>)
        ensures
            r@.map_values(|e: (&str, &RouteSpec)| (e.0@, *e.1)) == flat_routes(self@),
    {
        let ghost s = self@;
        let mut out: Vec<(&str, &RouteSpec)> = Vec::new();
        let mut i: usize = 0;
        while i < self.by_plugin.len()
            invariant
                i <= self.by_plugin.len(),
                s == self@,
                out@.map_values(|e: (&str, &RouteSpec)| (e.0@, *e.1)) == flat_routes(
                    s.subrange(0, i as int),
                ),
            decreases self.by_plugin.len() - i,
        {
            let name = self.by_plugin[i].0.as_str();
            let items = &self.by_plugin[i].1.routes;
            let ghost before = out@.map_values(|e: (&str, &RouteSpec)| (e.0@, *e.1));
            let mut j: usize = 0;
            while j < items.len()
                invariant
                    j <= items.len(),
                    name@ == s[i as int].0,
                    items@ == s[i as int].1.routes@,
                    out@.map_values(|e: (&str, &RouteSpec)| (e.0@, *e.1)) == before
                        + items@.subrange(0, j as int).map_values(|it: RouteSpec| (name@, it)),
                decreases items.len() - j,
            {
                let ghost old_out = out@;
                out.push((name, &items[j]));
                proof {
                    let f = |e: (&str, &RouteSpec)| (e.0@, *e.1);
                    let g = |it: RouteSpec| (name@, it);
                    assert(out@.map_values(f) =~= old_out.map_values(f).push((name@, items@[j as int])));
                    assert(items@.subrange(0, j + 1).map_values(g) =~= items@.subrange(0, j as int).map_values(g).push((name@, items@[j as int])));
                    assert(out@.map_values(|e: (&str, &RouteSpec)| (e.0@, *e.1)) =~= before
                        + items@.subrange(0, j + 1).map_values(|it: RouteSpec| (name@, it)));
                }
                j = j + 1;
            }
            proof {
                let next = s.subrange(0, i + 1);
                assert(next.drop_last() =~= s.subrange(0, i as int));
                assert(items@.subrange(0, j as int) =~= items@);
            }
            i = i + 1;
        }
        assert(s.subrange(0, i as int) =~= s);
        out
    }

    /// Number of plugins with registrations.
    pub fn len(&self) -> (r: usize)
        ensures
            r == self@.len(),
    {
        self.by_plugin.len()
    }

    /// Whether no plugin has registrations.
    pub fn is_empty(&self) -> (r: bool)
        ensures
            r == (self@.len() == 0),
    {
        self.by_plugin.len() == 0
    }

    /// Plugin names with registrations, sorted (stable iteration order).
    pub fn plugins(&self) -> (r: Vec<String>)
        ensures
            r@.map_values(|s: String| s@) == keys_of(self@),
    {
        entry_keys(&self.by_plugin)
    }

    /// All registered status items across plugins (for the status bar).
    pub fn all_status_items(&self) -> (r: Vec<(&str, &StatusItem)>)
        ensures
            r@.map_values(|e: (&str, &StatusItem)| (e.0@, *e.1)) == flat_status(self@),
    {
        let ghost s = self@;
        let mut out: Vec<(&str, &StatusItem)> = Vec::new();
        let mut i: usize = 0;
        while i < self.by_plugin.len()
            invariant
                i <= self.by_plugin.len(),
                s == self@,
                out@.map_values(|e: (&str, &StatusItem)| (e.0@, *e.1)) == flat_status(
                    s.subrange(0, i as int),
                ),
            decreases self.by_plugin.len() - i,
        {
            let name = self.by_plugin[i].0.as_str();
            let items = &self.by_plugin[i].1.status;
            let ghost before = out@.map_values(|e: (&str, &StatusItem)| (e.0@, *e.1));
            let mut j: usize = 0;
            while j < items.len()
                invariant
                    j <= items.len(),
                    name@ == s[i as int].0,
                    items@ == s[i as int].1.status@,
                    out@.map_values(|e: (&str, &StatusItem)| (e.0@, *e.1)) == before
                        + items@.subrange(0, j as int).map_values(|it: StatusItem| (name@, it)),
                decreases items.len() - j,
            {
                let ghost old_out = out@;
                out.push((name, &items[j]));
                proof {
                    let f = |e: (&str, &StatusItem)| (e.0@, *e.1);
                    let g = |it: StatusItem| (name@, it);
                    assert(out@.map_values(f) =~= old_out.map_values(f).push((name@, items@[j as int])));
                    assert(items@.subrange(0, j + 1).map_values(g) =~= items@.subrange(0, j as int).map_values(g).push((name@, items@[j as int])));
                    assert(out@.map_values(|e: (&str, &StatusItem)| (e.0@, *e.1)) =~= before
                        + items@.subrange(0, j + 1).map_values(|it: StatusItem| (name@, it)));
                }
                j = j + 1;
            }
            proof {
                let next = s.subrange(0, i + 1);
                assert(next.drop_last() =~= s.subrange(0, i as int));
                assert(items@.subrange(0, j as int) =~= items@);
            }
            i = i + 1;
        }
        assert(s.subrange(0, i as int) =~= s);
        out
    }
}

/// The injected bootstrap: defines `window.openkite` (register* + api.*) with
/// promise plumbing over same-origin `fetch` POSTs to the `/openkite` asset
/// handler. The host sets `window.__openkite_plugin` to the evaluating
/// plugin's manifest name before each bundle, then evaluates the bundle
/// (hot reload = re-evaluate).
pub const OPENKITE_BRIDGE_JS: &'static str = r##"(() => {
  if (window.openkite) return;
  let nextId = 1;
  const plugin = () => window.__openkite_plugin || "unknown";
  async function call(request) {
    const id = nextId++;
    const res = await fetch("/openkite", {
      method: "POST",
      headers: { "Content-Type": "application/json" },
      body: JSON.stringify({ id, plugin: plugin(), request })
    });
    if (!res.ok) throw new Error("bridge HTTP " + res.status);
    const body = await res.json();
    if (body.status === "error") throw new Error(body.error);
    return body.result;
  }
  function register(kind, payload) {
    call({ op: "register", kind, payload }).catch((err) =>
      console.warn("openkite register " + kind + " failed:", err)
    );
  }
  window.openkite = {
    registerSidebar: (item) => register("sidebar", item),
    registerRoute: (route) => register("route", route),
    registerStatusItem: (item) => register("status", item),
    api: {
      list: (kind, ns) => call({ op: "list", kind, ns: ns || null }),
      get: (kind, ns, name) => call({ op: "get", kind, ns, name }),
      watch: (kind, ns) => call({ op: "watch", kind, ns: ns || null }),
      logs: (name, ns, container) => call({ op: "logs", name, ns, container: container || null }),
      exec: (name, ns, container, cmd) => call({ op: "exec", name, ns, container: container || null, cmd })
    }
  };
})();
"##;

/// The store answers a lookup with the registration last written for that
/// plugin, forgets a plugin once removed, and leaves other plugins alone.
pub proof fn law_store_reads_back_what_was_written(
    s: Seq<(Seq<char>, PluginRegistration)>,
    plugin: Seq<char>,
    registration: PluginRegistration,
    other: Seq<char>,
)
    ensures
        registrations(s).insert(plugin, registration)[plugin] == registration,
        !registrations(s).remove(plugin).contains_key(plugin),
        other != plugin ==> registrations(s).insert(plugin, registration).contains_key(other)
            == registrations(s).contains_key(other),
        other != plugin ==> registrations(s).remove(plugin).contains_key(other)
            == registrations(s).contains_key(other),
{
}

} // verus!
