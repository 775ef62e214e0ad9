//! App shell model: the unified sidebar (core sections followed by plugin
//! registrations), the cluster/namespace selection state, and the
//! status-bar model.

use vstd::prelude::*;

use crate::keyed::{as_map, keys_of, lemma_as_map};
use crate::plugin_api::{
    flat_status, registrations, RegistrationStore, SidebarItem, StatusItem,
};
use crate::text::{concat, text_eq, text_of};

verus! {

/// An optional text by its characters.
pub open spec fn opt_text(o: Option<String>) -> Option<Seq<char>> {
    match o {
        Some(s) => Some(s@),
        None => None,
    }
}

/// A sidebar entry: core nav or plugin-registered.
#[derive(Debug, Clone, PartialEq, Eq)]
pub struct ShellNavItem {
    pub label: String,
    pub route: String,
    /// Plugin that contributed this item (`None` = core).
    pub plugin: Option<String>,
}

impl View for ShellNavItem {
    type V = (Seq<char>, Seq<char>, Option<Seq<char>>);

    open spec fn view(&self) -> (Seq<char>, Seq<char>, Option<Seq<char>>) {
        (self.label@, self.route@, opt_text(self.plugin))
    }
}

/// A sidebar section: core (built-in) or one per plugin.
#[derive(Debug, Clone, PartialEq, Eq)]
pub struct ShellSection {
    pub label: String,
    pub items: Vec<ShellNavItem>,
}

impl View for ShellSection {
    type V = (Seq<char>, Seq<(Seq<char>, Seq<char>, Option<Seq<char>>)>);

    open spec fn view(&self) -> (Seq<char>, Seq<(Seq<char>, Seq<char>, Option<Seq<char>>)>) {
        (self.label@, self.items@.map_values(|i: ShellNavItem| i@))
    }
}

/// The sections a list of sections shows.
pub open spec fn sections_view(s: Seq<ShellSection>) -> Seq<
    (Seq<char>, Seq<(Seq<char>, Seq<char>, Option<Seq<char>>)>),
> {
    s.map_values(|x: ShellSection| x@)
}

/// The core sidebar: one "Overview" section with Cluster, Workloads, Config.
pub open spec fn core_sections_view() -> Seq<
    (Seq<char>, Seq<(Seq<char>, Seq<char>, Option<Seq<char>>)>),
> {
    seq![
        (
            "Overview"@,
            seq![
                ("Cluster"@, "/cluster"@, None),
                ("Workloads"@, "/workloads"@, None),
                ("Config"@, "/config"@, None),
            ],
        ),
    ]
}

fn core_item(label: &str, route: &str) -> (r: ShellNavItem)
    ensures
        r@ == (label@, route@, None::<Seq<char>>),
{
    ShellNavItem { label: text_of(label), route: text_of(route), plugin: None }
}

/// Core sidebar sections (the shell's own navigation).
pub fn core_sections() -> (r: Vec<ShellSection>)
    ensures
        sections_view(r@) == core_sections_view(),
{
    let mut items: Vec<ShellNavItem> = Vec::new();
    items.push(core_item("Cluster", "/cluster"));
    items.push(core_item("Workloads", "/workloads"));
    items.push(core_item("Config", "/config"));
    let mut r: Vec<ShellSection> = Vec::new();
    r.push(ShellSection { label: text_of("Overview"), items });
    assert(sections_view(r@) =~= core_sections_view()) by {
        assert(r@[0].items@.map_values(|i: ShellNavItem| i@) =~= core_sections_view()[0].1);
    }
    r
}

/// The nav items a plugin's sidebar registrations become.
pub open spec fn plugin_items(plugin: Seq<char>, items: Seq<SidebarItem>) -> Seq<
    (Seq<char>, Seq<char>, Option<Seq<char>>),
> {
    items.map_values(|it: SidebarItem| (it.label@, it.route@, Some(plugin)))
}

/// One section per plugin with sidebar items, in plugin-name order.
pub open spec fn plugin_sections(
    s: Seq<(Seq<char>, crate::plugin_api::PluginRegistration)>,
) -> Seq<(Seq<char>, Seq<(Seq<char>, Seq<char>, Option<Seq<char>>)>)>
    decreases s.len(),
{
    if s.len() == 0 {
        Seq::empty()
    } else {
        let rest = plugin_sections(s.drop_last());
        let (name, reg) = s.last();
        if reg.sidebar@.len() == 0 {
            rest
        } else {
            rest.push((name, plugin_items(name, reg.sidebar@)))
        }
    }
}

/// The ordered sidebar model: core sections, then one section per plugin
/// that registered sidebar items (plugin-name order, entries in
/// registration order). Plugins without sidebar items contribute no section.
pub fn sidebar_model(store: &RegistrationStore) -> (r: Vec<ShellSection>)
    ensures
        sections_view(r@) == core_sections_view() + plugin_sections(store@),
{
    proof {
        use_type_invariant(store);
    }
    let mut sections = core_sections();
    let plugins = store.plugins();
    let ghost s = store@;
    proof {
        lemma_as_map(s);
        assert(plugins@.map_values(|x: String| x@).len() == plugins@.len());
        assert(sections_view(sections@) =~= core_sections_view() + plugin_sections(
            s.subrange(0, 0),
        ));
    }
    let mut i: usize = 0;
    while i < plugins.len()
        invariant
            store.wf(),
            s == store@,
            plugins@.map_values(|x: String| x@) == keys_of(s),
            plugins@.len() == s.len(),
            i <= plugins.len(),
            forall|k: int| 0 <= k < s.len() ==> #[trigger] as_map(s)[s[k].0] == s[k].1,
            sections_view(sections@) == core_sections_view() + plugin_sections(
                s.subrange(0, i as int),
            ),
        decreases plugins.len() - i,
    {
        let plugin = &plugins[i];
        let ghost name = plugin@;
        proof {
            assert(keys_of(s)[i as int] == s[i as int].0);
            assert(plugins@.map_values(|x: String| x@)[i as int] == plugin@);
            assert(s[i as int].0 == name);
            assert(as_map(s).contains_key(name)) by {
                crate::keyed::lemma_as_map_domain(s);
            }
        }
        let reg = store.get(plugin.as_str());
        let mut items: Vec<ShellNavItem> = Vec::new();
        match reg {
            Some(reg) => {
                assert(*reg == s[i as int].1);
                let mut j: usize = 0;
                while j < reg.sidebar.len()
                    invariant
                        j <= reg.sidebar.len(),
                        items@.map_values(|x: ShellNavItem| x@) == plugin_items(
                            name,
                            reg.sidebar@.subrange(0, j as int),
                        ),
                        plugin@ == name,
                    decreases reg.sidebar.len() - j,
                {
                    let item = &reg.sidebar[j];
                    let ghost old_items = items@;
                    items.push(
                        ShellNavItem {
                            label: item.label.clone(),
                            route: item.route.clone(),
                            plugin: Some(plugin.clone()),
                        },
                    );
                    proof {
                        let e = (item.label@, item.route@, Some(name));
                        assert(items@.map_values(|x: ShellNavItem| x@) =~= old_items.map_values(
                            |x: ShellNavItem| x@,
                        ).push(e));
                        assert(plugin_items(name, reg.sidebar@.subrange(0, j + 1)) =~= plugin_items(
                            name,
                            reg.sidebar@.subrange(0, j as int),
                        ).push(e));
                    }
                    j = j + 1;
                }
                assert(reg.sidebar@.subrange(0, j as int) =~= reg.sidebar@);
            },
            None => {},
        }
        proof {
            let next = s.subrange(0, i + 1);
            assert(next.drop_last() =~= s.subrange(0, i as int));
            assert(next.last() == s[i as int]);
        }
        if items.len() > 0 {
            let ghost before = sections@;
            sections.push(ShellSection { label: plugin.clone(), items });
            proof {
                assert(sections_view(sections@) =~= sections_view(before).push(sections@.last()@));
            }
        }
        i = i + 1;
    }
    proof {
        assert(s.subrange(0, i as int) =~= s);
    }
    sections
}

/// Cluster/namespace selection + connection state (top bar + status bar).
#[derive(Debug, Clone, PartialEq, Eq)]
pub struct ShellState {
    /// Connected cluster context name (`None` = no cluster selected).
    pub cluster: Option<String>,
    /// Currently selected namespace (defaults to `"default"`).
    pub namespace: String,
    /// Whether a kube client is connected.
    pub connected: bool,
}

impl Default for ShellState {
    fn default() -> (r: Self)
        ensures
            r.cluster is None,
            r.namespace@ == "default"@,
            !r.connected,
    {
        ShellState { cluster: None, namespace: text_of("default"), connected: false }
    }
}

/// The cluster slot's text: the context name or `"no cluster"`.
pub open spec fn cluster_label_text(cluster: Option<String>) -> Seq<char> {
    match cluster {
        Some(c) => c@,
        None => "no cluster"@,
    }
}

/// The connection pill's text.
pub open spec fn status_label_text(connected: bool) -> Seq<char> {
    if connected {
        "Connected"@
    } else {
        "Disconnected"@
    }
}

impl ShellState {
    /// Label for the cluster slot: context name or a muted fallback.
    pub fn cluster_label(&self) -> (r: String)
        ensures
            r@ == cluster_label_text(self.cluster),
    {
        match &self.cluster {
            Some(c) => c.clone(),
            None => text_of("no cluster"),
        }
    }

    /// Connection pill text.
    pub fn status_label(&self) -> (r: &'static str)
        ensures
            r@ == status_label_text(self.connected),
    {
        if self.connected {
            "Connected"
        } else {
            "Disconnected"
        }
    }

    /// Clamp the selected namespace to the available list: if the current
    /// selection is missing (cluster switched), fall back to `"default"`.
    /// Returns the effective namespace.
    pub fn ensure_namespace(&mut self, namespaces: &[String]) -> (r: String)
        ensures
            final(self).cluster == old(self).cluster,
            final(self).connected == old(self).connected,
            final(self).namespace@ == (if namespaces@.map_values(|s: String| s@).contains(
                old(self).namespace@,
            ) {
                old(self).namespace@
            } else {
                "default"@
            }),
            r@ == final(self).namespace@,
    {
        let ghost nv = namespaces@.map_values(|s: String| s@);
        let mut i: usize = 0;
        while i < namespaces.len()
            invariant
                i <= namespaces.len(),
                nv == namespaces@.map_values(|s: String| s@),
                forall|k: int| 0 <= k < i ==> nv[k] != self.namespace@,
            decreases namespaces.len() - i,
        {
            if text_eq(namespaces[i].as_str(), self.namespace.as_str()) {
                proof {
                    assert(nv[i as int] == self.namespace@);
                }
                return self.namespace.clone();
            }
            i = i + 1;
        }
        self.namespace = text_of("default");
        self.namespace.clone()
    }
}

/// One status-bar slot: core (`cluster`/`connection`/`version`) or a plugin
/// status item (label + color).
#[derive(Debug, Clone, PartialEq, Eq)]
pub struct StatusBarEntry {
    pub label: String,
    pub color: Option<String>,
    pub plugin: Option<String>,
}

impl View for StatusBarEntry {
    type V = (Seq<char>, Option<Seq<char>>, Option<Seq<char>>);

    open spec fn view(&self) -> (Seq<char>, Option<Seq<char>>, Option<Seq<char>>) {
        (self.label@, opt_text(self.color), opt_text(self.plugin))
    }
}

/// The plugin status items as status-bar slots.
pub open spec fn plugin_status_entries(
    s: Seq<(Seq<char>, crate::plugin_api::PluginRegistration)>,
) -> Seq<(Seq<char>, Option<Seq<char>>, Option<Seq<char>>)> {
    flat_status(s).map_values(|e: (Seq<char>, StatusItem)| status_entry(e))
}

/// A plugin status item as a status-bar slot.
pub open spec fn status_entry(e: (Seq<char>, StatusItem)) -> (
    Seq<char>,
    Option<Seq<char>>,
    Option<Seq<char>>,
) {
    (e.1.label@, Some(e.1.color@), Some(e.0))
}

/// The status bar: `"<cluster> · <connection>"` (green when connected, red
/// otherwise), `"v<version>"`, then every plugin status item.
pub open spec fn status_bar_view(
    connected: bool,
    cluster: Option<String>,
    version: Seq<char>,
    s: Seq<(Seq<char>, crate::plugin_api::PluginRegistration)>,
) -> Seq<(Seq<char>, Option<Seq<char>>, Option<Seq<char>>)> {
    seq![
        (
            cluster_label_text(cluster) + " · "@ + status_label_text(connected),
            Some(if connected { "green"@ } else { "red"@ }),
            None,
        ),
        ("v"@ + version, None, None),
    ] + plugin_status_entries(s)
}

/// The status-bar model: cluster, connection, version, then plugin status
/// items in plugin order.
pub fn status_bar_model(state: &ShellState, store: &RegistrationStore, version: &str) -> (r: Vec<
    StatusBarEntry,
>)
    ensures
        r@.map_values(|e: StatusBarEntry| e@) == status_bar_view(
            state.connected,
            state.cluster,
            version@,
            store@,
        ),
{
    let cluster = state.cluster_label();
    let head = concat(cluster.as_str(), " · ");
    let label = concat(head.as_str(), state.status_label());
    let color = if state.connected {
        text_of("green")
    } else {
        text_of("red")
    };
    let mut entries: Vec<StatusBarEntry> = Vec::new();
    entries.push(StatusBarEntry { label, color: Some(color), plugin: None });
    entries.push(StatusBarEntry { label: concat("v", version), color: None, plugin: None });
    let items = store.all_status_items();
    let ghost fs = flat_status(store@);
    let ghost core = entries@.map_values(|e: StatusBarEntry| e@);
    let mut i: usize = 0;
    while i < items.len()
        invariant
            i <= items.len(),
            items@.map_values(|e: (&str, &StatusItem)| (e.0@, *e.1)) == fs,
            entries@.map_values(|e: StatusBarEntry| e@) == core + fs.subrange(0, i as int).map_values(|e: (Seq<char>, StatusItem)| status_entry(e)),
        decreases items.len() - i,
    {
        let (plugin, item) = items[i];
        proof {
            assert(fs[i as int] == (plugin@, *item));
        }
        let ghost before = entries@;
        entries.push(
            StatusBarEntry {
                label: item.label.clone(),
                color: Some(item.color.clone()),
                plugin: Some(text_of(plugin)),
            },
        );
        proof {
            let e = (item.label@, Some(item.color@), Some(plugin@));
            assert(status_entry(fs[i as int]) == e);
            assert(entries@.map_values(|e: StatusBarEntry| e@) =~= before.map_values(
                |e: StatusBarEntry| e@,
            ).push(e));
            assert(fs.subrange(0, i + 1).map_values(|e: (Seq<char>, StatusItem)| status_entry(e))
                =~= fs.subrange(0, i as int).map_values(
                |e: (Seq<char>, StatusItem)| status_entry(e),
            ).push(e));
        }
        i = i + 1;
    }
    proof {
        assert(fs.subrange(0, i as int) =~= fs);
        assert(core =~= seq![
            (
                cluster_label_text(state.cluster) + " · "@ + status_label_text(state.connected),
                Some(if state.connected { "green"@ } else { "red"@ }),
                None,
            ),
            ("v"@ + version@, None, None),
        ]);
    }
    entries
}

/// Convenience: convert a plugin [`SidebarItem`] for a [`ShellNavItem`]
/// (used by views and tests alike).
pub fn nav_item_from_plugin(plugin: &str, item: &SidebarItem) -> (r: ShellNavItem)
    ensures
        r@ == (item.label@, item.route@, Some(plugin@)),
{
    ShellNavItem {
        label: item.label.clone(),
        route: item.route.clone(),
        plugin: Some(text_of(plugin)),
    }
}

/// Convenience: status items contributed by a plugin.
pub fn status_items_of<'a>(store: &'a RegistrationStore, plugin: &str) -> (r: Vec<&'a StatusItem>)
    ensures
        r@.map_values(|x: &StatusItem| *x) == (if registrations(store@).contains_key(plugin@) {
            registrations(store@)[plugin@].status@
        } else {
            Seq::empty()
        }),
{
    let mut r: Vec<&'a StatusItem> = Vec::new();
    match store.get(plugin) {
        Some(reg) => {
            let mut i: usize = 0;
            while i < reg.status.len()
                invariant
                    i <= reg.status.len(),
                    r@.map_values(|x: &StatusItem| *x) == reg.status@.subrange(0, i as int),
                decreases reg.status.len() - i,
            {
                let ghost old_r = r@;
                r.push(&reg.status[i]);
                proof {
                    assert(r@.map_values(|x: &StatusItem| *x) =~= old_r.map_values(
                        |x: &StatusItem| *x,
                    ).push(reg.status@[i as int]));
                    assert(r@.map_values(|x: &StatusItem| *x) =~= reg.status@.subrange(0, i + 1));
                }
                i = i + 1;
            }
            assert(reg.status@.subrange(0, i as int) =~= reg.status@);
        },
        None => {
            assert(r@.map_values(|x: &StatusItem| *x) =~= Seq::<StatusItem>::empty());
        },
    }
    r
}

} // verus!
