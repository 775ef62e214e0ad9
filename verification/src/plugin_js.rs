//! JS plugin host model: manifest validation, the hot-reload diff, and the
//! registry of discovered plugins. Scanning the plugins directory and
//! watching it for changes are the host's job; this module decides what the
//! scan results mean.

use vstd::prelude::*;

use crate::config::{plugin_enabled, OpenKiteConfig};
use crate::keyed::{
    as_map, entry_keys, get_entry, keys_of, keys_sorted, lemma_as_map, lemma_as_map_domain,
    pairs_view, remove_entry, upsert_entry,
};
use crate::text::{
    blank, compare_text, concat, ends_with_chars, chars_of, is_blank, is_suffix, lex_lt, text_eq,
    text_of, Order,
};

verus! {

/// A sidebar item declared in the manifest.
#[derive(Debug, Clone, PartialEq, Eq)]
pub struct SidebarEntry {
    pub label: String,
    pub icon: String,
    pub route: String,
}

/// The manifest file a JS plugin ships in its directory: the contract it
/// must declare.
#[derive(Debug, Clone, PartialEq, Eq)]
pub struct PluginManifest {
    /// Unique, filesystem-safe id (`[a-zA-Z0-9-_]`). Also the plugin dir name.
    pub name: String,
    /// Semver string, e.g. `"0.1.0"`.
    pub version: String,
    /// JS entry point, relative to the plugin dir (must end in `.js`).
    pub entry: String,
    pub description: String,
    pub author: String,
    /// Statically-declared sidebar entries.
    pub sidebar: Vec<SidebarEntry>,
}

/// The sidebar entries of a manifest, by their texts.
pub open spec fn sidebar_entries_view(s: Seq<SidebarEntry>) -> Seq<(Seq<char>, Seq<char>, Seq<char>)> {
    s.map_values(|e: SidebarEntry| (e.label@, e.icon@, e.route@))
}

impl View for PluginManifest {
    type V = (Seq<char>, Seq<char>, Seq<char>, Seq<char>, Seq<char>, Seq<(Seq<char>, Seq<char>, Seq<char>)>);

    open spec fn view(&self) -> Self::V {
        (
            self.name@,
            self.version@,
            self.entry@,
            self.description@,
            self.author@,
            sidebar_entries_view(self.sidebar@),
        )
    }
}

/// Field-by-field equality of two manifests (what the derived `==` compares).
pub fn manifest_eq(a: &PluginManifest, b: &PluginManifest) -> (r: bool)
    ensures
        r == (a@ == b@),
{
    if !text_eq(a.name.as_str(), b.name.as_str()) || !text_eq(a.version.as_str(), b.version.as_str())
        || !text_eq(a.entry.as_str(), b.entry.as_str()) || !text_eq(
        a.description.as_str(),
        b.description.as_str(),
    ) || !text_eq(a.author.as_str(), b.author.as_str()) {
        return false;
    }
    if a.sidebar.len() != b.sidebar.len() {
        assert(sidebar_entries_view(a.sidebar@).len() != sidebar_entries_view(b.sidebar@).len());
        return false;
    }
    let mut i: usize = 0;
    while i < a.sidebar.len()
        invariant
            i <= a.sidebar.len(),
            a.sidebar.len() == b.sidebar.len(),
            forall|k: int| 0 <= k < i ==> sidebar_entries_view(a.sidebar@)[k]
                == sidebar_entries_view(b.sidebar@)[k],
        decreases a.sidebar.len() - i,
    {
        let x = &a.sidebar[i];
        let y = &b.sidebar[i];
        if !text_eq(x.label.as_str(), y.label.as_str()) || !text_eq(x.icon.as_str(), y.icon.as_str())
            || !text_eq(x.route.as_str(), y.route.as_str()) {
            assert(sidebar_entries_view(a.sidebar@)[i as int] != sidebar_entries_view(
                b.sidebar@,
            )[i as int]);
            return false;
        }
        i = i + 1;
    }
    assert(sidebar_entries_view(a.sidebar@) =~= sidebar_entries_view(b.sidebar@));
    true
}

/// An ASCII letter or digit.
pub open spec fn is_ascii_alnum(c: char) -> bool {
    ('a' <= c && c <= 'z') || ('A' <= c && c <= 'Z') || ('0' <= c && c <= '9')
}

/// A character a plugin name may hold: `[a-zA-Z0-9-_]`.
pub open spec fn name_char_ok(c: char) -> bool {
    is_ascii_alnum(c) || c == '-' || c == '_'
}

/// A path separator the entry check splits on.
pub open spec fn is_separator(c: char) -> bool {
    c == '/' || c == '\\'
}

/// The entry has a `..` component between separators.
pub open spec fn has_parent_component(s: Seq<char>) -> bool {
    exists|i: int|
        0 <= i && i + 2 <= s.len() && #[trigger] s[i] == '.' && s[i + 1] == '.' && (i == 0
            || is_separator(s[i - 1])) && (i + 2 == s.len() || is_separator(s[i + 2]))
}

/// The first problem `validate` reports, given whether the platform deems
/// the entry path absolute; `None` when the manifest is acceptable.
pub open spec fn manifest_error(m: PluginManifest, entry_is_absolute: bool) -> Option<Seq<char>> {
    if is_blank(m.name@) {
        Some("name must not be empty"@)
    } else if !(forall|i: int| 0 <= i < m.name@.len() ==> name_char_ok(#[trigger] m.name@[i])) {
        Some("name '"@ + m.name@ + "' may only contain [a-zA-Z0-9-_]"@)
    } else if is_blank(m.version@) {
        Some("version must not be empty"@)
    } else if is_blank(m.entry@) {
        Some("entry must not be empty"@)
    } else if !is_suffix(".js"@, m.entry@) {
        Some("entry '"@ + m.entry@ + "' must be a .js file"@)
    } else if entry_is_absolute || has_parent_component(m.entry@) {
        Some("entry '"@ + m.entry@ + "' must be relative and inside the plugin dir"@)
    } else {
        None
    }
}

/// The `Result` a manifest error becomes.
pub open spec fn as_result(e: Option<Seq<char>>, r: Result<(), String>) -> bool {
    match e {
        None => r is Ok,
        Some(msg) => r matches Err(x) && x@ == msg,
    }
}

fn name_chars_ok(s: &str) -> (r: bool)
    ensures
        r == forall|i: int| 0 <= i < s@.len() ==> name_char_ok(#[trigger] s@[i]),
{
    let v = chars_of(s);
    let mut i: usize = 0;
    while i < v.len()
        invariant
            v@ == s@,
            i <= v.len(),
            forall|j: int| 0 <= j < i ==> name_char_ok(#[trigger] v@[j]),
        decreases v.len() - i,
    {
        let c = v[i];
        let ok = ('a' <= c && c <= 'z') || ('A' <= c && c <= 'Z') || ('0' <= c && c <= '9') || c
            == '-' || c == '_';
        if !ok {
            assert(!name_char_ok(s@[i as int]));
            return false;
        }
        i = i + 1;
    }
    true
}

fn parent_component(s: &str) -> (r: bool)
    ensures
        r == has_parent_component(s@),
{
    let v = chars_of(s);
    let n = v.len();
    let mut i: usize = 0;
    while n >= 2 && i <= n - 2
        invariant
            v@ == s@,
            n == v.len(),
            forall|j: int|
                0 <= j < i ==> !(j + 2 <= n && #[trigger] v@[j] == '.' && v@[j + 1] == '.' && (j == 0
                    || is_separator(v@[j - 1])) && (j + 2 == n || is_separator(v@[j + 2]))),
        decreases n - i,
    {
        let before_ok = i == 0 || v[i - 1] == '/' || v[i - 1] == '\\';
        let after_ok = i + 2 == n || v[i + 2] == '/' || v[i + 2] == '\\';
        if v[i] == '.' && v[i + 1] == '.' && before_ok && after_ok {
            return true;
        }
        i = i + 1;
    }
    proof {
        assert forall|j: int|
            !(0 <= j && j + 2 <= s@.len() && #[trigger] s@[j] == '.' && s@[j + 1] == '.' && (j
                == 0 || is_separator(s@[j - 1])) && (j + 2 == s@.len() || is_separator(
                s@[j + 2],
            ))) by {
            if 0 <= j && j < i {
            }
        }
    }
    false
}

/// A path that no platform deems absolute: empty, or neither starting with a
/// separator (`/` or a backslash) nor holding a drive or prefix colon.
pub open spec fn plainly_relative(p: Seq<char>) -> bool {
    p.len() == 0 || (p[0] != '/' && p[0] != '\\' && !p.contains(':'))
}

/// Whether the platform deems `path` absolute (std's `Path::is_absolute`).
/// Trusted: std documents an absolute path as one that starts with the root
/// (Unix) or has a prefix and starts with the root (Windows), so a path that
/// starts with no separator and holds no prefix colon is not absolute
/// anywhere. Other answers depend on the platform and are not stated.
#[verifier::external_body]
fn path_is_absolute(path: &str) -> (r: bool)
    ensures
        plainly_relative(path@) ==> !r,
{
    std::path::Path::new(path).is_absolute()
}

impl PluginManifest {
    /// Validate the fields the host depends on, given whether the platform
    /// deems the entry path absolute.
    pub fn validate_with(&self, entry_is_absolute: bool) -> (r: Result<(), String>)
        ensures
            as_result(manifest_error(*self, entry_is_absolute), r),
    {
        if blank(self.name.as_str()) {
            return Err(text_of("name must not be empty"));
        }
        if !name_chars_ok(self.name.as_str()) {
            let a = concat("name '", self.name.as_str());
            return Err(concat(a.as_str(), "' may only contain [a-zA-Z0-9-_]"));
        }
        if blank(self.version.as_str()) {
            return Err(text_of("version must not be empty"));
        }
        if blank(self.entry.as_str()) {
            return Err(text_of("entry must not be empty"));
        }
        let js = chars_of(".js");
        if !ends_with_chars(&chars_of(self.entry.as_str()), &js) {
            let a = concat("entry '", self.entry.as_str());
            return Err(concat(a.as_str(), "' must be a .js file"));
        }
        if entry_is_absolute || parent_component(self.entry.as_str()) {
            let a = concat("entry '", self.entry.as_str());
            return Err(concat(a.as_str(), "' must be relative and inside the plugin dir"));
        }
        Ok(())
    }

    /// Validate the fields the host depends on before loading.
    pub fn validate(&self) -> (r: Result<(), String>)
        ensures
            as_result(manifest_error(*self, true), r) || as_result(manifest_error(*self, false), r),
            manifest_error(*self, true) == manifest_error(*self, false) ==> as_result(
                manifest_error(*self, false),
                r,
            ),
            plainly_relative(self.entry@) ==> as_result(manifest_error(*self, false), r),
    {
        let absolute = path_is_absolute(self.entry.as_str());
        self.validate_with(absolute)
    }
}

/// What happened to a plugin — the unit of the hot-reload diff.
#[derive(Debug, Clone, Copy, PartialEq, Eq, Structural)]
pub enum PluginAction {
    Added,
    Removed,
    Changed,
}

/// A single plugin lifecycle change.
#[derive(Debug, Clone, PartialEq, Eq)]
pub struct PluginChange {
    pub name: String,
    pub action: PluginAction,
}

impl View for PluginChange {
    type V = (Seq<char>, PluginAction);

    open spec fn view(&self) -> (Seq<char>, PluginAction) {
        (self.name@, self.action)
    }
}

/// A list of changes by their views.
pub open spec fn changes_view(s: Seq<PluginChange>) -> Seq<(Seq<char>, PluginAction)> {
    s.map_values(|c: PluginChange| c@)
}

/// The last action recorded per plugin in a burst of changes.
pub open spec fn last_actions(s: Seq<(Seq<char>, PluginAction)>) -> Map<Seq<char>, PluginAction>
    decreases s.len(),
{
    if s.len() == 0 {
        Map::empty()
    } else {
        last_actions(s.drop_last()).insert(s.last().0, s.last().1)
    }
}

fn changes_from_entries(entries: Vec<(String, PluginAction)>) -> (r: Vec<PluginChange>)
    ensures
        changes_view(r@) == pairs_view(entries@),
{
    let ghost pv = pairs_view(entries@);
    let mut rest = entries;
    let total = rest.len();
    assert(total == pv.len());
    let mut out: Vec<PluginChange> = Vec::new();
    let mut k: usize = 0;
    while rest.len() > 0
        invariant
            k + rest.len() == pv.len(),
            pv.len() <= usize::MAX,
            pairs_view(rest@) == pv.subrange(k as int, pv.len() as int),
            changes_view(out@) == pv.subrange(0, k as int),
        decreases rest.len(),
    {
        let ghost rv = rest@;
        let (name, action) = rest.remove(0);
        proof {
            assert(pairs_view(rv)[0] == (name@, action));
            assert(pairs_view(rest@) =~= pairs_view(rv).subrange(1, rv.len() as int));
        }
        let ghost before = out@;
        out.push(PluginChange { name, action });
        proof {
            assert(changes_view(out@) =~= changes_view(before).push(pv[k as int]));
        }
        k = k + 1;
    }
    assert(pv.subrange(0, k as int) =~= pv);
    out
}

/// Collapse a burst of watcher events into one change per plugin (last
/// wins), ordered by plugin name. A plugin added and then removed within one
/// burst nets out to Removed.
pub fn coalesce(changes: Vec<PluginChange>) -> (r: Vec<PluginChange>)
    ensures
        keys_sorted(changes_view(r@)),
        as_map(changes_view(r@)) == last_actions(changes_view(changes@)),
{
    let ghost cv = changes_view(changes@);
    let mut last: Vec<(String, PluginAction)> = Vec::new();
    let mut rest = changes;
    let total = rest.len();
    assert(total == cv.len());
    let mut k: usize = 0;
    proof {
        assert(as_map(pairs_view(last@)) =~= Map::<Seq<char>, PluginAction>::empty());
        assert(pairs_view(last@) =~= Seq::<(Seq<char>, PluginAction)>::empty());
    }
    while rest.len() > 0
        invariant
            k + rest.len() == cv.len(),
            cv.len() <= usize::MAX,
            changes_view(rest@) == cv.subrange(k as int, cv.len() as int),
            keys_sorted(pairs_view(last@)),
            as_map(pairs_view(last@)) == last_actions(cv.subrange(0, k as int)),
        decreases rest.len(),
    {
        let ghost rv = rest@;
        let change = rest.remove(0);
        proof {
            assert(changes_view(rv)[0] == change@);
            assert(changes_view(rest@) =~= changes_view(rv).subrange(1, rv.len() as int));
            let next = cv.subrange(0, k + 1);
            assert(next.drop_last() =~= cv.subrange(0, k as int));
            assert(next.last() == change@);
        }
        upsert_entry(&mut last, change.name, change.action);
        k = k + 1;
    }
    assert(cv.subrange(0, k as int) =~= cv);
    changes_from_entries(last)
}

/// Runtime registry of discovered JS plugins: `name → (manifest, enabled)`,
/// in ascending name order.
#[derive(Debug)]
pub struct JsPluginRegistry {
    plugins: Vec<(String, (PluginManifest, bool))>,
}

impl View for JsPluginRegistry {
    type V = Seq<(Seq<char>, (PluginManifest, bool))>;

    closed spec fn view(&self) -> Self::V {
        pairs_view(self.plugins@)
    }
}

/// Name → (manifest, enabled), as a map.
pub open spec fn known_plugins(s: Seq<(Seq<char>, (PluginManifest, bool))>) -> Map<
    Seq<char>,
    (PluginManifest, bool),
> {
    as_map(s)
}

/// The registry keys not among `names`, in key order.
pub open spec fn absent_names(keys: Seq<Seq<char>>, names: Seq<Seq<char>>) -> Seq<Seq<char>>
    decreases keys.len(),
{
    if keys.len() == 0 {
        Seq::empty()
    } else {
        let r = absent_names(keys.drop_last(), names);
        if names.contains(keys.last()) {
            r
        } else {
            r.push(keys.last())
        }
    }
}

/// The registry after inserting or replacing a plugin under its manifest
/// name: a plugin already known under that name keeps its enabled state,
/// a new one gets `enabled`.
pub open spec fn upserted(
    m: Map<Seq<char>, (PluginManifest, bool)>,
    man: PluginManifest,
    enabled: bool,
) -> Map<Seq<char>, (PluginManifest, bool)> {
    m.insert(
        man.name@,
        (
            man,
            if m.contains_key(man.name@) {
                m[man.name@].1
            } else {
                enabled
            },
        ),
    )
}

/// One discovered plugin applied to the registry: a known plugin whose
/// manifest differs is replaced (keeping its enabled state) and reported
/// Changed; an unknown one is added with `default_enabled` and reported
/// Added; an identical one is left alone.
pub open spec fn reconcile_step(
    st: (Map<Seq<char>, (PluginManifest, bool)>, Seq<(Seq<char>, PluginAction)>),
    d: (Seq<char>, PluginManifest),
    default_enabled: bool,
) -> (Map<Seq<char>, (PluginManifest, bool)>, Seq<(Seq<char>, PluginAction)>) {
    let (m, cs) = st;
    let (name, man) = d;
    if m.contains_key(name) {
        if m[name].0@ != man@ {
            (upserted(m, man, m[name].1), cs.push((name, PluginAction::Changed)))
        } else {
            st
        }
    } else {
        (upserted(m, man, default_enabled), cs.push((name, PluginAction::Added)))
    }
}

/// The discovered plugins applied in order.
pub open spec fn reconcile_fold(
    st: (Map<Seq<char>, (PluginManifest, bool)>, Seq<(Seq<char>, PluginAction)>),
    ds: Seq<(Seq<char>, PluginManifest)>,
    default_enabled: bool,
) -> (Map<Seq<char>, (PluginManifest, bool)>, Seq<(Seq<char>, PluginAction)>)
    decreases ds.len(),
{
    if ds.len() == 0 {
        st
    } else {
        reconcile_step(reconcile_fold(st, ds.drop_last(), default_enabled), ds.last(), default_enabled)
    }
}

/// The first position at or after `i` whose name sorts strictly after `k`.
pub open spec fn first_after<V>(s: Seq<(Seq<char>, V)>, k: Seq<char>, i: int) -> int
    decreases s.len() - i,
{
    if i < 0 || i >= s.len() {
        s.len() as int
    } else if lex_lt(k, s[i].0) {
        i
    } else {
        first_after(s, k, i + 1)
    }
}

/// Stable sort of named entries by name (equal names keep their order).
pub open spec fn sort_by_name<V>(s: Seq<(Seq<char>, V)>) -> Seq<(Seq<char>, V)>
    decreases s.len(),
{
    if s.len() == 0 {
        Seq::empty()
    } else {
        let t = sort_by_name(s.drop_last());
        t.insert(first_after(t, s.last().0, 0), s.last())
    }
}

/// What `reconcile` leaves in the registry and reports: plugins no longer
/// discovered are removed (reported Removed), then each discovered plugin is
/// applied in order; the report is sorted by plugin name.
pub open spec fn reconciled(
    s: Seq<(Seq<char>, (PluginManifest, bool))>,
    ds: Seq<(Seq<char>, PluginManifest)>,
    default_enabled: bool,
) -> (Map<Seq<char>, (PluginManifest, bool)>, Seq<(Seq<char>, PluginAction)>) {
    let names = ds.map_values(|d: (Seq<char>, PluginManifest)| d.0);
    let removed = absent_names(keys_of(s), names);
    let kept = as_map(s).restrict(names.to_set());
    let (m, cs) = reconcile_fold((kept, Seq::empty()), ds, default_enabled);
    (m, sort_by_name(removed.map_values(|k: Seq<char>| (k, PluginAction::Removed)) + cs))
}

fn sorts_no_later(a: &str, b: &str) -> (r: bool)
    ensures
        r == (a@ == b@ || lex_lt(a@, b@)),
{
    match compare_text(a, b) {
        Order::After => false,
        _ => true,
    }
}

fn sort_changes(v: Vec<PluginChange>) -> (r: Vec<PluginChange>)
    ensures
        changes_view(r@) == sort_by_name(changes_view(v@)),
{
    let ghost cv = changes_view(v@);
    let mut rest = v;
    let total = rest.len();
    assert(total == cv.len());
    let mut out: Vec<PluginChange> = Vec::new();
    let mut k: usize = 0;
    proof {
        assert(cv.subrange(0, 0) =~= Seq::<(Seq<char>, PluginAction)>::empty());
        assert(changes_view(out@) =~= Seq::<(Seq<char>, PluginAction)>::empty());
    }
    while rest.len() > 0
        invariant
            k + rest.len() == cv.len(),
            cv.len() <= usize::MAX,
            changes_view(rest@) == cv.subrange(k as int, cv.len() as int),
            changes_view(out@) == sort_by_name(cv.subrange(0, k as int)),
        decreases rest.len(),
    {
        let ghost rv = rest@;
        let change = rest.remove(0);
        let ghost before = changes_view(out@);
        proof {
            assert(changes_view(rv)[0] == change@);
            assert(changes_view(rest@) =~= changes_view(rv).subrange(1, rv.len() as int));
        }
        let mut p: usize = 0;
        while p < out.len() && sorts_no_later(out[p].name.as_str(), change.name.as_str())
            invariant
                p <= out.len(),
                before == changes_view(out@),
                first_after(before, change.name@, 0) == first_after(before, change.name@, p as int),
            decreases out.len() - p,
        {
            proof {
                crate::text::lemma_lex_total(out@[p as int].name@, change.name@);
                assert(before[p as int].0 == out@[p as int].name@);
                if lex_lt(change.name@, before[p as int].0) {
                    crate::text::lemma_lex_asymmetric(change.name@, before[p as int].0);
                }
            }
            p = p + 1;
        }
        proof {
            if p < out.len() {
                assert(before[p as int].0 == out@[p as int].name@);
                crate::text::lemma_lex_total(out@[p as int].name@, change.name@);
            }
            assert(first_after(before, change.name@, p as int) == p);
        }
        let ghost x = change@;
        out.insert(p, change);
        proof {
            assert(changes_view(out@) =~= before.insert(p as int, x));
            let next = cv.subrange(0, k + 1);
            assert(next.drop_last() =~= cv.subrange(0, k as int));
            assert(next.last() == x);
        }
        k = k + 1;
    }
    assert(cv.subrange(0, k as int) =~= cv);
    out
}

/// Stable sort of named entries by name.
fn sort_named<V>(v: Vec<(String, V)>) -> (r: Vec<(String, V)>)
    ensures
        pairs_view(r@) == sort_by_name(pairs_view(v@)),
{
    let ghost pv = pairs_view(v@);
    let mut rest = v;
    let total = rest.len();
    assert(total == pv.len());
    let mut out: Vec<(String, V)> = Vec::new();
    let mut k: usize = 0;
    proof {
        assert(pv.subrange(0, 0) =~= Seq::<(Seq<char>, V)>::empty());
        assert(pairs_view(out@) =~= Seq::<(Seq<char>, V)>::empty());
    }
    while rest.len() > 0
        invariant
            k + rest.len() == pv.len(),
            pv.len() <= usize::MAX,
            pairs_view(rest@) == pv.subrange(k as int, pv.len() as int),
            pairs_view(out@) == sort_by_name(pv.subrange(0, k as int)),
        decreases rest.len(),
    {
        let ghost rv = rest@;
        let entry = rest.remove(0);
        let ghost before = pairs_view(out@);
        let ghost x = (entry.0@, entry.1);
        proof {
            assert(pairs_view(rv)[0] == x);
            assert(pairs_view(rest@) =~= pairs_view(rv).subrange(1, rv.len() as int));
        }
        let mut p: usize = 0;
        while p < out.len() && sorts_no_later(out[p].0.as_str(), entry.0.as_str())
            invariant
                p <= out.len(),
                before == pairs_view(out@),
                x.0 == entry.0@,
                first_after(before, x.0, 0) == first_after(before, x.0, p as int),
            decreases out.len() - p,
        {
            proof {
                crate::text::lemma_lex_total(out@[p as int].0@, x.0);
                assert(before[p as int].0 == out@[p as int].0@);
                if lex_lt(x.0, before[p as int].0) {
                    crate::text::lemma_lex_asymmetric(x.0, before[p as int].0);
                }
            }
            p = p + 1;
        }
        proof {
            if p < out.len() {
                assert(before[p as int].0 == out@[p as int].0@);
                crate::text::lemma_lex_total(out@[p as int].0@, x.0);
            }
            assert(first_after(before, x.0, p as int) == p);
        }
        out.insert(p, entry);
        proof {
            assert(pairs_view(out@) =~= before.insert(p as int, x));
            let next = pv.subrange(0, k + 1);
            assert(next.drop_last() =~= pv.subrange(0, k as int));
            assert(next.last() == x);
        }
        k = k + 1;
    }
    assert(pv.subrange(0, k as int) =~= pv);
    out
}

/// The manifests among the per-directory outcomes of a scan, each under its
/// name, in scan order.
pub open spec fn loaded_of(s: Seq<Result<PluginManifest, String>>) -> Seq<(Seq<char>, PluginManifest)>
    decreases s.len(),
{
    if s.len() == 0 {
        Seq::empty()
    } else {
        let t = loaded_of(s.drop_last());
        match s.last() {
            Ok(m) => t.push((m.name@, m)),
            Err(_) => t,
        }
    }
}

/// The errors among the per-directory outcomes of a scan, in scan order.
pub open spec fn errors_of(s: Seq<Result<PluginManifest, String>>) -> Seq<Seq<char>>
    decreases s.len(),
{
    if s.len() == 0 {
        Seq::empty()
    } else {
        let t = errors_of(s.drop_last());
        match s.last() {
            Ok(_) => t,
            Err(e) => t.push(e@),
        }
    }
}

/// Turn the outcome of loading each plugin directory (a validated manifest,
/// or why it could not be read, parsed or validated) into the scan result:
/// the loaded plugins under their names, sorted by name (stably), and the
/// errors in scan order. A broken plugin never blocks its siblings.
pub fn split_discovered(outcomes: Vec<Result<PluginManifest, String>>) -> (r: (
    Vec<(String, PluginManifest)>,
    Vec<String>,
))
    ensures
        pairs_view(r.0@) == sort_by_name(loaded_of(outcomes@)),
        r.1@.map_values(|e: String| e@) == errors_of(outcomes@),
{
    let ghost os = outcomes@;
    let mut rest = outcomes;
    let total = rest.len();
    assert(total == os.len());
    let mut loaded: Vec<(String, PluginManifest)> = Vec::new();
    let mut errors: Vec<String> = Vec::new();
    let mut k: usize = 0;
    proof {
        assert(os.subrange(0, 0) =~= Seq::<Result<PluginManifest, String>>::empty());
        assert(errors@.map_values(|e: String| e@) =~= Seq::<Seq<char>>::empty());
        assert(pairs_view(loaded@) =~= Seq::<(Seq<char>, PluginManifest)>::empty());
    }
    while rest.len() > 0
        invariant
            k + rest.len() == os.len(),
            os.len() <= usize::MAX,
            rest@ == os.subrange(k as int, os.len() as int),
            pairs_view(loaded@) == loaded_of(os.subrange(0, k as int)),
            errors@.map_values(|e: String| e@) == errors_of(os.subrange(0, k as int)),
        decreases rest.len(),
    {
        let ghost rv = rest@;
        let outcome = rest.remove(0);
        proof {
            assert(rv[0] == outcome);
            assert(rest@ =~= rv.subrange(1, rv.len() as int));
            let next = os.subrange(0, k + 1);
            assert(next.drop_last() =~= os.subrange(0, k as int));
            assert(next.last() == outcome);
        }
        let ghost lb = loaded@;
        let ghost eb = errors@;
        match outcome {
            Ok(m) => {
                let name = m.name.clone();
                loaded.push((name, m));
                proof {
                    assert(pairs_view(loaded@) =~= pairs_view(lb).push((m.name@, m)));
                }
            },
            Err(e) => {
                errors.push(e);
                proof {
                    assert(errors@.map_values(|e: String| e@) =~= eb.map_values(|e: String| e@).push(e@));
                }
            },
        }
        k = k + 1;
    }
    assert(os.subrange(0, k as int) =~= os);
    (sort_named(loaded), errors)
}

proof fn lemma_push_contains<A>(s: Seq<A>, x: A, k: A)
    ensures
        s.push(x).contains(k) <==> s.contains(k) || k == x,
{
    if s.contains(k) {
        let i = choose|i: int| 0 <= i < s.len() && s[i] == k;
        assert(s.push(x)[i] == k);
    }
    if k == x {
        assert(s.push(x)[s.len() as int] == k);
    }
    if s.push(x).contains(k) {
        let i = choose|i: int| 0 <= i < s.push(x).len() && s.push(x)[i] == k;
        if i < s.len() {
            assert(s[i] == k);
        }
    }
}

proof fn lemma_absent_names(keys: Seq<Seq<char>>, names: Seq<Seq<char>>)
    ensures
        forall|k: Seq<char>| #[trigger]
            absent_names(keys, names).contains(k) <==> keys.contains(k) && !names.contains(k),
    decreases keys.len(),
{
    if keys.len() > 0 {
        let ks = keys.drop_last();
        let last = keys.last();
        lemma_absent_names(ks, names);
        let r = absent_names(ks, names);
        assert(keys =~= ks.push(last));
        assert forall|k: Seq<char>| #[trigger]
            absent_names(keys, names).contains(k) <==> keys.contains(k) && !names.contains(k) by {
            lemma_push_contains(ks, last, k);
            if !names.contains(last) {
                lemma_push_contains(r, last, k);
            }
        }
    } else {
        assert forall|k: Seq<char>| #[trigger]
            absent_names(keys, names).contains(k) <==> keys.contains(k) && !names.contains(k) by {
        }
    }
}

/// A scan result as discovery produces it: each plugin under its manifest's
/// name, no name twice.
pub open spec fn discovery_ok(ds: Seq<(Seq<char>, PluginManifest)>) -> bool {
    &&& forall|i: int, j: int| 0 <= i < j < ds.len() ==> (#[trigger] ds[i]).0 != (#[trigger] ds[j]).0
    &&& forall|i: int| 0 <= i < ds.len() ==> (#[trigger] ds[i]).0 == ds[i].1.name@
}

/// The names of a scan result, in scan order.
pub open spec fn scan_names(ds: Seq<(Seq<char>, PluginManifest)>) -> Seq<Seq<char>> {
    ds.map_values(|d: (Seq<char>, PluginManifest)| d.0)
}

proof fn lemma_fold_values(
    st: (Map<Seq<char>, (PluginManifest, bool)>, Seq<(Seq<char>, PluginAction)>),
    ds: Seq<(Seq<char>, PluginManifest)>,
    default_enabled: bool,
)
    requires
        discovery_ok(ds),
    ensures
        forall|k: Seq<char>| #[trigger]
            reconcile_fold(st, ds, default_enabled).0.contains_key(k) <==> st.0.contains_key(k)
                || scan_names(ds).contains(k),
        forall|i: int|
            0 <= i < ds.len() ==> reconcile_fold(st, ds, default_enabled).0[(#[trigger] ds[i]).0].0@
                == ds[i].1@,
    decreases ds.len(),
{
    if ds.len() > 0 {
        let t = ds.drop_last();
        let last = ds.last();
        assert forall|i: int, j: int| 0 <= i < j < t.len() implies (#[trigger] t[i]).0 != (
        #[trigger] t[j]).0 by {
            assert(t[i] == ds[i] && t[j] == ds[j]);
        }
        assert forall|i: int| 0 <= i < t.len() implies (#[trigger] t[i]).0 == t[i].1.name@ by {
            assert(t[i] == ds[i]);
        }
        lemma_fold_values(st, t, default_enabled);
        let prev = reconcile_fold(st, t, default_enabled);
        assert(scan_names(ds) =~= scan_names(t).push(last.0));
        assert(last.0 == last.1.name@) by {
            assert(ds[ds.len() - 1] == last);
        }
        assert forall|k: Seq<char>| #[trigger]
            reconcile_fold(st, ds, default_enabled).0.contains_key(k) <==> st.0.contains_key(k)
                || scan_names(ds).contains(k) by {
            lemma_push_contains(scan_names(t), last.0, k);
        }
        assert forall|i: int|
            0 <= i < ds.len() implies reconcile_fold(st, ds, default_enabled).0[(
            #[trigger] ds[i]).0].0@ == ds[i].1@ by {
            if i < ds.len() - 1 {
                assert(t[i] == ds[i]);
                assert(ds[i].0 != ds[ds.len() - 1].0);
                assert(prev.0[t[i].0].0@ == t[i].1@);
            }
        }
    }
}

proof fn lemma_fold_settled(
    m: Map<Seq<char>, (PluginManifest, bool)>,
    cs: Seq<(Seq<char>, PluginAction)>,
    ds: Seq<(Seq<char>, PluginManifest)>,
    default_enabled: bool,
)
    requires
        forall|i: int| 0 <= i < ds.len() ==> m.contains_key((#[trigger] ds[i]).0) && m[ds[i].0].0@ == ds[i].1@,
    ensures
        reconcile_fold((m, cs), ds, default_enabled) == (m, cs),
    decreases ds.len(),
{
    if ds.len() > 0 {
        let t = ds.drop_last();
        assert forall|i: int| 0 <= i < t.len() implies m.contains_key((#[trigger] t[i]).0) && m[t[i].0].0@ == t[i].1@ by {
            assert(t[i] == ds[i]);
        }
        lemma_fold_settled(m, cs, t, default_enabled);
        assert(ds[ds.len() - 1] == ds.last());
    }
}

/// Rescanning an unchanged plugins directory is quiet: once a scan has been
/// reconciled, reconciling the same scan again (against the registry it
/// produced) reports no change and leaves every plugin as it is.
pub proof fn law_rescan_reports_no_changes(
    s1: Seq<(Seq<char>, (PluginManifest, bool))>,
    s2: Seq<(Seq<char>, (PluginManifest, bool))>,
    ds: Seq<(Seq<char>, PluginManifest)>,
    default_enabled: bool,
)
    requires
        keys_sorted(s2),
        discovery_ok(ds),
        known_plugins(s2) == reconciled(s1, ds, default_enabled).0,
    ensures
        reconciled(s2, ds, default_enabled).0 == known_plugins(s2),
        reconciled(s2, ds, default_enabled).1 == Seq::<(Seq<char>, PluginAction)>::empty(),
{
    let names = ds.map_values(|d: (Seq<char>, PluginManifest)| d.0);
    assert(names == scan_names(ds));
    let kept1 = as_map(s1).restrict(names.to_set());
    lemma_fold_values((kept1, Seq::empty()), ds, default_enabled);
    let m1 = reconcile_fold((kept1, Seq::empty()), ds, default_enabled).0;
    assert(m1 == reconciled(s1, ds, default_enabled).0);
    assert forall|k: Seq<char>| #[trigger] m1.contains_key(k) <==> names.contains(k) by {
        if kept1.contains_key(k) {
            assert(names.to_set().contains(k));
        }
    }
    lemma_as_map_domain(s2);
    let keys = keys_of(s2);
    lemma_absent_names(keys, names);
    let removed = absent_names(keys, names);
    assert(removed.len() == 0) by {
        if removed.len() > 0 {
            let k = removed[0];
            assert(removed.contains(k));
            assert(keys.contains(k));
            let i = choose|i: int| 0 <= i < keys.len() && keys[i] == k;
            assert(s2[i].0 == k);
            assert(as_map(s2).contains_key(k));
        }
    }
    let kept2 = as_map(s2).restrict(names.to_set());
    assert(kept2 =~= m1);
    assert forall|i: int| 0 <= i < ds.len() implies m1.contains_key((#[trigger] ds[i]).0) && m1[ds[i].0].0@ == ds[i].1@ by {
        assert(names[i] == ds[i].0);
        assert(names.contains(ds[i].0));
    }
    lemma_fold_settled(m1, Seq::empty(), ds, default_enabled);
    let rem = removed.map_values(|k: Seq<char>| (k, PluginAction::Removed));
    assert(rem + Seq::<(Seq<char>, PluginAction)>::empty() =~= Seq::<(Seq<char>, PluginAction)>::empty());
}

impl Default for JsPluginRegistry {
    fn default() -> (r: Self)
        ensures
            r.wf(),
            r@ == Seq::<(Seq<char>, (PluginManifest, bool))>::empty(),
    {
        JsPluginRegistry::new()
    }
}

impl JsPluginRegistry {
    /// Entries are in strictly ascending name order; every registry keeps
    /// this.
    #[verifier::type_invariant]
    pub open spec fn wf(&self) -> bool {
        keys_sorted(self@)
    }

    /// Empty registry.
    pub fn new() -> (r: Self)
        ensures
            r.wf(),
            r@ == Seq::<(Seq<char>, (PluginManifest, bool))>::empty(),
    {
        let r = JsPluginRegistry { plugins: Vec::new() };
        assert(r@ =~= Seq::<(Seq<char>, (PluginManifest, bool))>::empty());
        r
    }

    /// Insert or replace a plugin under its manifest name, keeping its
    /// enabled state on replace; a new plugin gets `enabled`.
    pub fn upsert(&mut self, manifest: PluginManifest, enabled: bool)
        ensures
            final(self).wf(),
            known_plugins(final(self)@) == upserted(known_plugins(old(self)@), manifest, enabled),
    {
        proof {
            use_type_invariant(&*self);
        }
        let key = manifest.name.clone();
        proof {
            lemma_as_map(self@);
        }
        let state = match get_entry(&self.plugins, key.as_str()) {
            Some(e) => e.1,
            None => enabled,
        };
        let mut entries: Vec<(String, (PluginManifest, bool))> = Vec::new();
        std::mem::swap(&mut entries, &mut self.plugins);
        upsert_entry(&mut entries, key, (manifest, state));
        self.plugins = entries;
    }

    /// Remove a plugin; returns whether it was present.
    pub fn remove(&mut self, name: &str) -> (r: bool)
        ensures
            final(self).wf(),
            known_plugins(final(self)@) == known_plugins(old(self)@).remove(name@),
            r == known_plugins(old(self)@).contains_key(name@),
    {
        proof {
            use_type_invariant(&*self);
        }
        let mut entries: Vec<(String, (PluginManifest, bool))> = Vec::new();
        std::mem::swap(&mut entries, &mut self.plugins);
        let removed = remove_entry(&mut entries, name).is_some();
        self.plugins = entries;
        removed
    }

    /// Set enable/disable; returns whether the plugin is known.
    pub fn set_enabled(&mut self, name: &str, enabled: bool) -> (r: bool)
        ensures
            final(self).wf(),
            r == known_plugins(old(self)@).contains_key(name@),
            known_plugins(final(self)@) == (if r {
                known_plugins(old(self)@).insert(
                    name@,
                    (known_plugins(old(self)@)[name@].0, enabled),
                )
            } else {
                known_plugins(old(self)@)
            }),
    {
        proof {
            use_type_invariant(&*self);
        }
        let ghost m = known_plugins(self@);
        let mut entries: Vec<(String, (PluginManifest, bool))> = Vec::new();
        std::mem::swap(&mut entries, &mut self.plugins);
        let known = match remove_entry(&mut entries, name) {
            Some((manifest, _)) => {
                upsert_entry(&mut entries, text_of(name), (manifest, enabled));
                proof {
                    assert(m.remove(name@).insert(name@, (m[name@].0, enabled)) =~= m.insert(
                        name@,
                        (m[name@].0, enabled),
                    ));
                }
                true
            },
            None => {
                assert(m.remove(name@) =~= m);
                false
            },
        };
        self.plugins = entries;
        known
    }

    /// Whether a known plugin is enabled.
    pub fn is_enabled(&self, name: &str) -> (r: bool)
        ensures
            r == (known_plugins(self@).contains_key(name@) && known_plugins(self@)[name@].1),
    {
        proof {
            use_type_invariant(self);
        }
        match get_entry(&self.plugins, name) {
            Some(v) => v.1,
            None => false,
        }
    }

    /// The entry of a known plugin.
    pub fn lookup(&self, name: &str) -> (r: Option<&(PluginManifest, bool)>)
        ensures
            self.wf(),
            r is Some <==> known_plugins(self@).contains_key(name@),
            r matches Some(v) ==> *v == known_plugins(self@)[name@],
    {
        proof {
            use_type_invariant(self);
        }
        get_entry(&self.plugins, name)
    }

    /// Names of all discovered plugins, sorted.
    pub fn names(&self) -> (r: Vec<String>)
        ensures
            r@.map_values(|s: String| s@) == keys_of(self@),
    {
        entry_keys(&self.plugins)
    }

    /// Number of discovered plugins.
    pub fn len(&self) -> (r: usize)
        ensures
            r == self@.len(),
    {
        self.plugins.len()
    }

    /// Whether no plugins are discovered.
    pub fn is_empty(&self) -> (r: bool)
        ensures
            r == (self@.len() == 0),
    {
        self.plugins.len() == 0
    }

    /// Diff a fresh discovery scan against the registry and apply it.
    ///
    /// Returns the changes (Added/Removed/Changed) so the host can re-evaluate
    /// affected bundles — the hot-reload reconciliation step. Enabled state
    /// survives a Changed (reload) and is set to `default_enabled` for newly
    /// Added plugins.
    pub fn reconcile(&mut self, discovered: Vec<(String, PluginManifest)>, default_enabled: bool) -> (r: Vec<PluginChange>)
        ensures
            final(self).wf(),
            known_plugins(final(self)@) == reconciled(
                old(self)@,
                pairs_view(discovered@),
                default_enabled,
            ).0,
            changes_view(r@) == reconciled(old(self)@, pairs_view(discovered@), default_enabled).1,
    {
        proof {
            use_type_invariant(&*self);
        }
        let ghost s0 = self@;
        let ghost ds = pairs_view(discovered@);
        let ghost names_d = ds.map_values(|d: (Seq<char>, PluginManifest)| d.0);
        let ghost keys = keys_of(s0);
        let names = self.names();
        let mut removed: Vec<PluginChange> = Vec::new();
        let mut i: usize = 0;
        proof {
            assert(absent_names(keys.subrange(0, 0), names_d) =~= Seq::<Seq<char>>::empty());
            assert(known_plugins(self@) =~= as_map(s0).remove_keys(
                absent_names(keys.subrange(0, 0), names_d).to_set(),
            ));
            assert(changes_view(removed@) =~= Seq::<(Seq<char>, PluginAction)>::empty());
        }
        while i < names.len()
            invariant
                self.wf(),
                names@.map_values(|s: String| s@) == keys,
                keys.len() == names@.len(),
                i <= names.len(),
                ds == pairs_view(discovered@),
                names_d == ds.map_values(|d: (Seq<char>, PluginManifest)| d.0),
                known_plugins(self@) == as_map(s0).remove_keys(
                    absent_names(keys.subrange(0, i as int), names_d).to_set(),
                ),
                changes_view(removed@) == absent_names(keys.subrange(0, i as int), names_d).map_values(
                    |k: Seq<char>| (k, PluginAction::Removed),
                ),
            decreases names.len() - i,
        {
            let name = &names[i];
            let ghost k = name@;
            proof {
                assert(names@.map_values(|s: String| s@)[i as int] == k);
            }
            let mut found = false;
            let mut j: usize = 0;
            while j < discovered.len()
                invariant
                    j <= discovered.len(),
                    ds == pairs_view(discovered@),
                    names_d == ds.map_values(|d: (Seq<char>, PluginManifest)| d.0),
                    found == (exists|t: int| 0 <= t < j && names_d[t] == k),
                    k == name@,
                decreases discovered.len() - j,
            {
                let hit = text_eq(discovered[j].0.as_str(), name.as_str());
                proof {
                    assert(ds[j as int].0 == discovered@[j as int].0@);
                    assert(names_d[j as int] == ds[j as int].0);
                }
                proof {
                    if hit {
                        assert(names_d[j as int] == k);
                    } else {
                        assert(names_d[j as int] != k);
                    }
                }
                if hit {
                    found = true;
                }
                j = j + 1;
            }
            proof {
                assert(found == names_d.contains(k));
                let pre = keys.subrange(0, i as int);
                let post = keys.subrange(0, i + 1);
                assert(post.drop_last() =~= pre);
                assert(post.last() == k);
            }
            if !found {
                let ghost before = known_plugins(self@);
                let ghost rb = removed@;
                self.remove(name.as_str());
                removed.push(PluginChange { name: name.clone(), action: PluginAction::Removed });
                proof {
                    let pre = keys.subrange(0, i as int);
                    let post = keys.subrange(0, i + 1);
                    assert(absent_names(post, names_d) == absent_names(pre, names_d).push(k));
                    absent_names(pre, names_d).lemma_push_to_set_commute(k);
                    assert(absent_names(post, names_d).to_set() =~= absent_names(pre, names_d).to_set().insert(k));
                    assert(known_plugins(self@) =~= as_map(s0).remove_keys(
                        absent_names(post, names_d).to_set(),
                    ));
                    assert(changes_view(removed@) =~= changes_view(rb).push((k, PluginAction::Removed)));
                    assert(absent_names(post, names_d).map_values(
                        |k: Seq<char>| (k, PluginAction::Removed),
                    ) =~= absent_names(pre, names_d).map_values(
                        |k: Seq<char>| (k, PluginAction::Removed),
                    ).push((k, PluginAction::Removed)));
                }
            }
            i = i + 1;
        }
        proof {
            assert(keys.subrange(0, i as int) =~= keys);
            lemma_absent_names(keys, names_d);
            lemma_as_map(s0);
            assert(as_map(s0).remove_keys(absent_names(keys, names_d).to_set()) =~= as_map(
                s0,
            ).restrict(names_d.to_set())) by {
                assert forall|k: Seq<char>| as_map(s0).contains_key(k) implies keys.contains(k) by {
                    let t = choose|t: int| 0 <= t < s0.len() && s0[t].0 == k;
                    assert(keys[t] == k);
                }
            }
        }
        let ghost kept = known_plugins(self@);
        let mut later: Vec<PluginChange> = Vec::new();
        let mut rest = discovered;
        let total = rest.len();
        assert(total == ds.len());
        let mut t: usize = 0;
        proof {
            assert(ds.subrange(0, 0) =~= Seq::<(Seq<char>, PluginManifest)>::empty());
            assert(changes_view(later@) =~= Seq::<(Seq<char>, PluginAction)>::empty());
        }
        while rest.len() > 0
            invariant
                self.wf(),
                t + rest.len() == ds.len(),
                ds.len() <= usize::MAX,
                pairs_view(rest@) == ds.subrange(t as int, ds.len() as int),
                (known_plugins(self@), changes_view(later@)) == reconcile_fold(
                    (kept, Seq::empty()),
                    ds.subrange(0, t as int),
                    default_enabled,
                ),
            decreases rest.len(),
        {
            let ghost rv = rest@;
            let (name, manifest) = rest.remove(0);
            let ghost before = (known_plugins(self@), changes_view(later@));
            proof {
                assert(pairs_view(rv)[0] == (name@, manifest));
                assert(pairs_view(rest@) =~= pairs_view(rv).subrange(1, rv.len() as int));
                let next = ds.subrange(0, t + 1);
                assert(next.drop_last() =~= ds.subrange(0, t as int));
                assert(next.last() == (name@, manifest));
            }
            let known = match self.lookup(name.as_str()) {
                Some(v) => Some((manifest_eq(&v.0, &manifest), v.1)),
                None => None,
            };
            match known {
                Some((same, enabled)) => {
                    if !same {
                        let ghost lb = later@;
                        self.upsert(manifest, enabled);
                        later.push(PluginChange { name, action: PluginAction::Changed });
                        proof {
                            assert(changes_view(later@) =~= changes_view(lb).push(
                                (name@, PluginAction::Changed),
                            ));
                        }
                    }
                },
                None => {
                    let ghost lb = later@;
                    self.upsert(manifest, default_enabled);
                    later.push(PluginChange { name, action: PluginAction::Added });
                    proof {
                        assert(changes_view(later@) =~= changes_view(lb).push(
                            (name@, PluginAction::Added),
                        ));
                    }
                },
            }
            t = t + 1;
        }
        proof {
            assert(ds.subrange(0, t as int) =~= ds);
        }
        let ghost rem = changes_view(removed@);
        let ghost lat = changes_view(later@);
        let mut all = removed;
        let mut u: usize = 0;
        while u < later.len()
            invariant
                u <= later.len(),
                lat == changes_view(later@),
                changes_view(all@) == rem + lat.subrange(0, u as int),
            decreases later.len() - u,
        {
            let ghost ab = all@;
            let c = PluginChange { name: later[u].name.clone(), action: later[u].action };
            assert(c@ == lat[u as int]);
            all.push(c);
            proof {
                assert(changes_view(all@) =~= changes_view(ab).push(lat[u as int]));
                assert(lat.subrange(0, u + 1) =~= lat.subrange(0, u as int).push(lat[u as int]));
            }
            u = u + 1;
        }
        assert(lat.subrange(0, u as int) =~= lat);
        sort_changes(all)
    }
}

/// The discovered plugins that `config` enables, in discovery order.
pub open spec fn enabled_only(
    ds: Seq<(Seq<char>, PluginManifest)>,
    config: OpenKiteConfig,
) -> Seq<(Seq<char>, PluginManifest)>
    decreases ds.len(),
{
    if ds.len() == 0 {
        Seq::empty()
    } else {
        let r = enabled_only(ds.drop_last(), config);
        if plugin_enabled(config, ds.last().0) {
            r.push(ds.last())
        } else {
            r
        }
    }
}

/// Keep the discovered plugins that `config` enables (the bundles the
/// shell evaluates), in discovery order.
pub fn enabled_bundles(discovered: Vec<(String, PluginManifest)>, config: &OpenKiteConfig) -> (r: Vec<
    (String, PluginManifest),
>)
    ensures
        pairs_view(r@) == enabled_only(pairs_view(discovered@), *config),
{
    let ghost ds = pairs_view(discovered@);
    let mut rest = discovered;
    let total = rest.len();
    assert(total == ds.len());
    let mut out: Vec<(String, PluginManifest)> = Vec::new();
    let mut t: usize = 0;
    proof {
        assert(ds.subrange(0, 0) =~= Seq::<(Seq<char>, PluginManifest)>::empty());
        assert(pairs_view(out@) =~= Seq::<(Seq<char>, PluginManifest)>::empty());
    }
    while rest.len() > 0
        invariant
            t + rest.len() == ds.len(),
            ds.len() <= usize::MAX,
            pairs_view(rest@) == ds.subrange(t as int, ds.len() as int),
            pairs_view(out@) == enabled_only(ds.subrange(0, t as int), *config),
        decreases rest.len(),
    {
        let ghost rv = rest@;
        let (name, manifest) = rest.remove(0);
        proof {
            assert(pairs_view(rv)[0] == (name@, manifest));
            assert(pairs_view(rest@) =~= pairs_view(rv).subrange(1, rv.len() as int));
            let next = ds.subrange(0, t + 1);
            assert(next.drop_last() =~= ds.subrange(0, t as int));
            assert(next.last() == (name@, manifest));
        }
        if config.is_enabled(name.as_str()) {
            let ghost ob = out@;
            out.push((name, manifest));
            proof {
                assert(pairs_view(out@) =~= pairs_view(ob).push(ds[t as int]));
            }
        }
        t = t + 1;
    }
    assert(ds.subrange(0, t as int) =~= ds);
    out
}

/// Scan results reconciled in one call: the registry takes the discovered
/// plugins (see [`JsPluginRegistry::reconcile`]) and the scan's errors are
/// handed back beside the changes. This is the step the host runs at
/// startup and on every watcher tick, after reading the plugins directory.
pub fn scan_and_reconcile(
    scan: (Vec<(String, PluginManifest)>, Vec<String>),
    registry: &mut JsPluginRegistry,
    default_enabled: bool,
) -> (r: (Vec<PluginChange>, Vec<String>))
    ensures
        final(registry).wf(),
        known_plugins(final(registry)@) == reconciled(
            old(registry)@,
            pairs_view(scan.0@),
            default_enabled,
        ).0,
        changes_view(r.0@) == reconciled(old(registry)@, pairs_view(scan.0@), default_enabled).1,
        r.1@ == scan.1@,
{
    let (discovered, errors) = scan;
    let changes = registry.reconcile(discovered, default_enabled);
    (changes, errors)
}

/// An eval-ready JS plugin bundle: the plugin's name, the plugins root it
/// was found under, and its entry file relative to `root/<name>` (the host
/// joins these into a path).
#[derive(Debug, Clone, PartialEq, Eq)]
pub struct JsBundle {
    pub name: String,
    pub root: String,
    pub entry: String,
}

/// A bundle by its name, root and entry.
pub open spec fn bundle_view(b: JsBundle) -> (Seq<char>, Seq<char>, Seq<char>) {
    (b.name@, b.root@, b.entry@)
}

/// Keep the enabled plugins of a scan (in scan order) as bundles: each
/// plugin's name, the plugins root, and its manifest's entry file.
pub fn collect_bundles(root: &str, discovered: Vec<(String, PluginManifest)>, config: &OpenKiteConfig) -> (r:
    Vec<JsBundle>)
    ensures
        r@.map_values(|b: JsBundle| bundle_view(b)) == enabled_only(pairs_view(discovered@), *config).map_values(
            |d: (Seq<char>, PluginManifest)| (d.0, root@, d.1.entry@),
        ),
{
    let kept = enabled_bundles(discovered, config);
    let ghost kv = pairs_view(kept@);
    let mut rest = kept;
    let total = rest.len();
    assert(total == kv.len());
    let mut out: Vec<JsBundle> = Vec::new();
    let mut k: usize = 0;
    proof {
        assert(out@.map_values(|b: JsBundle| bundle_view(b)) =~= kv.subrange(0, 0).map_values(
            |d: (Seq<char>, PluginManifest)| (d.0, root@, d.1.entry@),
        ));
    }
    while rest.len() > 0
        invariant
            k + rest.len() == kv.len(),
            kv.len() <= usize::MAX,
            pairs_view(rest@) == kv.subrange(k as int, kv.len() as int),
            out@.map_values(|b: JsBundle| bundle_view(b)) == kv.subrange(0, k as int).map_values(
                |d: (Seq<char>, PluginManifest)| (d.0, root@, d.1.entry@),
            ),
        decreases rest.len(),
    {
        let ghost rv = rest@;
        let ghost ob = out@;
        let (name, manifest) = rest.remove(0);
        proof {
            assert(pairs_view(rv)[0] == (name@, manifest));
            assert(pairs_view(rest@) =~= pairs_view(rv).subrange(1, rv.len() as int));
        }
        let b = JsBundle { name, root: text_of(root), entry: manifest.entry.clone() };
        let ghost x = bundle_view(b);
        out.push(b);
        proof {
            assert(kv[k as int] == (x.0, manifest));
            assert(out@.map_values(|b: JsBundle| bundle_view(b)) =~= ob.map_values(|b: JsBundle| bundle_view(b)).push(x));
            assert(kv.subrange(0, k + 1).map_values(|d: (Seq<char>, PluginManifest)| (d.0, root@, d.1.entry@))
                =~= kv.subrange(0, k as int).map_values(|d: (Seq<char>, PluginManifest)| (d.0, root@, d.1.entry@)).push(x));
        }
        k = k + 1;
    }
    assert(kv.subrange(0, k as int) =~= kv);
    out
}

} // verus!
