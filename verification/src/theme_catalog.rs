//! Theme catalog: the curated defaults followed by the rest of the opaline
//! store. `swatches` gives picker rows a live preview by resolving each
//! theme's key variables through the standard opaline mapping.

use vstd::prelude::*;

use crate::text::text_eq;
use crate::theme_opaline::{
    list_opaline_themes, lists_id, load_and_map, opaline_has_builtin, opaline_vars,
    OpalineThemeInfo,
};

verus! {

/// The curated defaults, in the order the picker shows them.
pub const DEFAULT_THEME_IDS: [&'static str; 5] = [
    "one-light",
    "one-dark",
    "catppuccin-mocha",
    "tokyo-night",
    "rose-pine",
];

/// One entry in the theme catalog.
#[derive(Debug, Clone, PartialEq, Eq)]
pub struct ThemeEntry {
    pub id: String,
    pub display_name: String,
    pub variant: String,
    /// Curated default (sectioned first) vs store.
    pub is_default: bool,
}

/// A catalog entry by its id, display name, variant and default flag.
pub type EntryView = (Seq<char>, Seq<char>, Seq<char>, bool);

/// A listed opaline theme by its id, display name and variant.
pub type InfoView = (Seq<char>, Seq<char>, Seq<char>);

/// The view of a catalog entry.
pub open spec fn entry_view(e: ThemeEntry) -> EntryView {
    (e.id@, e.display_name@, e.variant@, e.is_default)
}

/// The views of a list of catalog entries.
pub open spec fn entries_view(s: Seq<ThemeEntry>) -> Seq<EntryView> {
    s.map_values(|e: ThemeEntry| entry_view(e))
}

/// The views of a list of opaline theme infos.
pub open spec fn infos_view(s: Seq<OpalineThemeInfo>) -> Seq<InfoView> {
    s.map_values(|i: OpalineThemeInfo| (i.id@, i.display_name@, i.variant@))
}

/// The curated default ids, by their characters.
pub open spec fn default_ids() -> Seq<Seq<char>> {
    DEFAULT_THEME_IDS@.map_values(|v: &'static str| v@)
}

/// The catalog entry for a listed theme.
pub open spec fn entry_of(info: InfoView, is_default: bool) -> EntryView {
    (info.0, info.1, info.2, is_default)
}

/// The entries, marked default, for the listed themes with id `id`, in list
/// order.
pub open spec fn with_id(s: Seq<InfoView>, id: Seq<char>) -> Seq<EntryView>
    decreases s.len(),
{
    if s.len() == 0 {
        Seq::empty()
    } else if s.last().0 == id {
        with_id(s.drop_last(), id).push(entry_of(s.last(), true))
    } else {
        with_id(s.drop_last(), id)
    }
}

/// The default entries, grouped by `ids` in order.
pub open spec fn defaults_part(s: Seq<InfoView>, ids: Seq<Seq<char>>) -> Seq<EntryView>
    decreases ids.len(),
{
    if ids.len() == 0 {
        Seq::empty()
    } else {
        defaults_part(s, ids.drop_last()) + with_id(s, ids.last())
    }
}

/// The store entries: listed themes that are not curated defaults, in list
/// order.
pub open spec fn store_part(s: Seq<InfoView>) -> Seq<EntryView>
    decreases s.len(),
{
    if s.len() == 0 {
        Seq::empty()
    } else if default_ids().contains(s.last().0) {
        store_part(s.drop_last())
    } else {
        store_part(s.drop_last()).push(entry_of(s.last(), false))
    }
}

/// The catalog of a theme list: the curated defaults in declared order, then
/// the store in list order.
pub open spec fn arranged(s: Seq<InfoView>) -> Seq<EntryView> {
    defaults_part(s, default_ids()) + store_part(s)
}

/// The value a swatch shows for `var`: the mapped theme's value, or the
/// neutral fallback when the theme does not load or lacks the variable.
pub open spec fn swatch(id: Seq<char>, var: Seq<char>) -> Seq<char> {
    if opaline_has_builtin(id) && opaline_vars(id).contains_key(var) {
        opaline_vars(id)[var]
    } else {
        "#888888"@
    }
}

fn swatch_of(theme: &Result<crate::theme::KiteTheme, String>, var: &str) -> (r: String)
    requires
        theme matches Ok(t) ==> t.wf(),
    ensures
        r@ == match theme {
            Ok(t) => if t@.contains_key(var@) {
                t@[var@]
            } else {
                "#888888"@
            },
            Err(_) => "#888888"@,
        },
{
    match theme {
        Ok(t) => match t.get(var) {
            Some(v) => String::from_str(v),
            None => String::from_str("#888888"),
        },
        Err(_) => String::from_str("#888888"),
    }
}

/// Preview swatches for a theme row: `(--bg-0, --fg-0, --accent)` hexes.
pub fn swatches(id: &str) -> (r: (String, String, String))
    ensures
        r.0@ == swatch(id@, "--bg-0"@),
        r.1@ == swatch(id@, "--fg-0"@),
        r.2@ == swatch(id@, "--accent"@),
{
    let theme = load_and_map(id);
    (swatch_of(&theme, "--bg-0"), swatch_of(&theme, "--fg-0"), swatch_of(&theme, "--accent"))
}

/// True when `entry_id` is the currently selected theme. The boot default is
/// opaline's `"default"` alias (SilkCircuit Neon), which is not a catalog id —
/// so `"default"` matches `"silkcircuit-neon"`.
pub fn matches_current(entry_id: &str, current: &str) -> (r: bool)
    ensures
        r == (entry_id@ == current@ || (current@ == "default"@ && entry_id@
            == "silkcircuit-neon"@)),
{
    text_eq(entry_id, current) || (text_eq(current, "default") && text_eq(
        entry_id,
        "silkcircuit-neon",
    ))
}

/// The boot default id (the opaline alias for SilkCircuit Neon).
pub fn default_id() -> (r: &'static str)
    ensures
        r@ == "default"@,
{
    "default"
}

/// The first position at or after `i` of `id` among the curated defaults.
pub open spec fn position_from(ids: Seq<Seq<char>>, id: Seq<char>, i: int) -> Option<int>
    decreases ids.len() - i,
{
    if i < 0 || i >= ids.len() {
        None
    } else if ids[i] == id {
        Some(i)
    } else {
        position_from(ids, id, i + 1)
    }
}

/// Where `id` sits among the curated defaults (`usize::MAX` when it is not
/// one of them): the key the defaults are ordered by.
pub fn default_position(id: &str) -> (r: usize)
    ensures
        r == match position_from(default_ids(), id@, 0) {
            Some(i) => i as usize,
            None => usize::MAX,
        },
{
    let ids = DEFAULT_THEME_IDS;
    let mut i: usize = 0;
    while i < ids.len()
        invariant
            ids@ == DEFAULT_THEME_IDS@,
            i <= ids@.len(),
            position_from(default_ids(), id@, i as int) == position_from(default_ids(), id@, 0),
        decreases ids@.len() - i,
    {
        assert(default_ids()[i as int] == ids@[i as int]@);
        if text_eq(ids[i], id) {
            return i;
        }
        i = i + 1;
    }
    usize::MAX
}

/// Whether `id` is one of the curated defaults.
pub fn is_default_theme(id: &str) -> (r: bool)
    ensures
        r == default_ids().contains(id@),
{
    let ids = DEFAULT_THEME_IDS;
    let mut i: usize = 0;
    while i < ids.len()
        invariant
            ids@ == DEFAULT_THEME_IDS@,
            i <= ids@.len(),
            forall|k: int| 0 <= k < i ==> default_ids()[k] != id@,
        decreases ids@.len() - i,
    {
        assert(default_ids()[i as int] == ids@[i as int]@);
        if text_eq(ids[i], id) {
            assert(default_ids()[i as int] == id@);
            return true;
        }
        i = i + 1;
    }
    false
}

fn make_entry(info: &OpalineThemeInfo, is_default: bool) -> (r: ThemeEntry)
    ensures
        entry_view(r) == entry_of((info.id@, info.display_name@, info.variant@), is_default),
{
    ThemeEntry {
        id: info.id.clone(),
        display_name: info.display_name.clone(),
        variant: info.variant.clone(),
        is_default,
    }
}

/// The catalog of a theme list: the curated defaults (in declared order)
/// first, then the remaining store entries in list order.
pub fn catalog_from(infos: Vec<OpalineThemeInfo>) -> (r: Vec<ThemeEntry>)
    ensures
        entries_view(r@) == arranged(infos_view(infos@)),
{
    let ghost s = infos_view(infos@);
    let ids = DEFAULT_THEME_IDS;
    let mut out: Vec<ThemeEntry> = Vec::new();
    let mut k: usize = 0;
    while k < ids.len()
        invariant
            ids@ == DEFAULT_THEME_IDS@,
            s == infos_view(infos@),
            k <= ids@.len(),
            entries_view(out@) == defaults_part(s, default_ids().subrange(0, k as int)),
        decreases ids@.len() - k,
    {
        let id = ids[k];
        let ghost before = entries_view(out@);
        let mut j: usize = 0;
        while j < infos.len()
            invariant
                s == infos_view(infos@),
                j <= infos@.len(),
                entries_view(out@) == before + with_id(s.subrange(0, j as int), id@),
            decreases infos@.len() - j,
        {
            let ghost prev = out@;
            assert(s.subrange(0, j + 1).drop_last() =~= s.subrange(0, j as int));
            if text_eq(infos[j].id.as_str(), id) {
                let e = make_entry(&infos[j], true);
                out.push(e);
                assert(entries_view(out@) =~= entries_view(prev).push(entry_view(e)));
            }
            j = j + 1;
        }
        assert(s.subrange(0, j as int) =~= s);
        proof {
            let sub = default_ids().subrange(0, k + 1);
            assert(sub.drop_last() =~= default_ids().subrange(0, k as int));
            assert(sub.last() == id@);
        }
        k = k + 1;
    }
    assert(default_ids().subrange(0, k as int) =~= default_ids());
    let ghost defaults = entries_view(out@);
    let mut j: usize = 0;
    while j < infos.len()
        invariant
            s == infos_view(infos@),
            j <= infos@.len(),
            entries_view(out@) == defaults + store_part(s.subrange(0, j as int)),
        decreases infos@.len() - j,
    {
        let ghost prev = out@;
        assert(s.subrange(0, j + 1).drop_last() =~= s.subrange(0, j as int));
        if !is_default_theme(infos[j].id.as_str()) {
            let e = make_entry(&infos[j], false);
            out.push(e);
            assert(entries_view(out@) =~= entries_view(prev).push(entry_view(e)));
        }
        j = j + 1;
    }
    assert(s.subrange(0, j as int) =~= s);
    out
}

/// Whether some catalog entry has id `id`.
pub open spec fn catalog_has(r: Seq<ThemeEntry>, id: Seq<char>) -> bool {
    exists|k: int| 0 <= k < r.len() && (#[trigger] r[k]).id@ == id
}

/// The full catalog: the curated defaults (in declared order) first, then
/// the remaining store entries, each loadable through the opaline engine,
/// with no id listed twice; every theme opaline bundles is in it.
pub fn catalog() -> (r: Vec<ThemeEntry>)
    ensures
        exists|s: Seq<InfoView>| entries_view(r@) == arranged(s),
        forall|id: Seq<char>|
            opaline_has_builtin(id) && id != "default"@ ==> #[trigger] catalog_has(r@, id),
        r@.len() >= default_ids().len(),
        forall|k: int|
            0 <= k < default_ids().len() ==> (#[trigger] r@[k]).id@ == default_ids()[k]
                && r@[k].is_default,
        forall|k: int|
            default_ids().len() <= k < r@.len() ==> !(#[trigger] r@[k]).is_default
                && !default_ids().contains(r@[k].id@),
        forall|k: int| 0 <= k < r@.len() ==> opaline_has_builtin(#[trigger] r@[k].id@),
        forall|i: int, j: int| 0 <= i < j < r@.len() ==> #[trigger] r@[i].id@ != #[trigger] r@[j].id@,
{
    let infos = list_opaline_themes();
    let ghost s = infos_view(infos@);
    let ghost iv = infos@;
    let r = catalog_from(infos);
    proof {
        assert(entries_view(r@) == arranged(s));
        assert forall|i: int, j: int| 0 <= i < j < s.len() implies #[trigger] s[i].0 != #[trigger] s[j].0 by {
            assert(s[i].0 == iv[i].id@ && s[j].0 == iv[j].id@);
        }
        assert forall|k: int| 0 <= k < default_ids().len() implies id_count(
            s,
            #[trigger] default_ids()[k],
        ) == 1 by {
            let i = choose|i: int| 0 <= i < iv.len() && (#[trigger] iv[i]).id@ == default_ids()[k];
            assert(s[i].0 == default_ids()[k]);
            lemma_count_one(s, default_ids()[k]);
        }
        law_catalog_leads_with_the_defaults(s);
        lemma_arranged_from_list(s);
        lemma_arranged_distinct(s);
        assert forall|k: int| 0 <= k < r@.len() implies opaline_has_builtin(#[trigger] r@[k].id@) by {
            assert(entries_view(r@)[k] == arranged(s)[k]);
            let i = choose|i: int| 0 <= i < s.len() && s[i].0 == arranged(s)[k].0;
            assert(s[i].0 == iv[i].id@);
        }
        assert forall|i: int, j: int| 0 <= i < j < r@.len() implies #[trigger] r@[i].id@
            != #[trigger] r@[j].id@ by {
            assert(entries_view(r@)[i] == arranged(s)[i]);
            assert(entries_view(r@)[j] == arranged(s)[j]);
        }
        assert forall|k: int| 0 <= k < default_ids().len() implies (#[trigger] r@[k]).id@
            == default_ids()[k] && r@[k].is_default by {
            assert(entries_view(r@)[k] == arranged(s)[k]);
        }
        assert forall|k: int| default_ids().len() <= k < r@.len() implies !(
        #[trigger] r@[k]).is_default && !default_ids().contains(r@[k].id@) by {
            assert(entries_view(r@)[k] == arranged(s)[k]);
        }
        lemma_list_in_arranged(s);
        assert forall|id: Seq<char>| opaline_has_builtin(id) && id != "default"@ implies #[trigger] catalog_has(
            r@,
            id,
        ) by {
            assert(lists_id(iv, id));
            let i = choose|i: int| 0 <= i < iv.len() && (#[trigger] iv[i]).id@ == id;
            assert(s[i].0 == id);
            let k = choose|k: int| 0 <= k < arranged(s).len() && (#[trigger] arranged(s)[k]).0 == s[i].0;
            assert(entries_view(r@)[k] == arranged(s)[k]);
            assert(r@[k].id@ == id);
        }
    }
    r
}

proof fn lemma_store_has(s: Seq<InfoView>)
    ensures
        forall|i: int|
            0 <= i < s.len() && !default_ids().contains(#[trigger] s[i].0) ==> exists|k: int|
                0 <= k < store_part(s).len() && (#[trigger] store_part(s)[k]).0 == s[i].0,
    decreases s.len(),
{
    if s.len() > 0 {
        let init = s.drop_last();
        lemma_store_has(init);
        let p = store_part(init);
        assert forall|i: int|
            0 <= i < s.len() && !default_ids().contains(#[trigger] s[i].0) implies exists|k: int|
                0 <= k < store_part(s).len() && (#[trigger] store_part(s)[k]).0 == s[i].0 by {
            if i < init.len() {
                assert(init[i] == s[i]);
                let k = choose|k: int| 0 <= k < p.len() && (#[trigger] p[k]).0 == init[i].0;
                assert(store_part(s)[k] == p[k]);
            } else {
                assert(store_part(s)[p.len() as int].0 == s[i].0);
            }
        }
    }
}

/// Every listed theme appears in the catalog of the list, when the list
/// holds each curated default exactly once.
proof fn lemma_list_in_arranged(s: Seq<InfoView>)
    requires
        forall|k: int|
            0 <= k < default_ids().len() ==> id_count(s, #[trigger] default_ids()[k]) == 1,
    ensures
        forall|i: int|
            0 <= i < s.len() ==> exists|k: int|
                0 <= k < arranged(s).len() && (#[trigger] arranged(s)[k]).0 == (#[trigger] s[i]).0,
{
    law_catalog_leads_with_the_defaults(s);
    lemma_defaults_part(s, default_ids());
    lemma_store_has(s);
    let d = defaults_part(s, default_ids());
    assert forall|i: int| 0 <= i < s.len() implies exists|k: int|
        0 <= k < arranged(s).len() && (#[trigger] arranged(s)[k]).0 == (#[trigger] s[i]).0 by {
        if default_ids().contains(s[i].0) {
            let j = choose|j: int| 0 <= j < default_ids().len() && default_ids()[j] == s[i].0;
            assert(arranged(s)[j].0 == default_ids()[j]);
        } else {
            let k = choose|k: int| 0 <= k < store_part(s).len() && (#[trigger] store_part(s)[k]).0 == s[i].0;
            assert(arranged(s)[d.len() + k] == store_part(s)[k]);
        }
    }
}

/// Whether the listed themes carry pairwise distinct ids.
pub open spec fn distinct_ids(s: Seq<InfoView>) -> bool {
    forall|i: int, j: int| 0 <= i < j < s.len() ==> #[trigger] s[i].0 != #[trigger] s[j].0
}

proof fn lemma_count_zero(s: Seq<InfoView>, id: Seq<char>)
    requires
        forall|i: int| 0 <= i < s.len() ==> (#[trigger] s[i]).0 != id,
    ensures
        id_count(s, id) == 0,
    decreases s.len(),
{
    if s.len() > 0 {
        let init = s.drop_last();
        assert forall|i: int| 0 <= i < init.len() implies (#[trigger] init[i]).0 != id by {
            assert(init[i] == s[i]);
        }
        lemma_count_zero(init, id);
    }
}

proof fn lemma_count_one(s: Seq<InfoView>, id: Seq<char>)
    requires
        distinct_ids(s),
        exists|i: int| 0 <= i < s.len() && (#[trigger] s[i]).0 == id,
    ensures
        id_count(s, id) == 1,
    decreases s.len(),
{
    let init = s.drop_last();
    if s.last().0 == id {
        assert forall|i: int| 0 <= i < init.len() implies (#[trigger] init[i]).0 != id by {
            assert(init[i] == s[i]);
            assert(s[i].0 != s[s.len() - 1].0);
        }
        lemma_count_zero(init, id);
    } else {
        let i = choose|i: int| 0 <= i < s.len() && (#[trigger] s[i]).0 == id;
        assert(init[i] == s[i]);
        assert forall|a: int, b: int| 0 <= a < b < init.len() implies #[trigger] init[a].0
            != #[trigger] init[b].0 by {
            assert(init[a] == s[a] && init[b] == s[b]);
        }
        lemma_count_one(init, id);
    }
}

proof fn lemma_store_from_list(s: Seq<InfoView>)
    ensures
        forall|k: int|
            0 <= k < store_part(s).len() ==> exists|i: int|
                0 <= i < s.len() && s[i].0 == (#[trigger] store_part(s)[k]).0,
    decreases s.len(),
{
    if s.len() > 0 {
        let init = s.drop_last();
        lemma_store_from_list(init);
        assert forall|k: int| 0 <= k < store_part(s).len() implies exists|i: int|
            0 <= i < s.len() && s[i].0 == (#[trigger] store_part(s)[k]).0 by {
            if k < store_part(init).len() {
                assert(store_part(s)[k] == store_part(init)[k]);
                let i = choose|i: int| 0 <= i < init.len() && init[i].0 == store_part(init)[k].0;
                assert(s[i] == init[i]);
            } else {
                assert(store_part(s)[k].0 == s[s.len() - 1].0);
            }
        }
    }
}

proof fn lemma_store_distinct(s: Seq<InfoView>)
    requires
        distinct_ids(s),
    ensures
        forall|a: int, b: int|
            0 <= a < b < store_part(s).len() ==> #[trigger] store_part(s)[a].0
                != #[trigger] store_part(s)[b].0,
    decreases s.len(),
{
    if s.len() > 0 {
        let init = s.drop_last();
        assert forall|a: int, b: int| 0 <= a < b < init.len() implies #[trigger] init[a].0
            != #[trigger] init[b].0 by {
            assert(init[a] == s[a] && init[b] == s[b]);
        }
        lemma_store_distinct(init);
        lemma_store_from_list(init);
        let p = store_part(init);
        assert forall|a: int, b: int| 0 <= a < b < store_part(s).len() implies #[trigger] store_part(
            s,
        )[a].0 != #[trigger] store_part(s)[b].0 by {
            if b < p.len() {
                assert(store_part(s)[a] == p[a] && store_part(s)[b] == p[b]);
            } else {
                assert(store_part(s)[a] == p[a]);
                let i = choose|i: int| 0 <= i < init.len() && init[i].0 == p[a].0;
                assert(s[i] == init[i]);
                assert(s[i].0 != s[s.len() - 1].0);
            }
        }
    }
}

proof fn lemma_with_id_from_list(s: Seq<InfoView>, id: Seq<char>)
    ensures
        with_id(s, id).len() > 0 ==> exists|i: int| 0 <= i < s.len() && s[i].0 == id,
    decreases s.len(),
{
    if s.len() > 0 {
        let init = s.drop_last();
        lemma_with_id_from_list(init, id);
        if with_id(init, id).len() > 0 {
            let i = choose|i: int| 0 <= i < init.len() && init[i].0 == id;
            assert(s[i] == init[i]);
        } else if s.last().0 == id {
            assert(s[s.len() - 1].0 == id);
        }
    }
}

/// Every catalog entry of a theme list carries the id of a listed theme.
proof fn lemma_arranged_from_list(s: Seq<InfoView>)
    requires
        forall|k: int|
            0 <= k < default_ids().len() ==> id_count(s, #[trigger] default_ids()[k]) == 1,
    ensures
        forall|k: int|
            0 <= k < arranged(s).len() ==> exists|i: int|
                0 <= i < s.len() && s[i].0 == (#[trigger] arranged(s)[k]).0,
{
    lemma_defaults_part(s, default_ids());
    lemma_store_from_list(s);
    let d = defaults_part(s, default_ids());
    assert forall|k: int| 0 <= k < arranged(s).len() implies exists|i: int|
        0 <= i < s.len() && s[i].0 == (#[trigger] arranged(s)[k]).0 by {
        if k < d.len() {
            assert(arranged(s)[k] == d[k]);
            let id = default_ids()[k];
            lemma_with_id(s, id);
            lemma_with_id_from_list(s, id);
        } else {
            assert(arranged(s)[k] == store_part(s)[k - d.len()]);
        }
    }
}

proof fn lemma_default_ids_distinct()
    ensures
        forall|a: int, b: int|
            0 <= a < b < default_ids().len() ==> #[trigger] default_ids()[a]
                != #[trigger] default_ids()[b],
{
    reveal_strlit("one-light");
    reveal_strlit("one-dark");
    reveal_strlit("catppuccin-mocha");
    reveal_strlit("tokyo-night");
    reveal_strlit("rose-pine");
    let ids = seq!["one-light"@, "one-dark"@, "catppuccin-mocha"@, "tokyo-night"@, "rose-pine"@];
    assert(default_ids() =~= ids);
    assert(ids[0].len() == 9 && ids[1].len() == 8 && ids[2].len() == 16 && ids[3].len() == 11
        && ids[4].len() == 9);
    assert(ids[0][0] != ids[4][0]);
    assert forall|a: int, b: int| 0 <= a < b < ids.len() implies #[trigger] ids[a]
        != #[trigger] ids[b] by {
        if a == 0 && b == 4 {
            assert(ids[a][0] != ids[b][0]);
        } else {
            assert(ids[a].len() != ids[b].len());
        }
    }
}

/// No id appears twice in the catalog of a list with distinct ids that holds
/// each curated default.
proof fn lemma_arranged_distinct(s: Seq<InfoView>)
    requires
        distinct_ids(s),
        forall|k: int|
            0 <= k < default_ids().len() ==> id_count(s, #[trigger] default_ids()[k]) == 1,
    ensures
        forall|a: int, b: int|
            0 <= a < b < arranged(s).len() ==> #[trigger] arranged(s)[a].0
                != #[trigger] arranged(s)[b].0,
{
    lemma_defaults_part(s, default_ids());
    lemma_store_part(s);
    lemma_store_distinct(s);
    lemma_default_ids_distinct();
    let d = defaults_part(s, default_ids());
    let st = store_part(s);
    assert forall|a: int, b: int| 0 <= a < b < arranged(s).len() implies #[trigger] arranged(s)[a].0
        != #[trigger] arranged(s)[b].0 by {
        if b < d.len() {
            assert(arranged(s)[a] == d[a] && arranged(s)[b] == d[b]);
        } else if a < d.len() {
            assert(arranged(s)[a] == d[a] && arranged(s)[b] == st[b - d.len()]);
            assert(default_ids()[a] == d[a].0);
        } else {
            assert(arranged(s)[a] == st[a - d.len()] && arranged(s)[b] == st[b - d.len()]);
        }
    }
}

/// How many listed themes have id `id`.
pub open spec fn id_count(s: Seq<InfoView>, id: Seq<char>) -> nat
    decreases s.len(),
{
    if s.len() == 0 {
        0
    } else {
        id_count(s.drop_last(), id) + if s.last().0 == id {
            1nat
        } else {
            0nat
        }
    }
}

proof fn lemma_with_id(s: Seq<InfoView>, id: Seq<char>)
    ensures
        with_id(s, id).len() == id_count(s, id),
        forall|k: int|
            0 <= k < with_id(s, id).len() ==> (#[trigger] with_id(s, id)[k]).0 == id
                && with_id(s, id)[k].3,
    decreases s.len(),
{
    if s.len() > 0 {
        lemma_with_id(s.drop_last(), id);
    }
}

proof fn lemma_defaults_part(s: Seq<InfoView>, ids: Seq<Seq<char>>)
    requires
        forall|k: int| 0 <= k < ids.len() ==> id_count(s, #[trigger] ids[k]) == 1,
    ensures
        defaults_part(s, ids).len() == ids.len(),
        forall|k: int|
            0 <= k < ids.len() ==> (#[trigger] defaults_part(s, ids)[k]).0 == ids[k]
                && defaults_part(s, ids)[k].3,
    decreases ids.len(),
{
    if ids.len() > 0 {
        let init = ids.drop_last();
        assert forall|k: int| 0 <= k < init.len() implies id_count(s, #[trigger] init[k]) == 1 by {
            assert(init[k] == ids[k]);
        }
        lemma_defaults_part(s, init);
        lemma_with_id(s, ids.last());
        assert(id_count(s, ids[ids.len() - 1]) == 1);
        assert forall|k: int| 0 <= k < ids.len() implies (#[trigger] defaults_part(s, ids)[k]).0
            == ids[k] && defaults_part(s, ids)[k].3 by {
            if k < init.len() {
                assert(defaults_part(s, ids)[k] == defaults_part(s, init)[k]);
                assert(init[k] == ids[k]);
            } else {
                assert(defaults_part(s, ids)[k] == with_id(s, ids.last())[0]);
            }
        }
    }
}

proof fn lemma_store_part(s: Seq<InfoView>)
    ensures
        forall|k: int|
            0 <= k < store_part(s).len() ==> !(#[trigger] store_part(s)[k]).3
                && !default_ids().contains(store_part(s)[k].0),
    decreases s.len(),
{
    if s.len() > 0 {
        let prev = store_part(s.drop_last());
        lemma_store_part(s.drop_last());
        assert forall|k: int| 0 <= k < store_part(s).len() implies !(
        #[trigger] store_part(s)[k]).3 && !default_ids().contains(store_part(s)[k].0) by {
            if k < prev.len() {
                assert(store_part(s)[k] == prev[k]);
            }
        }
    }
}

/// The catalog leads with the curated defaults in their declared order,
/// marked default, whenever the theme list holds each of them exactly once;
/// every entry after them is a store entry that is not a curated default.
pub proof fn law_catalog_leads_with_the_defaults(s: Seq<InfoView>)
    requires
        forall|k: int|
            0 <= k < default_ids().len() ==> id_count(s, #[trigger] default_ids()[k]) == 1,
    ensures
        arranged(s).len() >= default_ids().len(),
        forall|k: int|
            0 <= k < default_ids().len() ==> (#[trigger] arranged(s)[k]).0 == default_ids()[k]
                && arranged(s)[k].3,
        forall|k: int|
            default_ids().len() <= k < arranged(s).len() ==> !(#[trigger] arranged(s)[k]).3
                && !default_ids().contains(arranged(s)[k].0),
{
    lemma_defaults_part(s, default_ids());
    lemma_store_part(s);
    let d = defaults_part(s, default_ids());
    assert forall|k: int| 0 <= k < default_ids().len() implies (#[trigger] arranged(s)[k]).0
        == default_ids()[k] && arranged(s)[k].3 by {
        assert(arranged(s)[k] == d[k]);
    }
    assert forall|k: int| default_ids().len() <= k < arranged(s).len() implies !(
    #[trigger] arranged(s)[k]).3 && !default_ids().contains(arranged(s)[k].0) by {
        assert(arranged(s)[k] == store_part(s)[k - d.len()]);
    }
}

} // verus!
