//! Host command palette: the static command registry, the fuzzy filter
//! over it, and the wrapping selection cursor. Showing the overlay and
//! running a chosen command is the host's job.

use vstd::prelude::*;

use crate::fuzzy::{entry_view, matched, rank, sort_by_score, FuzzyMatch};
use crate::text::{blank, is_blank};

verus! {

/// A core view the palette can navigate to.
#[derive(Debug, Clone, Copy, PartialEq, Eq, Structural)]
pub enum NavTarget {
    Home,
    Cluster,
    Workloads,
    Logs,
    Config,
}

/// What running a [`Command`] does. Static-only, host-defined.
#[derive(Debug, Clone, Copy, PartialEq, Eq)]
pub enum CommandAction {
    /// Navigate to a core view.
    Navigate(NavTarget),
    /// Open the cluster switcher overlay.
    SwitchCluster,
    /// Cycle through the opaline theme catalog.
    CycleTheme,
    /// Open the CRUD modal for a new resource of the given kind (e.g.
    /// `"pods"`, `"deployments"`).
    NewResource(&'static str),
}

/// One entry in the palette registry.
#[derive(Debug, Clone, Copy, PartialEq, Eq)]
pub struct Command {
    /// Stable id.
    pub id: &'static str,
    /// User-visible label (fuzzy-matched against the query).
    pub label: &'static str,
    /// Section group for the row label.
    pub section: &'static str,
    /// Optional secondary line (rendered as a tooltip).
    pub description: &'static str,
    /// What running the command does.
    pub action: CommandAction,
}

/// The static command registry, in display order.
pub open spec fn command_table() -> Seq<Command> {
    seq![
        Command {
            id: "view.workloads",
            label: "Go to Workloads",
            section: "View",
            description: "Open the workloads table",
            action: CommandAction::Navigate(NavTarget::Workloads),
        },
        Command {
            id: "view.logs",
            label: "Go to Logs",
            section: "View",
            description: "Open the log viewer",
            action: CommandAction::Navigate(NavTarget::Logs),
        },
        Command {
            id: "view.cluster",
            label: "Go to Cluster",
            section: "View",
            description: "Open the cluster overview",
            action: CommandAction::Navigate(NavTarget::Cluster),
        },
        Command {
            id: "view.config",
            label: "Go to Config",
            section: "View",
            description: "Open the config views",
            action: CommandAction::Navigate(NavTarget::Config),
        },
        Command {
            id: "view.home",
            label: "Go to Home",
            section: "View",
            description: "Return to the home screen",
            action: CommandAction::Navigate(NavTarget::Home),
        },
        Command {
            id: "cluster.switch",
            label: "Switch Cluster…",
            section: "Cluster",
            description: "Open the cluster context switcher",
            action: CommandAction::SwitchCluster,
        },
        Command {
            id: "new.pod",
            label: "New Pod…",
            section: "Action",
            description: "Open the create-pod editor",
            action: CommandAction::NewResource("pods"),
        },
        Command {
            id: "new.deployment",
            label: "New Deployment…",
            section: "Action",
            description: "Open the create-deployment editor",
            action: CommandAction::NewResource("deployments"),
        },
        Command {
            id: "new.service",
            label: "New Service…",
            section: "Action",
            description: "Open the create-service editor",
            action: CommandAction::NewResource("services"),
        },
        Command {
            id: "new.configmap",
            label: "New ConfigMap…",
            section: "Action",
            description: "Open the create-configmap editor",
            action: CommandAction::NewResource("configmaps"),
        },
        Command {
            id: "new.secret",
            label: "New Secret…",
            section: "Action",
            description: "Open the create-secret editor",
            action: CommandAction::NewResource("secrets"),
        },
        Command {
            id: "settings.theme",
            label: "Cycle Theme",
            section: "Settings",
            description: "Switch to the next opaline theme",
            action: CommandAction::CycleTheme,
        }
    ]
}

/// The static command registry: the palette's source of truth, in three
/// sections plus settings. The order is the display order when the query
/// is blank; the fuzzy rank overrides it on a non-blank query.
pub fn commands() -> (r: Vec<Command>)
    ensures
        r@ == command_table(),
{
    let mut r: Vec<Command> = Vec::new();
    r.push(
        Command {
            id: "view.workloads",
            label: "Go to Workloads",
            section: "View",
            description: "Open the workloads table",
            action: CommandAction::Navigate(NavTarget::Workloads),
        },
    );
    r.push(
        Command {
            id: "view.logs",
            label: "Go to Logs",
            section: "View",
            description: "Open the log viewer",
            action: CommandAction::Navigate(NavTarget::Logs),
        },
    );
    r.push(
        Command {
            id: "view.cluster",
            label: "Go to Cluster",
            section: "View",
            description: "Open the cluster overview",
            action: CommandAction::Navigate(NavTarget::Cluster),
        },
    );
    r.push(
        Command {
            id: "view.config",
            label: "Go to Config",
            section: "View",
            description: "Open the config views",
            action: CommandAction::Navigate(NavTarget::Config),
        },
    );
    r.push(
        Command {
            id: "view.home",
            label: "Go to Home",
            section: "View",
            description: "Return to the home screen",
            action: CommandAction::Navigate(NavTarget::Home),
        },
    );
    r.push(
        Command {
            id: "cluster.switch",
            label: "Switch Cluster…",
            section: "Cluster",
            description: "Open the cluster context switcher",
            action: CommandAction::SwitchCluster,
        },
    );
    r.push(
        Command {
            id: "new.pod",
            label: "New Pod…",
            section: "Action",
            description: "Open the create-pod editor",
            action: CommandAction::NewResource("pods"),
        },
    );
    r.push(
        Command {
            id: "new.deployment",
            label: "New Deployment…",
            section: "Action",
            description: "Open the create-deployment editor",
            action: CommandAction::NewResource("deployments"),
        },
    );
    r.push(
        Command {
            id: "new.service",
            label: "New Service…",
            section: "Action",
            description: "Open the create-service editor",
            action: CommandAction::NewResource("services"),
        },
    );
    r.push(
        Command {
            id: "new.configmap",
            label: "New ConfigMap…",
            section: "Action",
            description: "Open the create-configmap editor",
            action: CommandAction::NewResource("configmaps"),
        },
    );
    r.push(
        Command {
            id: "new.secret",
            label: "New Secret…",
            section: "Action",
            description: "Open the create-secret editor",
            action: CommandAction::NewResource("secrets"),
        },
    );
    r.push(
        Command {
            id: "settings.theme",
            label: "Cycle Theme",
            section: "Settings",
            description: "Switch to the next opaline theme",
            action: CommandAction::CycleTheme,
        },
    );
    assert(r@ =~= command_table());
    r
}

/// The commands a query shows: all of them, in registry order, for a blank
/// query; otherwise those whose label fuzzy-matches, best first (ties keep
/// registry order).
pub open spec fn filtered(cmds: Seq<Command>, query: Seq<char>) -> Seq<Command> {
    if is_blank(query) {
        cmds
    } else {
        sort_by_score(matched(query, cmds.map_values(|c: Command| (c.label@, c)))).map_values(
            |e: (int, Seq<int>, Command)| e.2,
        )
    }
}

/// Filter commands by a fuzzy query against their labels. A blank (or
/// whitespace-only) query returns all commands in registry order.
pub fn filter_commands(cmds: &[Command], query: &str) -> (r: Vec<Command>)
    ensures
        r@ == filtered(cmds@, query@),
{
    if blank(query) {
        let mut all: Vec<Command> = Vec::new();
        let mut i: usize = 0;
        while i < cmds.len()
            invariant
                i <= cmds@.len(),
                all@ == cmds@.subrange(0, i as int),
            decreases cmds@.len() - i,
        {
            all.push(cmds[i]);
            i = i + 1;
            assert(all@ =~= cmds@.subrange(0, i as int));
        }
        assert(cmds@.subrange(0, i as int) =~= cmds@);
        return all;
    }
    let mut cands: Vec<(&str, Command)> = Vec::new();
    let mut i: usize = 0;
    while i < cmds.len()
        invariant
            i <= cmds@.len(),
            cands@.map_values(|c: (&str, Command)| (c.0@, c.1)) == cmds@.subrange(
                0,
                i as int,
            ).map_values(|c: Command| (c.label@, c)),
        decreases cmds@.len() - i,
    {
        let c = cmds[i];
        let ghost before = cands@;
        cands.push((c.label, c));
        assert(cands@ == before.push((c.label, c)));
        assert(cands@.map_values(|c: (&str, Command)| (c.0@, c.1)) =~= before.map_values(
            |c: (&str, Command)| (c.0@, c.1),
        ).push((c.label@, c)));
        assert(cmds@.subrange(0, i + 1) =~= cmds@.subrange(0, i as int).push(c));
        i = i + 1;
        assert(cands@.map_values(|c: (&str, Command)| (c.0@, c.1)) =~= cmds@.subrange(
            0,
            i as int,
        ).map_values(|c: Command| (c.label@, c)));
    }
    assert(cmds@.subrange(0, i as int) =~= cmds@);
    let ranked = rank(query, cands);
    let ghost rv = ranked@.map_values(|x: (FuzzyMatch, Command)| entry_view(x));
    let mut out: Vec<Command> = Vec::new();
    let mut k: usize = 0;
    while k < ranked.len()
        invariant
            k <= ranked@.len(),
            rv == ranked@.map_values(|x: (FuzzyMatch, Command)| entry_view(x)),
            out@ == rv.subrange(0, k as int).map_values(|e: (int, Seq<int>, Command)| e.2),
        decreases ranked@.len() - k,
    {
        out.push(ranked[k].1);
        k = k + 1;
        assert(out@ =~= rv.subrange(0, k as int).map_values(|e: (int, Seq<int>, Command)| e.2));
    }
    assert(rv.subrange(0, k as int) =~= rv);
    out
}

/// The selection after moving `delta` rows from `selected` in a list of
/// `len` rows, wrapping at both ends; a stale selection past the end is
/// first clamped to the last row, and no selection starts at the top.
pub open spec fn advanced(selected: Option<usize>, len: usize, delta: isize) -> Option<usize> {
    if len == 0 {
        None
    } else {
        Some(((cursor_base(selected, len) + delta) % (len as int)) as usize)
    }
}

/// The row a move starts from: the selection clamped to the last row, or
/// the top without one.
pub open spec fn cursor_base(selected: Option<usize>, len: usize) -> int {
    let sel = match selected {
        Some(s) => s as int,
        None => 0,
    };
    if sel < len - 1 {
        sel
    } else {
        len - 1
    }
}

/// Advance a selection by `delta` with wrapping; `None` when the list is
/// empty.
pub fn advance_cursor(selected: Option<usize>, len: usize, delta: isize) -> (r: Option<usize>)
    requires
        len <= isize::MAX,
        len > 0 ==> isize::MIN <= cursor_base(selected, len) + delta <= isize::MAX,
    ensures
        r == advanced(selected, len, delta),
{
    wrap_index(selected, len, delta)
}

/// The wrapping step shared by the palette and the cluster switcher.
pub fn wrap_index(selected: Option<usize>, len: usize, delta: isize) -> (r: Option<usize>)
    requires
        len <= isize::MAX,
        len > 0 ==> isize::MIN <= cursor_base(selected, len) + delta <= isize::MAX,
    ensures
        r == advanced(selected, len, delta),
{
    if len == 0 {
        return None;
    }
    let sel: usize = match selected {
        Some(s) => s,
        None => 0,
    };
    let base: usize = if sel < len - 1 {
        sel
    } else {
        len - 1
    };
    if delta >= 0 {
        let r = (base + (delta as usize)) % len;
        Some(r)
    } else {
        let d: usize = if delta == isize::MIN {
            (isize::MAX as usize) + 1
        } else {
            (-delta) as usize
        };
        assert(d == -delta);
        let dm = d % len;
        let r = (base + (len - dm)) % len;
        proof {
            let q = d as int / len as int;
            vstd::arithmetic::div_mod::lemma_fundamental_div_mod(d as int, len as int);
            assert(d as int == len * q + dm);
            vstd::arithmetic::div_mod::lemma_mod_multiples_vanish(q + 1, base - d, len as int);
            assert(len * (q + 1) + (base - d) == base + (len - dm)) by (nonlinear_arith)
                requires
                    d as int == len * q + dm,
            ;
        }
        Some(r)
    }
}

/// A moved cursor always lands on a row: it is `None` exactly for an empty
/// list, and otherwise below the list's length.
pub proof fn law_cursor_stays_in_range(selected: Option<usize>, len: usize, delta: isize)
    ensures
        advanced(selected, len, delta) is None <==> len == 0,
        advanced(selected, len, delta) matches Some(i) ==> i < len,
{
}

} // verus!
