//! Cluster connection state: the kubeconfig's context names, the active
//! context, and a client cached per context connected so far. Clients are
//! cached so switching back to a previously-connected context is instant;
//! `invalidate` forces a rebuild (re-auth) on the next connect. Reading the
//! kubeconfig and building a client are the host's job.

use vstd::prelude::*;

use crate::keyed::{as_map, get_entry, keys_sorted, pairs_view, remove_entry, upsert_entry};
use crate::text::text_of;

verus! {

/// `kube::Client`, carried opaquely in the client cache.
#[verifier::external_type_specification]
#[verifier::external_body]
pub struct ExKubeClient(kube::Client);

/// The character view of an optional text.
pub open spec fn opt_view(o: Option<String>) -> Option<Seq<char>> {
    match o {
        Some(s) => Some(s@),
        None => None,
    }
}

/// Active cluster connection: context names in kubeconfig order, the active
/// context, and the cached clients (kept in ascending context order).
pub struct ClusterState {
    contexts: Vec<String>,
    active: Option<String>,
    clients: Vec<(String, kube::Client)>,
}

/// What a cluster state holds: the context names, the active context, and
/// the cached client of each context.
pub struct ClusterView {
    pub contexts: Seq<Seq<char>>,
    pub active: Option<Seq<char>>,
    pub cached: Map<Seq<char>, kube::Client>,
}

/// The client `client()` hands out: the active context's cached client.
pub open spec fn active_client(v: ClusterView) -> Option<kube::Client> {
    match v.active {
        Some(c) => if v.cached.contains_key(c) {
            Some(v.cached[c])
        } else {
            None
        },
        None => None,
    }
}

/// The state after connecting to `context` with a cached client: it becomes
/// active, nothing else changes.
pub open spec fn after_reuse(v: ClusterView, context: Seq<char>) -> ClusterView {
    ClusterView { active: Some(context), ..v }
}

/// The state after a fresh client for `context` was built: it is cached and
/// the context becomes active.
pub open spec fn after_remember(v: ClusterView, context: Seq<char>, client: kube::Client) -> ClusterView {
    ClusterView { active: Some(context), cached: v.cached.insert(context, client), ..v }
}

/// The state after dropping the cached client of `context`.
pub open spec fn after_invalidate(v: ClusterView, context: Seq<char>) -> ClusterView {
    ClusterView { cached: v.cached.remove(context), ..v }
}

/// The state after disconnecting: no context is active, clients stay cached.
pub open spec fn after_disconnect(v: ClusterView) -> ClusterView {
    ClusterView { active: None, ..v }
}

impl ClusterState {
    /// What this state holds.
    pub closed spec fn view(&self) -> ClusterView {
        ClusterView {
            contexts: self.contexts@.map_values(|s: String| s@),
            active: opt_view(self.active),
            cached: as_map(pairs_view(self.clients@)),
        }
    }

    /// The client cache is kept in ascending context order; every state
    /// keeps this.
    #[verifier::type_invariant]
    pub closed spec fn wf(&self) -> bool {
        keys_sorted(pairs_view(self.clients@))
    }

    /// A state over the kubeconfig's context names (in file order) and its
    /// current context, with no client built yet.
    pub fn from_contexts(contexts: Vec<String>, current: Option<String>) -> (r: Self)
        ensures
            r.wf(),
            r.view().contexts == contexts@.map_values(|s: String| s@),
            r.view().active == opt_view(current),
            r.view().cached == Map::<Seq<char>, kube::Client>::empty(),
    {
        let r = ClusterState { contexts, active: current, clients: Vec::new() };
        assert(pairs_view(r.clients@) =~= Seq::<(Seq<char>, kube::Client)>::empty());
        r
    }

    /// Context names in kubeconfig order.
    pub fn contexts(&self) -> (r: &[String])
        ensures
            r@.map_values(|s: String| s@) == self.view().contexts,
    {
        self.contexts.as_slice()
    }

    /// Active context name.
    pub fn active(&self) -> (r: Option<&str>)
        ensures
            match (r, self.view().active) {
                (Some(a), Some(b)) => a@ == b,
                (None, None) => true,
                _ => false,
            },
    {
        match &self.active {
            Some(a) => Some(a.as_str()),
            None => None,
        }
    }

    /// The active client, if the active context has been connected.
    pub fn client(&self) -> (r: Option<&kube::Client>)
        ensures
            match (r, active_client(self.view())) {
                (Some(a), Some(b)) => *a == b,
                (None, None) => true,
                _ => false,
            },
    {
        proof {
            use_type_invariant(self);
        }
        match &self.active {
            Some(a) => get_entry(&self.clients, a.as_str()),
            None => None,
        }
    }

    /// Whether a client for `context` is cached.
    pub fn is_cached(&self, context: &str) -> (r: bool)
        ensures
            r == self.view().cached.contains_key(context@),
    {
        proof {
            use_type_invariant(self);
        }
        get_entry(&self.clients, context).is_some()
    }

    /// Connect to `context` through its cached client when there is one: it
    /// becomes active and `true` comes back. Without a cached client nothing
    /// changes and the caller builds one (then calls `remember`).
    pub fn reuse(&mut self, context: &str) -> (r: bool)
        ensures
            final(self).wf(),
            r == old(self).view().cached.contains_key(context@),
            r ==> final(self).view() == after_reuse(old(self).view(), context@),
            !r ==> final(self).view() == old(self).view(),
    {
        proof {
            use_type_invariant(&*self);
        }
        if get_entry(&self.clients, context).is_some() {
            self.active = Some(text_of(context));
            true
        } else {
            false
        }
    }

    /// Cache a freshly built client for `context` and make it active.
    pub fn remember(&mut self, context: &str, client: kube::Client)
        ensures
            final(self).wf(),
            final(self).view() == after_remember(old(self).view(), context@, client),
    {
        proof {
            use_type_invariant(&*self);
        }
        let mut clients: Vec<(String, kube::Client)> = Vec::new();
        std::mem::swap(&mut clients, &mut self.clients);
        upsert_entry(&mut clients, text_of(context), client);
        self.clients = clients;
        self.active = Some(text_of(context));
    }

    /// Drop the cached client for a context — the next connect re-authenticates.
    pub fn invalidate(&mut self, context: &str)
        ensures
            final(self).wf(),
            final(self).view() == after_invalidate(old(self).view(), context@),
    {
        proof {
            use_type_invariant(&*self);
        }
        let mut clients: Vec<(String, kube::Client)> = Vec::new();
        std::mem::swap(&mut clients, &mut self.clients);
        let _ = remove_entry(&mut clients, context);
        self.clients = clients;
    }

    /// Disconnect: clear the active context (clients stay cached for fast
    /// re-switch).
    pub fn disconnect(&mut self)
        ensures
            final(self).wf(),
            final(self).view() == after_disconnect(old(self).view()),
    {
        proof {
            use_type_invariant(&*self);
        }
        self.active = None;
    }
}

impl Default for ClusterState {
    fn default() -> (r: Self)
        ensures
            r.wf(),
            r.view().contexts.len() == 0,
            r.view().active is None,
            r.view().cached == Map::<Seq<char>, kube::Client>::empty(),
    {
        ClusterState::from_contexts(Vec::new(), None)
    }
}

/// Switching back to a context connected before reuses its client: after
/// `remember(c, client)` (and any later switch away or disconnect), `reuse(c)`
/// succeeds and `client()` hands out that same client.
pub proof fn law_connected_context_is_reused(v: ClusterView, c: Seq<char>, client: kube::Client, other: Seq<char>)
    ensures
        after_remember(v, c, client).cached.contains_key(c),
        active_client(after_reuse(after_disconnect(after_remember(v, c, client)), c)) == Some(
            client,
        ),
        c != other ==> active_client(
            after_reuse(after_invalidate(after_remember(v, c, client), other), c),
        ) == Some(client),
{
}

/// After `invalidate(c)` a connect to `c` cannot reuse a client: `reuse(c)`
/// reports no cached client, so a new one is built.
pub proof fn law_invalidated_context_is_rebuilt(v: ClusterView, c: Seq<char>)
    ensures
        !after_invalidate(v, c).cached.contains_key(c),
{
}

} // verus!
