//! Push subscriptions: the registry that decides which live-state updates
//! reach which webview subscription, and with which revision number.
//! Delivering the messages over the channel to the webview is the host's
//! job.

use vstd::prelude::*;

use crate::shell::opt_text;
use crate::text::{text_eq, text_of};

verus! {

/// One live subscription.
#[derive(Debug, Clone, PartialEq, Eq)]
struct Subscription {
    kind: String,
    ns: Option<String>,
    revision: u64,
}

/// A subscription by its kind, namespace filter, and revision.
pub type SubscriptionView = (Seq<char>, Option<Seq<char>>, u64);

/// Registry of webview subscriptions to live resource kinds, by id in
/// allocation order.
#[derive(Debug)]
pub struct PushRegistry {
    next_sub: u64,
    subs: Vec<(u64, Subscription)>,
}

/// Whether a subscription on `want` receives a publish for `got`: a
/// cluster-wide subscription receives everything, a namespaced one only
/// publishes for its namespace.
pub open spec fn namespace_matches(want: Option<Seq<char>>, got: Option<Seq<char>>) -> bool {
    match (want, got) {
        (None, _) => true,
        (Some(w), Some(g)) => w == g,
        (Some(_), None) => false,
    }
}

/// The ids of subscriptions matching a publish of `kind` in `ns`, in id
/// order.
pub open spec fn matching_ids(
    s: Seq<(u64, SubscriptionView)>,
    kind: Seq<char>,
    ns: Option<Seq<char>>,
) -> Seq<u64>
    decreases s.len(),
{
    if s.len() == 0 {
        Seq::empty()
    } else {
        let r = matching_ids(s.drop_last(), kind, ns);
        let (id, (k, want, _)) = s.last();
        if k == kind && namespace_matches(want, ns) {
            r.push(id)
        } else {
            r
        }
    }
}

/// Whether `s` holds a subscription with id `id`.
pub open spec fn has_id(s: Seq<(u64, SubscriptionView)>, id: u64) -> bool {
    exists|i: int| 0 <= i < s.len() && (#[trigger] s[i]).0 == id
}

/// The subscriptions an entry list holds.
spec fn subs_view(v: Seq<(u64, Subscription)>) -> Seq<(u64, SubscriptionView)> {
    v.map_values(|e: (u64, Subscription)| (e.0, (e.1.kind@, opt_text(e.1.ns), e.1.revision)))
}

impl Default for PushRegistry {
    fn default() -> (r: Self)
        ensures
            r.wf(),
            r.last_id() == 0,
            r.subscriptions().len() == 0,
    {
        PushRegistry::new()
    }
}

impl PushRegistry {
    /// The last id handed out (0 before the first subscription).
    pub closed spec fn last_id(&self) -> u64 {
        self.next_sub
    }

    /// The live subscriptions in id order.
    pub closed spec fn subscriptions(&self) -> Seq<(u64, SubscriptionView)> {
        subs_view(self.subs@)
    }

    /// Ids strictly ascend and never exceed the last id handed out; every
    /// registry keeps this.
    #[verifier::type_invariant]
    pub open spec fn wf(&self) -> bool {
        &&& forall|i: int, j: int|
            0 <= i < j < self.subscriptions().len() ==> (#[trigger] self.subscriptions()[i]).0
                < (#[trigger] self.subscriptions()[j]).0
        &&& forall|i: int|
            0 <= i < self.subscriptions().len() ==> 0 < (#[trigger] self.subscriptions()[i]).0
                <= self.last_id()
    }

    /// An empty registry.
    pub fn new() -> (r: Self)
        ensures
            r.wf(),
            r.last_id() == 0,
            r.subscriptions().len() == 0,
    {
        let r = PushRegistry { next_sub: 0, subs: Vec::new() };
        assert(r.subscriptions().len() == 0);
        r
    }

    /// Register a subscription; returns its fresh id.
    pub fn subscribe(&mut self, kind: &str, ns: Option<String>) -> (r: u64)
        requires
            old(self).last_id() < u64::MAX,
        ensures
            final(self).wf(),
            r == old(self).last_id() + 1,
            final(self).last_id() == r,
            final(self).subscriptions() == old(self).subscriptions().push(
                (r, (kind@, opt_text(ns), 0u64)),
            ),
    {
        proof {
            use_type_invariant(&*self);
        }
        let mut subs: Vec<(u64, Subscription)> = Vec::new();
        std::mem::swap(&mut subs, &mut self.subs);
        let sub = self.next_sub + 1;
        self.next_sub = sub;
        let ghost nsv = opt_text(ns);
        subs.push((sub, Subscription { kind: text_of(kind), ns, revision: 0 }));
        proof {
            let old_s = old(self).subscriptions();
            assert(subs_view(subs@) =~= old_s.push((sub, (kind@, nsv, 0u64))));
            let t = subs_view(subs@);
            assert forall|a: int, b: int| 0 <= a < b < t.len() implies (#[trigger] t[a]).0 < (
            #[trigger] t[b]).0 by {
                if b == t.len() - 1 {
                    assert(t[a] == old_s[a]);
                    assert(old_s[a].0 <= old(self).last_id());
                } else {
                    assert(t[a] == old_s[a] && t[b] == old_s[b]);
                }
            }
            assert forall|a: int| 0 <= a < t.len() implies 0 < (#[trigger] t[a]).0
                <= sub by {
                if a < t.len() - 1 {
                    assert(t[a] == old_s[a]);
                }
            }
        }
        self.subs = subs;
        sub
    }

    /// Drop a subscription; whether it was live.
    pub fn unsubscribe(&mut self, sub: u64) -> (r: bool)
        ensures
            final(self).wf(),
            r == has_id(old(self).subscriptions(), sub),
            final(self).last_id() == old(self).last_id(),
            final(self).subscriptions() == (if r {
                old(self).subscriptions().remove(
                    choose|i: int|
                        0 <= i < old(self).subscriptions().len() && (#[trigger] old(
                            self,
                        ).subscriptions()[i]).0 == sub,
                )
            } else {
                old(self).subscriptions()
            }),
            !has_id(final(self).subscriptions(), sub),
    {
        proof {
            use_type_invariant(&*self);
        }
        let ghost s = self.subscriptions();
        let mut i: usize = 0;
        while i < self.subs.len()
            invariant
                i <= self.subs.len(),
                s == self.subscriptions(),
                s == old(self).subscriptions(),
                self.next_sub == old(self).next_sub,
                old(self).wf(),
                forall|j: int| 0 <= j < i ==> (#[trigger] s[j]).0 != sub,
            decreases self.subs.len() - i,
        {
            assert(s[i as int].0 == self.subs@[i as int].0);
            if self.subs[i].0 == sub {
                let mut subs: Vec<(u64, Subscription)> = Vec::new();
                std::mem::swap(&mut subs, &mut self.subs);
                subs.remove(i);
                proof {
                    let t = subs_view(subs@);
                    assert(t =~= s.remove(i as int));
                    let c = choose|k: int| 0 <= k < s.len() && (#[trigger] s[k]).0 == sub;
                    if c != i {
                        if c < i {
                        } else {
                            assert(s[i as int].0 < s[c].0);
                        }
                    }
                    assert forall|k: int| 0 <= k < t.len() implies (
                        #[trigger] t[k]).0 != sub by {
                        if k >= i {
                            assert(t[k] == s[k + 1]);
                            assert(s[i as int].0 < s[k + 1].0);
                        }
                    }
                    assert forall|a: int, b: int|
                        0 <= a < b < t.len() implies (
                        #[trigger] t[a]).0 < (
                        #[trigger] t[b]).0 by {
                        let sa = if a < i { s[a] } else { s[a + 1] };
                        let sb = if b < i { s[b] } else { s[b + 1] };
                        assert(t[a] == sa);
                        assert(t[b] == sb);
                    }
                    assert forall|k: int| 0 <= k < t.len() implies 0 < (
                        #[trigger] t[k]).0 <= self.next_sub by {
                        if k < i {
                            assert(t[k] == s[k]);
                        } else {
                            assert(t[k] == s[k + 1]);
                        }
                    }
                }
                self.subs = subs;
                return true;
            }
            i = i + 1;
        }
        false
    }

    /// Number of live subscriptions.
    pub fn len(&self) -> (r: usize)
        ensures
            r == self.subscriptions().len(),
    {
        self.subs.len()
    }

    /// Whether no subscription is live.
    pub fn is_empty(&self) -> (r: bool)
        ensures
            r == (self.subscriptions().len() == 0),
    {
        self.subs.len() == 0
    }

    /// Ids of the subscriptions a publish of `kind` in `ns` reaches, in id
    /// order.
    pub fn matching(&self, kind: &str, ns: Option<&str>) -> (r: Vec<u64>)
        ensures
            r@ == matching_ids(
                self.subscriptions(),
                kind@,
                match ns {
                    Some(n) => Some(n@),
                    None => None,
                },
            ),
    {
        let ghost s = self.subscriptions();
        let ghost nsv = match ns {
            Some(n) => Some(n@),
            None => None::<Seq<char>>,
        };
        let mut out: Vec<u64> = Vec::new();
        let mut i: usize = 0;
        while i < self.subs.len()
            invariant
                i <= self.subs.len(),
                s == self.subscriptions(),
                nsv == (match ns {
                    Some(n) => Some(n@),
                    None => None::<Seq<char>>,
                }),
                out@ == matching_ids(s.subrange(0, i as int), kind@, nsv),
            decreases self.subs.len() - i,
        {
            let (id, sub) = (&self.subs[i].0, &self.subs[i].1);
            let kind_ok = text_eq(sub.kind.as_str(), kind);
            let ns_ok = match (&sub.ns, ns) {
                (None, _) => true,
                (Some(want), Some(got)) => text_eq(want.as_str(), got),
                (Some(_), None) => false,
            };
            proof {
                let next = s.subrange(0, i + 1);
                assert(next.drop_last() =~= s.subrange(0, i as int));
                assert(next.last() == s[i as int]);
                assert(s[i as int] == (*id, (sub.kind@, opt_text(sub.ns), sub.revision)));
            }
            if kind_ok && ns_ok {
                out.push(*id);
            }
            i = i + 1;
        }
        assert(s.subrange(0, i as int) =~= s);
        out
    }

    /// The revision a subscription has reached, or `None` for an unknown id.
    pub fn revision_of(&self, sub: u64) -> (r: Option<u64>)
        ensures
            !has_id(self.subscriptions(), sub) ==> r is None,
            forall|i: int|
                0 <= i < self.subscriptions().len() && (#[trigger] self.subscriptions()[i]).0 == sub
                    ==> r == Some(self.subscriptions()[i].1.2),
    {
        proof {
            use_type_invariant(self);
        }
        let ghost ss = self.subscriptions();
        let mut i: usize = 0;
        while i < self.subs.len()
            invariant
                i <= self.subs@.len(),
                self.wf(),
                ss == self.subscriptions(),
                ss.len() == self.subs@.len(),
                forall|j: int| 0 <= j < i ==> (#[trigger] ss[j]).0 != sub,
            decreases self.subs@.len() - i,
        {
            assert(ss[i as int].0 == self.subs@[i as int].0);
            if self.subs[i].0 == sub {
                assert(ss[i as int].1.2 == self.subs@[i as int].1.revision);
                proof {
                    assert forall|j: int|
                        0 <= j < ss.len() && (#[trigger] ss[j]).0 == sub implies j == i by {
                        if j < i {
                        } else if j > i {
                            assert(ss[i as int].0 < ss[j].0);
                        }
                    }
                }
                return Some(self.subs[i].1.revision);
            }
            i = i + 1;
        }
        proof {
            if has_id(ss, sub) {
                let k = choose|k: int| 0 <= k < ss.len() && (#[trigger] ss[k]).0 == sub;
                assert(ss[k].0 != sub);
            }
        }
        None
    }

    /// Bump a subscription's revision and return it; 0 for an unknown id.
    pub fn advance(&mut self, sub: u64) -> (r: u64)
        requires
            forall|i: int|
                0 <= i < old(self).subscriptions().len() && (#[trigger] old(
                    self,
                ).subscriptions()[i]).0 == sub ==> old(self).subscriptions()[i].1.2 < u64::MAX,
        ensures
            final(self).wf(),
            final(self).last_id() == old(self).last_id(),
            !has_id(old(self).subscriptions(), sub) ==> r == 0 && final(self).subscriptions()
                == old(self).subscriptions(),
            forall|i: int|
                0 <= i < old(self).subscriptions().len() && (#[trigger] old(
                    self,
                ).subscriptions()[i]).0 == sub ==> {
                    let (id, (k, n, rev)) = old(self).subscriptions()[i];
                    &&& r == rev + 1
                    &&& final(self).subscriptions() == old(self).subscriptions().update(
                        i,
                        (id, (k, n, r)),
                    )
                },
    {
        proof {
            use_type_invariant(&*self);
        }
        let ghost s = self.subscriptions();
        let mut i: usize = 0;
        while i < self.subs.len()
            invariant
                i <= self.subs.len(),
                s == self.subscriptions(),
                s == old(self).subscriptions(),
                self.next_sub == old(self).next_sub,
                old(self).wf(),
                forall|j: int| 0 <= j < i ==> (#[trigger] s[j]).0 != sub,
                forall|j: int| 0 <= j < s.len() && (#[trigger] s[j]).0 == sub ==> s[j].1.2 < u64::MAX,
            decreases self.subs.len() - i,
        {
            assert(s[i as int].0 == self.subs@[i as int].0);
            if self.subs[i].0 == sub {
                let mut subs: Vec<(u64, Subscription)> = Vec::new();
                std::mem::swap(&mut subs, &mut self.subs);
                let (id, old_sub) = subs.remove(i);
                assert(old_sub.revision == s[i as int].1.2);
                let revision = old_sub.revision + 1;
                let updated = Subscription { kind: old_sub.kind, ns: old_sub.ns, revision };
                subs.insert(i, (id, updated));
                proof {
                    let t = subs_view(subs@);
                    assert(t =~= s.update(
                        i as int,
                        (id, (s[i as int].1.0, s[i as int].1.1, revision)),
                    ));
                    assert forall|a: int, b: int| 0 <= a < b < t.len() implies (#[trigger] t[a]).0 < (
                    #[trigger] t[b]).0 by {
                        assert(t[a].0 == s[a].0 && t[b].0 == s[b].0);
                    }
                    assert forall|k: int| 0 <= k < t.len() implies 0 < (#[trigger] t[k]).0
                        <= self.next_sub by {
                        assert(t[k].0 == s[k].0);
                    }
                    assert forall|j: int|
                        0 <= j < s.len() && (#[trigger] s[j]).0 == sub implies j == i by {
                        if j > i {
                            assert(s[i as int].0 < s[j].0);
                        }
                    }
                }
                self.subs = subs;
                return revision;
            }
            i = i + 1;
        }
        0
    }
}

/// Subscription ids are never reused: a fresh id differs from every live
/// one, and after unsubscribing an id no live subscription carries it.
pub proof fn law_subscription_ids_are_fresh(reg: PushRegistry, id: u64)
    requires
        reg.wf(),
        has_id(reg.subscriptions(), id),
    ensures
        id <= reg.last_id(),
        id != reg.last_id() + 1,
{
    let i = choose|i: int| 0 <= i < reg.subscriptions().len() && (#[trigger] reg.subscriptions()[i]).0 == id;
    assert(reg.subscriptions()[i].0 <= reg.last_id());
}

} // verus!
