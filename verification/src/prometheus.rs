//! Prometheus detection for expanded metrics.

use vstd::prelude::*;

use crate::keyed::{as_map, lookup_entry, pairs_view};
use crate::text::{text_eq, text_of};

verus! {

/// Well-known Prometheus service names, tried when the label is absent.
pub const KNOWN_NAMES: [&'static str; 3] = [
    "prometheus-kube-prometheus-prometheus",
    "prometheus-operated",
    "prometheus",
];

/// The well-known names, by their characters.
pub open spec fn known_names() -> Seq<Seq<char>> {
    KNOWN_NAMES@.map_values(|n: &'static str| n@)
}

/// The label that marks a Prometheus service.
pub open spec fn name_label() -> Seq<char> {
    "app.kubernetes.io/name"@
}

/// Whether a service with this name and these labels (name to value)
/// looks like a Prometheus instance: its
/// `app.kubernetes.io/name` label is `prometheus`, or its name is a
/// well-known one.
pub open spec fn looks_like_prometheus(
    name: Seq<char>,
    labels: Option<Seq<(Seq<char>, String)>>,
) -> bool {
    ||| labels matches Some(l) && as_map(l).contains_key(name_label()) && as_map(
        l,
    )[name_label()]@ == "prometheus"@
    ||| known_names().contains(name)
}

/// Whether a service looks like a Prometheus instance.
///
/// Matches the `app.kubernetes.io/name=prometheus` label, or a well-known
/// name. `labels` are the service's labels as name-value pairs.
pub fn is_prometheus_service(name: &str, labels: Option<&Vec<(String, String)>>) -> (r: bool)
    ensures
        r == looks_like_prometheus(
            name@,
            match labels {
                Some(l) => Some(pairs_view(l@)),
                None => None,
            },
        ),
{
    if let Some(l) = labels {
        if let Some(v) = lookup_entry(l, "app.kubernetes.io/name") {
            if text_eq(v.as_str(), "prometheus") {
                return true;
            }
        }
    }
    let names = KNOWN_NAMES;
    let mut i: usize = 0;
    while i < names.len()
        invariant
            names@ == KNOWN_NAMES@,
            i <= names@.len(),
            forall|k: int| 0 <= k < i ==> known_names()[k] != name@,
        decreases names@.len() - i,
    {
        assert(known_names()[i as int] == names@[i as int]@);
        if text_eq(names[i], name) {
            assert(known_names()[i as int] == name@);
            return true;
        }
        i = i + 1;
    }
    false
}

/// What detection reads of a service: its name and its labels (name to
/// value).
#[derive(Debug, Clone)]
pub struct ServiceMeta {
    pub name: Option<String>,
    pub labels: Option<Vec<(String, String)>>,
}

/// The name detection uses for a service (empty when unnamed).
pub open spec fn meta_name(s: ServiceMeta) -> Seq<char> {
    match s.name {
        Some(n) => n@,
        None => Seq::empty(),
    }
}

/// The labels of a service, as name-value pairs.
pub open spec fn meta_labels(s: ServiceMeta) -> Option<Seq<(Seq<char>, String)>> {
    match s.labels {
        Some(l) => Some(pairs_view(l@)),
        None => None,
    }
}

/// The name of the first service at or after `i` that looks like
/// Prometheus.
pub open spec fn first_prometheus(s: Seq<ServiceMeta>, i: int) -> Option<Seq<char>>
    decreases s.len() - i,
{
    if i < 0 || i >= s.len() {
        None
    } else if looks_like_prometheus(meta_name(s[i]), meta_labels(s[i])) {
        Some(meta_name(s[i]))
    } else {
        first_prometheus(s, i + 1)
    }
}

/// The first service that looks like Prometheus, if any. Earlier services
/// win.
pub fn detect_prometheus(services: &[ServiceMeta]) -> (r: Option<String>)
    ensures
        match r {
            Some(n) => first_prometheus(services@, 0) == Some(n@),
            None => first_prometheus(services@, 0) is None,
        },
{
    let mut i: usize = 0;
    while i < services.len()
        invariant
            i <= services@.len(),
            first_prometheus(services@, i as int) == first_prometheus(services@, 0),
        decreases services@.len() - i,
    {
        let svc = &services[i];
        let name = match &svc.name {
            Some(n) => n.as_str(),
            None => "",
        };
        proof {
            if svc.name is None {
                reveal_strlit("");
            }
        }
        assert(name@ == meta_name(services@[i as int]));
        let found = match &svc.labels {
            Some(l) => is_prometheus_service(name, Some(l)),
            None => is_prometheus_service(name, None),
        };
        if found {
            return Some(text_of(name));
        }
        i = i + 1;
    }
    None
}

} // verus!
