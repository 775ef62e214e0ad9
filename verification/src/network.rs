//! Config and network resource mapping: service ports and summaries,
//! ingress routing rows, config map entries and secret keys. The host reads
//! the objects from the cluster into the plain field types here.

use vstd::prelude::*;

use crate::keyed::{keys_sorted, pairs_view};
use crate::text::{
    compare_text, lemma_lex_asymmetric, lemma_lex_irreflexive, lemma_lex_total, lemma_lex_transitive, lex_lt,
    signed_decimal, signed_digits, text_of, Order,
};

verus! {

/// A port given as a number or as a named port.
#[derive(Debug, Clone, PartialEq, Eq)]
pub enum IntOrString {
    Int(i32),
    String(String),
}

/// How a port reads in the table: the number in decimal, or the name.
pub open spec fn port_text(v: IntOrString) -> Seq<char> {
    match v {
        IntOrString::Int(i) => signed_digits(i as int),
        IntOrString::String(s) => s@,
    }
}

/// Format an `IntOrString` (a port can be a number or a named port).
pub fn int_or_string(v: &IntOrString) -> (r: String)
    ensures
        r@ == port_text(*v),
{
    match v {
        IntOrString::Int(i) => signed_decimal(*i as i64),
        IntOrString::String(s) => s.clone(),
    }
}

/// A single service port row.
#[derive(Debug, Clone, PartialEq, Eq)]
pub struct ServicePortRow {
    pub name: String,
    pub port: i32,
    pub target_port: String,
    pub protocol: String,
    pub node_port: Option<i32>,
}

/// What the table reads of one service port.
#[derive(Debug, Clone, PartialEq, Eq)]
pub struct ServicePortFields {
    pub name: Option<String>,
    pub port: i32,
    pub target_port: Option<IntOrString>,
    pub protocol: Option<String>,
    pub node_port: Option<i32>,
}

/// What the views read of a service's spec.
#[derive(Debug, Clone, PartialEq, Eq)]
pub struct ServiceSpecFields {
    pub type_: Option<String>,
    pub cluster_ip: Option<String>,
    pub external_name: Option<String>,
    /// The selector labels, name to value, names ascending.
    pub selector: Option<Vec<(String, String)>>,
    pub ports: Option<Vec<ServicePortFields>>,
}

/// A text, or `default` when absent.
pub open spec fn or_text(o: Option<String>, default: Seq<char>) -> Seq<char> {
    match o {
        Some(s) => s@,
        None => default,
    }
}

/// A port row's view.
pub open spec fn port_row_view(r: ServicePortRow) -> (Seq<char>, i32, Seq<char>, Seq<char>, Option<i32>) {
    (r.name@, r.port, r.target_port@, r.protocol@, r.node_port)
}

/// The row a service port shows: missing names and target ports read empty,
/// a missing protocol reads `TCP`.
pub open spec fn port_row_of(p: ServicePortFields) -> (Seq<char>, i32, Seq<char>, Seq<char>, Option<i32>) {
    (
        or_text(p.name, Seq::empty()),
        p.port,
        match p.target_port {
            Some(t) => port_text(t),
            None => Seq::empty(),
        },
        or_text(p.protocol, "TCP"@),
        p.node_port,
    )
}

fn text_or_empty(o: &Option<String>) -> (r: String)
    ensures
        r@ == or_text(*o, Seq::empty()),
{
    match o {
        Some(s) => s.clone(),
        None => String::new(),
    }
}

fn text_or(o: &Option<String>, default: &str) -> (r: String)
    ensures
        r@ == or_text(*o, default@),
{
    match o {
        Some(s) => s.clone(),
        None => text_of(default),
    }
}

/// Extract the service port rows from a service's spec, in order.
pub fn service_ports(spec: &Option<ServiceSpecFields>) -> (r: Vec<ServicePortRow>)
    ensures
        r@.map_values(|x: ServicePortRow| port_row_view(x)) == match spec {
            Some(s) => match s.ports {
                Some(p) => p@.map_values(|x: ServicePortFields| port_row_of(x)),
                None => Seq::empty(),
            },
            None => Seq::empty(),
        },
{
    let mut out: Vec<ServicePortRow> = Vec::new();
    if let Some(s) = spec {
        if let Some(ports) = &s.ports {
            let mut i: usize = 0;
            while i < ports.len()
                invariant
                    i <= ports@.len(),
                    out@.map_values(|x: ServicePortRow| port_row_view(x)) == ports@.subrange(
                        0,
                        i as int,
                    ).map_values(|x: ServicePortFields| port_row_of(x)),
                decreases ports@.len() - i,
            {
                let p = &ports[i];
                let row = ServicePortRow {
                    name: text_or_empty(&p.name),
                    port: p.port,
                    target_port: match &p.target_port {
                        Some(t) => int_or_string(t),
                        None => String::new(),
                    },
                    protocol: text_or(&p.protocol, "TCP"),
                    node_port: p.node_port,
                };
                assert(port_row_view(row) == port_row_of(*p));
                let ghost before = out@;
                out.push(row);
                assert(out@.map_values(|x: ServicePortRow| port_row_view(x)) =~= before.map_values(
                    |x: ServicePortRow| port_row_view(x),
                ).push(port_row_of(*p)));
                assert(ports@.subrange(0, i + 1) =~= ports@.subrange(0, i as int).push(*p));
                i = i + 1;
            }
            assert(ports@.subrange(0, i as int) =~= ports@);
            return out;
        }
    }
    out
}

/// A service's high-level summary.
#[derive(Debug, Clone, PartialEq, Eq)]
pub struct ServiceSummary {
    pub type_: String,
    pub cluster_ip: String,
    pub external_name: String,
    /// The selector labels, name to value, names ascending.
    pub selector: Vec<(String, String)>,
}

/// Copy a list of text pairs.
pub fn copy_pairs(v: &Vec<(String, String)>) -> (r: Vec<(String, String)>)
    ensures
        r@ == v@,
{
    let mut out: Vec<(String, String)> = Vec::new();
    let mut i: usize = 0;
    while i < v.len()
        invariant
            i <= v@.len(),
            out@ == v@.subrange(0, i as int),
        decreases v@.len() - i,
    {
        out.push((v[i].0.clone(), v[i].1.clone()));
        i = i + 1;
        assert(out@ =~= v@.subrange(0, i as int));
    }
    assert(v@.subrange(0, i as int) =~= v@);
    out
}

/// Extract a service's high-level summary: a missing type reads
/// `ClusterIP`, other missing fields read empty.
pub fn service_summary(spec: &Option<ServiceSpecFields>) -> (r: ServiceSummary)
    ensures
        match spec {
            Some(s) => {
                &&& r.type_@ == or_text(s.type_, "ClusterIP"@)
                &&& r.cluster_ip@ == or_text(s.cluster_ip, Seq::empty())
                &&& r.external_name@ == or_text(s.external_name, Seq::empty())
                &&& r.selector@ == match s.selector {
                    Some(sel) => sel@,
                    None => Seq::empty(),
                }
            },
            None => r.type_@ == "ClusterIP"@ && r.cluster_ip@.len() == 0
                && r.external_name@.len() == 0 && r.selector@.len() == 0,
        },
{
    match spec {
        Some(s) => ServiceSummary {
            type_: text_or(&s.type_, "ClusterIP"),
            cluster_ip: text_or_empty(&s.cluster_ip),
            external_name: text_or_empty(&s.external_name),
            selector: match &s.selector {
                Some(sel) => copy_pairs(sel),
                None => Vec::new(),
            },
        },
        None => ServiceSummary {
            type_: text_of("ClusterIP"),
            cluster_ip: String::new(),
            external_name: String::new(),
            selector: Vec::new(),
        },
    }
}

/// A single ingress routing rule row (one per path).
#[derive(Debug, Clone, PartialEq, Eq)]
pub struct IngressRuleRow {
    pub host: String,
    pub path: String,
    pub path_type: String,
    pub backend: String,
}

/// What the table reads of one ingress path.
#[derive(Debug, Clone, PartialEq, Eq)]
pub struct IngressPathFields {
    pub path: Option<String>,
    pub path_type: String,
    /// The backend service's name, when the backend is a service.
    pub backend_service: Option<String>,
}

/// What the table reads of one ingress rule: its host and, for an HTTP
/// rule, its paths.
#[derive(Debug, Clone, PartialEq, Eq)]
pub struct IngressRuleFields {
    pub host: Option<String>,
    pub http_paths: Option<Vec<IngressPathFields>>,
}

/// A rule row's view.
pub open spec fn rule_row_view(r: IngressRuleRow) -> (Seq<char>, Seq<char>, Seq<char>, Seq<char>) {
    (r.host@, r.path@, r.path_type@, r.backend@)
}

/// The rows of one rule: one per path of an HTTP rule.
pub open spec fn rule_rows(rule: IngressRuleFields) -> Seq<(Seq<char>, Seq<char>, Seq<char>, Seq<char>)> {
    match rule.http_paths {
        Some(paths) => paths@.map_values(
            |p: IngressPathFields|
                (
                    or_text(rule.host, Seq::empty()),
                    or_text(p.path, Seq::empty()),
                    p.path_type@,
                    or_text(p.backend_service, Seq::empty()),
                ),
        ),
        None => Seq::empty(),
    }
}

/// The rows of a list of rules, in order.
pub open spec fn all_rule_rows(rules: Seq<IngressRuleFields>) -> Seq<(Seq<char>, Seq<char>, Seq<char>, Seq<char>)>
    decreases rules.len(),
{
    if rules.len() == 0 {
        Seq::empty()
    } else {
        all_rule_rows(rules.drop_last()) + rule_rows(rules.last())
    }
}

/// Extract the routing rules from an ingress (one row per path). `rules` is
/// `None` when the ingress has no spec or its spec no rules.
pub fn ingress_rules(rules: &Option<Vec<IngressRuleFields>>) -> (r: Vec<IngressRuleRow>)
    ensures
        r@.map_values(|x: IngressRuleRow| rule_row_view(x)) == match rules {
            Some(rs) => all_rule_rows(rs@),
            None => Seq::empty(),
        },
{
    let mut rows: Vec<IngressRuleRow> = Vec::new();
    let rs = match rules {
        Some(rs) => rs,
        None => return rows,
    };
    let mut i: usize = 0;
    while i < rs.len()
        invariant
            i <= rs@.len(),
            rows@.map_values(|x: IngressRuleRow| rule_row_view(x)) == all_rule_rows(
                rs@.subrange(0, i as int),
            ),
        decreases rs@.len() - i,
    {
        let rule = &rs[i];
        let ghost start = rows@.map_values(|x: IngressRuleRow| rule_row_view(x));
        assert(rs@.subrange(0, i + 1).drop_last() =~= rs@.subrange(0, i as int));
        let host = text_or_empty(&rule.host);
        if let Some(paths) = &rule.http_paths {
            let mut j: usize = 0;
            while j < paths.len()
                invariant
                    j <= paths@.len(),
                    host@ == or_text(rule.host, Seq::empty()),
                    rows@.map_values(|x: IngressRuleRow| rule_row_view(x)) == start
                        + paths@.subrange(0, j as int).map_values(
                        |p: IngressPathFields|
                            (
                                or_text(rule.host, Seq::empty()),
                                or_text(p.path, Seq::empty()),
                                p.path_type@,
                                or_text(p.backend_service, Seq::empty()),
                            ),
                    ),
                decreases paths@.len() - j,
            {
                let p = &paths[j];
                let row = IngressRuleRow {
                    host: host.clone(),
                    path: text_or_empty(&p.path),
                    path_type: p.path_type.clone(),
                    backend: text_or_empty(&p.backend_service),
                };
                assert(rule_row_view(row) == (
                    or_text(rule.host, Seq::empty()),
                    or_text(p.path, Seq::empty()),
                    p.path_type@,
                    or_text(p.backend_service, Seq::empty()),
                ));
                let ghost before = rows@;
                rows.push(row);
                assert(rows@.map_values(|x: IngressRuleRow| rule_row_view(x)) =~= before.map_values(
                    |x: IngressRuleRow| rule_row_view(x),
                ).push(rule_row_view(row)));
                assert(paths@.subrange(0, j + 1) =~= paths@.subrange(0, j as int).push(*p));
                j = j + 1;
                assert(rows@.map_values(|x: IngressRuleRow| rule_row_view(x)) =~= start
                    + paths@.subrange(0, j as int).map_values(
                    |p: IngressPathFields|
                        (
                            or_text(rule.host, Seq::empty()),
                            or_text(p.path, Seq::empty()),
                            p.path_type@,
                            or_text(p.backend_service, Seq::empty()),
                        ),
                ));
            }
            assert(paths@.subrange(0, j as int) =~= paths@);
        } else {
            assert(start + rule_rows(*rule) =~= start);
        }
        i = i + 1;
    }
    assert(rs@.subrange(0, i as int) =~= rs@);
    rows
}

/// Extract a config map's data entries (sorted by key: the map keeps them
/// that way).
pub fn config_map_entries(data: &Option<Vec<(String, String)>>) -> (r: Vec<(String, String)>)
    ensures
        r@ == match data {
            Some(d) => d@,
            None => Seq::empty(),
        },
{
    match data {
        Some(d) => copy_pairs(d),
        None => Vec::new(),
    }
}

/// Names strictly ascend.
pub open spec fn names_ascending(s: Seq<Seq<char>>) -> bool {
    forall|i: int, j: int| 0 <= i < j < s.len() ==> lex_lt(#[trigger] s[i], #[trigger] s[j])
}

/// The union of two ascending name lists, ascending, each name once.
pub open spec fn merged(a: Seq<Seq<char>>, b: Seq<Seq<char>>) -> Seq<Seq<char>>
    decreases a.len() + b.len(),
{
    if a.len() == 0 {
        b
    } else if b.len() == 0 {
        a
    } else if a[0] == b[0] {
        seq![a[0]] + merged(a.drop_first(), b.drop_first())
    } else if lex_lt(a[0], b[0]) {
        seq![a[0]] + merged(a.drop_first(), b)
    } else {
        seq![b[0]] + merged(a, b.drop_first())
    }
}

/// The views of a list of names.
pub open spec fn names_of(s: Seq<String>) -> Seq<Seq<char>> {
    s.map_values(|n: String| n@)
}

/// The keys present in a secret (from `data` and `stringData`), ascending,
/// each once. Each list holds one object's keys, ascending.
pub fn secret_keys(data_keys: &Option<Vec<String>>, string_data_keys: &Option<Vec<String>>) -> (r:
    Vec<String>)
    ensures
        names_of(r@) == merged(
            match data_keys {
                Some(a) => names_of(a@),
                None => Seq::empty(),
            },
            match string_data_keys {
                Some(b) => names_of(b@),
                None => Seq::empty(),
            },
        ),
{
    let empty_a: Vec<String> = Vec::new();
    let empty_b: Vec<String> = Vec::new();
    let a = match data_keys {
        Some(a) => a,
        None => &empty_a,
    };
    let b = match string_data_keys {
        Some(b) => b,
        None => &empty_b,
    };
    let ghost av = names_of(a@);
    let ghost bv = names_of(b@);
    let mut out: Vec<String> = Vec::new();
    let mut i: usize = 0;
    let mut j: usize = 0;
    assert(av.skip(0) =~= av);
    assert(bv.skip(0) =~= bv);
    assert(names_of(out@) + merged(av, bv) =~= merged(av, bv));
    while i < a.len() || j < b.len()
        invariant
            i <= a@.len(),
            j <= b@.len(),
            av == names_of(a@),
            bv == names_of(b@),
            names_of(out@) + merged(av.skip(i as int), bv.skip(j as int)) == merged(av, bv),
        decreases a@.len() + b@.len() - i - j,
    {
        let ghost before = out@;
        let ghost rest = merged(av.skip(i as int), bv.skip(j as int));
        proof {
            if i < a.len() {
                assert(av.skip(i as int)[0] == av[i as int]);
                assert(av.skip(i as int).drop_first() =~= av.skip(i + 1));
            }
            if j < b.len() {
                assert(bv.skip(j as int)[0] == bv[j as int]);
                assert(bv.skip(j as int).drop_first() =~= bv.skip(j + 1));
            }
        }
        if i == a.len() {
            assert(av.skip(i as int) =~= Seq::<Seq<char>>::empty());
            let x = b[j].clone();
            out.push(x);
            assert(rest =~= seq![x@] + merged(av.skip(i as int), bv.skip(j + 1))) by {
                assert(merged(av.skip(i as int), bv.skip(j + 1)) == bv.skip(j + 1));
            }
            j = j + 1;
        } else if j == b.len() {
            assert(bv.skip(j as int) =~= Seq::<Seq<char>>::empty());
            let x = a[i].clone();
            out.push(x);
            assert(rest =~= seq![x@] + merged(av.skip(i + 1), bv.skip(j as int))) by {
                if i + 1 < a.len() {
                } else {
                    assert(av.skip(i + 1) =~= Seq::<Seq<char>>::empty());
                }
            }
            i = i + 1;
        } else {
            let ord = compare_text(a[i].as_str(), b[j].as_str());
            match ord {
                Order::Same => {
                    let x = a[i].clone();
                    out.push(x);
                    assert(rest == seq![x@] + merged(av.skip(i + 1), bv.skip(j + 1)));
                    i = i + 1;
                    j = j + 1;
                },
                Order::Before => {
                    let x = a[i].clone();
                    out.push(x);
                    assert(rest == seq![x@] + merged(av.skip(i + 1), bv.skip(j as int)));
                    i = i + 1;
                },
                Order::After => {
                    let x = b[j].clone();
                    out.push(x);
                    assert(rest == seq![x@] + merged(av.skip(i as int), bv.skip(j + 1)));
                    j = j + 1;
                },
            }
        }
        assert(names_of(out@) =~= names_of(before).push(out@.last()@));
        assert(names_of(out@) + merged(av.skip(i as int), bv.skip(j as int)) =~= names_of(before)
            + rest);
    }
    assert(av.skip(i as int) =~= Seq::<Seq<char>>::empty());
    assert(bv.skip(j as int) =~= Seq::<Seq<char>>::empty());
    assert(names_of(out@) + merged(av.skip(i as int), bv.skip(j as int)) =~= names_of(out@));
    out
}

/// Merging two ascending key lists gives an ascending list holding exactly
/// the keys of either, each once: the key list a secret shows.
pub proof fn law_secret_keys_are_the_sorted_union(a: Seq<Seq<char>>, b: Seq<Seq<char>>)
    requires
        names_ascending(a),
        names_ascending(b),
    ensures
        names_ascending(merged(a, b)),
        forall|k: Seq<char>| #[trigger] merged(a, b).contains(k) <==> a.contains(k) || b.contains(k),
    decreases a.len() + b.len(),
{
    if a.len() == 0 || b.len() == 0 {
        assert forall|k: Seq<char>| #[trigger] merged(a, b).contains(k) <==> a.contains(k)
            || b.contains(k) by {
            if a.len() == 0 {
                assert(!a.contains(k));
            } else {
                assert(!b.contains(k));
            }
        }
    } else {
        let a1 = a.drop_first();
        let b1 = b.drop_first();
        assert(names_ascending(a1)) by {
            assert forall|i: int, j: int| 0 <= i < j < a1.len() implies lex_lt(
                #[trigger] a1[i],
                #[trigger] a1[j],
            ) by {
                assert(a1[i] == a[i + 1] && a1[j] == a[j + 1]);
            }
        }
        assert(names_ascending(b1)) by {
            assert forall|i: int, j: int| 0 <= i < j < b1.len() implies lex_lt(
                #[trigger] b1[i],
                #[trigger] b1[j],
            ) by {
                assert(b1[i] == b[i + 1] && b1[j] == b[j + 1]);
            }
        }
        assert forall|k: int| 0 <= k < a1.len() implies lex_lt(a[0], #[trigger] a1[k]) by {
            assert(a1[k] == a[k + 1]);
        }
        assert forall|k: int| 0 <= k < b1.len() implies lex_lt(b[0], #[trigger] b1[k]) by {
            assert(b1[k] == b[k + 1]);
        }
        assert(a =~= seq![a[0]] + a1);
        assert(b =~= seq![b[0]] + b1);
        let (x, rest, ra, rb) = if a[0] == b[0] {
            law_secret_keys_are_the_sorted_union(a1, b1);
            (a[0], merged(a1, b1), a1, b1)
        } else if lex_lt(a[0], b[0]) {
            law_secret_keys_are_the_sorted_union(a1, b);
            (a[0], merged(a1, b), a1, b)
        } else {
            lemma_lex_total(a[0], b[0]);
            law_secret_keys_are_the_sorted_union(a, b1);
            (b[0], merged(a, b1), a, b1)
        };
        assert(merged(a, b) == seq![x] + rest);
        assert forall|k: int| 0 <= k < rest.len() implies lex_lt(x, #[trigger] rest[k]) by {
            let y = rest[k];
            assert(rest.contains(y));
            if ra.contains(y) {
                let m = choose|m: int| 0 <= m < ra.len() && ra[m] == y;
                if ra == a1 {
                    assert(lex_lt(a[0], a1[m]));
                    if x != a[0] {
                        lemma_lex_transitive(x, a[0], y);
                    }
                } else {
                    assert(a[m] == y);
                    if m == 0 {
                    } else {
                        assert(lex_lt(a[0], a[m]));
                        lemma_lex_transitive(x, a[0], y);
                    }
                }
            } else {
                assert(rb.contains(y));
                let m = choose|m: int| 0 <= m < rb.len() && rb[m] == y;
                if rb == b1 {
                    assert(lex_lt(b[0], b1[m]));
                    if x != b[0] {
                        lemma_lex_transitive(x, b[0], y);
                    }
                } else {
                    assert(b[m] == y);
                    if m == 0 {
                    } else {
                        assert(lex_lt(b[0], b[m]));
                        lemma_lex_transitive(x, b[0], y);
                    }
                }
            }
        }
        let mg = merged(a, b);
        assert forall|i: int, j: int| 0 <= i < j < mg.len() implies lex_lt(
            #[trigger] mg[i],
            #[trigger] mg[j],
        ) by {
            if i == 0 {
                assert(mg[j] == rest[j - 1]);
            } else {
                assert(mg[i] == rest[i - 1] && mg[j] == rest[j - 1]);
            }
        }
        assert forall|k: Seq<char>| #[trigger] mg.contains(k) <==> a.contains(k) || b.contains(k) by {
            if mg.contains(k) {
                let m = choose|m: int| 0 <= m < mg.len() && mg[m] == k;
                if m > 0 {
                    assert(rest[m - 1] == k);
                    assert(rest.contains(k));
                }
            }
            if a.contains(k) {
                let m = choose|m: int| 0 <= m < a.len() && a[m] == k;
                if m == 0 {
                    assert(mg[0] == k || rest.contains(k));
                } else {
                    assert(a1[m - 1] == k);
                }
            }
            if b.contains(k) {
                let m = choose|m: int| 0 <= m < b.len() && b[m] == k;
                if m > 0 {
                    assert(b1[m - 1] == k);
                }
            }
            if rest.contains(k) {
                let m = choose|m: int| 0 <= m < rest.len() && rest[m] == k;
                assert(mg[m + 1] == k);
            }
        }
    }
}

} // verus!
