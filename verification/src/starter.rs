//! The starter manifests the create editor is seeded with, one per workload
//! kind, as JSON documents. Rendering a document as editor text is the
//! host's job.

use vstd::prelude::*;

use crate::text::{text_eq, text_of};

verus! {

/// A JSON document: strings, integers, arrays and objects (entries in the
/// order written).
#[derive(Debug)]
pub enum JsonDoc {
    Str(String),
    Int(i64),
    Array(Vec<JsonDoc>),
    Object(Vec<(String, JsonDoc)>),
}

/// What a JSON document denotes.
pub enum JsonVal {
    Str(Seq<char>),
    Int(int),
    Array(Seq<JsonVal>),
    Object(Seq<(Seq<char>, JsonVal)>),
}

/// The value a document denotes.
pub open spec fn doc_view(d: JsonDoc) -> JsonVal
    decreases d,
{
    match d {
        JsonDoc::Str(s) => JsonVal::Str(s@),
        JsonDoc::Int(n) => JsonVal::Int(n as int),
        JsonDoc::Array(v) => JsonVal::Array(items_view(v@)),
        JsonDoc::Object(v) => JsonVal::Object(entries_view(v@)),
    }
}

/// The values of an array's items.
pub open spec fn items_view(s: Seq<JsonDoc>) -> Seq<JsonVal>
    decreases s,
{
    if s.len() == 0 {
        Seq::empty()
    } else {
        proof {
            assert(decreases_to!(s => s[s.len() - 1]));
        }
        items_view(s.drop_last()).push(doc_view(s[s.len() - 1]))
    }
}

/// The keys and values of an object's entries.
pub open spec fn entries_view(s: Seq<(String, JsonDoc)>) -> Seq<(Seq<char>, JsonVal)>
    decreases s,
{
    if s.len() == 0 {
        Seq::empty()
    } else {
        let last = s[s.len() - 1];
        proof {
            assert(decreases_to!(s => s[s.len() - 1]));
        }
        entries_view(s.drop_last()).push((last.0@, doc_view(last.1)))
    }
}

/// A string value.
pub open spec fn text(t: Seq<char>) -> JsonVal {
    JsonVal::Str(t)
}

/// `{ "name": "", "namespace": "default" }`.
pub open spec fn metadata_val() -> JsonVal {
    JsonVal::Object(seq![("name"@, text(""@)), ("namespace"@, text("default"@))])
}

/// `{ "name": "app", "image": "nginx:latest" }`.
pub open spec fn app_container() -> JsonVal {
    JsonVal::Object(seq![("name"@, text("app"@)), ("image"@, text("nginx:latest"@))])
}

/// `{ "name": "app", "image": "busybox", "args": ["echo", "hi"] }`.
pub open spec fn echo_container() -> JsonVal {
    JsonVal::Object(
        seq![
            ("name"@, text("app"@)),
            ("image"@, text("busybox"@)),
            ("args"@, JsonVal::Array(seq![text("echo"@), text("hi"@)])),
        ],
    )
}

/// `{ "app": "" }`.
pub open spec fn app_labels() -> JsonVal {
    JsonVal::Object(seq![("app"@, text(""@))])
}

/// `{ "matchLabels": { "app": "" } }`.
pub open spec fn selector_val() -> JsonVal {
    JsonVal::Object(seq![("matchLabels"@, app_labels())])
}

/// `{ "containers": [<app container>] }`.
pub open spec fn app_pod_spec() -> JsonVal {
    JsonVal::Object(seq![("containers"@, JsonVal::Array(seq![app_container()]))])
}

/// The pod template of the workload controllers: labelled `app`, running
/// the app container.
pub open spec fn pod_template() -> JsonVal {
    JsonVal::Object(
        seq![
            ("metadata"@, JsonVal::Object(seq![("labels"@, app_labels())])),
            ("spec"@, app_pod_spec()),
        ],
    )
}

/// The pod template of the batch kinds: the echo container under `restart`.
pub open spec fn job_template(restart: Seq<char>) -> JsonVal {
    JsonVal::Object(
        seq![
            (
                "spec"@,
                JsonVal::Object(
                    seq![
                        ("containers"@, JsonVal::Array(seq![echo_container()])),
                        ("restartPolicy"@, text(restart)),
                    ],
                ),
            ),
        ],
    )
}

/// The entries every starter opens with.
pub open spec fn head(api_version: Seq<char>, kind: Seq<char>) -> Seq<(Seq<char>, JsonVal)> {
    seq![("apiVersion"@, text(api_version)), ("kind"@, text(kind)), ("metadata"@, metadata_val())]
}

/// The API version a kind's starter declares.
pub open spec fn starter_api_version(kind: Seq<char>) -> Seq<char> {
    if kind == "Pod"@ {
        "v1"@
    } else if kind == "Deployment"@ || kind == "StatefulSet"@ || kind == "DaemonSet"@ || kind
        == "ReplicaSet"@ {
        "apps/v1"@
    } else if kind == "Job"@ || kind == "CronJob"@ {
        "batch/v1"@
    } else {
        "v1"@
    }
}

/// The `spec` a kind's starter carries: a typed seed for the workload
/// kinds, none for any other kind.
pub open spec fn starter_spec(kind: Seq<char>) -> Option<Seq<(Seq<char>, JsonVal)>> {
    if kind == "Pod"@ {
        Some(seq![("containers"@, JsonVal::Array(seq![app_container()]))])
    } else if kind == "Deployment"@ {
        Some(
            seq![
                ("replicas"@, JsonVal::Int(1)),
                ("selector"@, selector_val()),
                ("template"@, pod_template()),
            ],
        )
    } else if kind == "StatefulSet"@ {
        Some(
            seq![
                ("serviceName"@, text(""@)),
                ("replicas"@, JsonVal::Int(1)),
                ("selector"@, selector_val()),
                ("template"@, pod_template()),
            ],
        )
    } else if kind == "DaemonSet"@ {
        Some(seq![("selector"@, selector_val()), ("template"@, pod_template())])
    } else if kind == "ReplicaSet"@ {
        Some(
            seq![
                ("replicas"@, JsonVal::Int(1)),
                ("selector"@, selector_val()),
                ("template"@, pod_template()),
            ],
        )
    } else if kind == "Job"@ {
        Some(seq![("template"@, job_template("Never"@))])
    } else if kind == "CronJob"@ {
        Some(
            seq![
                ("schedule"@, text("*/5 * * * *"@)),
                (
                    "jobTemplate"@,
                    JsonVal::Object(seq![("spec"@, JsonVal::Object(seq![("template"@, job_template("OnFailure"@))]))]),
                ),
            ],
        )
    } else {
        None
    }
}

/// The starter document for a kind: its head (API version, kind, unnamed
/// metadata in `default`), then its `spec` when the kind has one.
pub open spec fn starter(kind: Seq<char>) -> JsonVal {
    match starter_spec(kind) {
        Some(spec) => JsonVal::Object(
            head(starter_api_version(kind), kind) + seq![("spec"@, JsonVal::Object(spec))],
        ),
        None => JsonVal::Object(head(starter_api_version(kind), kind)),
    }
}

fn string(t: &str) -> (r: JsonDoc)
    ensures
        doc_view(r) == text(t@),
{
    JsonDoc::Str(text_of(t))
}

fn entry(v: Vec<(String, JsonDoc)>, key: &str, val: JsonDoc) -> (r: Vec<(String, JsonDoc)>)
    ensures
        entries_view(r@) == entries_view(v@).push((key@, doc_view(val))),
{
    let mut r = v;
    let ghost before = r@;
    r.push((text_of(key), val));
    assert(r@.drop_last() =~= before);
    r
}

fn no_entries() -> (r: Vec<(String, JsonDoc)>)
    ensures
        entries_view(r@) == Seq::<(Seq<char>, JsonVal)>::empty(),
{
    Vec::new()
}

fn object(v: Vec<(String, JsonDoc)>) -> (r: JsonDoc)
    ensures
        doc_view(r) == JsonVal::Object(entries_view(v@)),
{
    JsonDoc::Object(v)
}

fn item(v: Vec<JsonDoc>, val: JsonDoc) -> (r: Vec<JsonDoc>)
    ensures
        items_view(r@) == items_view(v@).push(doc_view(val)),
{
    let mut r = v;
    let ghost before = r@;
    r.push(val);
    assert(r@.drop_last() =~= before);
    r
}

fn no_items() -> (r: Vec<JsonDoc>)
    ensures
        items_view(r@) == Seq::<JsonVal>::empty(),
{
    Vec::new()
}

fn single(d: JsonDoc) -> (r: JsonDoc)
    ensures
        doc_view(r) == JsonVal::Array(seq![doc_view(d)]),
{
    let ghost dv = doc_view(d);
    let v = item(no_items(), d);
    assert(items_view(v@) =~= seq![dv]);
    JsonDoc::Array(v)
}

fn metadata() -> (r: JsonDoc)
    ensures
        doc_view(r) == metadata_val(),
{
    let e = entry(entry(no_entries(), "name", string("")), "namespace", string("default"));
    assert(entries_view(e@) =~= seq![("name"@, text(""@)), ("namespace"@, text("default"@))]);
    object(e)
}

fn container() -> (r: JsonDoc)
    ensures
        doc_view(r) == app_container(),
{
    let e = entry(entry(no_entries(), "name", string("app")), "image", string("nginx:latest"));
    assert(entries_view(e@) =~= seq![("name"@, text("app"@)), ("image"@, text("nginx:latest"@))]);
    object(e)
}

fn echo() -> (r: JsonDoc)
    ensures
        doc_view(r) == echo_container(),
{
    let args = item(item(no_items(), string("echo")), string("hi"));
    assert(items_view(args@) =~= seq![text("echo"@), text("hi"@)]);
    let args = JsonDoc::Array(args);
    let ghost av = doc_view(args);
    let e = entry(entry(entry(no_entries(), "name", string("app")), "image", string("busybox")), "args", args);
    assert(entries_view(e@) =~= seq![("name"@, text("app"@)), ("image"@, text("busybox"@)), ("args"@, av)]);
    object(e)
}

fn labels() -> (r: JsonDoc)
    ensures
        doc_view(r) == app_labels(),
{
    let e = entry(no_entries(), "app", string(""));
    assert(entries_view(e@) =~= seq![("app"@, text(""@))]);
    object(e)
}

fn selector() -> (r: JsonDoc)
    ensures
        doc_view(r) == selector_val(),
{
    let e = entry(no_entries(), "matchLabels", labels());
    assert(entries_view(e@) =~= seq![("matchLabels"@, app_labels())]);
    object(e)
}

fn pod_spec() -> (r: JsonDoc)
    ensures
        doc_view(r) == app_pod_spec(),
{
    let e = entry(no_entries(), "containers", single(container()));
    assert(entries_view(e@) =~= seq![("containers"@, JsonVal::Array(seq![app_container()]))]);
    object(e)
}

fn template() -> (r: JsonDoc)
    ensures
        doc_view(r) == pod_template(),
{
    let m = entry(no_entries(), "labels", labels());
    assert(entries_view(m@) =~= seq![("labels"@, app_labels())]);
    let e = entry(entry(no_entries(), "metadata", object(m)), "spec", pod_spec());
    assert(entries_view(e@) =~= seq![
        ("metadata"@, JsonVal::Object(seq![("labels"@, app_labels())])),
        ("spec"@, app_pod_spec()),
    ]);
    object(e)
}

fn batch_template(restart: &str) -> (r: JsonDoc)
    ensures
        doc_view(r) == job_template(restart@),
{
    let inner = entry(entry(no_entries(), "containers", single(echo())), "restartPolicy", string(restart));
    let ghost iv = seq![
        ("containers"@, JsonVal::Array(seq![echo_container()])),
        ("restartPolicy"@, text(restart@)),
    ];
    assert(entries_view(inner@) =~= iv);
    let e = entry(no_entries(), "spec", object(inner));
    assert(entries_view(e@) =~= seq![("spec"@, JsonVal::Object(iv))]);
    object(e)
}

/// A starter document from its API version, kind and `spec` entries.
fn with_spec_doc(api_version: &str, kind: &str, spec: Vec<(String, JsonDoc)>) -> (r: JsonDoc)
    ensures
        doc_view(r) == JsonVal::Object(
            head(api_version@, kind@) + seq![("spec"@, JsonVal::Object(entries_view(spec@)))],
        ),
{
    let h = entry(entry(entry(no_entries(), "apiVersion", string(api_version)), "kind", string(kind)), "metadata", metadata());
    assert(entries_view(h@) =~= head(api_version@, kind@));
    let sv = object(spec);
    let ghost x = doc_view(sv);
    let e = entry(h, "spec", sv);
    assert(entries_view(e@) =~= head(api_version@, kind@) + seq![("spec"@, x)]);
    object(e)
}

/// A starter document with no `spec`.
fn bare_doc(api_version: &str, kind: &str) -> (r: JsonDoc)
    ensures
        doc_view(r) == JsonVal::Object(head(api_version@, kind@)),
{
    let h = entry(entry(entry(no_entries(), "apiVersion", string(api_version)), "kind", string(kind)), "metadata", metadata());
    assert(entries_view(h@) =~= head(api_version@, kind@));
    object(h)
}

/// The starter manifest for a new resource of `kind`.
pub fn starter_for_kind(kind: &str) -> (r: JsonDoc)
    ensures
        doc_view(r) == starter(kind@),
{
    if text_eq(kind, "Pod") {
        let spec = entry(no_entries(), "containers", single(container()));
        assert(entries_view(spec@) =~= seq![("containers"@, JsonVal::Array(seq![app_container()]))]);
        with_spec_doc("v1", kind, spec)
    } else if text_eq(kind, "Deployment") {
        let spec = entry(entry(entry(no_entries(), "replicas", JsonDoc::Int(1)), "selector", selector()), "template", template());
        assert(entries_view(spec@) =~= seq![
            ("replicas"@, JsonVal::Int(1)),
            ("selector"@, selector_val()),
            ("template"@, pod_template()),
        ]);
        with_spec_doc("apps/v1", kind, spec)
    } else if text_eq(kind, "StatefulSet") {
        let s = entry(entry(no_entries(), "serviceName", string("")), "replicas", JsonDoc::Int(1));
        let spec = entry(entry(s, "selector", selector()), "template", template());
        assert(entries_view(spec@) =~= seq![
            ("serviceName"@, text(""@)),
            ("replicas"@, JsonVal::Int(1)),
            ("selector"@, selector_val()),
            ("template"@, pod_template()),
        ]);
        with_spec_doc("apps/v1", kind, spec)
    } else if text_eq(kind, "DaemonSet") {
        let spec = entry(entry(no_entries(), "selector", selector()), "template", template());
        assert(entries_view(spec@) =~= seq![("selector"@, selector_val()), ("template"@, pod_template())]);
        with_spec_doc("apps/v1", kind, spec)
    } else if text_eq(kind, "ReplicaSet") {
        let spec = entry(entry(entry(no_entries(), "replicas", JsonDoc::Int(1)), "selector", selector()), "template", template());
        assert(entries_view(spec@) =~= seq![
            ("replicas"@, JsonVal::Int(1)),
            ("selector"@, selector_val()),
            ("template"@, pod_template()),
        ]);
        with_spec_doc("apps/v1", kind, spec)
    } else if text_eq(kind, "Job") {
        let spec = entry(no_entries(), "template", batch_template("Never"));
        assert(entries_view(spec@) =~= seq![("template"@, job_template("Never"@))]);
        with_spec_doc("batch/v1", kind, spec)
    } else if text_eq(kind, "CronJob") {
        let t = entry(no_entries(), "template", batch_template("OnFailure"));
        assert(entries_view(t@) =~= seq![("template"@, job_template("OnFailure"@))]);
        let j = entry(no_entries(), "spec", object(t));
        assert(entries_view(j@) =~= seq![("spec"@, JsonVal::Object(seq![("template"@, job_template("OnFailure"@))]))]);
        let spec = entry(entry(no_entries(), "schedule", string("*/5 * * * *")), "jobTemplate", object(j));
        assert(entries_view(spec@) =~= seq![
            ("schedule"@, text("*/5 * * * *"@)),
            ("jobTemplate"@, JsonVal::Object(seq![("spec"@, JsonVal::Object(seq![("template"@, job_template("OnFailure"@))]))])),
        ]);
        with_spec_doc("batch/v1", kind, spec)
    } else {
        bare_doc("v1", kind)
    }
}

/// The value under `key` in an object's entries: the first entry with that
/// key.
pub open spec fn lookup(es: Seq<(Seq<char>, JsonVal)>, key: Seq<char>) -> Option<JsonVal>
    decreases es.len(),
{
    if es.len() == 0 {
        None
    } else if es[0].0 == key {
        Some(es[0].1)
    } else {
        lookup(es.drop_first(), key)
    }
}

/// A member of an object value; `None` for a missing key or a non-object.
pub open spec fn member(v: JsonVal, key: Seq<char>) -> Option<JsonVal> {
    match v {
        JsonVal::Object(es) => lookup(es, key),
        _ => None,
    }
}

impl JsonDoc {
    /// The value under `key` when this is an object holding it.
    pub fn get(&self, key: &str) -> (r: Option<&JsonDoc>)
        ensures
            match (r, member(doc_view(*self), key@)) {
                (Some(d), Some(v)) => doc_view(*d) == v,
                (None, None) => true,
                _ => false,
            },
    {
        match self {
            JsonDoc::Object(es) => {
                let ghost ev = entries_view(es@);
                proof {
                    lemma_entries_view_len(es@);
                    assert(ev.subrange(0, es@.len() as int) =~= ev);
                    assert(doc_view(*self) == JsonVal::Object(ev));
                }
                let mut i: usize = 0;
                while i < es.len()
                    invariant
                        i <= es@.len(),
                        ev == entries_view(es@),
                        ev.len() == es@.len(),
                        doc_view(*self) == JsonVal::Object(ev),
                        lookup(entries_view(es@), key@) == lookup(
                            entries_view(es@).subrange(i as int, es@.len() as int),
                            key@,
                        ),
                    decreases es@.len() - i,
                {
                    proof {
                        lemma_entries_view_index(es@, i as int);
                        let rest = entries_view(es@).subrange(i as int, es@.len() as int);
                        assert(rest.drop_first() =~= entries_view(es@).subrange(i + 1, es@.len() as int));
                    }
                    if text_eq(es[i].0.as_str(), key) {
                        proof {
                            let rest = ev.subrange(i as int, es@.len() as int);
                            lemma_entries_view_index(es@, i as int);
                            assert(rest[0] == ev[i as int]);
                            assert(rest[0].0 == key@);
                            assert(lookup(rest, key@) == Some(doc_view(es@[i as int].1)));

                        }
                        return Some(&es[i].1);
                    }
                    i = i + 1;
                }
                proof {
                    assert(ev.subrange(i as int, es@.len() as int) =~= Seq::<(Seq<char>, JsonVal)>::empty());
                }
                None
            },
            _ => None,
        }
    }

    /// The text, when this is a string.
    pub fn as_str(&self) -> (r: Option<&str>)
        ensures
            match (r, doc_view(*self)) {
                (Some(s), JsonVal::Str(t)) => s@ == t,
                (None, JsonVal::Str(_)) => false,
                (Some(_), _) => false,
                (None, _) => true,
            },
    {
        match self {
            JsonDoc::Str(s) => Some(s.as_str()),
            _ => None,
        }
    }
}

/// The first three entries of a starter are its head, whatever follows.
proof fn lemma_head_lookup(api_version: Seq<char>, kind: Seq<char>, rest: Seq<(Seq<char>, JsonVal)>)
    ensures
        lookup(head(api_version, kind) + rest, "apiVersion"@) == Some(text(api_version)),
        lookup(head(api_version, kind) + rest, "kind"@) == Some(text(kind)),
        lookup(head(api_version, kind) + rest, "metadata"@) == Some(metadata_val()),
{
    reveal_strlit("apiVersion");
    reveal_strlit("kind");
    reveal_strlit("metadata");
    let es = head(api_version, kind) + rest;
    assert(es[0].0 == "apiVersion"@);
    assert(es[1].0 == "kind"@);
    assert(es[2].0 == "metadata"@);
    assert(es.drop_first()[0] == es[1]);
    assert(es.drop_first().drop_first()[0] == es[2]);
    assert("apiVersion"@.len() == 10 && "kind"@.len() == 4 && "metadata"@.len() == 8);
    assert("apiVersion"@ != "kind"@);
    assert("apiVersion"@ != "metadata"@);
    assert("kind"@ != "metadata"@);
    assert(lookup(es.drop_first().drop_first(), "metadata"@) == Some(metadata_val()));
    assert(lookup(es.drop_first(), "metadata"@) == Some(metadata_val()));
    assert(lookup(es.drop_first(), "kind"@) == Some(text(kind)));
}

/// Every starter names the requested kind, with the API version of its
/// group, and seeds an unnamed resource in the `default` namespace.
pub proof fn law_starter_names_its_kind(kind: Seq<char>)
    ensures
        member(starter(kind), "kind"@) == Some(text(kind)),
        member(starter(kind), "apiVersion"@) == Some(text(starter_api_version(kind))),
        member(starter(kind), "metadata"@) == Some(metadata_val()),
        member(metadata_val(), "name"@) == Some(text(""@)),
        member(metadata_val(), "namespace"@) == Some(text("default"@)),
{
    reveal_strlit("name");
    reveal_strlit("namespace");
    let md = seq![("name"@, text(""@)), ("namespace"@, text("default"@))];
    assert(md.drop_first()[0] == md[1]);
    assert("name"@.len() == 4 && "namespace"@.len() == 9);
    assert("name"@ != "namespace"@);
    assert(lookup(md.drop_first(), "namespace"@) == Some(text("default"@)));
    let api = starter_api_version(kind);
    match starter_spec(kind) {
        Some(spec) => lemma_head_lookup(api, kind, seq![("spec"@, JsonVal::Object(spec))]),
        None => {
            assert(head(api, kind) + Seq::empty() =~= head(api, kind));
            lemma_head_lookup(api, kind, Seq::empty());
        },
    }
}

proof fn lemma_entries_view_index(s: Seq<(String, JsonDoc)>, i: int)
    requires
        0 <= i < s.len(),
    ensures
        entries_view(s).len() == s.len(),
        entries_view(s)[i] == (s[i].0@, doc_view(s[i].1)),
    decreases s.len(),
{
    lemma_entries_view_len(s);
    if i < s.len() - 1 {
        assert(s.drop_last()[i] == s[i]);
        lemma_entries_view_index(s.drop_last(), i);
    }
}

proof fn lemma_entries_view_len(s: Seq<(String, JsonDoc)>)
    ensures
        entries_view(s).len() == s.len(),
    decreases s.len(),
{
    if s.len() > 0 {
        lemma_entries_view_len(s.drop_last());
    }
}

} // verus!
