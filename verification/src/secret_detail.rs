//! Secret detail: which value a key reveals, which values are revealed
//! (masked by default, revealed or hidden one by one, all at once only past
//! the typed-name gate), the row id of a secret, and the label of a secret
//! type. Drawing the masked or revealed text is the host's job.

use vstd::prelude::*;

use crate::keyed::{as_map, lookup_entry, pairs_view};
use crate::text::{text_eq, text_of, trim_chars, chars_of, trimmed, string_from_chars};

verus! {

/// What the slide-over reads of a secret: its namespace and name, and its
/// `data` (raw bytes) and `stringData` (text) entries by key.
#[derive(Debug, Clone)]
pub struct SecretFields {
    pub namespace: Option<String>,
    pub name: Option<String>,
    pub data: Option<Vec<(String, Vec<u8>)>>,
    pub string_data: Option<Vec<(String, String)>>,
}

/// The text std's `String::from_utf8_lossy` makes of `bytes`: the bytes
/// decoded as UTF-8, each invalid sequence replaced by U+FFFD.
pub uninterp spec fn utf8_lossy(bytes: Seq<u8>) -> Seq<char>;

/// Decodes bytes with std's `String::from_utf8_lossy`. Trusted: the result
/// is a function of the bytes alone.
#[verifier::external_body]
fn decode_lossy(bytes: &Vec<u8>) -> (r: String)
    ensures
        r@ == utf8_lossy(bytes@),
{
    String::from_utf8_lossy(bytes).into_owned()
}

/// The plaintext a key shows: its `data` bytes decoded, else its
/// `stringData` text, else empty.
pub open spec fn revealed_value(s: SecretFields, key: Seq<char>) -> Seq<char> {
    let from_data = match s.data {
        Some(d) => if as_map(pairs_view(d@)).contains_key(key) {
            Some(utf8_lossy(as_map(pairs_view(d@))[key]@))
        } else {
            None
        },
        None => None,
    };
    let from_text = match s.string_data {
        Some(d) => if as_map(pairs_view(d@)).contains_key(key) {
            Some(as_map(pairs_view(d@))[key]@)
        } else {
            None
        },
        None => None,
    };
    match (from_data, from_text) {
        (Some(v), _) => v,
        (None, Some(v)) => v,
        (None, None) => Seq::empty(),
    }
}

/// Look up `key` in the secret's `data` first (raw bytes, decoded as lossy
/// UTF-8), then in `stringData`; empty when neither holds it.
pub fn decoded_value_for_key(secret: &SecretFields, key: &str) -> (r: String)
    ensures
        r@ == revealed_value(*secret, key@),
{
    if let Some(data) = &secret.data {
        if let Some(bytes) = lookup_entry(data, key) {
            return decode_lossy(bytes);
        }
    }
    if let Some(string_data) = &secret.string_data {
        if let Some(s) = lookup_entry(string_data, key) {
            return s.clone();
        }
    }
    String::new()
}

/// The row id of a secret: `ns/name`, or the bare name (empty when unnamed).
pub open spec fn secret_row_id(s: SecretFields) -> Seq<char> {
    let name = match s.name {
        Some(n) => n@,
        None => Seq::empty(),
    };
    match s.namespace {
        Some(ns) => ns@ + "/"@ + name,
        None => name,
    }
}

/// The `ns/name` (or bare `name`) row id for a secret — the shape the
/// workload object ids take.
pub fn row_id_for_secret(secret: &SecretFields) -> (r: String)
    ensures
        r@ == secret_row_id(*secret),
{
    let name = match &secret.name {
        Some(n) => n.as_str(),
        None => "",
    };
    proof {
        reveal_strlit("");
    }
    match &secret.namespace {
        Some(ns) => {
            let mut r = ns.clone();
            r.append("/");
            r.append(name);
            r
        },
        None => text_of(name),
    }
}

/// The typed-name gate for bulk reveal: `true` iff the typed text, trimmed,
/// equals the name (case-sensitive, no fuzzy).
pub fn bulk_reveal_predicate(typed: &str, name: &str) -> (r: bool)
    ensures
        r == (trimmed(typed@) == name@),
{
    let t = string_from_chars(&trim_chars(&chars_of(typed)));
    text_eq(t.as_str(), name)
}

/// The label of a secret type: the well-known types by name, `Opaque` for
/// none, `Opaque` or empty, anything else as it is.
pub open spec fn secret_type_label(kind: Option<Seq<char>>) -> Seq<char> {
    let k = match kind {
        Some(k) => k,
        None => "Opaque"@,
    };
    if k == "kubernetes.io/tls"@ {
        "TLS"@
    } else if k == "kubernetes.io/dockerconfigjson"@ {
        "Docker config"@
    } else if k == "kubernetes.io/service-account-token"@ {
        "Service account token"@
    } else if k == "Opaque"@ || k == ""@ {
        "Opaque"@
    } else {
        k
    }
}

/// Map a secret's type to a human label. `None`, `Opaque` and the empty
/// string all read `Opaque` (the kube default); unknown types pass through
/// so a CRD-defined type still surfaces in the table.
pub fn secret_kind_label(kind: Option<&str>) -> (r: String)
    ensures
        r@ == secret_type_label(
            match kind {
                Some(k) => Some(k@),
                None => None,
            },
        ),
{
    let k = match kind {
        Some(k) => k,
        None => "Opaque",
    };
    if text_eq(k, "kubernetes.io/tls") {
        text_of("TLS")
    } else if text_eq(k, "kubernetes.io/dockerconfigjson") {
        text_of("Docker config")
    } else if text_eq(k, "kubernetes.io/service-account-token") {
        text_of("Service account token")
    } else if text_eq(k, "Opaque") || text_eq(k, "") {
        text_of("Opaque")
    } else {
        text_of(k)
    }
}

/// Which values of an open secret are revealed, key by key in display
/// order. A fresh state masks every value.
pub struct RevealState {
    rows: Vec<(String, bool)>,
}

impl View for RevealState {
    type V = Seq<(Seq<char>, bool)>;

    closed spec fn view(&self) -> Seq<(Seq<char>, bool)> {
        self.rows@.map_values(|e: (String, bool)| (e.0@, e.1))
    }
}

/// The rows after setting the value under `key` to `revealed`.
pub open spec fn with_revealed(s: Seq<(Seq<char>, bool)>, key: Seq<char>, revealed: bool) -> Seq<
    (Seq<char>, bool),
> {
    s.map_values(
        |e: (Seq<char>, bool)|
            if e.0 == key {
                (e.0, revealed)
            } else {
                e
            },
    )
}

/// The rows with every value revealed.
pub open spec fn all_revealed(s: Seq<(Seq<char>, bool)>) -> Seq<(Seq<char>, bool)> {
    s.map_values(|e: (Seq<char>, bool)| (e.0, true))
}

impl RevealState {
    /// Every key of the secret, masked.
    pub fn new(keys: &Vec<String>) -> (r: Self)
        ensures
            r@ == keys@.map_values(|k: String| (k@, false)),
    {
        let mut rows: Vec<(String, bool)> = Vec::new();
        let mut i: usize = 0;
        while i < keys.len()
            invariant
                i <= keys@.len(),
                rows@.map_values(|e: (String, bool)| (e.0@, e.1)) == keys@.subrange(0, i as int).map_values(
                    |k: String| (k@, false),
                ),
            decreases keys@.len() - i,
        {
            let ghost before = rows@;
            rows.push((keys[i].clone(), false));
            assert(rows@.map_values(|e: (String, bool)| (e.0@, e.1)) =~= before.map_values(
                |e: (String, bool)| (e.0@, e.1),
            ).push((keys@[i as int]@, false)));
            assert(keys@.subrange(0, i + 1).map_values(|k: String| (k@, false)) =~= keys@.subrange(
                0,
                i as int,
            ).map_values(|k: String| (k@, false)).push((keys@[i as int]@, false)));
            i = i + 1;
        }
        assert(keys@.subrange(0, i as int) =~= keys@);
        RevealState { rows }
    }

    /// Reveal or hide the value under `key`.
    pub fn set_revealed(&mut self, key: &str, revealed: bool)
        ensures
            final(self)@ == with_revealed(old(self)@, key@, revealed),
    {
        let mut i: usize = 0;
        while i < self.rows.len()
            invariant
                i <= self.rows@.len(),
                self.rows@.len() == old(self).rows@.len(),
                forall|k: int|
                    0 <= k < i ==> #[trigger] self@[k] == with_revealed(old(self)@, key@, revealed)[k],
                forall|k: int| i <= k < self.rows@.len() ==> #[trigger] self.rows@[k] == old(self).rows@[k],
            decreases self.rows@.len() - i,
        {
            let ghost before = self.rows@;
            let ghost bv = self@;
            assert(forall|k: int| 0 <= k < i ==> bv[k] == with_revealed(old(self)@, key@, revealed)[k]);
            let hit = text_eq(self.rows[i].0.as_str(), key);
            if hit {
                self.rows[i].1 = revealed;
            }
            proof {
                assert forall|k: int| 0 <= k < i + 1 implies #[trigger] self@[k] == with_revealed(
                    old(self)@,
                    key@,
                    revealed,
                )[k] by {
                    assert(self@[k] == (self.rows@[k].0@, self.rows@[k].1));
                    assert(old(self)@[k] == (old(self).rows@[k].0@, old(self).rows@[k].1));
                    if k < i {
                        assert(self.rows@[k] == before[k]);
                        assert(bv[k] == (before[k].0@, before[k].1));
                    } else {
                        assert(before[k] == old(self).rows@[k]);
                        assert(self.rows@[k].0 == before[k].0);
                        if hit {
                            assert(self.rows@[k].1 == revealed);
                        } else {
                            assert(self.rows@[k] == before[k]);
                        }
                    }
                }
                assert forall|k: int| i + 1 <= k < self.rows@.len() implies #[trigger] self.rows@[k]
                    == old(self).rows@[k] by {
                    assert(self.rows@[k] == before[k]);
                }
            }
            i = i + 1;
        }
        assert(self@ =~= with_revealed(old(self)@, key@, revealed));
    }

    /// Reveal the value under `key`.
    pub fn reveal_key(&mut self, key: &str)
        ensures
            final(self)@ == with_revealed(old(self)@, key@, true),
    {
        self.set_revealed(key, true);
    }

    /// Mask the value under `key` again.
    pub fn mask_key(&mut self, key: &str)
        ensures
            final(self)@ == with_revealed(old(self)@, key@, false),
    {
        self.set_revealed(key, false);
    }

    /// Reveal every value, but only when `typed` passes the typed-name gate
    /// for the secret `name`; whether it did.
    pub fn reveal_all(&mut self, typed: &str, name: &str) -> (r: bool)
        ensures
            r == (trimmed(typed@) == name@),
            r ==> final(self)@ == all_revealed(old(self)@),
            !r ==> final(self)@ == old(self)@,
    {
        if !bulk_reveal_predicate(typed, name) {
            return false;
        }
        let mut i: usize = 0;
        while i < self.rows.len()
            invariant
                i <= self.rows@.len(),
                self.rows@.len() == old(self).rows@.len(),
                forall|k: int| 0 <= k < i ==> #[trigger] self@[k] == all_revealed(old(self)@)[k],
                forall|k: int| i <= k < self.rows@.len() ==> #[trigger] self.rows@[k] == old(self).rows@[k],
            decreases self.rows@.len() - i,
        {
            let ghost before = self.rows@;
            let ghost bv = self@;
            assert(forall|k: int| 0 <= k < i ==> bv[k] == all_revealed(old(self)@)[k]);
            self.rows[i].1 = true;
            proof {
                assert forall|k: int| 0 <= k < i + 1 implies #[trigger] self@[k] == all_revealed(
                    old(self)@,
                )[k] by {
                    assert(self@[k] == (self.rows@[k].0@, self.rows@[k].1));
                    assert(old(self)@[k] == (old(self).rows@[k].0@, old(self).rows@[k].1));
                    if k < i {
                        assert(self.rows@[k] == before[k]);
                        assert(bv[k] == (before[k].0@, before[k].1));
                    } else {
                        assert(before[k] == old(self).rows@[k]);
                        assert(self.rows@[k].0 == before[k].0);
                    }
                }
                assert forall|k: int| i + 1 <= k < self.rows@.len() implies #[trigger] self.rows@[k]
                    == old(self).rows@[k] by {
                    assert(self.rows@[k] == before[k]);
                }
            }
            i = i + 1;
        }
        assert(self@ =~= all_revealed(old(self)@));
        true
    }

    /// Whether the value under `key` is revealed.
    pub fn is_revealed(&self, key: &str) -> (r: bool)
        ensures
            r == exists|i: int| 0 <= i < self@.len() && (#[trigger] self@[i]).0 == key@ && self@[i].1,
    {
        let mut i: usize = 0;
        while i < self.rows.len()
            invariant
                i <= self.rows@.len(),
                forall|k: int| 0 <= k < i ==> !((#[trigger] self@[k]).0 == key@ && self@[k].1),
            decreases self.rows@.len() - i,
        {
            assert(self@[i as int] == (self.rows@[i as int].0@, self.rows@[i as int].1));
            if self.rows[i].1 && text_eq(self.rows[i].0.as_str(), key) {
                return true;
            }
            i = i + 1;
        }
        false
    }
}

} // verus!
