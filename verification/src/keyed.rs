//! Name-keyed association lists kept in ascending code-point order of their
//! keys: the ordered-map model behind the registries and themes.

use vstd::prelude::*;

use crate::text::{
    compare_text, lemma_lex_asymmetric, lemma_lex_irreflexive, lemma_lex_total,
    lemma_lex_transitive, lex_lt, text_eq, Order,
};

verus! {

/// The entries of `s`, each key taken by its characters.
pub open spec fn pairs_view<V>(s: Seq<(String, V)>) -> Seq<(Seq<char>, V)> {
    s.map_values(|e: (String, V)| (e.0@, e.1))
}

/// Keys strictly ascend (so no key occurs twice).
pub open spec fn keys_sorted<V>(s: Seq<(Seq<char>, V)>) -> bool {
    forall|i: int, j: int| 0 <= i < j < s.len() ==> lex_lt(#[trigger] s[i].0, #[trigger] s[j].0)
}

/// The map an association list denotes.
pub open spec fn as_map<V>(s: Seq<(Seq<char>, V)>) -> Map<Seq<char>, V>
    decreases s.len(),
{
    if s.len() == 0 {
        Map::empty()
    } else {
        as_map(s.drop_last()).insert(s.last().0, s.last().1)
    }
}

/// The keys of `s`, in order.
pub open spec fn keys_of<V>(s: Seq<(Seq<char>, V)>) -> Seq<Seq<char>> {
    s.map_values(|e: (Seq<char>, V)| e.0)
}

/// The position of the first key not below `k`.
pub open spec fn slot<V>(s: Seq<(Seq<char>, V)>, k: Seq<char>, i: int) -> int
    decreases s.len() - i,
{
    if i < 0 || i >= s.len() {
        s.len() as int
    } else if lex_lt(s[i].0, k) {
        slot(s, k, i + 1)
    } else {
        i
    }
}

pub proof fn lemma_as_map_domain<V>(s: Seq<(Seq<char>, V)>)
    ensures
        forall|k: Seq<char>| #[trigger]
            as_map(s).contains_key(k) <==> exists|i: int| 0 <= i < s.len() && s[i].0 == k,
    decreases s.len(),
{
    if s.len() > 0 {
        let t = s.drop_last();
        lemma_as_map_domain(t);
        assert forall|k: Seq<char>| #[trigger]
            as_map(s).contains_key(k) <==> exists|i: int| 0 <= i < s.len() && s[i].0 == k by {
            if as_map(s).contains_key(k) {
                if k == s.last().0 {
                    assert(s[s.len() - 1].0 == k);
                } else {
                    assert(as_map(t).contains_key(k));
                    let i = choose|i: int| 0 <= i < t.len() && t[i].0 == k;
                    assert(t[i] == s[i]);
                    assert(s[i].0 == k);
                }
            }
            if exists|i: int| 0 <= i < s.len() && s[i].0 == k {
                let i = choose|i: int| 0 <= i < s.len() && s[i].0 == k;
                if i < s.len() - 1 {
                    assert(t[i] == s[i]);
                    assert(t[i].0 == k);
                    assert(as_map(t).contains_key(k));
                }
            }
        }
    }
}

pub proof fn lemma_as_map_value<V>(s: Seq<(Seq<char>, V)>)
    requires
        keys_sorted(s),
    ensures
        forall|i: int| 0 <= i < s.len() ==> #[trigger] as_map(s)[s[i].0] == s[i].1,
    decreases s.len(),
{
    if s.len() > 0 {
        let t = s.drop_last();
        lemma_as_map_value(t);
        assert forall|i: int| 0 <= i < s.len() implies #[trigger] as_map(s)[s[i].0] == s[i].1 by {
            if i < s.len() - 1 {
                assert(t[i] == s[i]);
                assert(as_map(t)[t[i].0] == t[i].1);
                assert(lex_lt(s[i].0, s[s.len() - 1].0));
                lemma_lex_asymmetric(s[i].0, s[s.len() - 1].0);
            }
        }
    }
}

/// The map and sortedness facts of an association list, together.
pub proof fn lemma_as_map<V>(s: Seq<(Seq<char>, V)>)
    requires
        keys_sorted(s),
    ensures
        forall|k: Seq<char>| #[trigger]
            as_map(s).contains_key(k) <==> exists|i: int| 0 <= i < s.len() && s[i].0 == k,
        forall|i: int| 0 <= i < s.len() ==> #[trigger] as_map(s)[s[i].0] == s[i].1,
{
    lemma_as_map_domain(s);
    lemma_as_map_value(s);
}

proof fn lemma_last_is_max<V>(s: Seq<(Seq<char>, V)>)
    requires
        keys_sorted(s),
        s.len() > 0,
    ensures
        forall|k: Seq<char>|
            #[trigger] as_map(s).contains_key(k) && k != s.last().0 ==> lex_lt(k, s.last().0),
        as_map(s).contains_key(s.last().0),
        as_map(s)[s.last().0] == s.last().1,
{
    lemma_as_map(s);
    assert forall|k: Seq<char>| #[trigger]
        as_map(s).contains_key(k) && k != s.last().0 implies lex_lt(k, s.last().0) by {
        let i = choose|i: int| 0 <= i < s.len() && s[i].0 == k;
        assert(i != s.len() - 1);
        assert(lex_lt(s[i].0, s[s.len() - 1].0));
    }
    assert(as_map(s)[s[s.len() - 1].0] == s[s.len() - 1].1);
}

proof fn lemma_drop_last_map<V>(s: Seq<(Seq<char>, V)>)
    requires
        keys_sorted(s),
        s.len() > 0,
    ensures
        keys_sorted(s.drop_last()),
        as_map(s.drop_last()) == as_map(s).remove(s.last().0),
{
    let t = s.drop_last();
    let k = s.last().0;
    assert forall|i: int, j: int| 0 <= i < j < t.len() implies lex_lt(
        #[trigger] t[i].0,
        #[trigger] t[j].0,
    ) by {
        assert(t[i] == s[i] && t[j] == s[j]);
    }
    lemma_as_map_domain(t);
    assert(!as_map(t).contains_key(k)) by {
        if as_map(t).contains_key(k) {
            let i = choose|i: int| 0 <= i < t.len() && t[i].0 == k;
            assert(t[i] == s[i]);
            assert(lex_lt(s[i].0, s[s.len() - 1].0));
            lemma_lex_irreflexive(k);
        }
    }
    assert(as_map(t) =~= as_map(s).remove(k));
}

/// An ascending association list is determined by the map it denotes: two
/// key-sorted lists that hold the same name-to-value pairs are the same list.
pub proof fn law_sorted_entries_are_determined_by_content<V>(
    a: Seq<(Seq<char>, V)>,
    b: Seq<(Seq<char>, V)>,
)
    requires
        keys_sorted(a),
        keys_sorted(b),
        as_map(a) == as_map(b),
    ensures
        a == b,
    decreases a.len(),
{
    if a.len() == 0 || b.len() == 0 {
        lemma_as_map_domain(a);
        lemma_as_map_domain(b);
        if b.len() > 0 {
            assert(as_map(b).contains_key(b[0].0));
        }
        if a.len() > 0 {
            assert(as_map(a).contains_key(a[0].0));
        }
        assert(a =~= b);
    } else {
        lemma_last_is_max(a);
        lemma_last_is_max(b);
        let ka = a.last().0;
        let kb = b.last().0;
        if ka != kb {
            assert(lex_lt(ka, kb));
            assert(lex_lt(kb, ka));
            lemma_lex_asymmetric(ka, kb);
        }
        lemma_drop_last_map(a);
        lemma_drop_last_map(b);
        law_sorted_entries_are_determined_by_content(a.drop_last(), b.drop_last());
        assert(a =~= a.drop_last().push(a.last()));
        assert(b =~= b.drop_last().push(b.last()));
    }
}

/// An association list with text values, each value taken by its characters.
pub open spec fn text_pairs(s: Seq<(Seq<char>, String)>) -> Seq<(Seq<char>, Seq<char>)> {
    s.map_values(|e: (Seq<char>, String)| (e.0, e.1@))
}

/// Taking the values by their characters commutes with reading the list as a
/// map, and leaves the order of the keys alone.
pub proof fn lemma_text_pairs(s: Seq<(Seq<char>, String)>)
    ensures
        as_map(text_pairs(s)) == as_map(s).map_values(|v: String| v@),
        keys_sorted(text_pairs(s)) == keys_sorted(s),
    decreases s.len(),
{
    let t = text_pairs(s);
    assert(keys_sorted(t) == keys_sorted(s)) by {
        assert forall|i: int| 0 <= i < s.len() implies #[trigger] t[i].0 == s[i].0 by {}
        if keys_sorted(s) {
            assert forall|i: int, j: int| 0 <= i < j < t.len() implies lex_lt(
                #[trigger] t[i].0,
                #[trigger] t[j].0,
            ) by {
                assert(lex_lt(s[i].0, s[j].0));
            }
        }
        if keys_sorted(t) {
            assert forall|i: int, j: int| 0 <= i < j < s.len() implies lex_lt(
                #[trigger] s[i].0,
                #[trigger] s[j].0,
            ) by {
                assert(lex_lt(t[i].0, t[j].0));
            }
        }
    }
    if s.len() == 0 {
        assert(as_map(t) =~= as_map(s).map_values(|v: String| v@));
    } else {
        lemma_text_pairs(s.drop_last());
        assert(t.drop_last() =~= text_pairs(s.drop_last()));
        assert(as_map(t) =~= as_map(s).map_values(|v: String| v@));
    }
}

/// Where `key` sits in `entries`: the first position whose key is not below
/// it, and whether that key is `key` itself.
pub fn locate<V>(entries: &Vec<(String, V)>, key: &str) -> (r: (usize, bool))
    requires
        keys_sorted(pairs_view(entries@)),
    ensures
        r.0 <= entries.len(),
        forall|i: int| 0 <= i < r.0 ==> lex_lt(#[trigger] entries@[i].0@, key@),
        forall|i: int| r.0 <= i < entries.len() ==> lex_lt(key@, #[trigger] entries@[i].0@) || (i
            == r.0 && r.1),
        r.1 <==> (r.0 < entries.len() && entries@[r.0 as int].0@ == key@),
        r.1 <==> as_map(pairs_view(entries@)).contains_key(key@),
{
    let ghost pv = pairs_view(entries@);
    let mut i: usize = 0;
    while i < entries.len()
        invariant
            i <= entries.len(),
            pv == pairs_view(entries@),
            keys_sorted(pv),
            forall|j: int| 0 <= j < i ==> lex_lt(#[trigger] entries@[j].0@, key@),
        decreases entries.len() - i,
    {
        match compare_text(entries[i].0.as_str(), key) {
            Order::Before => {
                i = i + 1;
            },
            Order::Same => {
                proof {
                    assert(pv[i as int].0 == entries@[i as int].0@);
                    lemma_tail_above(pv, i as int, key@);
                    assert forall|j: int| i < j < entries.len() implies lex_lt(
                        key@,
                        #[trigger] entries@[j].0@,
                    ) by {
                        assert(pv[j].0 == entries@[j].0@);
                    }
                    lemma_as_map(pv);
                    assert(pv[i as int].0 == key@);
                }
                return (i, true);
            },
            Order::After => {
                proof {
                    assert(pv[i as int].0 == entries@[i as int].0@);
                    lemma_lex_total(entries@[i as int].0@, key@);
                    assert forall|j: int| 0 <= j < i implies lex_lt(#[trigger] pv[j].0, key@) by {
                        assert(pv[j].0 == entries@[j].0@);
                    }
                    lemma_tail_above(pv, i as int, key@);
                    assert forall|j: int| i < j < entries.len() implies lex_lt(
                        key@,
                        #[trigger] entries@[j].0@,
                    ) by {
                        assert(pv[j].0 == entries@[j].0@);
                    }
                    lemma_as_map(pv);
                    lemma_absent(pv, i as int, key@);
                }
                return (i, false);
            },
        }
    }
    proof {
        lemma_as_map(pv);
        assert forall|j: int| 0 <= j < i implies lex_lt(#[trigger] pv[j].0, key@) by {
            assert(pv[j].0 == entries@[j].0@);
        }
        lemma_absent(pv, i as int, key@);
    }
    (i, false)
}

proof fn lemma_tail_above<V>(pv: Seq<(Seq<char>, V)>, i: int, k: Seq<char>)
    requires
        keys_sorted(pv),
        0 <= i < pv.len(),
        pv[i].0 == k || lex_lt(k, pv[i].0),
    ensures
        forall|j: int| i < j < pv.len() ==> lex_lt(k, #[trigger] pv[j].0),
{
    assert forall|j: int| i < j < pv.len() implies lex_lt(k, #[trigger] pv[j].0) by {
        assert(lex_lt(pv[i].0, pv[j].0));
        if pv[i].0 != k {
            lemma_lex_transitive(k, pv[i].0, pv[j].0);
        }
    }
}

proof fn lemma_absent<V>(pv: Seq<(Seq<char>, V)>, i: int, k: Seq<char>)
    requires
        keys_sorted(pv),
        0 <= i <= pv.len(),
        forall|j: int| 0 <= j < i ==> lex_lt(#[trigger] pv[j].0, k),
        forall|j: int| i <= j < pv.len() ==> lex_lt(k, #[trigger] pv[j].0),
    ensures
        !as_map(pv).contains_key(k),
{
    lemma_as_map(pv);
    if as_map(pv).contains_key(k) {
        let j = choose|j: int| 0 <= j < pv.len() && pv[j].0 == k;
        lemma_lex_irreflexive(k);
        if j < i {
            assert(lex_lt(pv[j].0, k));
        } else {
            assert(lex_lt(k, pv[j].0));
        }
    }
}

/// Inserts or replaces the entry for `key`, keeping keys ascending.
pub fn upsert_entry<V>(entries: &mut Vec<(String, V)>, key: String, value: V)
    requires
        keys_sorted(pairs_view(old(entries)@)),
    ensures
        keys_sorted(pairs_view(final(entries)@)),
        as_map(pairs_view(final(entries)@)) == as_map(pairs_view(old(entries)@)).insert(
            key@,
            value,
        ),
{
    let ghost old_pv = pairs_view(entries@);
    let (i, found) = locate(entries, key.as_str());
    let ghost k = key@;
    if found {
        entries.set(i, (key, value));
        proof {
            let pv = pairs_view(entries@);
            assert(pv =~= old_pv.update(i as int, (k, value)));
            assert forall|a: int, b: int| 0 <= a < b < pv.len() implies lex_lt(
                #[trigger] pv[a].0,
                #[trigger] pv[b].0,
            ) by {
                assert(old_pv[a].0 == pv[a].0 || a == i);
                assert(old_pv[b].0 == pv[b].0 || b == i);
                assert(old_pv[i as int].0 == k);
            }
            lemma_as_map(pv);
            lemma_as_map(old_pv);
            assert(as_map(pv) =~= as_map(old_pv).insert(k, value)) by {
                assert forall|kk: Seq<char>| as_map(pv).contains_key(kk) <==> as_map(
                    old_pv,
                ).insert(k, value).contains_key(kk) by {
                    if as_map(old_pv).contains_key(kk) {
                        let j = choose|j: int| 0 <= j < old_pv.len() && old_pv[j].0 == kk;
                        assert(pv[j].0 == kk);
                    }
                    if as_map(pv).contains_key(kk) {
                        let j = choose|j: int| 0 <= j < pv.len() && pv[j].0 == kk;
                        assert(old_pv[j].0 == kk);
                    }
                }
                assert forall|kk: Seq<char>| #[trigger]
                    as_map(pv).contains_key(kk) implies as_map(pv)[kk] == as_map(old_pv).insert(
                    k,
                    value,
                )[kk] by {
                    let j = choose|j: int| 0 <= j < pv.len() && pv[j].0 == kk;
                    assert(as_map(pv)[pv[j].0] == pv[j].1);
                    if j != i {
                        assert(pv[j] == old_pv[j]);
                        assert(as_map(old_pv)[old_pv[j].0] == old_pv[j].1);
                        lemma_lex_irreflexive(k);
                        if j < i {
                            assert(lex_lt(pv[j].0, pv[i as int].0));
                        } else {
                            assert(lex_lt(pv[i as int].0, pv[j].0));
                        }
                    }
                }
            }
        }
    } else {
        entries.insert(i, (key, value));
        proof {
            let pv = pairs_view(entries@);
            assert(pv =~= old_pv.insert(i as int, (k, value)));
            assert forall|a: int, b: int| 0 <= a < b < pv.len() implies lex_lt(
                #[trigger] pv[a].0,
                #[trigger] pv[b].0,
            ) by {
                if b < i {
                } else if b == i {
                    assert(lex_lt(old_pv[a].0, k));
                } else if a < i {
                    assert(pv[b] == old_pv[b - 1]);
                } else if a == i {
                    assert(pv[b] == old_pv[b - 1]);
                    assert(lex_lt(k, old_pv[b - 1].0));
                } else {
                    assert(pv[a] == old_pv[a - 1] && pv[b] == old_pv[b - 1]);
                }
            }
            lemma_as_map(pv);
            lemma_as_map(old_pv);
            assert(as_map(pv) =~= as_map(old_pv).insert(k, value)) by {
                assert forall|kk: Seq<char>| as_map(pv).contains_key(kk) <==> as_map(
                    old_pv,
                ).insert(k, value).contains_key(kk) by {
                    if as_map(old_pv).contains_key(kk) {
                        let j = choose|j: int| 0 <= j < old_pv.len() && old_pv[j].0 == kk;
                        if j < i {
                            assert(pv[j].0 == kk);
                        } else {
                            assert(pv[j + 1].0 == kk);
                        }
                    }
                    if kk == k {
                        assert(pv[i as int].0 == kk);
                    }
                    if as_map(pv).contains_key(kk) && kk != k {
                        let j = choose|j: int| 0 <= j < pv.len() && pv[j].0 == kk;
                        if j < i {
                            assert(old_pv[j].0 == kk);
                        } else {
                            assert(old_pv[j - 1].0 == kk);
                        }
                    }
                }
                assert forall|kk: Seq<char>| #[trigger]
                    as_map(pv).contains_key(kk) implies as_map(pv)[kk] == as_map(old_pv).insert(
                    k,
                    value,
                )[kk] by {
                    let j = choose|j: int| 0 <= j < pv.len() && pv[j].0 == kk;
                    assert(as_map(pv)[pv[j].0] == pv[j].1);
                    if j < i {
                        assert(as_map(old_pv)[old_pv[j].0] == old_pv[j].1);
                        assert(old_pv[j].0 != k) by {
                            lemma_lex_irreflexive(k);
                        }
                    } else if j > i {
                        assert(as_map(old_pv)[old_pv[j - 1].0] == old_pv[j - 1].1);
                        assert(old_pv[j - 1].0 != k) by {
                            lemma_lex_irreflexive(k);
                        }
                    }
                }
            }
        }
    }
}

/// Removes the entry for `key`, returning its value when there was one.
pub fn remove_entry<V>(entries: &mut Vec<(String, V)>, key: &str) -> (r: Option<V>)
    requires
        keys_sorted(pairs_view(old(entries)@)),
    ensures
        keys_sorted(pairs_view(final(entries)@)),
        as_map(pairs_view(final(entries)@)) == as_map(pairs_view(old(entries)@)).remove(key@),
        r is Some <==> as_map(pairs_view(old(entries)@)).contains_key(key@),
        r matches Some(v) ==> v == as_map(pairs_view(old(entries)@))[key@],
{
    let ghost old_pv = pairs_view(entries@);
    let (i, found) = locate(entries, key);
    proof {
        lemma_as_map(old_pv);
    }
    if !found {
        proof {
            assert(as_map(old_pv) =~= as_map(old_pv).remove(key@));
        }
        return None;
    }
    let (_, v) = entries.remove(i);
    proof {
        let k = key@;
        let pv = pairs_view(entries@);
        assert(pv =~= old_pv.remove(i as int));
        assert forall|a: int, b: int| 0 <= a < b < pv.len() implies lex_lt(
            #[trigger] pv[a].0,
            #[trigger] pv[b].0,
        ) by {
            if b < i {
            } else if a < i {
                assert(pv[b] == old_pv[b + 1]);
            } else {
                assert(pv[a] == old_pv[a + 1] && pv[b] == old_pv[b + 1]);
            }
        }
        lemma_as_map(pv);
        assert(old_pv[i as int].0 == k);
        assert(as_map(pv) =~= as_map(old_pv).remove(k)) by {
            assert forall|kk: Seq<char>| as_map(pv).contains_key(kk) <==> as_map(
                old_pv,
            ).remove(k).contains_key(kk) by {
                if as_map(old_pv).contains_key(kk) && kk != k {
                    let j = choose|j: int| 0 <= j < old_pv.len() && old_pv[j].0 == kk;
                    if j < i {
                        assert(pv[j].0 == kk);
                    } else {
                        assert(j != i);
                        assert(pv[j - 1].0 == kk);
                    }
                }
                if as_map(pv).contains_key(kk) {
                    let j = choose|j: int| 0 <= j < pv.len() && pv[j].0 == kk;
                    lemma_lex_irreflexive(k);
                    if j < i {
                        assert(old_pv[j].0 == kk);
                        assert(lex_lt(old_pv[j].0, old_pv[i as int].0));
                    } else {
                        assert(old_pv[j + 1].0 == kk);
                        assert(lex_lt(old_pv[i as int].0, old_pv[j + 1].0));
                    }
                }
            }
            assert forall|kk: Seq<char>| #[trigger]
                as_map(pv).contains_key(kk) implies as_map(pv)[kk] == as_map(old_pv).remove(
                k,
            )[kk] by {
                let j = choose|j: int| 0 <= j < pv.len() && pv[j].0 == kk;
                assert(as_map(pv)[pv[j].0] == pv[j].1);
                if j < i {
                    assert(as_map(old_pv)[old_pv[j].0] == old_pv[j].1);
                } else {
                    assert(as_map(old_pv)[old_pv[j + 1].0] == old_pv[j + 1].1);
                }
            }
        }
    }
    Some(v)
}

/// The value stored under `key`.
pub fn get_entry<'a, V>(entries: &'a Vec<(String, V)>, key: &str) -> (r: Option<&'a V>)
    requires
        keys_sorted(pairs_view(entries@)),
    ensures
        r is Some <==> as_map(pairs_view(entries@)).contains_key(key@),
        r matches Some(v) ==> *v == as_map(pairs_view(entries@))[key@],
{
    let (i, found) = locate(entries, key);
    proof {
        lemma_as_map(pairs_view(entries@));
    }
    if found {
        assert(pairs_view(entries@)[i as int].0 == key@);
        Some(&entries[i].1)
    } else {
        None
    }
}

/// The keys of `entries`, in ascending order.
pub fn entry_keys<V>(entries: &Vec<(String, V)>) -> (r: Vec<String>)
    ensures
        r@.map_values(|s: String| s@) == keys_of(pairs_view(entries@)),
{
    let mut r: Vec<String> = Vec::new();
    let mut i: usize = 0;
    while i < entries.len()
        invariant
            i <= entries.len(),
            r.len() == i,
            forall|j: int| 0 <= j < i ==> (#[trigger] r@[j])@ == entries@[j].0@,
        decreases entries.len() - i,
    {
        r.push(entries[i].0.clone());
        i = i + 1;
    }
    assert(r@.map_values(|s: String| s@) =~= keys_of(pairs_view(entries@)));
    r
}

/// Entries under other keys, appended after a prefix, leave what the prefix
/// maps `key` to alone.
proof fn lemma_as_map_skip<V>(s: Seq<(Seq<char>, V)>, i: int, n: int, key: Seq<char>)
    requires
        0 <= i <= n <= s.len(),
        forall|j: int| i <= j < n ==> s[j].0 != key,
    ensures
        as_map(s.subrange(0, n)).contains_key(key) == as_map(s.subrange(0, i)).contains_key(key),
        as_map(s.subrange(0, i)).contains_key(key) ==> as_map(s.subrange(0, n))[key] == as_map(
            s.subrange(0, i),
        )[key],
    decreases n - i,
{
    if n > i {
        lemma_as_map_skip(s, i, n - 1, key);
        let t = s.subrange(0, n);
        assert(t.drop_last() =~= s.subrange(0, n - 1));
        assert(t.last() == s[n - 1]);
    }
}

/// The value stored under `key`, for any entry list: the last entry with
/// that key, which is what the list denotes as a map.
pub fn lookup_entry<'a, V>(entries: &'a Vec<(String, V)>, key: &str) -> (r: Option<&'a V>)
    ensures
        r is Some <==> as_map(pairs_view(entries@)).contains_key(key@),
        r matches Some(v) ==> *v == as_map(pairs_view(entries@))[key@],
{
    let ghost s = pairs_view(entries@);
    let mut i: usize = entries.len();
    while i > 0
        invariant
            i <= entries@.len(),
            s == pairs_view(entries@),
            s.len() == entries@.len(),
            forall|j: int| i <= j < s.len() ==> s[j].0 != key@,
        decreases i,
    {
        assert(s[i - 1] == (entries@[i - 1].0@, entries@[i - 1].1));
        if text_eq(entries[i - 1].0.as_str(), key) {
            proof {
                lemma_as_map_skip(s, i as int, s.len() as int, key@);
                let t = s.subrange(0, i as int);
                assert(t.drop_last() =~= s.subrange(0, i - 1));
                assert(t.last() == s[i - 1]);
                assert(s.subrange(0, s.len() as int) =~= s);
            }
            return Some(&entries[i - 1].1);
        }
        i = i - 1;
    }
    proof {
        lemma_as_map_skip(s, 0, s.len() as int, key@);
        assert(s.subrange(0, 0) =~= Seq::<(Seq<char>, V)>::empty());
        assert(s.subrange(0, s.len() as int) =~= s);
    }
    None
}

} // verus!
