//! Cluster switcher: the filter over kubeconfig context names and the
//! wrapping selection cursor. Connecting to the chosen context is the
//! host's job.

use vstd::prelude::*;

use crate::palette::{advanced, cursor_base, wrap_index};
use crate::text::{
    blank, chars_of, is_blank, lowercase, matches_at, occurs_at, to_lowercase, trim_chars,
    trimmed, string_from_chars,
};

verus! {

/// How many bytes UTF-8 spends on `c`.
pub open spec fn utf8_width(c: char) -> nat {
    let u = c as u32;
    if u < 0x80 {
        1
    } else if u < 0x800 {
        2
    } else if u < 0x10000 {
        3
    } else {
        4
    }
}

/// The byte offset of character position `i` in the UTF-8 encoding of `s`.
pub open spec fn byte_offset(s: Seq<char>, i: int) -> nat
    decreases i,
{
    if i <= 0 || s.len() == 0 {
        0
    } else if i > s.len() {
        byte_offset(s, s.len() as int)
    } else {
        byte_offset(s, i - 1) + utf8_width(s[i - 1])
    }
}

/// The first position at or after `i` where `p` occurs in `s`.
pub open spec fn first_occurrence(s: Seq<char>, p: Seq<char>, i: int) -> Option<int>
    decreases s.len() + 1 - i,
{
    if i < 0 || i > s.len() {
        None
    } else if occurs_at(p, s, i) {
        Some(i)
    } else {
        first_occurrence(s, p, i + 1)
    }
}

/// Where `needle` first occurs in the lower-cased `name`, as a byte offset.
pub open spec fn hit_position(name: Seq<char>, needle: Seq<char>) -> Option<nat> {
    match first_occurrence(lowercase(name), needle, 0) {
        Some(k) => Some(byte_offset(lowercase(name), k)),
        None => None,
    }
}

/// The names whose lower-cased form contains `needle`, with the match
/// position, in input order.
pub open spec fn hits(names: Seq<Seq<char>>, needle: Seq<char>) -> Seq<(nat, Seq<char>)>
    decreases names.len(),
{
    if names.len() == 0 {
        Seq::empty()
    } else {
        let h = hits(names.drop_last(), needle);
        match hit_position(names.last(), needle) {
            Some(p) => h.push((p, names.last())),
            None => h,
        }
    }
}

/// The first position in `s` whose match position is past `p`.
pub open spec fn first_after(s: Seq<(nat, Seq<char>)>, p: nat, i: int) -> int
    decreases s.len() - i,
{
    if i < 0 || i >= s.len() {
        s.len() as int
    } else if s[i].0 > p {
        i
    } else {
        first_after(s, p, i + 1)
    }
}

/// `x` placed after every entry of `s` whose position does not exceed its
/// own: one step of a stable sort by position.
pub open spec fn insert_by_position(s: Seq<(nat, Seq<char>)>, x: (nat, Seq<char>)) -> Seq<
    (nat, Seq<char>),
> {
    let k = first_after(s, x.0, 0);
    s.take(k).push(x) + s.skip(k)
}

/// `s` stably sorted by match position.
pub open spec fn sort_by_position(s: Seq<(nat, Seq<char>)>) -> Seq<(nat, Seq<char>)>
    decreases s.len(),
{
    if s.len() == 0 {
        Seq::empty()
    } else {
        insert_by_position(sort_by_position(s.drop_last()), s.last())
    }
}

/// The context names a query shows: all, in kubeconfig order, for a blank
/// query; otherwise those containing the trimmed, lower-cased query
/// (compared lower-cased), ordered by where the match starts (earliest
/// first, ties in kubeconfig order).
pub open spec fn filtered_contexts(names: Seq<Seq<char>>, query: Seq<char>) -> Seq<Seq<char>> {
    if is_blank(query) {
        names
    } else {
        sort_by_position(hits(names, lowercase(trimmed(query)))).map_values(
            |h: (nat, Seq<char>)| h.1,
        )
    }
}

fn first_match(h: &Vec<char>, n: &Vec<char>) -> (r: Option<usize>)
    ensures
        match r {
            Some(k) => first_occurrence(h@, n@, 0) == Some(k as int),
            None => first_occurrence(h@, n@, 0) is None,
        },
{
    let mut i: usize = 0;
    while i < h.len()
        invariant
            i <= h@.len(),
            first_occurrence(h@, n@, i as int) == first_occurrence(h@, n@, 0),
        decreases h@.len() - i,
    {
        if matches_at(h, n, i) {
            return Some(i);
        }
        i = i + 1;
    }
    if matches_at(h, n, i) {
        return Some(i);
    }
    assert(first_occurrence(h@, n@, h@.len() as int + 1) is None);
    None
}

proof fn lemma_first_occurrence_bounds(s: Seq<char>, p: Seq<char>, i: int)
    requires
        0 <= i,
    ensures
        first_occurrence(s, p, i) matches Some(k) ==> i <= k <= s.len(),
    decreases s.len() + 1 - i,
{
    if i <= s.len() && !occurs_at(p, s, i) {
        lemma_first_occurrence_bounds(s, p, i + 1);
    }
}

fn width(c: char) -> (r: u128)
    ensures
        r == utf8_width(c),
{
    let u = c as u32;
    if u < 0x80 {
        1
    } else if u < 0x800 {
        2
    } else if u < 0x10000 {
        3
    } else {
        4
    }
}

fn offset_of(s: &Vec<char>, k: usize) -> (r: u128)
    requires
        k <= s@.len(),
    ensures
        r == byte_offset(s@, k as int),
{
    let mut total: u128 = 0;
    let mut i: usize = 0;
    while i < k
        invariant
            i <= k <= s@.len(),
            total == byte_offset(s@, i as int),
            total <= 4 * i,
        decreases k - i,
    {
        total = total + width(s[i]);
        i = i + 1;
    }
    total
}

proof fn lemma_first_after_bounds(s: Seq<(nat, Seq<char>)>, p: nat, i: int)
    requires
        0 <= i <= s.len(),
    ensures
        i <= first_after(s, p, i) <= s.len(),
    decreases s.len() - i,
{
    if i < s.len() && s[i].0 <= p {
        lemma_first_after_bounds(s, p, i + 1);
    }
}

/// Filter context names by a case-insensitive substring query. A blank
/// query returns all names in kubeconfig order; matches are ordered by
/// match position (earliest first, stable for ties).
pub fn filter_contexts(names: &[String], query: &str) -> (r: Vec<String>)
    ensures
        r@.map_values(|n: String| n@) == filtered_contexts(
            names@.map_values(|n: String| n@),
            query@,
        ),
{
    let ghost nv = names@.map_values(|n: String| n@);
    if blank(query) {
        let mut all: Vec<String> = Vec::new();
        let mut i: usize = 0;
        while i < names.len()
            invariant
                i <= names@.len(),
                nv == names@.map_values(|n: String| n@),
                all@.map_values(|n: String| n@) == nv.subrange(0, i as int),
            decreases names@.len() - i,
        {
            let ghost before = all@;
            let n = names[i].clone();
            all.push(n);
            assert(all@.map_values(|n: String| n@) =~= before.map_values(|n: String| n@).push(n@));
            i = i + 1;
            assert(all@.map_values(|n: String| n@) =~= nv.subrange(0, i as int));
        }
        assert(nv.subrange(0, i as int) =~= nv);
        return all;
    }
    let trimmed_query = string_from_chars(&trim_chars(&chars_of(query)));
    let needle_text = to_lowercase(trimmed_query.as_str());
    let needle = chars_of(needle_text.as_str());
    let ghost nd = lowercase(trimmed(query@));
    assert(needle@ == nd);
    let mut sorted: Vec<(u128, String)> = Vec::new();
    let mut i: usize = 0;
    while i < names.len()
        invariant
            i <= names@.len(),
            nv == names@.map_values(|n: String| n@),
            needle@ == nd,
            sorted@.map_values(|h: (u128, String)| (h.0 as nat, h.1@)) == sort_by_position(
                hits(nv.subrange(0, i as int), nd),
            ),
        decreases names@.len() - i,
    {
        let ghost sub = nv.subrange(0, i + 1);
        assert(sub.drop_last() =~= nv.subrange(0, i as int));
        assert(sub.last() == names@[i as int]@);
        let lower = to_lowercase(names[i].as_str());
        let hay = chars_of(lower.as_str());
        let ghost prev = nv.subrange(0, i as int);
        assert(hay@ == lowercase(sub.last()));
        match first_match(&hay, &needle) {
            Some(k) => {
                proof {
                    lemma_first_occurrence_bounds(hay@, needle@, 0);
                }
                let pos = offset_of(&hay, k);
                assert(hit_position(sub.last(), nd) == Some(pos as nat));
                assert(hits(sub, nd) == hits(prev, nd).push((pos as nat, sub.last())));
                let ghost sv = sorted@.map_values(|h: (u128, String)| (h.0 as nat, h.1@));
                let mut j: usize = 0;
                while j < sorted.len() && sorted[j].0 <= pos
                    invariant
                        j <= sorted@.len(),
                        sv == sorted@.map_values(|h: (u128, String)| (h.0 as nat, h.1@)),
                        first_after(sv, pos as nat, j as int) == first_after(sv, pos as nat, 0),
                    decreases sorted@.len() - j,
                {
                    j = j + 1;
                }
                assert(first_after(sv, pos as nat, j as int) == j);
                proof {
                    lemma_first_after_bounds(sv, pos as nat, 0);
                }
                let ghost before = sorted@;
                let n = names[i].clone();
                sorted.insert(j, (pos, n));
                assert(sorted@.map_values(|h: (u128, String)| (h.0 as nat, h.1@)) =~= insert_by_position(
                    sv,
                    (pos as nat, n@),
                ));
                assert(n@ == sub.last());
                assert(hits(sub, nd).drop_last() =~= hits(prev, nd));
                assert(hits(sub, nd).last() == (pos as nat, sub.last()));
                assert(sort_by_position(hits(sub, nd)) == insert_by_position(
                    sort_by_position(hits(prev, nd)),
                    (pos as nat, sub.last()),
                ));
            },
            None => {
                assert(hit_position(sub.last(), nd) is None);
                assert(hits(sub, nd) == hits(prev, nd));
            },
        }
        i = i + 1;
    }
    assert(nv.subrange(0, i as int) =~= nv);
    let ghost sv = sorted@.map_values(|h: (u128, String)| (h.0 as nat, h.1@));
    let mut out: Vec<String> = Vec::new();
    let mut k: usize = 0;
    while k < sorted.len()
        invariant
            k <= sorted@.len(),
            sv == sorted@.map_values(|h: (u128, String)| (h.0 as nat, h.1@)),
            out@.map_values(|n: String| n@) == sv.subrange(0, k as int).map_values(
                |h: (nat, Seq<char>)| h.1,
            ),
        decreases sorted@.len() - k,
    {
        let ghost before = out@;
        let n = sorted[k].1.clone();
        out.push(n);
        assert(out@.map_values(|n: String| n@) =~= before.map_values(|n: String| n@).push(n@));
        k = k + 1;
        assert(out@.map_values(|n: String| n@) =~= sv.subrange(0, k as int).map_values(
            |h: (nat, Seq<char>)| h.1,
        ));
    }
    assert(sv.subrange(0, k as int) =~= sv);
    out
}

/// Advance a selection index by `delta` with wrapping. `None` when the list
/// is empty; a stale out-of-range selection is clamped first.
pub fn advance_index(selected: Option<usize>, len: usize, delta: isize) -> (r: Option<usize>)
    requires
        len <= isize::MAX,
        len > 0 ==> isize::MIN <= cursor_base(selected, len) + delta <= isize::MAX,
    ensures
        r == advanced(selected, len, delta),
{
    wrap_index(selected, len, delta)
}

/// Positions never decrease along `s`.
pub open spec fn by_position(s: Seq<(nat, Seq<char>)>) -> bool {
    forall|i: int, j: int| 0 <= i < j < s.len() ==> s[i].0 <= s[j].0
}

proof fn lemma_first_after_split(s: Seq<(nat, Seq<char>)>, p: nat, i: int)
    requires
        0 <= i <= s.len(),
        by_position(s),
    ensures
        i <= first_after(s, p, i) <= s.len(),
        forall|k: int| i <= k < first_after(s, p, i) ==> s[k].0 <= p,
        forall|k: int| first_after(s, p, i) <= k < s.len() ==> s[k].0 > p,
    decreases s.len() - i,
{
    if i < s.len() && s[i].0 <= p {
        lemma_first_after_split(s, p, i + 1);
    }
}

proof fn lemma_insert_by_position(s: Seq<(nat, Seq<char>)>, x: (nat, Seq<char>))
    requires
        by_position(s),
    ensures
        by_position(insert_by_position(s, x)),
        insert_by_position(s, x).to_multiset() == s.to_multiset().insert(x),
{
    lemma_first_after_split(s, x.0, 0);
    let k = first_after(s, x.0, 0);
    let t = insert_by_position(s, x);
    assert(t =~= s.insert(k, x));
    assert forall|i: int, j: int| 0 <= i < j < t.len() implies t[i].0 <= t[j].0 by {
        if j < k {
        } else if j == k {
        } else if i < k {
        } else if i == k {
            assert(t[j] == s[j - 1]);
        } else {
            assert(t[i] == s[i - 1] && t[j] == s[j - 1]);
        }
    }
    vstd::seq_lib::to_multiset_insert(s, k, x);
}

/// The context filter orders its hits by where the match starts: the order
/// is a stable sort that keeps every hit exactly once and never puts a later
/// match before an earlier one.
pub proof fn law_context_filter_orders_by_match_position(s: Seq<(nat, Seq<char>)>)
    ensures
        by_position(sort_by_position(s)),
        sort_by_position(s).to_multiset() == s.to_multiset(),
        sort_by_position(s).len() == s.len(),
    decreases s.len(),
{
    if s.len() > 0 {
        law_context_filter_orders_by_match_position(s.drop_last());
        lemma_insert_by_position(sort_by_position(s.drop_last()), s.last());
        assert(s =~= s.drop_last().push(s.last()));
        vstd::seq_lib::to_multiset_build(s.drop_last(), s.last());
        assert(sort_by_position(s).len() == sort_by_position(s).to_multiset().len()) by {
            sort_by_position(s).to_multiset_ensures();
        }
        s.to_multiset_ensures();
    } else {
        assert(s =~= Seq::<(nat, Seq<char>)>::empty());
    }
}

} // verus!
