//! Fuzzy matching for the command palette and global search.

use vstd::prelude::*;

use crate::text::{chars_of, lowercase, to_lowercase};

verus! {

/// A successful fuzzy match with its score and matched positions.
#[derive(Debug, Clone, PartialEq, Eq)]
pub struct FuzzyMatch {
    /// Match strength; higher is better.
    pub score: i64,
    /// Indices of the `candidate` characters matched by the query.
    pub positions: Vec<usize>,
}

/// Characters that act as word boundaries in resource/path identifiers.
pub open spec fn is_boundary_char(c: char) -> bool {
    c == ' ' || c == '-' || c == '_' || c == '.' || c == ':' || c == '/' || c == '\\'
}

/// Whether a character acts as a word boundary in a resource/path identifier.
pub fn is_boundary(c: char) -> (r: bool)
    ensures
        r == is_boundary_char(c),
{
    c == ' ' || c == '-' || c == '_' || c == '.' || c == ':' || c == '/' || c == '\\'
}

/// The first index at or after `from` where `h` holds `c`.
pub open spec fn next_match(h: Seq<char>, c: char, from: int) -> Option<int>
    decreases h.len() - from,
{
    if from < 0 || from >= h.len() {
        None
    } else if h[from] == c {
        Some(from)
    } else {
        next_match(h, c, from + 1)
    }
}

/// The leftmost (greedy) embedding of `q` into `h` at indices `>= from`:
/// each query character is matched at the first candidate position after
/// the previous match.
pub open spec fn greedy_embedding(q: Seq<char>, h: Seq<char>, from: int) -> Option<Seq<int>>
    decreases q.len(),
{
    if q.len() == 0 {
        Some(Seq::empty())
    } else {
        match next_match(h, q[0], from) {
            None => None,
            Some(i) => match greedy_embedding(q.drop_first(), h, i + 1) {
                None => None,
                Some(rest) => Some(seq![i] + rest),
            },
        }
    }
}

/// `ps` places each character of `q` at a strictly increasing index of `h`.
pub open spec fn is_embedding(q: Seq<char>, h: Seq<char>, ps: Seq<int>) -> bool {
    &&& ps.len() == q.len()
    &&& forall|k: int| 0 <= k < ps.len() ==> 0 <= #[trigger] ps[k] < h.len() && h[ps[k]] == q[k]
    &&& forall|i: int, j: int| 0 <= i < j < ps.len() ==> ps[i] < ps[j]
}

/// `q` is a subsequence of `h`.
pub open spec fn is_subsequence(q: Seq<char>, h: Seq<char>) -> bool {
    exists|ps: Seq<int>| is_embedding(q, h, ps)
}

/// Bonus for a match at `p`: the start of the candidate or of a word.
pub open spec fn boundary_bonus(h: Seq<char>, p: int) -> int {
    if p == 0 || is_boundary_char(h[p - 1]) {
        8
    } else {
        0
    }
}

/// The first match earns 4, a match right after the previous one 5, and a
/// match after a gap loses 1.
pub open spec fn step_bonus(ps: Seq<int>, k: int) -> int {
    if k == 0 {
        4
    } else if ps[k - 1] + 1 == ps[k] {
        5
    } else {
        -1
    }
}

/// Sum of the per-match bonuses of `ps`.
pub open spec fn raw_score(h: Seq<char>, ps: Seq<int>) -> int
    decreases ps.len(),
{
    if ps.len() == 0 {
        0
    } else {
        raw_score(h, ps.drop_last()) + boundary_bonus(h, ps.last()) + step_bonus(
            ps,
            ps.len() - 1,
        )
    }
}

/// The score of matching at `ps`: bonuses minus a length penalty of one
/// point per 16 candidate characters.
pub open spec fn match_score(h: Seq<char>, ps: Seq<int>) -> int {
    raw_score(h, ps) - h.len() / 16
}

/// What `fuzzy_match(query, candidate)` computes: an empty query matches
/// with score 0 and no positions; otherwise the lowercased query is matched
/// greedily against the lowercased candidate, `None` when it does not embed.
pub open spec fn fuzzy_result(query: Seq<char>, candidate: Seq<char>) -> Option<(int, Seq<int>)> {
    if query.len() == 0 {
        Some((0, Seq::empty()))
    } else {
        let h = lowercase(candidate);
        match greedy_embedding(lowercase(query), h, 0) {
            None => None,
            Some(ps) => Some((match_score(h, ps), ps)),
        }
    }
}

/// The positions of a match, as integers.
pub open spec fn positions_of(m: FuzzyMatch) -> Seq<int> {
    m.positions@.map_values(|p: usize| p as int)
}

/// `r` is what [`fuzzy_result`] describes (the score as an `i64`).
pub open spec fn fuzzy_agrees(r: Option<FuzzyMatch>, expected: Option<(int, Seq<int>)>) -> bool {
    match expected {
        None => r is None,
        Some(e) => r is Some && r->0.score == e.0 as i64 && positions_of(r->0) == e.1,
    }
}

spec fn join(prefix: Seq<int>, rest: Option<Seq<int>>) -> Option<Seq<int>> {
    match rest {
        None => None,
        Some(r) => Some(prefix + r),
    }
}

proof fn lemma_next_match_found(h: Seq<char>, c: char, from: int)
    ensures
        next_match(h, c, from) matches Some(i) ==> from <= i < h.len() && h[i] == c && 0 <= i,
        next_match(h, c, from) is None ==> forall|j: int|
            0 <= from <= j < h.len() ==> h[j] != c,
    decreases h.len() - from,
{
    if 0 <= from < h.len() && h[from] != c {
        lemma_next_match_found(h, c, from + 1);
        if next_match(h, c, from) is None {
            assert forall|j: int| 0 <= from <= j < h.len() implies h[j] != c by {
                if j > from {
                }
            }
        }
    }
}

proof fn lemma_next_match_first(h: Seq<char>, c: char, from: int, j: int)
    requires
        0 <= from <= j < h.len(),
        h[j] == c,
    ensures
        next_match(h, c, from) matches Some(i) && i <= j,
    decreases j - from,
{
    if h[from] != c {
        lemma_next_match_first(h, c, from + 1, j);
    }
}

/// A greedy embedding is an embedding, at indices `>= from`.
proof fn lemma_greedy_sound(q: Seq<char>, h: Seq<char>, from: int)
    requires
        0 <= from,
    ensures
        greedy_embedding(q, h, from) matches Some(ps) ==> is_embedding(q, h, ps) && forall|k: int|
            0 <= k < ps.len() ==> from <= #[trigger] ps[k],
    decreases q.len(),
{
    if q.len() > 0 {
        lemma_next_match_found(h, q[0], from);
        if let Some(i) = next_match(h, q[0], from) {
            lemma_greedy_sound(q.drop_first(), h, i + 1);
            if let Some(rest) = greedy_embedding(q.drop_first(), h, i + 1) {
                let ps = seq![i] + rest;
                assert forall|k: int| 0 <= k < ps.len() implies 0 <= #[trigger] ps[k] < h.len()
                    && h[ps[k]] == q[k] && from <= ps[k] by {
                    if k > 0 {
                        assert(ps[k] == rest[k - 1]);
                    }
                }
                assert forall|a: int, b: int| 0 <= a < b < ps.len() implies ps[a] < ps[b] by {
                    assert(ps[b] == rest[b - 1]);
                    if a > 0 {
                        assert(ps[a] == rest[a - 1]);
                    }
                }
            }
        }
    }
}

/// If any embedding at indices `>= from` exists, the greedy one does.
proof fn lemma_greedy_complete(q: Seq<char>, h: Seq<char>, from: int, e: Seq<int>)
    requires
        0 <= from,
        is_embedding(q, h, e),
        forall|k: int| 0 <= k < e.len() ==> from <= #[trigger] e[k],
    ensures
        greedy_embedding(q, h, from) is Some,
    decreases q.len(),
{
    if q.len() > 0 {
        assert(0 <= e[0] < h.len() && h[e[0]] == q[0]);
        lemma_next_match_first(h, q[0], from, e[0]);
        lemma_next_match_found(h, q[0], from);
        let i = next_match(h, q[0], from)->0;
        let e1 = e.drop_first();
        assert forall|k: int| 0 <= k < e1.len() implies i + 1 <= #[trigger] e1[k] by {
            assert(e1[k] == e[k + 1]);
            assert(e[0] < e[k + 1]);
        }
        assert forall|k: int| 0 <= k < e1.len() implies 0 <= #[trigger] e1[k] < h.len() && h[e1[k]]
            == q.drop_first()[k] by {
            assert(e1[k] == e[k + 1]);
        }
        assert forall|a: int, b: int| 0 <= a < b < e1.len() implies e1[a] < e1[b] by {
            assert(e1[a] == e[a + 1] && e1[b] == e[b + 1]);
        }
        lemma_greedy_complete(q.drop_first(), h, i + 1, e1);
    }
}

/// Scoring rewards consecutive matches: after the same matched prefix, a
/// next match right after the previous one scores strictly more than one
/// after a gap at a position with the same word-boundary status (six points
/// more: +5 for the run against -1 for the gap).
pub proof fn law_consecutive_matches_outscore_gaps(h: Seq<char>, ps: Seq<int>, a: int, b: int)
    requires
        ps.len() > 0,
        a == ps.last() + 1,
        b > a,
        boundary_bonus(h, a) == boundary_bonus(h, b),
    ensures
        match_score(h, ps.push(a)) > match_score(h, ps.push(b)),
        match_score(h, ps.push(a)) == match_score(h, ps.push(b)) + 6,
{
    assert(ps.push(a).drop_last() =~= ps);
    assert(ps.push(b).drop_last() =~= ps);
    assert(ps.push(a)[ps.len() - 1] == ps.last());
    assert(ps.push(b)[ps.len() - 1] == ps.last());
}

/// Scoring rewards word boundaries: after the same matched prefix and with
/// the same adjacency to it, a match at the start of the candidate or of a
/// word scores eight more than one inside a word.
pub proof fn law_boundary_matches_outscore_inner_ones(h: Seq<char>, ps: Seq<int>, a: int, b: int)
    requires
        0 < a < h.len(),
        0 < b < h.len(),
        is_boundary_char(h[a - 1]),
        !is_boundary_char(h[b - 1]),
        ps.len() == 0 || (ps.last() + 1 == a) == (ps.last() + 1 == b),
    ensures
        match_score(h, ps.push(a)) == match_score(h, ps.push(b)) + 8,
{
    assert(ps.push(a).drop_last() =~= ps);
    assert(ps.push(b).drop_last() =~= ps);
    if ps.len() > 0 {
        assert(ps.push(a)[ps.len() - 1] == ps.last());
        assert(ps.push(b)[ps.len() - 1] == ps.last());
    }
}

/// The matcher succeeds exactly when the lowercased query is a subsequence
/// of the lowercased candidate, and the reported positions then spell the
/// lowercased query at strictly increasing candidate indices.
pub proof fn law_fuzzy_match_is_subsequence_test(query: Seq<char>, candidate: Seq<char>)
    requires
        query.len() > 0,
    ensures
        fuzzy_result(query, candidate) is Some <==> is_subsequence(
            lowercase(query),
            lowercase(candidate),
        ),
        fuzzy_result(query, candidate) matches Some(r) ==> is_embedding(
            lowercase(query),
            lowercase(candidate),
            r.1,
        ),
        fuzzy_result(query, candidate) matches Some(r) ==> r.0 == match_score(
            lowercase(candidate),
            r.1,
        ),
{
    let q = lowercase(query);
    let h = lowercase(candidate);
    lemma_greedy_sound(q, h, 0);
    if is_subsequence(q, h) {
        let e = choose|e: Seq<int>| is_embedding(q, h, e);
        lemma_greedy_complete(q, h, 0, e);
    }
    if let Some(ps) = greedy_embedding(q, h, 0) {
        assert(is_embedding(q, h, ps));
    }
}

proof fn lemma_join_assoc(p: Seq<int>, i: int, rest: Option<Seq<int>>)
    ensures
        join(p, join(seq![i], rest)) == join(p.push(i), rest),
{
    if let Some(r) = rest {
        assert(p + (seq![i] + r) =~= p.push(i) + r);
    }
}

proof fn lemma_raw_score_bound(h: Seq<char>, ps: Seq<int>)
    ensures
        -(ps.len() as int) <= raw_score(h, ps) <= 13 * ps.len(),
    decreases ps.len(),
{
    if ps.len() > 0 {
        lemma_raw_score_bound(h, ps.drop_last());
    }
}

/// Score how well `query` fuzzy-matches `candidate`.
///
/// A fuzzy match requires the query characters to appear in `candidate` as a
/// subsequence (case-insensitive). Scoring rewards word-boundary and
/// consecutive matches and lightly penalises long candidates and gaps.
/// Returns `None` when `query` is not a subsequence of `candidate`.
pub fn fuzzy_match(query: &str, candidate: &str) -> (r: Option<FuzzyMatch>)
    ensures
        fuzzy_agrees(r, fuzzy_result(query@, candidate@)),
        r is Some <==> is_subsequence(lowercase(query@), lowercase(candidate@)),
        r matches Some(m) ==> is_embedding(
            lowercase(query@),
            lowercase(candidate@),
            positions_of(m),
        ),
{
    let needle = chars_of(&to_lowercase(query));
    if query.unicode_len() == 0 {
        let m = FuzzyMatch { score: 0, positions: Vec::new() };
        assert(positions_of(m) =~= Seq::<int>::empty());
        assert(is_embedding(lowercase(query@), lowercase(candidate@), Seq::<int>::empty()));
        return Some(m);
    }
    proof {
        law_fuzzy_match_is_subsequence_test(query@, candidate@);
    }
    let haystack = chars_of(&to_lowercase(candidate));
    let ghost q = needle@;
    let ghost h = haystack@;

    let mut positions: Vec<usize> = Vec::new();
    let mut score: i128 = 0;
    let mut qi: usize = 0;
    let mut prev: Option<usize> = None;
    let mut ci: usize = 0;
    proof {
        assert(q.subrange(0, q.len() as int) =~= q);
        assert(join(Seq::empty(), greedy_embedding(q, h, 0)) =~= greedy_embedding(q, h, 0)) by {
            if let Some(r) = greedy_embedding(q, h, 0) {
                assert(Seq::<int>::empty() + r =~= r);
            }
        }
    }
    while ci < haystack.len() && qi < needle.len()
        invariant
            needle@ == q,
            haystack@ == h,
            q == lowercase(query@),
            h == lowercase(candidate@),
            qi == positions.len(),
            qi <= needle.len(),
            qi <= ci <= haystack.len(),
            forall|k: int| 0 <= k < qi ==> #[trigger] positions@[k] < ci,
            prev == (if qi == 0 {
                None::<usize>
            } else {
                Some(positions@[qi - 1])
            }),
            score == raw_score(h, positions@.map_values(|p: usize| p as int)),
            join(
                positions@.map_values(|p: usize| p as int),
                greedy_embedding(q.subrange(qi as int, q.len() as int), h, ci as int),
            ) == greedy_embedding(q, h, 0),
        decreases haystack.len() - ci,
    {
        let ghost pv = positions@.map_values(|p: usize| p as int);
        let ghost rest_q = q.subrange(qi as int, q.len() as int);
        let ch = haystack[ci];
        if ch == needle[qi] {
            proof {
                lemma_raw_score_bound(h, pv);
                assert(rest_q[0] == q[qi as int]);
                assert(rest_q.drop_first() =~= q.subrange(qi + 1, q.len() as int));
                assert(next_match(h, rest_q[0], ci as int) == Some(ci as int));
                lemma_join_assoc(
                    pv,
                    ci as int,
                    greedy_embedding(q.subrange(qi + 1, q.len() as int), h, ci + 1),
                );
            }
            let mut bonus: i128 = 0;
            if ci == 0 || is_boundary(haystack[ci - 1]) {
                bonus = 8;
            }
            match prev {
                Some(pi) => {
                    if pi + 1 == ci {
                        bonus = bonus + 5;
                    } else {
                        bonus = bonus - 1;
                    }
                },
                None => {
                    bonus = bonus + 4;
                },
            }
            positions.push(ci);
            proof {
                let pv2 = positions@.map_values(|p: usize| p as int);
                assert(pv2 =~= pv.push(ci as int));
                assert(pv2.drop_last() =~= pv);
                if qi > 0 {
                    assert(pv2[qi - 1] == pv[qi - 1]);
                }
                assert(raw_score(h, pv2) == raw_score(h, pv) + boundary_bonus(h, ci as int)
                    + step_bonus(pv2, qi as int));
                assert(-(qi as int) <= score <= 13 * qi);
                assert(qi < h.len());
            }
            score = score + bonus;
            prev = Some(ci);
            qi = qi + 1;
        } else {
            proof {
                assert(rest_q[0] == q[qi as int]);
                assert(next_match(h, rest_q[0], ci as int) == next_match(h, rest_q[0], ci + 1));
            }
        }
        ci = ci + 1;
    }
    if qi < needle.len() {
        proof {
            let rest_q = q.subrange(qi as int, q.len() as int);
            assert(ci == h.len());
            assert(next_match(h, rest_q[0], ci as int) is None);
        }
        return None;
    }
    proof {
        let pv = positions@.map_values(|p: usize| p as int);
        assert(q.subrange(qi as int, q.len() as int) =~= Seq::<char>::empty());
        assert(pv + Seq::<int>::empty() =~= pv);
        lemma_raw_score_bound(h, pv);
    }
    let len = haystack.len() as i128;
    let total = score - len / 16;
    let m = FuzzyMatch { score: total as i64, positions };
    Some(m)
}


/// A ranked entry viewed as `(score, positions, item)`.
pub open spec fn entry_view<T>(x: (FuzzyMatch, T)) -> (int, Seq<int>, T) {
    (x.0.score as int, positions_of(x.0), x.1)
}

/// The candidates that match `query`, in input order, with their scores.
pub open spec fn matched<T>(query: Seq<char>, cands: Seq<(Seq<char>, T)>) -> Seq<(int, Seq<int>, T)>
    decreases cands.len(),
{
    if cands.len() == 0 {
        Seq::empty()
    } else {
        let m = matched(query, cands.drop_last());
        match fuzzy_result(query, cands.last().0) {
            None => m,
            Some(e) => m.push(((e.0 as i64) as int, e.1, cands.last().1)),
        }
    }
}

/// The first index at or after `i` whose score is below `score`.
pub open spec fn first_below<T>(s: Seq<(int, Seq<int>, T)>, score: int, i: int) -> int
    decreases s.len() - i,
{
    if i >= s.len() || i < 0 {
        s.len() as int
    } else if s[i].0 < score {
        i
    } else {
        first_below(s, score, i + 1)
    }
}

/// Inserts `x` after every entry scoring at least as high.
pub open spec fn insert_ranked<T>(s: Seq<(int, Seq<int>, T)>, x: (int, Seq<int>, T)) -> Seq<
    (int, Seq<int>, T),
> {
    s.insert(first_below(s, x.0, 0), x)
}

/// Stable sort by descending score (insertion order among equal scores).
pub open spec fn sort_by_score<T>(s: Seq<(int, Seq<int>, T)>) -> Seq<(int, Seq<int>, T)>
    decreases s.len(),
{
    if s.len() == 0 {
        Seq::empty()
    } else {
        insert_ranked(sort_by_score(s.drop_last()), s.last())
    }
}

/// Scores never increase along `s`.
pub open spec fn descending<T>(s: Seq<(int, Seq<int>, T)>) -> bool {
    forall|i: int, j: int| 0 <= i < j < s.len() ==> s[i].0 >= s[j].0
}

proof fn lemma_first_below<T>(s: Seq<(int, Seq<int>, T)>, score: int, i: int)
    requires
        0 <= i <= s.len(),
        descending(s),
    ensures
        i <= first_below(s, score, i) <= s.len(),
        forall|k: int| i <= k < first_below(s, score, i) ==> s[k].0 >= score,
        forall|k: int| first_below(s, score, i) <= k < s.len() ==> s[k].0 < score,
    decreases s.len() - i,
{
    if i < s.len() && s[i].0 >= score {
        lemma_first_below(s, score, i + 1);
    }
}

proof fn lemma_insert_ranked<T>(s: Seq<(int, Seq<int>, T)>, x: (int, Seq<int>, T))
    requires
        descending(s),
    ensures
        descending(insert_ranked(s, x)),
        insert_ranked(s, x).len() == s.len() + 1,
        insert_ranked(s, x).to_multiset() == s.to_multiset().insert(x),
{
    lemma_first_below(s, x.0, 0);
    let p = first_below(s, x.0, 0);
    let t = insert_ranked(s, x);
    assert forall|i: int, j: int| 0 <= i < j < t.len() implies t[i].0 >= t[j].0 by {
        if j < p {
        } else if j == p {
        } else if i < p {
        } else if i == p {
            assert(t[j] == s[j - 1]);
        } else {
            assert(t[i] == s[i - 1] && t[j] == s[j - 1]);
        }
    }
    vstd::seq_lib::to_multiset_insert(s, p, x);
}

/// The ranking order is a stable sort: it keeps every matched entry exactly
/// once and orders scores from best to worst.
pub proof fn law_ranking_sorts_matches<T>(s: Seq<(int, Seq<int>, T)>)
    ensures
        descending(sort_by_score(s)),
        sort_by_score(s).to_multiset() == s.to_multiset(),
        sort_by_score(s).len() == s.len(),
    decreases s.len(),
{
    if s.len() > 0 {
        law_ranking_sorts_matches(s.drop_last());
        lemma_insert_ranked(sort_by_score(s.drop_last()), s.last());
        assert(s =~= s.drop_last().push(s.last()));
        vstd::seq_lib::to_multiset_build(s.drop_last(), s.last());
    } else {
        assert(s =~= Seq::<(int, Seq<int>, T)>::empty());
    }
}

/// Rank candidates by fuzzy score against `query`, best first, dropping
/// non-matches. Returns `(match, item)` pairs; candidates with equal scores
/// keep their input order.
pub fn rank<'a, T>(query: &str, candidates: Vec<(&'a str, T)>) -> (r: Vec<(FuzzyMatch, T)>)
    ensures
        r@.map_values(|x: (FuzzyMatch, T)| entry_view(x)) == sort_by_score(
            matched(query@, candidates@.map_values(|c: (&'a str, T)| (c.0@, c.1))),
        ),
{
    let ghost cv = candidates@.map_values(|c: (&'a str, T)| (c.0@, c.1));
    let mut rest = candidates;
    let total = rest.len();
    assert(total == cv.len());
    let mut ranked: Vec<(FuzzyMatch, T)> = Vec::new();
    let mut taken: usize = 0;
    proof {
        assert(cv.subrange(0, 0) =~= Seq::<(Seq<char>, T)>::empty());
        assert(ranked@.map_values(|x: (FuzzyMatch, T)| entry_view(x)) =~= Seq::<
            (int, Seq<int>, T),
        >::empty());
    }
    while rest.len() > 0
        invariant
            taken + rest.len() == cv.len(),
            cv.len() <= usize::MAX,
            rest@.map_values(|c: (&'a str, T)| (c.0@, c.1)) == cv.subrange(
                taken as int,
                cv.len() as int,
            ),
            ranked@.map_values(|x: (FuzzyMatch, T)| entry_view(x)) == sort_by_score(
                matched(query@, cv.subrange(0, taken as int)),
            ),
        decreases rest.len(),
    {
        let ghost before = ranked@.map_values(|x: (FuzzyMatch, T)| entry_view(x));
        let ghost rv = rest@;
        let (cand, item) = rest.remove(0);
        let ghost pre = cv.subrange(0, taken as int);
        let ghost post = cv.subrange(0, taken + 1);
        proof {
            assert((cand, item) == rv[0]);
            let pre = cv.subrange(0, taken as int);
            let post = cv.subrange(0, taken + 1);
            assert(post.drop_last() =~= pre);
            assert(rv.map_values(|c: (&'a str, T)| (c.0@, c.1))[0] == cv[taken as int]);
            assert(post.last() == cv[taken as int]);
            assert(rest@ =~= rv.subrange(1, rv.len() as int));
            assert(rest@.map_values(|c: (&'a str, T)| (c.0@, c.1)) =~= rv.map_values(
                |c: (&'a str, T)| (c.0@, c.1),
            ).subrange(1, rv.len() as int));
            assert(rest@.map_values(|c: (&'a str, T)| (c.0@, c.1)) =~= cv.subrange(
                taken + 1,
                cv.len() as int,
            ));
            law_ranking_sorts_matches(matched(query@, pre));
        }
        assert(post.last() == (cand@, item));
        assert(post.drop_last() =~= pre);
        match fuzzy_match(query, cand) {
            None => {
                assert(matched(query@, post) == matched(query@, pre));
            },
            Some(m) => {
                let mut p: usize = 0;
                while p < ranked.len() && ranked[p].0.score >= m.score
                    invariant
                        p <= ranked.len(),
                        before == ranked@.map_values(|x: (FuzzyMatch, T)| entry_view(x)),
                        descending(before),
                        first_below(before, m.score as int, 0) == first_below(
                            before,
                            m.score as int,
                            p as int,
                        ),
                    decreases ranked.len() - p,
                {
                    p = p + 1;
                }
                let ghost x = entry_view((m, item));
                ranked.insert(p, (m, item));
                proof {
                    assert(ranked@.map_values(|x: (FuzzyMatch, T)| entry_view(x)) =~= before.insert(
                        p as int,
                        x,
                    ));
                    assert(first_below(before, x.0, p as int) == p);
                    let mp = matched(query@, pre).push(x);
                    assert(matched(query@, post) == mp);
                    assert(mp.drop_last() =~= matched(query@, pre));
                    assert(sort_by_score(mp) == insert_ranked(sort_by_score(matched(query@, pre)), x));
                }
            },
        }
        taken = taken + 1;
    }
    proof {
        assert(cv.subrange(0, taken as int) =~= cv);
    }
    ranked
}

} // verus!
