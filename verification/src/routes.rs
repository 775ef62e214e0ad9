//! Plugin routes: a plugin's route path split into segments for the router's
//! catch-all, and the path rebuilt from the segments.

use vstd::prelude::*;

use crate::text::{chars_of, push_char, string_from_chars};

verus! {

/// Splitting state after reading `s`: the finished non-empty segments and
/// the segment being read.
pub open spec fn split_state(s: Seq<char>) -> (Seq<Seq<char>>, Seq<char>)
    decreases s.len(),
{
    if s.len() == 0 {
        (Seq::empty(), Seq::empty())
    } else {
        let (done, cur) = split_state(s.drop_last());
        if s.last() == '/' {
            (if cur.len() > 0 {
                done.push(cur)
            } else {
                done
            }, Seq::empty())
        } else {
            (done, cur.push(s.last()))
        }
    }
}

/// The non-empty `/`-separated segments of a path, in order.
pub open spec fn path_segments(s: Seq<char>) -> Seq<Seq<char>> {
    let (done, cur) = split_state(s);
    if cur.len() > 0 {
        done.push(cur)
    } else {
        done
    }
}

/// Segments joined with `/`.
pub open spec fn joined(segs: Seq<Seq<char>>) -> Seq<char>
    decreases segs.len(),
{
    if segs.len() == 0 {
        Seq::empty()
    } else if segs.len() == 1 {
        segs[0]
    } else {
        joined(segs.drop_last()) + seq!['/'] + segs.last()
    }
}

/// The full path of a list of segments: `/` followed by the segments joined
/// with `/`.
pub open spec fn path_of(segs: Seq<Seq<char>>) -> Seq<char> {
    seq!['/'] + joined(segs)
}

/// The route segments of a plugin path: leading, trailing and doubled `/`
/// produce no empty segments.
pub fn plugin_route(path: &str) -> (r: Vec<String>)
    ensures
        r@.map_values(|s: String| s@) == path_segments(path@),
{
    let v = chars_of(path);
    let mut out: Vec<String> = Vec::new();
    let mut cur: Vec<char> = Vec::new();
    let mut i: usize = 0;
    while i < v.len()
        invariant
            v@ == path@,
            i <= v@.len(),
            (out@.map_values(|s: String| s@), cur@) == split_state(v@.subrange(0, i as int)),
        decreases v@.len() - i,
    {
        let c = v[i];
        assert(v@.subrange(0, i + 1).drop_last() =~= v@.subrange(0, i as int));
        if c == '/' {
            if cur.len() > 0 {
                let ghost before = out@;
                let seg = string_from_chars(&cur);
                out.push(seg);
                assert(out@.map_values(|s: String| s@) =~= before.map_values(|s: String| s@).push(
                    cur@,
                ));
            }
            cur = Vec::new();
        } else {
            cur.push(c);
        }
        i = i + 1;
    }
    assert(v@.subrange(0, i as int) =~= v@);
    if cur.len() > 0 {
        let ghost before = out@;
        let seg = string_from_chars(&cur);
        out.push(seg);
        assert(out@.map_values(|s: String| s@) =~= before.map_values(|s: String| s@).push(cur@));
    }
    out
}

/// Reconstruct a full path from route segments.
pub fn full_path(path: &[String]) -> (r: String)
    ensures
        r@ == path_of(path@.map_values(|s: String| s@)),
{
    let ghost segs = path@.map_values(|s: String| s@);
    let mut out = String::new();
    push_char(&mut out, '/');
    let mut i: usize = 0;
    while i < path.len()
        invariant
            i <= path@.len(),
            segs == path@.map_values(|s: String| s@),
            out@ == path_of(segs.subrange(0, i as int)),
        decreases path@.len() - i,
    {
        let ghost sub = segs.subrange(0, i + 1);
        assert(sub.drop_last() =~= segs.subrange(0, i as int));
        if i > 0 {
            push_char(&mut out, '/');
        }
        out.append(path[i].as_str());
        proof {
            if i == 0 {
                assert(out@ =~= path_of(sub));
            } else {
                assert(out@ =~= path_of(sub));
            }
        }
        i = i + 1;
    }
    assert(segs.subrange(0, i as int) =~= segs);
    out
}

proof fn lemma_state_append_word(p: Seq<char>, x: Seq<char>)
    requires
        !x.contains('/'),
    ensures
        split_state(p + x) == (split_state(p).0, split_state(p).1 + x),
    decreases x.len(),
{
    if x.len() == 0 {
        assert(p + x =~= p);
        assert(split_state(p).1 + x =~= split_state(p).1);
    } else {
        let y = x.drop_last();
        assert(!y.contains('/')) by {
            if y.contains('/') {
                let k = choose|k: int| 0 <= k < y.len() && y[k] == '/';
                assert(x[k] == '/');
            }
        }
        lemma_state_append_word(p, y);
        assert((p + x).drop_last() =~= p + y);
        assert((p + x).last() == x.last());
        if x.last() == '/' {
            assert(x.contains('/'));
        }
        assert(split_state(p).1 + y + seq![x.last()] =~= split_state(p).1 + x);
    }
}

/// Rebuilding a path from its route segments and splitting it again gives
/// the segments back, when every segment is non-empty and holds no `/`.
pub proof fn law_route_segments_round_trip(segs: Seq<Seq<char>>)
    requires
        forall|i: int| 0 <= i < segs.len() ==> (#[trigger] segs[i]).len() > 0 && !segs[i].contains(
            '/',
        ),
    ensures
        path_segments(path_of(segs)) == segs,
    decreases segs.len(),
{
    if segs.len() == 0 {
        let p = path_of(segs);
        assert(p =~= seq!['/']);
        assert(p.drop_last() =~= Seq::<char>::empty());
        assert(p.last() == '/');
        assert(split_state(p.drop_last()) == (Seq::<Seq<char>>::empty(), Seq::<char>::empty()));
        assert(split_state(p) == (Seq::<Seq<char>>::empty(), Seq::<char>::empty()));
        assert(path_segments(p) =~= segs);
    } else {
        let init = segs.drop_last();
        let x = segs.last();
        assert forall|i: int| 0 <= i < init.len() implies (#[trigger] init[i]).len() > 0
            && !init[i].contains('/') by {
            assert(init[i] == segs[i]);
        }
        law_route_segments_round_trip(init);
        let q = path_of(init);
        let mid = if init.len() == 0 {
            seq!['/']
        } else {
            q + seq!['/']
        };
        assert(path_of(segs) =~= mid + x);
        let (d0, c0) = split_state(q);
        assert(split_state(mid).0 == path_segments(q) && split_state(mid).1.len() == 0) by {
            if init.len() == 0 {
                assert(mid.drop_last() =~= Seq::<char>::empty());
                assert(path_segments(q) =~= Seq::<Seq<char>>::empty()) by {
                    assert(q =~= seq!['/']);
                    assert(q.drop_last() =~= Seq::<char>::empty());
                }
            } else {
                assert(mid.drop_last() =~= q);
            }
        }
        lemma_state_append_word(mid, x);
        assert(split_state(mid).1 + x =~= x);
        assert(path_segments(path_of(segs)) =~= segs);
    }
}

} // verus!
