//! Live resource snapshots: narrowing the rows of a watched kind to the
//! namespace a view asks for. Watching the cluster is the host's job.

use vstd::prelude::*;

use crate::text::text_eq;

verus! {

/// The namespace a row sits in, by its characters.
pub open spec fn ns_view(o: Option<String>) -> Option<Seq<char>> {
    match o {
        Some(s) => Some(s@),
        None => None,
    }
}

/// Whether a row in `row_ns` is shown for the filter `ns`: everything is
/// shown without a filter (or with an empty one); otherwise a namespaced row
/// must be in `ns`, and a cluster-scoped row (in no namespace) is always
/// shown.
pub open spec fn shown(row_ns: Option<Seq<char>>, ns: Option<Seq<char>>) -> bool {
    match ns {
        Some(n) => n.len() == 0 || match row_ns {
            Some(found) => found == n,
            None => true,
        },
        None => true,
    }
}

/// The rows (each with its namespace) a filter keeps, in order.
pub open spec fn kept<T>(rows: Seq<(Option<String>, T)>, ns: Option<Seq<char>>) -> Seq<(Option<String>, T)>
    decreases rows.len(),
{
    if rows.len() == 0 {
        Seq::empty()
    } else {
        let t = kept(rows.drop_last(), ns);
        if shown(ns_view(rows.last().0), ns) {
            t.push(rows.last())
        } else {
            t
        }
    }
}

/// Keep only the rows in `ns` (each row given with its namespace); all rows
/// when `ns` is `None` or empty. Cluster-scoped rows are kept regardless:
/// they are not in a different namespace, they are in none.
pub fn filter_ns<T>(rows: Vec<(Option<String>, T)>, ns: Option<&str>) -> (r: Vec<(Option<String>, T)>)
    ensures
        r@ == kept(
            rows@,
            match ns {
                Some(n) => Some(n@),
                None => None,
            },
        ),
{
    let ghost nv = match ns {
        Some(n) => Some(n@),
        None => None,
    };
    let ghost all = rows@;
    let mut rest = rows;
    let total = rest.len();
    assert(total == all.len());
    let mut out: Vec<(Option<String>, T)> = Vec::new();
    let mut k: usize = 0;
    proof {
        assert(all.subrange(0, 0) =~= Seq::<(Option<String>, T)>::empty());
    }
    while rest.len() > 0
        invariant
            k + rest.len() == all.len(),
            all.len() <= usize::MAX,
            rest@ == all.subrange(k as int, all.len() as int),
            out@ == kept(all.subrange(0, k as int), nv),
            nv == match ns {
                Some(n) => Some(n@),
                None => None,
            },
        decreases rest.len(),
    {
        let ghost rv = rest@;
        let row = rest.remove(0);
        proof {
            assert(rv[0] == row);
            assert(rest@ =~= rv.subrange(1, rv.len() as int));
            let next = all.subrange(0, k + 1);
            assert(next.drop_last() =~= all.subrange(0, k as int));
            assert(next.last() == row);
        }
        let keep = match ns {
            Some(n) => n.is_empty() || match &row.0 {
                Some(found) => text_eq(found.as_str(), n),
                None => true,
            },
            None => true,
        };
        assert(keep == shown(ns_view(row.0), nv));
        if keep {
            out.push(row);
        }
        k = k + 1;
    }
    assert(all.subrange(0, k as int) =~= all);
    out
}

} // verus!
