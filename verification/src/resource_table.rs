//! Resource table decisions: the sort direction toggle, the row filter, the
//! text a row is searched by, and the window of rows a virtualized table
//! renders. Numeric sort keys, pixel geometry and rendering are the host's
//! job.

use vstd::prelude::*;

use crate::text::{
    chars_of, contains_chars, contains_text, lowercase, string_from_chars, to_lowercase,
    trim_chars, trimmed,
};

verus! {

/// Sort direction for a column.
#[derive(Debug, Clone, Copy, PartialEq, Eq, Structural)]
pub enum SortDirection {
    Ascending,
    Descending,
}

/// The opposite direction.
pub open spec fn reversed(d: SortDirection) -> SortDirection {
    match d {
        SortDirection::Ascending => SortDirection::Descending,
        SortDirection::Descending => SortDirection::Ascending,
    }
}

impl SortDirection {
    /// Flip to the opposite direction.
    pub fn toggle(self) -> (r: Self)
        ensures
            r == reversed(self),
    {
        match self {
            SortDirection::Ascending => SortDirection::Descending,
            SortDirection::Descending => SortDirection::Ascending,
        }
    }
}

/// Toggling twice restores the direction, and a toggle always changes it.
pub proof fn law_sort_toggle_is_an_involution(d: SortDirection)
    ensures
        reversed(reversed(d)) == d,
        reversed(d) != d,
{
}

/// Whether a row's text passes a query: a blank query passes everything;
/// otherwise the lower-cased text must contain the trimmed, lower-cased
/// query.
pub open spec fn query_matches(text: Seq<char>, query: Seq<char>) -> bool {
    let needle = lowercase(trimmed(query));
    needle.len() == 0 || contains_text(lowercase(text), needle)
}

/// Case-insensitive substring match. A blank query matches everything.
pub fn matches_query(text: &str, query: &str) -> (r: bool)
    ensures
        r == query_matches(text@, query@),
        trimmed(query@).len() == 0 ==> r,
{
    let t = string_from_chars(&trim_chars(&chars_of(query)));
    let needle = chars_of(to_lowercase(t.as_str()).as_str());
    if needle.len() == 0 {
        return true;
    }
    let hay = chars_of(to_lowercase(text).as_str());
    contains_chars(&hay, &needle)
}

/// Rows rendered beyond the viewport on each side to hide scroll jank.
pub const OVERSCAN: usize = 8;

/// The rows a virtualized table renders, as a `(start, end)` index range:
/// the visible rows starting at `first_visible` (`visible` of them), widened
/// by [`OVERSCAN`] on each side and clipped to the table.
pub open spec fn window(first_visible: nat, visible: nat, total_rows: nat) -> (nat, nat) {
    let start = if first_visible >= OVERSCAN { (first_visible - OVERSCAN) as nat } else { 0nat };
    let far = first_visible + visible + OVERSCAN;
    (start, if far < total_rows { far as nat } else { total_rows })
}

/// The rendered window for the first visible row index and the number of
/// rows the viewport shows (the host derives both from pixel offsets).
pub fn visible_window(first_visible: usize, visible: usize, total_rows: usize) -> (r: (usize, usize))
    requires
        first_visible + visible + OVERSCAN <= usize::MAX,
    ensures
        (r.0 as nat, r.1 as nat) == window(first_visible as nat, visible as nat, total_rows as nat),
{
    let start = if first_visible >= OVERSCAN {
        first_visible - OVERSCAN
    } else {
        0
    };
    let far = first_visible + visible + OVERSCAN;
    (start, if far < total_rows {
        far
    } else {
        total_rows
    })
}

/// The text a row is filtered by: its namespace (when it has one), then
/// each cell's text, each followed by a space.
pub open spec fn search_text_of(namespace: Option<Seq<char>>, texts: Seq<Seq<char>>) -> Seq<char>
    decreases texts.len(),
{
    if texts.len() == 0 {
        match namespace {
            Some(ns) => ns + " "@,
            None => Seq::empty(),
        }
    } else {
        search_text_of(namespace, texts.drop_last()) + texts.last() + " "@
    }
}

/// The text a row is filtered by, from its namespace and its cells' texts.
pub fn row_search_text(namespace: Option<&str>, texts: &Vec<String>) -> (r: String)
    ensures
        r@ == search_text_of(
            match namespace {
                Some(ns) => Some(ns@),
                None => None,
            },
            texts@.map_values(|t: String| t@),
        ),
{
    let ghost ns = match namespace {
        Some(n) => Some(n@),
        None => None,
    };
    let ghost tv = texts@.map_values(|t: String| t@);
    let mut out = String::new();
    match namespace {
        Some(n) => {
            out.append(n);
            out.append(" ");
        },
        None => {},
    }
    proof {
        reveal_strlit(" ");
        assert(tv.subrange(0, 0) =~= Seq::<Seq<char>>::empty());
        assert(out@ =~= search_text_of(ns, tv.subrange(0, 0)));
    }
    let mut i: usize = 0;
    while i < texts.len()
        invariant
            i <= texts@.len(),
            tv == texts@.map_values(|t: String| t@),
            out@ == search_text_of(ns, tv.subrange(0, i as int)),
        decreases texts@.len() - i,
    {
        let ghost before = out@;
        out.append(texts[i].as_str());
        out.append(" ");
        proof {
            reveal_strlit(" ");
            let next = tv.subrange(0, i + 1);
            assert(next.drop_last() =~= tv.subrange(0, i as int));
            assert(next.last() == texts@[i as int]@);
            assert(out@ =~= before + texts@[i as int]@ + " "@);
        }
        i = i + 1;
    }
    assert(tv.subrange(0, i as int) =~= tv);
    out
}

} // verus!
