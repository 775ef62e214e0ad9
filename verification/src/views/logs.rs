//! Decisions behind the log viewer: which container to open, when to show
//! the paused hint, and how a line is coloured by its level.

use vstd::prelude::*;

use crate::logs::{FollowState, LineBuffer};
use crate::text::{chars_of, string_from_chars, text_eq};

verus! {

/// The first non-empty name at or after position `i`.
pub open spec fn first_nonempty(s: Seq<Seq<char>>, i: int) -> Option<Seq<char>>
    decreases s.len() - i,
{
    if i < 0 || i >= s.len() {
        None
    } else if s[i].len() > 0 {
        Some(s[i])
    } else {
        first_nonempty(s, i + 1)
    }
}

/// The character views of a list of names.
pub open spec fn names_view(s: Seq<String>) -> Seq<Seq<char>> {
    s.map_values(|c: String| c@)
}

/// The character view of an optional name.
pub open spec fn opt_view(o: Option<String>) -> Option<Seq<char>> {
    match o {
        Some(s) => Some(s@),
        None => None,
    }
}

/// The first non-empty name in `names`, cloned.
pub fn first_nonempty_name(names: &[String]) -> (r: Option<String>)
    ensures
        opt_view(r) == first_nonempty(names_view(names@), 0),
{
    let ghost v = names_view(names@);
    let mut i: usize = 0;
    while i < names.len()
        invariant
            i <= names@.len(),
            v == names_view(names@),
            first_nonempty(v, i as int) == first_nonempty(v, 0),
        decreases names@.len() - i,
    {
        if !names[i].as_str().is_empty() {
            return Some(names[i].clone());
        }
        i = i + 1;
    }
    None
}

/// The first non-empty container name, or `None` if there is none.
///
/// The standalone viewer's container picker defaults to this.
pub fn pick_default_container(containers: &[String]) -> (r: Option<String>)
    ensures
        opt_view(r) == first_nonempty(names_view(containers@), 0),
{
    first_nonempty_name(containers)
}

/// Whether the paused hint should be rendered: the view is paused, or the
/// user has scrolled up.
pub fn should_show_paused_hint(state: FollowState, at_bottom: bool) -> (r: bool)
    ensures
        r == (state == FollowState::Paused || !at_bottom),
{
    !state.is_following() || !at_bottom
}

/// The follow state once the scroll position is read: scrolling up pauses a
/// following view, and scrolling back to the bottom resumes a paused one
/// while the follow checkbox is on. Otherwise the state stays.
pub fn after_scroll(state: FollowState, at_bottom: bool, follow: bool) -> (r: FollowState)
    ensures
        r == (if state == FollowState::Following && !at_bottom {
            FollowState::Paused
        } else if state == FollowState::Paused && at_bottom && follow {
            FollowState::Following
        } else {
            state
        }),
{
    let mut next = state;
    if state.is_following() && !at_bottom {
        next.pause();
    } else if !state.is_following() && at_bottom && follow {
        next.resume();
    }
    next
}

/// The follow state once the follow checkbox changes: the checkbox is the
/// user's intent, so it resumes or pauses the view to match.
pub fn after_follow_toggle(state: FollowState, follow: bool) -> (r: FollowState)
    ensures
        r == (if follow {
            FollowState::Following
        } else {
            FollowState::Paused
        }),
{
    let mut next = state;
    if follow && !state.is_following() {
        next.resume();
    } else if !follow && state.is_following() {
        next.pause();
    }
    next
}

/// Whether the view scrolls itself to the newest line: only while following
/// with the viewport at the bottom.
pub fn should_autoscroll(state: FollowState, at_bottom: bool) -> (r: bool)
    ensures
        r == (state == FollowState::Following && at_bottom),
{
    state.is_following() && at_bottom
}

/// The characters that separate words in a log line (ASCII whitespace).
pub open spec fn is_ascii_space(c: char) -> bool {
    c == ' ' || c == '\t' || c == '\n' || c == '\x0C' || c == '\r'
}

/// The first position at or after `i` that is not ASCII whitespace.
pub open spec fn skip_space(s: Seq<char>, i: int) -> int
    decreases s.len() - i,
{
    if 0 <= i < s.len() && is_ascii_space(s[i]) {
        skip_space(s, i + 1)
    } else {
        i
    }
}

/// The first position at or after `i` that is ASCII whitespace, or the end.
pub open spec fn word_end(s: Seq<char>, i: int) -> int
    decreases s.len() - i,
{
    if 0 <= i < s.len() && !is_ascii_space(s[i]) {
        word_end(s, i + 1)
    } else {
        i
    }
}

/// The first whitespace-delimited word of `s` (empty when there is none).
pub open spec fn first_word(s: Seq<char>) -> Seq<char> {
    let b = skip_space(s, 0);
    s.subrange(b, word_end(s, b))
}

/// The level class for a line that starts with `word`.
pub open spec fn level_for(word: Seq<char>) -> Seq<char> {
    if word == "WARN"@ || word == "warn"@ {
        "warn"@
    } else if word == "ERROR"@ || word == "ERR"@ || word == "error"@ || word == "err"@ {
        "error"@
    } else {
        ""@
    }
}

proof fn lemma_skip_space_bounds(s: Seq<char>, i: int)
    requires
        0 <= i <= s.len(),
    ensures
        i <= skip_space(s, i) <= s.len(),
    decreases s.len() - i,
{
    if i < s.len() && is_ascii_space(s[i]) {
        lemma_skip_space_bounds(s, i + 1);
    }
}

proof fn lemma_word_end_bounds(s: Seq<char>, i: int)
    requires
        0 <= i <= s.len(),
    ensures
        i <= word_end(s, i) <= s.len(),
    decreases s.len() - i,
{
    if i < s.len() && !is_ascii_space(s[i]) {
        lemma_word_end_bounds(s, i + 1);
    }
}

fn ascii_space(c: char) -> (r: bool)
    ensures
        r == is_ascii_space(c),
{
    c == ' ' || c == '\t' || c == '\n' || c == '\x0C' || c == '\r'
}

/// Map a log line's first whitespace-delimited word to a log-level class:
/// `"warn"` for `WARN`/`warn`, `"error"` for `ERROR`/`ERR`/`error`/`err`,
/// and `""` otherwise.
pub fn level_class(line: &str) -> (r: &'static str)
    ensures
        r@ == level_for(first_word(line@)),
{
    let v = chars_of(line);
    let ghost s = line@;
    let mut i: usize = 0;
    while i < v.len() && ascii_space(v[i])
        invariant
            v@ == s,
            i <= s.len(),
            skip_space(s, i as int) == skip_space(s, 0),
        decreases s.len() - i,
    {
        i = i + 1;
    }
    let mut j: usize = i;
    let mut word: Vec<char> = Vec::new();
    while j < v.len() && !ascii_space(v[j])
        invariant
            v@ == s,
            i <= j <= s.len(),
            skip_space(s, 0) == i,
            word_end(s, j as int) == word_end(s, i as int),
            word@ == s.subrange(i as int, j as int),
        decreases s.len() - j,
    {
        word.push(v[j]);
        j = j + 1;
        assert(word@ =~= s.subrange(i as int, j as int));
    }
    let w = string_from_chars(&word);
    let t = w.as_str();
    if text_eq(t, "WARN") || text_eq(t, "warn") {
        "warn"
    } else if text_eq(t, "ERROR") || text_eq(t, "ERR") || text_eq(t, "error") || text_eq(t, "err") {
        "error"
    } else {
        ""
    }
}

/// Clear every retained line (the toolbar's "Clear" button).
pub fn clear_and_reset(buffer: &mut LineBuffer)
    ensures
        final(buffer)@ == Seq::<Seq<char>>::empty(),
{
    buffer.clear();
}

/// Owned copy of the buffer's lines, oldest first.
pub fn view_buffers_snapshot(buffers: &LineBuffer) -> (r: Vec<String>)
    ensures
        names_view(r@) == buffers@,
{
    let lines = buffers.lines();
    let mut out: Vec<String> = Vec::new();
    let mut i: usize = 0;
    while i < lines.len()
        invariant
            i <= lines@.len(),
            names_view(lines@) == buffers@,
            names_view(out@) == names_view(lines@).subrange(0, i as int),
        decreases lines@.len() - i,
    {
        let ghost before = out@;
        let line = lines[i].clone();
        assert(line@ == lines@[i as int]@);
        out.push(line);
        assert(out@ == before.push(line));
        assert(names_view(out@) =~= names_view(before).push(line@));
        i = i + 1;
        assert(names_view(out@) =~= names_view(lines@).subrange(0, i as int));
    }
    assert(names_view(lines@).subrange(0, i as int) =~= names_view(lines@));
    out
}

} // verus!
