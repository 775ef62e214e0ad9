//! Pod log viewing: the request options, the follow/pause state of a live
//! view, and a capped buffer of received lines. Opening the stream against a
//! cluster is the host's job.

use vstd::prelude::*;

verus! {

/// The maximum number of lines retained in a [`LineBuffer`].
pub const MAX_LINES: usize = 10_000;

/// Options controlling a pod log request.
#[derive(Debug, Clone)]
pub struct LogOptions {
    /// Restrict logs to this container (defaults to the pod's first container).
    pub container: Option<String>,
    /// Keep the stream open and emit new lines as they arrive.
    pub follow: bool,
    /// Return only the last N lines.
    pub tail_lines: Option<i64>,
    /// Prefix each line with its RFC 3339 timestamp.
    pub timestamps: bool,
}

impl Default for LogOptions {
    fn default() -> (r: Self)
        ensures
            r.container is None,
            !r.follow,
            r.tail_lines is None,
            !r.timestamps,
    {
        LogOptions { container: None, follow: false, tail_lines: None, timestamps: false }
    }
}

/// What a buffer holding `kept` retains after `line` arrives: everything,
/// oldest first, except that only the newest [`MAX_LINES`] lines survive.
pub open spec fn after_push(kept: Seq<Seq<char>>, line: Seq<char>) -> Seq<Seq<char>> {
    let all = kept.push(line);
    if all.len() > MAX_LINES {
        all.subrange(all.len() - MAX_LINES, all.len() as int)
    } else {
        all
    }
}

/// A fixed-capacity buffer of log lines that drops the oldest when full.
#[derive(Debug)]
pub struct LineBuffer {
    lines: Vec<String>,
}

impl View for LineBuffer {
    type V = Seq<Seq<char>>;

    closed spec fn view(&self) -> Seq<Seq<char>> {
        self.lines@.map_values(|l: String| l@)
    }
}

impl Clone for LineBuffer {
    fn clone(&self) -> (r: Self)
        ensures
            r@ == self@,
    {
        proof {
            use_type_invariant(self);
        }
        let mut lines: Vec<String> = Vec::new();
        let mut i: usize = 0;
        while i < self.lines.len()
            invariant
                i <= self.lines@.len() <= MAX_LINES,
                lines@.len() == i,
                forall|k: int| 0 <= k < i ==> #[trigger] lines@[k]@ == self.lines@[k]@,
            decreases self.lines@.len() - i,
        {
            lines.push(self.lines[i].clone());
            i = i + 1;
        }
        assert(lines@.map_values(|l: String| l@) =~= self@);
        LineBuffer { lines }
    }
}

impl Default for LineBuffer {
    fn default() -> (r: Self)
        ensures
            r@ == Seq::<Seq<char>>::empty(),
    {
        LineBuffer { lines: Vec::new() }
    }
}

impl LineBuffer {
    /// Every buffer holds at most [`MAX_LINES`] lines.
    #[verifier::type_invariant]
    spec fn within_capacity(self) -> bool {
        self.lines@.len() <= MAX_LINES
    }

    /// Append a line, evicting the oldest lines beyond [`MAX_LINES`].
    pub fn push(&mut self, line: &str)
        ensures
            final(self)@ == after_push(old(self)@, line@),
            final(self)@.len() <= MAX_LINES,
            final(self)@.last() == line@,
    {
        let mut lines: Vec<String> = Vec::new();
        std::mem::swap(&mut lines, &mut self.lines);
        let ghost before = lines@;
        assert(before.map_values(|l: String| l@) == old(self)@);
        lines.push(line.to_owned());
        assert(lines@.map_values(|l: String| l@) =~= old(self)@.push(line@)) by {
            assert(lines@ == before.push(lines@.last()));
        }
        let len = lines.len();
        if len > MAX_LINES {
            let overflow = len - MAX_LINES;
            let ghost all = lines@;
            let kept = lines.split_off(overflow);
            assert(kept@.map_values(|l: String| l@) =~= all.map_values(|l: String| l@).subrange(
                overflow as int,
                all.len() as int,
            ));
            self.lines = kept;
        } else {
            self.lines = lines;
        }
    }

    /// The retained lines, oldest first; never more than [`MAX_LINES`].
    pub fn lines(&self) -> (r: &[String])
        ensures
            r@.map_values(|l: String| l@) == self@,
            r@.len() <= MAX_LINES,
    {
        proof {
            use_type_invariant(self);
        }
        self.lines.as_slice()
    }

    /// Number of retained lines; never more than [`MAX_LINES`].
    pub fn len(&self) -> (r: usize)
        ensures
            r == self@.len(),
            r <= MAX_LINES,
    {
        proof {
            use_type_invariant(self);
        }
        self.lines.len()
    }

    /// Whether the buffer holds no lines.
    pub fn is_empty(&self) -> (r: bool)
        ensures
            r == (self@.len() == 0),
    {
        self.lines.len() == 0
    }

    /// Drop all retained lines.
    pub fn clear(&mut self)
        ensures
            final(self)@ == Seq::<Seq<char>>::empty(),
    {
        self.lines = Vec::new();
    }
}

/// The follow/pause state of a live log view.
#[derive(Debug, Clone, Copy, PartialEq, Eq, Structural)]
pub enum FollowState {
    /// New lines are shown as they arrive.
    Following,
    /// New lines are buffered but the view stays pinned (user scrolled up).
    Paused,
}

impl FollowState {
    /// Pause following — used when the user scrolls up.
    pub fn pause(&mut self)
        ensures
            *final(self) == FollowState::Paused,
    {
        *self = FollowState::Paused;
    }

    /// Resume following — used when the user scrolls back to the bottom.
    pub fn resume(&mut self)
        ensures
            *final(self) == FollowState::Following,
    {
        *self = FollowState::Following;
    }

    /// Whether new lines should be shown immediately.
    pub fn is_following(&self) -> (r: bool)
        ensures
            r == (*self == FollowState::Following),
    {
        match self {
            FollowState::Following => true,
            FollowState::Paused => false,
        }
    }
}

/// A log buffer never holds more than `MAX_LINES` lines; the line just
/// pushed is always the newest, and what is kept is the newest lines of
/// everything pushed, oldest first.
pub proof fn law_line_buffer_keeps_the_newest_lines(kept: Seq<Seq<char>>, line: Seq<char>)
    ensures
        after_push(kept, line).len() <= MAX_LINES,
        after_push(kept, line).len() == if kept.len() + 1 > MAX_LINES {
            MAX_LINES as int
        } else {
            kept.len() + 1int
        },
        after_push(kept, line).last() == line,
        after_push(kept, line) == kept.push(line).subrange(
            kept.len() + 1 - after_push(kept, line).len(),
            kept.len() + 1int,
        ),
{
    let all = kept.push(line);
    if all.len() <= MAX_LINES {
        assert(all.subrange(0, all.len() as int) =~= all);
    }
}

} // verus!
