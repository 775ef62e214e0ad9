//! Terminal helpers: shell resolution and coalesced output buffering.

use vstd::prelude::*;

use crate::text::text_of;

verus! {

/// The shell to start: the `$SHELL` value when set and non-empty, else
/// `cmd` on Windows and `sh` elsewhere.
pub open spec fn shell_for(shell_env: Option<Seq<char>>, is_windows: bool) -> Seq<char> {
    match shell_env {
        Some(s) if s.len() > 0 => s,
        _ => if is_windows {
            "cmd"@
        } else {
            "sh"@
        },
    }
}

/// Resolve the user's shell: `$SHELL`, falling back to `cmd` (Windows) or
/// `sh` (Unix) when unset or empty.
pub fn resolve_shell(shell_env: Option<&str>, is_windows: bool) -> (r: String)
    ensures
        r@ == shell_for(
            match shell_env {
                Some(s) => Some(s@),
                None => None,
            },
            is_windows,
        ),
{
    match shell_env {
        Some(s) if !s.is_empty() => text_of(s),
        _ => if is_windows {
            text_of("cmd")
        } else {
            text_of("sh")
        },
    }
}

/// Coalesces terminal output into bounded chunks for the eval bridge.
///
/// The PTY reader appends small writes; a timer tick drains a chunk (at most
/// `chunk_size` bytes) so the JS bridge never receives an unbounded payload.
pub struct OutputBuffer {
    buf: Vec<u8>,
    chunk_size: usize,
}

impl OutputBuffer {
    /// The bytes received and not yet drained, oldest first.
    pub closed spec fn pending(&self) -> Seq<u8> {
        self.buf@
    }

    /// The largest chunk [`OutputBuffer::next_chunk`] hands out.
    pub closed spec fn chunk_limit(&self) -> usize {
        self.chunk_size
    }

    /// A buffer emitting chunks of at most `chunk_size` bytes.
    pub fn new(chunk_size: usize) -> (r: Self)
        ensures
            r.pending() == Seq::<u8>::empty(),
            r.chunk_limit() == chunk_size,
    {
        OutputBuffer { buf: Vec::new(), chunk_size }
    }

    /// Append output from the PTY.
    pub fn push(&mut self, data: &[u8])
        ensures
            final(self).pending() == old(self).pending() + data@,
            final(self).chunk_limit() == old(self).chunk_limit(),
    {
        let mut i: usize = 0;
        while i < data.len()
            invariant
                i <= data@.len(),
                self.buf@ == old(self).buf@ + data@.subrange(0, i as int),
                self.chunk_size == old(self).chunk_size,
            decreases data@.len() - i,
        {
            self.buf.push(data[i]);
            i = i + 1;
            assert(self.buf@ =~= old(self).buf@ + data@.subrange(0, i as int));
        }
        assert(data@.subrange(0, data@.len() as int) =~= data@);
    }

    /// Drain up to one chunk; `None` when empty.
    pub fn next_chunk(&mut self) -> (r: Option<Vec<u8>>)
        ensures
            final(self).chunk_limit() == old(self).chunk_limit(),
            old(self).pending().len() == 0 ==> r is None && final(self).pending() == old(
                self,
            ).pending(),
            old(self).pending().len() > 0 ==> {
                let n = if old(self).pending().len() < old(self).chunk_limit() {
                    old(self).pending().len() as int
                } else {
                    old(self).chunk_limit() as int
                };
                &&& r is Some
                &&& r->0@ == old(self).pending().subrange(0, n)
                &&& r->0@ + final(self).pending() == old(self).pending()
                &&& final(self).pending() == old(self).pending().subrange(
                    n,
                    old(self).pending().len() as int,
                )
            },
    {
        if self.buf.len() == 0 {
            return None;
        }
        let n = if self.buf.len() < self.chunk_size {
            self.buf.len()
        } else {
            self.chunk_size
        };
        let mut rest = self.buf.split_off(n);
        std::mem::swap(&mut self.buf, &mut rest);
        Some(rest)
    }

    /// Drain everything remaining.
    pub fn flush(&mut self) -> (r: Option<Vec<u8>>)
        ensures
            final(self).chunk_limit() == old(self).chunk_limit(),
            final(self).pending() == Seq::<u8>::empty(),
            old(self).pending().len() == 0 ==> r is None,
            old(self).pending().len() > 0 ==> r is Some && r->0@ == old(self).pending(),
    {
        if self.buf.len() == 0 {
            None
        } else {
            let mut out: Vec<u8> = Vec::new();
            std::mem::swap(&mut self.buf, &mut out);
            Some(out)
        }
    }
}

} // verus!
