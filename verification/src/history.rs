//! Lines waiting to be inserted into the terminal scrollback.
//!
//! A buffer of lines that should be inserted into the terminal's normal
//! scrollback (above the inline viewport). These lines persist after the UI
//! exits, providing a transcript of the conversation in the terminal
//! history.  Writing them out is the caller's I/O; this module keeps the
//! buffer.

use vstd::prelude::*;

verus! {

/// Wrapping policy for history lines.
#[derive(Debug, Clone, Copy, PartialEq, Eq, Structural)]
pub enum HistoryLineWrapPolicy {
    /// Lines are pre-wrapped by the caller; write as-is.
    PreWrap,
    /// Let the terminal handle wrapping (don't insert manual line breaks).
    Terminal,
}

/// A single pending history line.
#[derive(Debug)]
pub struct HistoryLine {
    pub content: String,
    pub wrap: HistoryLineWrapPolicy,
}

/// Buffer of pending history lines to be flushed into terminal scrollback.
///
/// Lines are accumulated during rendering and flushed in one batch before
/// the next draw to minimize flicker.
#[derive(Debug)]
pub struct PendingHistory {
    lines: Vec<HistoryLine>,
}

impl PendingHistory {
    /// The pending lines in order: their text and wrapping policy.
    pub closed spec fn spec_lines(&self) -> Seq<(Seq<char>, HistoryLineWrapPolicy)> {
        self.lines@.map_values(|l: HistoryLine| (l.content@, l.wrap))
    }

    /// Create a new empty pending history buffer.
    pub fn new() -> (h: Self)
        ensures
            h.spec_lines().len() == 0,
    {
        let h = PendingHistory { lines: Vec::new() };
        proof {
            assert(h.spec_lines() =~= Seq::<(Seq<char>, HistoryLineWrapPolicy)>::empty());
        }
        h
    }

    /// Add a line to the pending history buffer.
    pub fn push(&mut self, content: String, wrap: HistoryLineWrapPolicy)
        ensures
            final(self).spec_lines() == old(self).spec_lines().push((content@, wrap)),
    {
        let ghost c = content@;
        self.lines.push(HistoryLine { content, wrap });
        proof {
            assert(self.spec_lines() =~= old(self).spec_lines().push((c, wrap)));
        }
    }

    /// Number of pending lines.
    pub fn len(&self) -> (n: usize)
        ensures
            n == self.spec_lines().len(),
    {
        self.lines.len()
    }

    /// Whether the buffer is empty.
    pub fn is_empty(&self) -> (b: bool)
        ensures
            b == (self.spec_lines().len() == 0),
    {
        self.lines.len() == 0
    }

    /// The text of the pending lines, in order (what a flush writes).
    pub fn contents(&self) -> (r: Vec<String>)
        ensures
            r@.map_values(|s: String| s@) == self.spec_lines().map_values(
                |l: (Seq<char>, HistoryLineWrapPolicy)| l.0,
            ),
    {
        let mut r: Vec<String> = Vec::new();
        let mut k: usize = 0;
        while k < self.lines.len()
            invariant
                k <= self.lines@.len(),
                r@.len() == k,
                forall|j: int| 0 <= j < k ==> (#[trigger] r@[j])@ == self.lines@[j].content@,
            decreases self.lines@.len() - k,
        {
            let c = self.lines[k].content.clone();
            r.push(c);
            k += 1;
        }
        proof {
            assert(r@.map_values(|s: String| s@) =~= self.spec_lines().map_values(
                |l: (Seq<char>, HistoryLineWrapPolicy)| l.0,
            ));
        }
        r
    }

    /// Clear all pending lines without flushing.
    pub fn clear(&mut self)
        ensures
            final(self).spec_lines().len() == 0,
    {
        self.lines.clear();
    }
}

impl Default for PendingHistory {
    fn default() -> (h: Self)
        ensures
            h.spec_lines().len() == 0,
    {
        Self::new()
    }
}

} // verus!
