//! Spinner animation for the terminal UI.
//!
//! A frame-based animated spinner using braille dots characters; the
//! default frame set is the classic braille dots spinner `⠋⠙⠹⠸⠼⠴⠦⠧⠇⠏`.

use vstd::prelude::*;

verus! {

/// The default spinner frames.
pub open spec fn default_frames() -> Seq<Seq<char>> {
    seq!["⠋"@, "⠙"@, "⠹"@, "⠸"@, "⠼"@, "⠴"@, "⠦"@, "⠧"@, "⠇"@, "⠏"@]
}

/// A frame-based spinner animation widget.
///
/// Cycles through a sequence of frame strings on every `tick()`.
pub struct SpinnerWidget {
    /// Index into `frames` for the current animation frame.
    frame_index: usize,
    /// The ordered list of frame strings.
    frames: Vec<&'static str>,
}

impl SpinnerWidget {
    #[verifier::type_invariant]
    spec fn index_in_range(&self) -> bool {
        self.frame_index < self.frames@.len() || self.frame_index == 0
    }

    /// The frames, as character sequences.
    pub closed spec fn spec_frames(&self) -> Seq<Seq<char>> {
        self.frames@.map_values(|f: &'static str| f@)
    }

    /// The current frame index.
    pub closed spec fn spec_index(&self) -> int {
        self.frame_index as int
    }

    /// Create a new spinner with the default 10-frame dots animation:
    /// `⠋ ⠙ ⠹ ⠸ ⠼ ⠴ ⠦ ⠧ ⠇ ⠏`.
    pub fn new() -> (s: Self)
        ensures
            s.spec_frames() == default_frames(),
            s.spec_index() == 0,
    {
        let frames = vec!["⠋", "⠙", "⠹", "⠸", "⠼", "⠴", "⠦", "⠧", "⠇", "⠏"];
        let s = SpinnerWidget { frame_index: 0, frames };
        proof {
            assert(s.spec_frames() =~= default_frames());
        }
        s
    }

    /// Create a spinner with a custom set of frame strings.
    pub fn with_frames(frames: Vec<&'static str>) -> (s: Self)
        ensures
            s.spec_frames() == frames@.map_values(|f: &'static str| f@),
            s.spec_index() == 0,
    {
        SpinnerWidget { frame_index: 0, frames }
    }

    /// Advance the spinner to the next frame, wrapping around after the last
    /// one.  A spinner without frames stays at index 0.
    pub fn tick(&mut self)
        ensures
            final(self).spec_frames() == old(self).spec_frames(),
            final(self).spec_index() == tick_index(
                old(self).spec_index(),
                old(self).spec_frames().len() as int,
            ),
            spinner_ticked(*old(self), *final(self)),
    {
        proof {
            use_type_invariant(&*self);
        }
        if self.frames.len() > 0 {
            self.frame_index = (self.frame_index + 1) % self.frames.len();
        }
    }

    /// Return the current frame, or a single space when there are no frames.
    pub fn current_frame(&self) -> (r: &str)
        ensures
            r@ == shown_frame(self.spec_frames(), self.spec_index()),
    {
        proof {
            use_type_invariant(self);
        }
        if self.frames.len() == 0 {
            " "
        } else {
            self.frames[self.frame_index]
        }
    }

    /// Reset the spinner to the first frame.
    pub fn reset(&mut self)
        ensures
            final(self).spec_frames() == old(self).spec_frames(),
            final(self).spec_index() == 0,
    {
        proof {
            use_type_invariant(&*self);
        }
        self.frame_index = 0;
    }

    /// Number of frames.
    pub fn frame_count(&self) -> (r: usize)
        ensures
            r == self.spec_frames().len(),
    {
        self.frames.len()
    }

    /// The frames.
    pub fn frames(&self) -> (r: &[&'static str])
        ensures
            r@.map_values(|f: &'static str| f@) == self.spec_frames(),
    {
        self.frames.as_slice()
    }

    /// Index of the current frame.
    pub fn frame_index(&self) -> (r: usize)
        ensures
            r == self.spec_index(),
    {
        self.frame_index
    }

    /// Rows the spinner needs: one.
    pub fn desired_height(&self, _width: u16) -> (h: u16)
        ensures
            h == 1,
    {
        1
    }
}

/// Ticking never leaves the frame list: the index stays below the number of
/// frames (or at 0 without frames).
pub proof fn law_tick_stays_in_frames(index: int, n: int)
    by (nonlinear_arith)
    requires
        n > 0,
        0 <= index < n,
    ensures
        0 <= (index + 1) % n < n,
        index + 1 < n ==> (index + 1) % n == index + 1,
        index + 1 == n ==> (index + 1) % n == 0,
{
}

/// The frame index after one tick among `len` frames.
pub open spec fn tick_index(index: int, len: int) -> int {
    if len == 0 {
        0
    } else {
        (index + 1) % len
    }
}

/// The frame index after `n` ticks among `len` frames, from `index`.
pub open spec fn ticks(index: int, len: int, n: nat) -> int
    decreases n,
{
    if n == 0 {
        index
    } else {
        tick_index(ticks(index, len, (n - 1) as nat), len)
    }
}

pub(crate) proof fn lemma_mod_succ(a: int, m: int)
    by (nonlinear_arith)
    requires
        a >= 0,
        m > 0,
    ensures
        ((a % m) + 1) % m == (a + 1) % m,
{
    vstd::arithmetic::div_mod::lemma_add_mod_noop(a, 1, m);
    vstd::arithmetic::div_mod::lemma_mod_twice(a, m);
    if m > 1 {
        vstd::arithmetic::div_mod::lemma_small_mod(1, m as nat);
    } else {
        vstd::arithmetic::div_mod::lemma_mod_self_0(1);
    }
}

/// A spinner started at its first frame (as `new` and `with_frames` start
/// it) is, after `n` calls of `tick`, at index `n % len` of its `len`
/// frames: it cycles through them in order for ever.
pub proof fn law_ticks_cycle(len: int, n: nat)
    requires
        len > 0,
    ensures
        ticks(0, len, n) == (n as int) % len,
    decreases n,
{
    if n > 0 {
        law_ticks_cycle(len, (n - 1) as nat);
        lemma_mod_succ(n - 1, len);
    } else {
        vstd::arithmetic::div_mod::lemma_small_mod(0, len as nat);
    }
}

/// The frame `current_frame` shows at `index` among `frames`.
pub open spec fn shown_frame(frames: Seq<Seq<char>>, index: int) -> Seq<char> {
    if frames.len() == 0 {
        " "@
    } else {
        frames[index]
    }
}

/// After `with_frames(fs)` (or `new()`) and `n` calls of `tick`,
/// `current_frame()` shows `fs[n % fs.len()]`, and a spinner without frames
/// shows a space.
pub proof fn law_frame_after_ticks(frames: Seq<Seq<char>>, n: nat)
    ensures
        shown_frame(frames, ticks(0, frames.len() as int, n)) == if frames.len() == 0 {
            " "@
        } else {
            frames[(n as int) % (frames.len() as int)]
        },
{
    if frames.len() > 0 {
        law_ticks_cycle(frames.len() as int, n);
    }
}

/// What one call of `tick` does: the frames stay, the index moves on by
/// one, wrapping after the last frame.
pub open spec fn spinner_ticked(a: SpinnerWidget, b: SpinnerWidget) -> bool {
    &&& b.spec_frames() == a.spec_frames()
    &&& b.spec_index() == tick_index(a.spec_index(), a.spec_frames().len() as int)
}

/// Whether `run` is a spinner followed by the spinners each call of `tick`
/// leaves.
pub open spec fn tick_run(run: Seq<SpinnerWidget>) -> bool {
    forall|i: int| 0 <= i < run.len() - 1 ==> #[trigger] spinner_ticked(run[i], run[i + 1])
}

proof fn lemma_tick_run_index(run: Seq<SpinnerWidget>, k: int)
    requires
        run.len() > 0,
        run[0].spec_index() == 0,
        tick_run(run),
        0 <= k < run.len(),
    ensures
        run[k].spec_frames() == run[0].spec_frames(),
        run[k].spec_index() == ticks(0, run[0].spec_frames().len() as int, k as nat),
    decreases k,
{
    if k > 0 {
        lemma_tick_run_index(run, k - 1);
        let j = k - 1;
        assert(spinner_ticked(run[j], run[j + 1]));
        assert(j + 1 == k);
    }
}

/// A spinner made by `new` or `with_frames(fs)`, after `n` calls of `tick`
/// (the last of `run`, which holds it and the spinner after each call),
/// shows `fs[n % fs.len()]` from `current_frame`, and a space when it has
/// no frames.
pub proof fn law_ticks_show_frame_n_mod_len(run: Seq<SpinnerWidget>)
    requires
        run.len() > 0,
        run[0].spec_index() == 0,
        tick_run(run),
    ensures
        ({
            let fs = run[0].spec_frames();
            let n = run.len() - 1;
            shown_frame(run.last().spec_frames(), run.last().spec_index()) == if fs.len() == 0 {
                " "@
            } else {
                fs[n % (fs.len() as int)]
            }
        }),
{
    let n = run.len() - 1;
    lemma_tick_run_index(run, n);
    law_frame_after_ticks(run[0].spec_frames(), n as nat);
}

impl Default for SpinnerWidget {
    fn default() -> (s: Self)
        ensures
            s.spec_frames() == default_frames(),
            s.spec_index() == 0,
    {
        Self::new()
    }
}

} // verus!
