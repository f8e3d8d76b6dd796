//! Streaming output of AI assistant responses.
//!
//! [`StreamingCell`] accumulates an incremental AI response as it arrives,
//! with thinking-state detection and code block tracking.

use vstd::prelude::*;
use vstd::string::*;
use crate::text::{
    byte_len, chars_of, contains_char, contains_chars, contains_seq, lines, lines_of, starts_with,
    starts_with_at, str_byte_len, string_from_chars, trim, trim_end_len, trim_start_from, views,
    copy_range,
};
use crate::status::StatusColor;

verus! {

/// The spinner glyph that marks thinking output.
pub open spec fn spin_glyph() -> char {
    '◌'
}

/// The two characters of "思考" ("thinking").
pub open spec fn think_word() -> Seq<char> {
    seq!['思', '考']
}

/// Whether a line opens or closes a code block: trimmed, it starts with
/// three backticks.
pub open spec fn is_fence(l: Seq<char>) -> bool {
    starts_with(trim(l), seq!['`', '`', '`'])
}

/// The code-block flag after the lines `ls`, each fence line toggling it.
pub open spec fn toggle_fences(b: bool, ls: Seq<Seq<char>>) -> bool
    decreases ls.len(),
{
    if ls.len() == 0 {
        b
    } else {
        let before = toggle_fences(b, ls.drop_last());
        if is_fence(ls.last()) {
            !before
        } else {
            before
        }
    }
}

/// The thinking flag after a delta: it turns on when the delta holds `◌` or
/// "思考", and off when the delta holds a newline but no `◌`.
pub open spec fn next_thinking(thinking: bool, delta: Seq<char>) -> bool {
    let t1 = thinking || delta.contains(spin_glyph()) || contains_seq(delta, think_word());
    if t1 && delta.contains('\n') && !delta.contains(spin_glyph()) {
        false
    } else {
        t1
    }
}

/// Rows a line of `len` bytes wraps to at `width` columns (the byte count
/// taken as a `u32`, the quotient as a `u16`).
pub open spec fn line_rows(len: nat, width: int) -> int {
    let l = len as u32;
    if l == 0 {
        1
    } else {
        ((l + width - 1) / width) as u16 as int
    }
}

/// Sum of the rows of the lines `ls` at `width` columns.
pub open spec fn total_rows(ls: Seq<Seq<char>>, width: int) -> int
    decreases ls.len(),
{
    if ls.len() == 0 {
        0
    } else {
        total_rows(ls.drop_last(), width) + line_rows(byte_len(ls.last()), width)
    }
}

/// Whether the row computation of a line stays within `u32` arithmetic.
pub open spec fn line_fits(l: Seq<char>, width: int) -> bool {
    (byte_len(l) as u32) + width <= u32::MAX
}

/// A streaming cell for AI assistant responses.
///
/// Accumulates content as it arrives via [`append_text()`](Self::append_text),
/// tracks whether the AI is currently in a thinking phase or inside a code
/// block.  Call [`finish()`](Self::finish) to consume the cell and obtain the
/// final accumulated content once streaming is complete.
pub struct StreamingCell {
    /// Accumulated content received so far.
    content: String,
    /// Text received since the last [`flush()`](Self::flush) call.
    pending_text: String,
    /// Whether the AI is currently in a thinking phase.
    is_thinking: bool,
    /// Whether the content is inside a code block.
    in_code_block: bool,
}

impl StreamingCell {
    pub closed spec fn spec_content(&self) -> Seq<char> {
        self.content@
    }

    pub closed spec fn spec_pending(&self) -> Seq<char> {
        self.pending_text@
    }

    pub closed spec fn spec_thinking(&self) -> bool {
        self.is_thinking
    }

    pub closed spec fn spec_in_code(&self) -> bool {
        self.in_code_block
    }

    /// Create a new empty streaming cell.
    pub fn new() -> (c: Self)
        ensures
            c.spec_content().len() == 0,
            c.spec_pending().len() == 0,
            !c.spec_thinking(),
            !c.spec_in_code(),
    {
        StreamingCell {
            content: String::new(),
            pending_text: String::new(),
            is_thinking: false,
            in_code_block: false,
        }
    }

    /// Append a text delta to the accumulated content.
    ///
    /// Called incrementally as chunks arrive from the AI.  The thinking and
    /// code-block flags are updated from the delta alone.
    pub fn append_text(&mut self, delta: &str)
        ensures
            final(self).spec_content() == old(self).spec_content() + delta@,
            stream_stepped(*old(self), *final(self), StreamCall::Append(delta@)),
            final(self).spec_pending() == old(self).spec_pending() + delta@,
            final(self).spec_thinking() == next_thinking(old(self).spec_thinking(), delta@),
            final(self).spec_in_code() == toggle_fences(old(self).spec_in_code(), lines(delta@)),
    {
        self.content.append(delta);
        self.pending_text.append(delta);
        let cs = chars_of(delta);
        let has_spin = contains_char(cs.as_slice(), '◌');
        let word = ['思', '考'];
        let has_word = contains_chars(cs.as_slice(), &word);
        proof {
            assert(word@ =~= think_word());
        }
        if has_spin || has_word {
            self.is_thinking = true;
        }
        if self.is_thinking && contains_char(cs.as_slice(), '\n') && !has_spin {
            self.is_thinking = false;
        }
        let ls = lines_of(cs.as_slice());
        let mut k: usize = 0;
        let ghost start = self.in_code_block;
        proof {
            assert(views(ls@).take(0) =~= Seq::<Seq<char>>::empty());
        }
        while k < ls.len()
            invariant
                k <= ls@.len(),
                views(ls@) == lines(delta@),
                self.in_code_block == toggle_fences(start, views(ls@).take(k as int)),
                self.content@ == old(self).content@ + delta@,
                self.pending_text@ == old(self).pending_text@ + delta@,
                self.is_thinking == next_thinking(old(self).is_thinking, delta@),
            decreases ls@.len() - k,
        {
            let fence = Self::is_fence_line(ls[k].as_slice());
            proof {
                assert(views(ls@).take(k + 1).drop_last() =~= views(ls@).take(k as int));
                assert(views(ls@).take(k + 1).last() == ls@[k as int]@);
            }
            if fence {
                self.in_code_block = !self.in_code_block;
            }
            k += 1;
        }
        proof {
            assert(views(ls@).take(k as int) =~= views(ls@));
        }
    }

    /// Whether a line is a code fence.
    fn is_fence_line(l: &[char]) -> (b: bool)
        ensures
            b == is_fence(l@),
    {
        let n = l.len();
        let e = trim_end_len(l, n);
        let front = copy_range(l, 0, e);
        let s = trim_start_from(front.as_slice(), 0);
        let ticks = ['`', '`', '`'];
        proof {
            assert(l@.take(n as int) =~= l@);
            assert(front@ =~= l@.take(e as int));
            assert(front@.skip(0) =~= front@);
            assert(ticks@ =~= seq!['`', '`', '`']);
        }
        starts_with_at(front.as_slice(), s, &ticks)
    }

    /// Whether the cell has received any content yet.
    pub fn is_empty(&self) -> (b: bool)
        ensures
            b == (self.spec_content().len() == 0),
    {
        self.content.as_str().is_empty()
    }

    /// Consume the cell and return the final accumulated content.
    pub fn finish(self) -> (s: String)
        ensures
            s@ == self.spec_content(),
    {
        self.content
    }

    /// Flush pending text — clear the delta buffer after a render cycle.
    pub fn flush(&mut self)
        ensures
            final(self).spec_pending().len() == 0,
            final(self).spec_content() == old(self).spec_content(),
            stream_stepped(*old(self), *final(self), StreamCall::Flush),
            final(self).spec_thinking() == old(self).spec_thinking(),
            final(self).spec_in_code() == old(self).spec_in_code(),
    {
        self.pending_text = String::new();
    }

    /// Whether the AI is currently in a thinking phase.
    pub fn is_thinking(&self) -> (b: bool)
        ensures
            b == self.spec_thinking(),
    {
        self.is_thinking
    }

    /// Whether the content is inside a code block.
    pub fn in_code_block(&self) -> (b: bool)
        ensures
            b == self.spec_in_code(),
    {
        self.in_code_block
    }

    /// The accumulated content.
    pub fn content(&self) -> (r: &str)
        ensures
            r@ == self.spec_content(),
    {
        self.content.as_str()
    }

    /// The pending (unflushed) text.
    pub fn pending_text(&self) -> (r: &str)
        ensures
            r@ == self.spec_pending(),
    {
        self.pending_text.as_str()
    }

    /// Set the thinking state explicitly, overriding the heuristic.
    pub fn set_thinking(&mut self, is_thinking: bool)
        ensures
            final(self).spec_thinking() == is_thinking,
            final(self).spec_content() == old(self).spec_content(),
            final(self).spec_pending() == old(self).spec_pending(),
            final(self).spec_in_code() == old(self).spec_in_code(),
    {
        self.is_thinking = is_thinking;
    }

    /// Rows the cell needs at `width` columns: 3 when empty; otherwise the
    /// wrapped rows of its lines, the two borders, and one more row for the
    /// thinking indicator.
    pub fn desired_height(&self, width: u16) -> (h: u16)
        requires
            self.spec_content().len() > 0 ==> width > 0,
            forall|i: int|
                0 <= i < lines(self.spec_content()).len() ==> line_fits(
                    #[trigger] lines(self.spec_content())[i],
                    width as int,
                ),
            self.spec_content().len() > 0 ==> total_rows(lines(self.spec_content()), width as int)
                + 2 + (if self.spec_thinking() {
                1int
            } else {
                0int
            }) <= u16::MAX,
        ensures
            h == if self.spec_content().len() == 0 {
                3
            } else {
                total_rows(lines(self.spec_content()), width as int) + 2 + if self.spec_thinking() {
                    1int
                } else {
                    0int
                }
            },
    {
        if self.content.as_str().is_empty() {
            return 3;
        }
        let cs = chars_of(self.content.as_str());
        let ls = lines_of(cs.as_slice());
        let ghost lv = lines(self.content@);
        let mut sum: u16 = 0;
        let mut k: usize = 0;
        proof {
            assert(lv.take(0) =~= Seq::<Seq<char>>::empty());
            Self::lemma_total_rows_prefix(lv, width as int, 0);
        }
        while k < ls.len()
            invariant
                views(ls@) == lv,
                k <= ls@.len(),
                width > 0,
                sum == total_rows(lv.take(k as int), width as int),
                total_rows(lv, width as int) <= u16::MAX,
                forall|i: int| 0 <= i < lv.len() ==> line_fits(#[trigger] lv[i], width as int),
            decreases ls@.len() - k,
        {
            let line = string_from_chars(ls[k].as_slice());
            let len = str_byte_len(line.as_str()) as u32;
            proof {
                assert(lv.take(k + 1).drop_last() =~= lv.take(k as int));
                assert(lv.take(k + 1).last() == lv[k as int]);
                assert(ls@[k as int]@ == views(ls@)[k as int]);
                assert(line@ == lv[k as int]);
                assert(line_fits(lv[k as int], width as int));
                assert(len == (byte_len(lv[k as int]) as u32));
                Self::lemma_total_rows_prefix(lv, width as int, k + 1);
            }
            let rows: u16 = if len == 0 {
                1
            } else {
                ((len + width as u32 - 1) / width as u32) as u16
            };
            sum = sum + rows;
            k += 1;
        }
        proof {
            assert(lv.take(k as int) =~= lv);
        }
        let thinking_extra: u16 = if self.is_thinking {
            1
        } else {
            0
        };
        sum + 2 + thinking_extra
    }

    /// The block title and border colour: thinking first, then code block.
    pub fn frame_title(&self) -> (r: (&'static str, StatusColor))
        ensures
            r.0@ == if self.spec_thinking() {
                " Assistant (思考中) "@
            } else if self.spec_in_code() {
                " Assistant (代码块) "@
            } else {
                " Assistant "@
            },
            r.1 == if self.spec_thinking() {
                StatusColor::Yellow
            } else if self.spec_in_code() {
                StatusColor::Cyan
            } else {
                StatusColor::Green
            },
    {
        if self.is_thinking {
            (" Assistant (思考中) ", StatusColor::Yellow)
        } else if self.in_code_block {
            (" Assistant (代码块) ", StatusColor::Cyan)
        } else {
            (" Assistant ", StatusColor::Green)
        }
    }

    /// The text shown in the cell: the content, preceded by a thinking
    /// indicator line while thinking.
    pub fn display_text(&self) -> (r: String)
        ensures
            r@ == if self.spec_thinking() && self.spec_content().len() == 0 {
                "◌ 思考中..."@
            } else if self.spec_thinking() {
                "◌ 思考中...\n"@ + self.spec_content()
            } else {
                self.spec_content()
            },
    {
        if self.is_thinking && self.content.as_str().is_empty() {
            String::from_str("◌ 思考中...")
        } else if self.is_thinking {
            let mut s = String::from_str("◌ 思考中...\n");
            s.append(self.content.as_str());
            s
        } else {
            self.content.clone()
        }
    }

    /// Prefix sums of rows never exceed the total.
    proof fn lemma_total_rows_prefix(ls: Seq<Seq<char>>, width: int, k: int)
        requires
            0 <= k <= ls.len(),
            width > 0,
        ensures
            0 <= total_rows(ls.take(k), width) <= total_rows(ls, width),
        decreases ls.len() - k,
    {
        Self::lemma_total_rows_nonneg(ls.take(k), width);
        if k < ls.len() {
            Self::lemma_total_rows_prefix(ls, width, k + 1);
            assert(ls.take(k + 1).drop_last() =~= ls.take(k));
        } else {
            assert(ls.take(k) =~= ls);
        }
    }

    proof fn lemma_total_rows_nonneg(ls: Seq<Seq<char>>, width: int)
        requires
            width > 0,
        ensures
            total_rows(ls, width) >= 0,
        decreases ls.len(),
    {
        if ls.len() > 0 {
            Self::lemma_total_rows_nonneg(ls.drop_last(), width);
        }
    }
}

impl Default for StreamingCell {
    fn default() -> (c: Self)
        ensures
            c.spec_content().len() == 0,
            c.spec_pending().len() == 0,
            !c.spec_thinking(),
            !c.spec_in_code(),
    {
        Self::new()
    }
}


/// A call that may change a streaming cell's content.
pub enum StreamCall {
    /// `append_text` with this delta.
    Append(Seq<char>),
    /// `flush`.
    Flush,
}

/// The content after one call, as `append_text` and `flush` state it.
pub open spec fn content_after_call(content: Seq<char>, call: StreamCall) -> Seq<char> {
    match call {
        StreamCall::Append(d) => content + d,
        StreamCall::Flush => content,
    }
}

/// The content after the calls, in order, from `start`.
pub open spec fn content_after(start: Seq<char>, calls: Seq<StreamCall>) -> Seq<char>
    decreases calls.len(),
{
    if calls.len() == 0 {
        start
    } else {
        content_after_call(content_after(start, calls.drop_last()), calls.last())
    }
}

/// The deltas the calls append, in order.
pub open spec fn appended_deltas(calls: Seq<StreamCall>) -> Seq<Seq<char>>
    decreases calls.len(),
{
    if calls.len() == 0 {
        Seq::empty()
    } else {
        let before = appended_deltas(calls.drop_last());
        match calls.last() {
            StreamCall::Append(d) => before.push(d),
            StreamCall::Flush => before,
        }
    }
}

/// What a call does to a cell's content, as `append_text` and `flush`
/// state it.
pub open spec fn stream_stepped(a: StreamingCell, b: StreamingCell, call: StreamCall) -> bool {
    b.spec_content() == content_after_call(a.spec_content(), call)
}

/// The content after any calls is the content before them followed by all
/// the deltas appended, in order: flushing never drops content.
pub proof fn lemma_content_after_is_appended(start: Seq<char>, calls: Seq<StreamCall>)
    ensures
        content_after(start, calls) == start + appended_deltas(calls).flatten(),
    decreases calls.len(),
{
    if calls.len() == 0 {
        assert(start + Seq::<Seq<char>>::empty().flatten() =~= start);
    } else {
        lemma_content_after_is_appended(start, calls.drop_last());
        match calls.last() {
            StreamCall::Append(d) => {
                appended_deltas(calls.drop_last()).lemma_flatten_push(d);
                assert(start + appended_deltas(calls).flatten() =~= start + appended_deltas(
                    calls.drop_last(),
                ).flatten() + d);
            },
            StreamCall::Flush => {},
        }
    }
}

/// A cell made by `new` (whose content is empty) holds, and `finish`
/// returns, all the deltas appended, joined in order.
pub proof fn law_finish_returns_all_deltas(calls: Seq<StreamCall>)
    ensures
        content_after(Seq::empty(), calls) == appended_deltas(calls).flatten(),
{
    lemma_content_after_is_appended(Seq::empty(), calls);
    assert(Seq::<char>::empty() + appended_deltas(calls).flatten() =~= appended_deltas(
        calls,
    ).flatten());
}

/// Whether `run` is a cell followed by the cells that the `calls` leave,
/// one after another.
pub open spec fn stream_run(run: Seq<StreamingCell>, calls: Seq<StreamCall>) -> bool {
    &&& run.len() == calls.len() + 1
    &&& forall|i: int| 0 <= i < calls.len() ==> #[trigger] stream_stepped(run[i], run[i + 1], calls[i])
}

proof fn lemma_stream_run_content(run: Seq<StreamingCell>, calls: Seq<StreamCall>, k: int)
    requires
        stream_run(run, calls),
        0 <= k <= calls.len(),
    ensures
        run[k].spec_content() == content_after(run[0].spec_content(), calls.take(k)),
    decreases k,
{
    if k > 0 {
        lemma_stream_run_content(run, calls, k - 1);
        let j = k - 1;
        assert(stream_stepped(run[j], run[j + 1], calls[j]));
        assert(calls.take(k).drop_last() =~= calls.take(j));
        assert(calls.take(k).last() == calls[j]);
    }
}

/// A cell made by `new`, after any run of `append_text(d1)`, …,
/// `append_text(dn)` calls with any `flush` calls between them (`run` holds
/// the cell before and after each call), holds, and `finish` returns,
/// `d1 + … + dn`; `new().finish()` is empty.
pub proof fn law_run_finishes_with_all_deltas(run: Seq<StreamingCell>, calls: Seq<StreamCall>)
    requires
        stream_run(run, calls),
        run[0].spec_content().len() == 0,
    ensures
        run.last().spec_content() == appended_deltas(calls).flatten(),
{
    lemma_stream_run_content(run, calls, calls.len() as int);
    assert(calls.take(calls.len() as int) =~= calls);
    assert(run[0].spec_content() =~= Seq::<char>::empty());
    law_finish_returns_all_deltas(calls);
}

/// Appending a delta flips the code-block flag exactly when the delta holds
/// an odd number of fence lines: after `append_text`, `in_code_block()` is
/// the old flag, flipped when the count of the delta's lines that are
/// fences is odd.
pub proof fn law_code_flag_is_fence_parity(b: bool, ls: Seq<Seq<char>>)
    ensures
        toggle_fences(b, ls) == (b != (ls.filter(|l: Seq<char>| is_fence(l)).len() % 2 == 1)),
    decreases ls.len(),
{
    if ls.len() > 0 {
        law_code_flag_is_fence_parity(b, ls.drop_last());
        reveal(Seq::filter);
        let f = |l: Seq<char>| is_fence(l);
        let n = ls.drop_last().filter(f).len();
        if is_fence(ls.last()) {
            assert(ls.filter(f).len() == n + 1);
            assert((n + 1) % 2 == 1 <==> !(n % 2 == 1));
        } else {
            assert(ls.filter(f).len() == n);
        }
    }
}

} // verus!
