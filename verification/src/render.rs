//! Layout arithmetic of the rendering system.
//!
//! - column layout: children stacked top to bottom, each given its desired
//!   height clipped to the remaining space;
//! - flex layout: the height divided in proportion to weights;
//! - inset layout: an area shrunk by paddings;
//! - [`FillCell`]: a placeholder that fills its area with one character.

use vstd::prelude::*;
use crate::key::Rect;

verus! {

/// Sum of the first `k` entries of `s`.
pub open spec fn sum_prefix(s: Seq<u16>, k: int) -> int
    decreases k,
{
    if k <= 0 {
        0
    } else {
        sum_prefix(s, k - 1) + s[k - 1]
    }
}

/// The heights a column gives its children: child `i` gets its desired
/// height, clipped to what the children before it left of `height`.
pub open spec fn column_heights_spec(desired: Seq<u16>, height: int) -> Seq<u16>
    decreases desired.len(),
{
    if desired.len() == 0 {
        Seq::empty()
    } else {
        let before = column_heights_spec(desired.drop_last(), height);
        let used = sum_prefix(before, before.len() as int);
        let left = if height >= used { height - used } else { 0 };
        let d = desired.last() as int;
        before.push((if d <= left { d } else { left }) as u16)
    }
}

proof fn lemma_sum_prefix_push(s: Seq<u16>, x: u16)
    ensures
        sum_prefix(s.push(x), s.len() + 1int) == sum_prefix(s, s.len() as int) + x,
        forall|k: int| k <= s.len() ==> sum_prefix(s.push(x), k) == sum_prefix(s, k),
{
    assert forall|k: int| k <= s.len() implies sum_prefix(s.push(x), k) == sum_prefix(s, k) by {
        lemma_sum_prefix_same(s.push(x), s, k);
    }
    lemma_sum_prefix_same(s.push(x), s, s.len() as int);
}

proof fn lemma_sum_prefix_same(a: Seq<u16>, b: Seq<u16>, k: int)
    requires
        k <= a.len(),
        k <= b.len(),
        forall|i: int| 0 <= i < k ==> a[i] == b[i],
    ensures
        sum_prefix(a, k) == sum_prefix(b, k),
    decreases k,
{
    if k > 0 {
        lemma_sum_prefix_same(a, b, k - 1);
    }
}

proof fn lemma_column_heights_len(desired: Seq<u16>, height: int)
    requires
        height >= 0,
    ensures
        column_heights_spec(desired, height).len() == desired.len(),
        0 <= sum_prefix(
            column_heights_spec(desired, height),
            desired.len() as int,
        ) <= height,
    decreases desired.len(),
{
    if desired.len() > 0 {
        lemma_column_heights_len(desired.drop_last(), height);
        let before = column_heights_spec(desired.drop_last(), height);
        let used = sum_prefix(before, before.len() as int);
        let left = if height >= used { height - used } else { 0 };
        let d = desired.last() as int;
        let x = (if d <= left { d } else { left }) as u16;
        lemma_sum_prefix_push(before, x);
    }
}

/// The heights a column layout gives children of the given desired heights
/// in an area of `height` rows.
pub fn column_heights(desired: &Vec<u16>, height: u16) -> (r: Vec<u16>)
    ensures
        r@ == column_heights_spec(desired@, height as int),
        sum_prefix(r@, r@.len() as int) <= height,
{
    let mut r: Vec<u16> = Vec::new();
    let mut used: u16 = 0;
    let mut k: usize = 0;
    while k < desired.len()
        invariant
            k <= desired@.len(),
            r@ == column_heights_spec(desired@.take(k as int), height as int),
            used == sum_prefix(r@, r@.len() as int),
            used <= height,
        decreases desired@.len() - k,
    {
        proof {
            assert(desired@.take(k + 1).drop_last() =~= desired@.take(k as int));
            assert(desired@.take(k + 1).last() == desired@[k as int]);
            lemma_column_heights_len(desired@.take(k as int), height as int);
        }
        let left = height - used;
        let d = desired[k];
        let h = if d <= left {
            d
        } else {
            left
        };
        proof {
            lemma_sum_prefix_push(r@, h);
        }
        r.push(h);
        used = used + h;
        k += 1;
    }
    proof {
        assert(desired@.take(k as int) =~= desired@);
    }
    r
}

/// Sum of all the entries of `s`.
pub open spec fn sum_all(s: Seq<u16>) -> int {
    sum_prefix(s, s.len() as int)
}

/// The total desired height of a column: the sum of its children's.
pub fn column_desired_height(desired: &Vec<u16>) -> (h: u16)
    requires
        sum_all(desired@) <= u16::MAX,
    ensures
        h == sum_all(desired@),
{
    let mut total: u16 = 0;
    let mut k: usize = 0;
    while k < desired.len()
        invariant
            k <= desired@.len(),
            total == sum_prefix(desired@, k as int),
            sum_all(desired@) <= u16::MAX,
        decreases desired@.len() - k,
    {
        proof {
            lemma_sum_prefix_mono(desired@, k + 1, desired@.len() as int);
        }
        total = total + desired[k];
        k += 1;
    }
    total
}

proof fn lemma_sum_prefix_mono(s: Seq<u16>, j: int, k: int)
    requires
        0 <= j <= k <= s.len(),
    ensures
        sum_prefix(s, j) <= sum_prefix(s, k),
    decreases k - j,
{
    if j < k {
        lemma_sum_prefix_mono(s, j, k - 1);
    }
}

/// The heights a flex layout gives children of the given weights in an area
/// of `height` rows: `height * weight / total_weight` each, nothing when the
/// weights sum to 0.
pub open spec fn flex_heights_spec(weights: Seq<u16>, height: int) -> Seq<u16> {
    let total = sum_all(weights);
    if total == 0 {
        Seq::empty()
    } else {
        weights.map_values(|w: u16| (height as int * w / total as int) as u16)
    }
}

/// The heights of a flex layout (see [`flex_heights_spec`]).
pub fn flex_heights(weights: &Vec<u16>, height: u16) -> (r: Vec<u16>)
    requires
        sum_all(weights@) <= u16::MAX,
        forall|i: int| 0 <= i < weights@.len() ==> height * #[trigger] weights@[i] <= u16::MAX,
    ensures
        r@ == flex_heights_spec(weights@, height as int),
{
    let total = column_desired_height(weights);
    let mut r: Vec<u16> = Vec::new();
    if total == 0 {
        return r;
    }
    let mut k: usize = 0;
    while k < weights.len()
        invariant
            k <= weights@.len(),
            total == sum_all(weights@),
            total > 0,
            forall|i: int| 0 <= i < weights@.len() ==> height * #[trigger] weights@[i] <= u16::MAX,
            r@ == weights@.take(k as int).map_values(|w: u16| (height as int * w / total as int) as u16),
        decreases weights@.len() - k,
    {
        let w = weights[k];
        proof {
            assert(height * weights@[k as int] <= u16::MAX);
        }
        let h = height * w / total;
        r.push(h);
        k += 1;
        proof {
            assert(r@ =~= weights@.take(k as int).map_values(|w: u16| (height as int * w / total as int) as u16));
        }
    }
    proof {
        assert(weights@.take(k as int) =~= weights@);
    }
    r
}

/// The area left inside `area` after the paddings.
pub open spec fn inset_spec(area: Rect, top: u16, bottom: u16, left: u16, right: u16) -> Rect {
    let w = area.width - (left + right);
    let h = area.height - (top + bottom);
    Rect {
        x: (area.x + left) as u16,
        y: (area.y + top) as u16,
        width: (if w >= 0 { w } else { 0 }) as u16,
        height: (if h >= 0 { h } else { 0 }) as u16,
    }
}

/// The area left inside `area` after the paddings (`x` and `y` move in by
/// the left and top padding; the size shrinks by both paddings, to 0 at
/// least).
pub fn inset_area(area: Rect, top: u16, bottom: u16, left: u16, right: u16) -> (r: Rect)
    requires
        area.x + left <= u16::MAX,
        area.y + top <= u16::MAX,
        left + right <= u16::MAX,
        top + bottom <= u16::MAX,
    ensures
        r == inset_spec(area, top, bottom, left, right),
{
    Rect {
        x: area.x + left,
        y: area.y + top,
        width: area.width.saturating_sub(left + right),
        height: area.height.saturating_sub(top + bottom),
    }
}

/// The width an inset child is asked about: `width` less both side paddings.
pub fn inset_inner_width(width: u16, left: u16, right: u16) -> (w: u16)
    requires
        left + right <= u16::MAX,
    ensures
        w == if width >= left + right {
            width - (left + right)
        } else {
            0
        },
{
    width.saturating_sub(left + right)
}

/// The desired height of an inset: the child's plus the vertical paddings.
pub fn inset_desired_height(inner: u16, top: u16, bottom: u16) -> (h: u16)
    requires
        inner + top + bottom <= u16::MAX,
    ensures
        h == inner + top + bottom,
{
    inner + top + bottom
}

/// A minimal renderable that fills its area with a single character.
///
/// Useful for testing layouts and as a placeholder during development.
pub struct FillCell {
    ch: char,
    height: u16,
}

impl FillCell {
    pub closed spec fn spec_char(&self) -> char {
        self.ch
    }

    pub closed spec fn spec_height(&self) -> u16 {
        self.height
    }

    /// Create a fill cell with the given character and desired height.
    pub fn new(ch: char, height: u16) -> (c: Self)
        ensures
            c.spec_char() == ch,
            c.spec_height() == height,
    {
        FillCell { ch, height }
    }

    /// The fill character.
    pub fn fill_char(&self) -> (c: char)
        ensures
            c == self.spec_char(),
    {
        self.ch
    }

    /// Rows the cell asks for: the height it was made with.
    pub fn desired_height(&self, _width: u16) -> (h: u16)
        ensures
            h == self.spec_height(),
    {
        self.height
    }
}

/// A column never hands out more rows than the area has, and a child gets
/// its full desired height whenever the rows before it leave room for it.
pub proof fn law_column_fits_area(desired: Seq<u16>, height: u16)
    ensures
        sum_all(column_heights_spec(desired, height as int)) <= height,
        column_heights_spec(desired, height as int).len() == desired.len(),
{
    lemma_column_heights_len(desired, height as int);
}

/// Where a long line is cut: one column before the edge.
pub open spec fn cut_width(width: u16) -> int {
    if width > 0 {
        width - 1
    } else {
        0
    }
}

/// Whether the first `k` characters of `s` take exactly `n` bytes.
pub open spec fn is_boundary(s: Seq<char>, k: int, n: int) -> bool {
    0 <= k <= s.len() && crate::text::byte_len(s.take(k)) == n
}

/// A line as the text view draws it in `width` columns: a line longer than
/// `width` bytes is cut after `width - 1` bytes and ends with `…`; a shorter
/// one is padded with spaces to `width` characters.
pub open spec fn fitted_line(line: Seq<char>, width: u16, k: int) -> Seq<char> {
    if crate::text::byte_len(line) > width {
        line.take(k) + seq!['…']
    } else {
        crate::tool_cmd::pad_right(line, width as nat)
    }
}

/// The line drawn in `width` columns (see [`fitted_line`]).  A line longer
/// than `width` bytes must have a character boundary at `width - 1` bytes.
pub fn fit_line(line: &str, width: u16) -> (r: String)
    requires
        crate::text::byte_len(line@) > width ==> exists|k: int|
            #[trigger] is_boundary(line@, k, cut_width(width)),
    ensures
        crate::text::byte_len(line@) > width ==> exists|k: int|
            #[trigger] is_boundary(line@, k, cut_width(width)) && r@ == fitted_line(
                line@,
                width,
                k,
            ),
        crate::text::byte_len(line@) <= width ==> r@ == fitted_line(line@, width, 0),
{
    let len = crate::text::str_byte_len(line);
    if len > width as usize {
        let cut: usize = if width > 0 {
            (width - 1) as usize
        } else {
            0
        };
        let cs = crate::text::chars_of(line);
        let k = crate::skill_inspect::floor_chars_of(cs.as_slice(), cut);
        proof {
            crate::skill_inspect::lemma_floor_chars_bound(cs@, cut as int);
            let w = choose|w: int| is_boundary(line@, w, cut as int);
            lemma_boundary_unique(line@, w, k as int, cut as int);
        }
        let head = crate::text::copy_range(cs.as_slice(), 0, k);
        let mut r = crate::text::string_from_chars(head.as_slice());
        crate::text::push_char(&mut r, '…');
        proof {
            assert(head@ =~= line@.take(k as int));
            assert(r@ =~= line@.take(k as int) + seq!['…']);
            assert(is_boundary(line@, k as int, cut as int));
        }
        r
    } else {
        crate::tool_cmd::pad_right_text(line, width as usize)
    }
}

/// A longer prefix takes at least as many bytes.
proof fn lemma_byte_len_mono(s: Seq<char>, i: int, j: int)
    requires
        0 <= i <= j <= s.len(),
    ensures
        crate::text::byte_len(s.take(i)) <= crate::text::byte_len(s.take(j)),
{
    crate::text::lemma_byte_len_take_le(s.take(j), i);
    assert(s.take(j).take(i) =~= s.take(i));
}

/// When some prefix of `s` takes exactly `n` bytes, the longest prefix
/// within `n` bytes is that one.
proof fn lemma_boundary_unique(s: Seq<char>, w: int, k: int, n: int)
    requires
        is_boundary(s, w, n),
        0 <= k <= s.len(),
        crate::text::byte_len(s.take(k)) <= n,
        k < s.len() ==> crate::text::byte_len(s.take(k + 1)) > n,
    ensures
        crate::text::byte_len(s.take(k)) == n,
{
    if w < k {
        lemma_byte_len_mono(s, w + 1, k);
        crate::text::lemma_byte_len_take_next(s, w);
    } else if w > k {
        lemma_byte_len_mono(s, k + 1, w);
        crate::text::lemma_byte_len_take_next(s, k);
    }
}

} // verus!
