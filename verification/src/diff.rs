//! Unified diff parsing for the diff view.
//!
//! Parses unified diff format and classifies each line:
//!
//! - Added lines (`+`), shown in green
//! - Removed lines (`-`), shown in red
//! - Header/metadata lines (`@@`, `diff --git`, `---`/`+++`, `index`, etc.),
//!   shown in bold blue
//! - Context lines, in the default terminal style

use vstd::prelude::*;
use crate::text::{
    chars_of, copy_range, lines, lines_of, starts_with, starts_with_at, string_from_chars, trim,
    trim_end_len, trim_start_from, utf8_width, char_utf8_width, views,
};

verus! {

/// The type of a single line in a unified diff.
#[derive(Debug, Clone, Copy, PartialEq, Eq, Structural)]
pub enum DiffLineType {
    /// Unchanged context line (prefixed with a space in the raw diff).
    Context,
    /// Added line (prefixed with `+` in the raw diff).
    Added,
    /// Removed line (prefixed with `-` in the raw diff).
    Removed,
    /// Header or metadata line (`diff --git`, `---`, `+++`, `@@`, `index`, etc.).
    Header,
}

/// How a line of a given type is drawn.
#[derive(Debug, Clone, Copy, PartialEq, Eq, Structural)]
pub enum DiffStyle {
    /// Green foreground.
    Green,
    /// Red foreground.
    Red,
    /// Bold blue foreground.
    BoldBlue,
    /// The terminal's default style.
    Plain,
}

/// A single parsed line in a unified diff.
///
/// `content` stores the line **without** the leading `+`/`-`/` ` prefix of
/// the raw unified diff.  Header lines store their full text.
#[derive(Debug, Clone)]
pub struct DiffLine {
    /// The type/category of this line.
    pub line_type: DiffLineType,
    /// The line content (stripped of the unified-diff prefix character).
    pub content: String,
}

/// A parsed unified diff: its lines in order and the file being diffed.
pub struct DiffView {
    /// Parsed diff lines in order.
    pub lines: Vec<DiffLine>,
    /// The file path being diffed (extracted from `+++` or `diff --git`).
    pub file_path: String,
}

/// A diff preview: a parsed diff shown in a bordered block titled with the
/// file path.
pub struct DiffPreview {
    /// The underlying parsed diff view.
    diff_view: DiffView,
}

pub open spec fn triple(c: char) -> Seq<char> {
    seq![c, c, c]
}

/// Classification of one raw line: its type and its content without the
/// diff prefix character.
pub open spec fn classify(raw: Seq<char>) -> (DiffLineType, Seq<char>) {
    if raw.len() == 0 {
        (DiffLineType::Context, Seq::empty())
    } else if raw[0] == '+' {
        if starts_with(raw, triple('+')) {
            (DiffLineType::Header, raw)
        } else {
            (DiffLineType::Added, raw.drop_first())
        }
    } else if raw[0] == '-' {
        if starts_with(raw, triple('-')) {
            (DiffLineType::Header, raw)
        } else {
            (DiffLineType::Removed, raw.drop_first())
        }
    } else if raw[0] == ' ' {
        (DiffLineType::Context, raw.drop_first())
    } else {
        (DiffLineType::Header, raw)
    }
}

/// The text after byte offset 4 of a `+++` line, if that offset is a
/// character boundary within it (as `str::get(4..)`), else empty.
pub open spec fn after_plus(raw: Seq<char>) -> Seq<char> {
    if raw.len() >= 4 && utf8_width(raw[3]) == 1 {
        raw.skip(4)
    } else {
        Seq::empty()
    }
}

/// The path named by a `+++` line: the trimmed rest, without a `b/` prefix.
pub open spec fn plus_line_path(raw: Seq<char>) -> Seq<char> {
    let t = trim(after_plus(raw));
    if starts_with(t, seq!['b', '/']) {
        t.skip(2)
    } else {
        t
    }
}

/// The path of the last `+++` line among `ls`, if any.
pub open spec fn last_plus_path(ls: Seq<Seq<char>>) -> Option<Seq<char>>
    decreases ls.len(),
{
    if ls.len() == 0 {
        None
    } else if starts_with(ls.last(), triple('+')) {
        Some(plus_line_path(ls.last()))
    } else {
        last_plus_path(ls.drop_last())
    }
}

/// Start of the last occurrence of `p` in `s`, or -1.
pub open spec fn last_match(s: Seq<char>, p: Seq<char>) -> int
    decreases s.len(),
{
    if s.len() < p.len() {
        -1
    } else if s.skip(s.len() - p.len()) == p {
        s.len() - p.len()
    } else if s.len() == 0 {
        -1
    } else {
        last_match(s.drop_last(), p)
    }
}

pub open spec fn git_prefix() -> Seq<char> {
    seq!['d', 'i', 'f', 'f', ' ', '-', '-', 'g', 'i', 't', ' ']
}

pub open spec fn b_marker() -> Seq<char> {
    seq![' ', 'b', '/']
}

/// The `b/` path of a `diff --git a/... b/...` line, if it is one.
pub open spec fn git_line_path(l: Seq<char>) -> Option<Seq<char>> {
    if starts_with(l, git_prefix()) {
        let rest = l.skip(11);
        let m = last_match(rest, b_marker());
        if m >= 0 {
            Some(rest.skip(m + 3))
        } else {
            None
        }
    } else {
        None
    }
}

/// The path of the first `diff --git` line among `ls` that names one.
pub open spec fn git_path(ls: Seq<Seq<char>>) -> Option<Seq<char>>
    decreases ls.len(),
{
    if ls.len() == 0 {
        None
    } else if git_line_path(ls[0]) is Some {
        git_line_path(ls[0])
    } else {
        git_path(ls.drop_first())
    }
}

/// The file path of a diff: from the last `+++` line, or, when that gives
/// nothing, from the first `diff --git` line; empty when neither does.
pub open spec fn diff_file_path(input: Seq<char>) -> Seq<char> {
    let ls = lines(input);
    let p = match last_plus_path(ls) {
        Some(p) => p,
        None => Seq::empty(),
    };
    if p.len() > 0 {
        p
    } else {
        match git_path(ls) {
            Some(g) => g,
            None => Seq::empty(),
        }
    }
}

/// The view of a parsed line.
pub open spec fn line_view(l: DiffLine) -> (DiffLineType, Seq<char>) {
    (l.line_type, l.content@)
}

/// The prefix shown before a line of the given type.
pub open spec fn prefix_of(t: DiffLineType) -> Seq<char> {
    match t {
        DiffLineType::Added => seq!['+'],
        DiffLineType::Removed => seq!['-'],
        DiffLineType::Header => Seq::empty(),
        DiffLineType::Context => seq![' '],
    }
}

/// The style of a line of the given type.
pub open spec fn style_of(t: DiffLineType) -> DiffStyle {
    match t {
        DiffLineType::Added => DiffStyle::Green,
        DiffLineType::Removed => DiffStyle::Red,
        DiffLineType::Header => DiffStyle::BoldBlue,
        DiffLineType::Context => DiffStyle::Plain,
    }
}

/// Classify a single raw line from unified diff output and return its type
/// together with the content stripped of the leading diff-prefix character.
pub fn classify_line(raw: &str) -> (r: (DiffLineType, String))
    ensures
        r.0 == classify(raw@).0,
        r.1@ == classify(raw@).1,
{
    let cs = chars_of(raw);
    classify_chars(cs.as_slice())
}

fn classify_chars(cs: &[char]) -> (r: (DiffLineType, String))
    ensures
        r.0 == classify(cs@).0,
        r.1@ == classify(cs@).1,
{
    let n = cs.len();
    if n == 0 {
        return (DiffLineType::Context, String::new());
    }
    let first = cs[0];
    let whole = string_from_chars(cs);
    let tail = copy_range(cs, 1, n);
    proof {
        assert(tail@ =~= cs@.drop_first());
    }
    if first == '+' {
        if n >= 3 && cs[1] == '+' && cs[2] == '+' {
            proof {
                assert(cs@.take(3) =~= triple('+'));
            }
            (DiffLineType::Header, whole)
        } else {
            proof {
                if n >= 3 {
                    assert(cs@.take(3)[1] == cs@[1]);
                    assert(cs@.take(3)[2] == cs@[2]);
                }
            }
            (DiffLineType::Added, string_from_chars(tail.as_slice()))
        }
    } else if first == '-' {
        if n >= 3 && cs[1] == '-' && cs[2] == '-' {
            proof {
                assert(cs@.take(3) =~= triple('-'));
            }
            (DiffLineType::Header, whole)
        } else {
            proof {
                if n >= 3 {
                    assert(cs@.take(3)[1] == cs@[1]);
                    assert(cs@.take(3)[2] == cs@[2]);
                }
            }
            (DiffLineType::Removed, string_from_chars(tail.as_slice()))
        }
    } else if first == ' ' {
        (DiffLineType::Context, string_from_chars(tail.as_slice()))
    } else {
        (DiffLineType::Header, whole)
    }
}

/// Whether `cs` starts with three copies of `c`.
fn starts_with_triple(cs: &[char], c: char) -> (b: bool)
    ensures
        b == starts_with(cs@, triple(c)),
{
    if cs.len() >= 3 && cs[0] == c && cs[1] == c && cs[2] == c {
        proof {
            assert(cs@.take(3) =~= triple(c));
        }
        true
    } else {
        proof {
            if cs@.len() >= 3 {
                assert(cs@.take(3)[0] == cs@[0]);
                assert(cs@.take(3)[1] == cs@[1]);
                assert(cs@.take(3)[2] == cs@[2]);
            }
        }
        false
    }
}

/// The path named by a `+++` line.
fn plus_path_of(cs: &[char]) -> (r: Vec<char>)
    ensures
        r@ == plus_line_path(cs@),
{
    let n = cs.len();
    let rest = if n >= 4 && char_utf8_width(cs[3]) == 1 {
        copy_range(cs, 4, n)
    } else {
        Vec::new()
    };
    proof {
        if n >= 4 && utf8_width(cs@[3]) == 1 {
            assert(rest@ =~= cs@.skip(4));
        } else {
            assert(rest@ =~= Seq::<char>::empty());
        }
    }
    let m = rest.len();
    let e = trim_end_len(rest.as_slice(), m);
    let trimmed_end = copy_range(rest.as_slice(), 0, e);
    let s = trim_start_from(trimmed_end.as_slice(), 0);
    let t = copy_range(trimmed_end.as_slice(), s, e);
    proof {
        assert(rest@.take(m as int) =~= rest@);
        assert(trimmed_end@ =~= rest@.take(e as int));
        assert(trimmed_end@.skip(0) =~= trimmed_end@);
        assert(t@ =~= trimmed_end@.skip(s as int));
        assert(t@ == trim(rest@));
    }
    let bprefix = ['b', '/'];
    if starts_with_at(t.as_slice(), 0, &bprefix) {
        proof {
            assert(t@.skip(0) =~= t@);
            assert(bprefix@ =~= seq!['b', '/']);
        }
        let k = t.len();
        let r = copy_range(t.as_slice(), 2, k);
        proof {
            assert(r@ =~= t@.skip(2));
        }
        r
    } else {
        proof {
            assert(t@.skip(0) =~= t@);
            assert(bprefix@ =~= seq!['b', '/']);
        }
        t
    }
}

/// Start of the last `" b/"` in `s[from..]`, relative to `from`, or -1.
fn last_b_marker(s: &[char], from: usize) -> (r: Option<usize>)
    requires
        from <= s@.len(),
    ensures
        match r {
            Some(m) => last_match(s@.skip(from as int), b_marker()) == m as int,
            None => last_match(s@.skip(from as int), b_marker()) == -1,
        },
{
    let ghost rest = s@.skip(from as int);
    let mut end = s.len();
    let marker = [' ', 'b', '/'];
    proof {
        assert(marker@ =~= b_marker());
        assert(rest.take(end - from) =~= rest);
    }
    while end - from >= 3
        invariant
            from <= end <= s@.len(),
            rest == s@.skip(from as int),
            marker@ == b_marker(),
            last_match(rest.take(end - from), b_marker()) == last_match(rest, b_marker()),
        decreases end,
    {
        let ghost cur = rest.take(end - from);
        if starts_with_at(s, end - 3, &marker) {
            proof {
                assert(cur.skip(cur.len() - 3) =~= s@.skip(end - 3).take(3));
            }
            return Some(end - 3 - from);
        }
        proof {
            assert(cur.skip(cur.len() - 3) =~= s@.skip(end - 3).take(3));
            assert(cur.drop_last() =~= rest.take(end - 1 - from));
        }
        end = end - 1;
    }
    proof {
        assert(rest.take(end - from).len() < 3);
    }
    None
}

/// The `b/` path of a `diff --git` line, if it is one.
fn git_path_of(cs: &[char]) -> (r: Option<Vec<char>>)
    ensures
        match r {
            Some(v) => git_line_path(cs@) == Some(v@),
            None => git_line_path(cs@) is None,
        },
{
    let prefix = ['d', 'i', 'f', 'f', ' ', '-', '-', 'g', 'i', 't', ' '];
    proof {
        assert(prefix@ =~= git_prefix());
        assert(cs@.skip(0) =~= cs@);
    }
    if !starts_with_at(cs, 0, &prefix) {
        return None;
    }
    match last_b_marker(cs, 11) {
        Some(m) => {
            let n = cs.len();
            proof {
                lemma_last_match_bound(cs@.skip(11), b_marker());
            }
            let v = copy_range(cs, 11 + m + 3, n);
            proof {
                assert(v@ =~= cs@.skip(11).skip(m + 3));
            }
            Some(v)
        },
        None => None,
    }
}

/// The last match of a pattern ends inside the sequence.
proof fn lemma_last_match_bound(s: Seq<char>, p: Seq<char>)
    ensures
        last_match(s, p) >= -1,
        last_match(s, p) >= 0 ==> last_match(s, p) + p.len() <= s.len(),
    decreases s.len(),
{
    if s.len() >= p.len() && s.skip(s.len() - p.len()) != p && s.len() > 0 {
        lemma_last_match_bound(s.drop_last(), p);
    }
}

impl DiffView {
    /// The parsed lines: each line's type and content.
    pub closed spec fn spec_lines(&self) -> Seq<(DiffLineType, Seq<char>)> {
        self.lines@.map_values(|l: DiffLine| line_view(l))
    }

    /// Parse a unified diff string into a `DiffView`.
    ///
    /// Handles standard unified diff format produced by `git diff`, `diff -u`,
    /// and similar tools: every line of the input (as `str::lines` splits it)
    /// becomes one classified line, and the file path is taken from the last
    /// `+++` line, falling back to the first `diff --git a/... b/...` line.
    pub fn parse_diff(input: &str) -> (d: Self)
        ensures
            d.spec_lines() == lines(input@).map_values(|l: Seq<char>| classify(l)),
            d.file_path@ == diff_file_path(input@),
    {
        let cs = chars_of(input);
        let ls = lines_of(cs.as_slice());
        let ghost lv = lines(input@);
        let mut out: Vec<DiffLine> = Vec::new();
        let mut path: Vec<char> = Vec::new();
        let mut k: usize = 0;
        proof {
            assert(views(ls@) == lv);
        }
        while k < ls.len()
            invariant
                views(ls@) == lv,
                k <= ls@.len(),
                out@.len() == k,
                forall|j: int|
                    0 <= j < k ==> line_view(#[trigger] out@[j]) == classify(lv[j]),
                path@ == match last_plus_path(lv.take(k as int)) {
                    Some(p) => p,
                    None => Seq::<char>::empty(),
                },
            decreases ls@.len() - k,
        {
            let raw = ls[k].as_slice();
            proof {
                assert(raw@ == lv[k as int]);
                assert(lv.take(k + 1).drop_last() =~= lv.take(k as int));
                assert(lv.take(k + 1).last() == lv[k as int]);
            }
            let (line_type, content) = classify_chars(raw);
            if starts_with_triple(raw, '+') {
                path = plus_path_of(raw);
            }
            out.push(DiffLine { line_type, content });
            k += 1;
        }
        proof {
            assert(lv.take(k as int) =~= lv);
        }
        if path.len() == 0 {
            let mut j: usize = 0;
            proof {
                assert(lv.skip(0) =~= lv);
            }
            while j < ls.len()
                invariant
                    views(ls@) == lv,
                    j <= ls@.len(),
                    path@.len() == 0,
                    lv == lines(input@),
                    (match last_plus_path(lv) {
                        Some(p) => p,
                        None => Seq::<char>::empty(),
                    }).len() == 0,
                    git_path(lv.skip(j as int)) == git_path(lv),
                    out@.len() == lv.len(),
                    forall|i: int|
                        0 <= i < lv.len() ==> line_view(#[trigger] out@[i]) == classify(lv[i]),
                decreases ls@.len() - j,
            {
                let raw = ls[j].as_slice();
                proof {
                    assert(raw@ == lv[j as int]);
                    assert(lv.skip(j as int)[0] == lv[j as int]);
                    assert(lv.skip(j as int).drop_first() =~= lv.skip(j + 1));
                }
                match git_path_of(raw) {
                    Some(p) => {
                        let fp = string_from_chars(p.as_slice());
                        let d = DiffView { lines: out, file_path: fp };
                        proof {
                            assert(d.spec_lines() =~= lv.map_values(|l: Seq<char>| classify(l)));
                        }
                        return d;
                    },
                    None => {},
                }
                j += 1;
            }
            proof {
                assert(lv.skip(j as int) =~= Seq::<Seq<char>>::empty());
            }
        }
        let fp = string_from_chars(path.as_slice());
        let d = DiffView { lines: out, file_path: fp };
        proof {
            assert(d.spec_lines() =~= lv.map_values(|l: Seq<char>| classify(l)));
        }
        d
    }

    /// The style for a given line type.
    pub fn style_for(line_type: DiffLineType) -> (s: DiffStyle)
        ensures
            s == style_of(line_type),
    {
        match line_type {
            DiffLineType::Added => DiffStyle::Green,
            DiffLineType::Removed => DiffStyle::Red,
            DiffLineType::Header => DiffStyle::BoldBlue,
            DiffLineType::Context => DiffStyle::Plain,
        }
    }

    /// The prefix character to display for a given line type.
    pub fn prefix_for(line_type: DiffLineType) -> (p: &'static str)
        ensures
            p@ == prefix_of(line_type),
    {
        proof {
            reveal_strlit("+");
            reveal_strlit("-");
            reveal_strlit("");
            reveal_strlit(" ");
        }
        match line_type {
            DiffLineType::Added => "+",
            DiffLineType::Removed => "-",
            DiffLineType::Header => "",
            DiffLineType::Context => " ",
        }
    }

    /// Rows the diff needs: one per line (as a `u16`, modulo 2^16).
    pub fn desired_height(&self, _width: u16) -> (h: u16)
        ensures
            h == self.spec_lines().len() as u16,
    {
        self.lines.len() as u16
    }
}

impl DiffPreview {
    /// The parsed diff shown by the preview.
    pub closed spec fn spec_view(&self) -> &DiffView {
        &self.diff_view
    }

    /// Create a new `DiffPreview` from a unified diff string.
    pub fn new(diff_text: &str) -> (p: Self)
        ensures
            p.spec_view().spec_lines() == lines(diff_text@).map_values(
                |l: Seq<char>| classify(l),
            ),
            p.spec_view().file_path@ == diff_file_path(diff_text@),
    {
        DiffPreview { diff_view: DiffView::parse_diff(diff_text) }
    }

    /// Access the underlying parsed diff view.
    pub fn diff_view(&self) -> (r: &DiffView)
        ensures
            r == self.spec_view(),
    {
        &self.diff_view
    }

    /// Rows the preview needs: the diff's lines plus the two borders.
    pub fn desired_height(&self, _width: u16) -> (h: u16)
        requires
            (self.spec_view().spec_lines().len() as u16) + 2 <= u16::MAX,
        ensures
            h == (self.spec_view().spec_lines().len() as u16) + 2,
    {
        let line_count = self.diff_view.lines.len() as u16;
        line_count + 2
    }
}

} // verus!
