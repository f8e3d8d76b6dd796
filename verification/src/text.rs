//! Character-sequence model of strings and the string operations the UI uses.
//!
//! Strings are modelled by their `Seq<char>` view.  Byte offsets, as Rust's
//! `str` API uses them, are expressed through `byte_len`, the UTF-8 length.

use vstd::prelude::*;
use vstd::string::*;
use vstd::std_specs::iter::IteratorSpec;

verus! {

/// Number of bytes of the UTF-8 encoding of `c`.
pub open spec fn utf8_width(c: char) -> nat {
    if (c as u32) < 0x80 {
        1
    } else if (c as u32) < 0x800 {
        2
    } else if (c as u32) < 0x10000 {
        3
    } else {
        4
    }
}

/// Length in bytes of the UTF-8 encoding of `s`.
pub open spec fn byte_len(s: Seq<char>) -> nat
    decreases s.len(),
{
    if s.len() == 0 {
        0
    } else {
        byte_len(s.drop_last()) + utf8_width(s.last())
    }
}

/// Width in bytes of the UTF-8 encoding of `c` (as `char::len_utf8`).
pub fn char_utf8_width(c: char) -> (w: usize)
    ensures
        w == utf8_width(c),
{
    let u = c as u32;
    if u < 0x80 {
        1
    } else if u < 0x800 {
        2
    } else if u < 0x10000 {
        3
    } else {
        4
    }
}

/// The characters of `s`, in order.
pub fn chars_of(s: &str) -> (v: Vec<char>)
    ensures
        v@ == s@,
{
    broadcast use vstd::string::group_string_axioms;
    let mut v: Vec<char> = Vec::new();
    for c in it: s.chars()
        invariant
            v@ == it.seq().take(it.index()),
            it.seq() == s@,
    {
        v.push(c);
    }
    v
}


/// `byte_len` of a concatenation is the sum of the parts' lengths.
pub proof fn lemma_byte_len_concat(a: Seq<char>, b: Seq<char>)
    ensures
        byte_len(a + b) == byte_len(a) + byte_len(b),
    decreases b.len(),
{
    if b.len() == 0 {
        assert(a + b =~= a);
    } else {
        lemma_byte_len_concat(a, b.drop_last());
        assert((a + b).drop_last() =~= a + b.drop_last());
    }
}

/// Extending a prefix by one character adds that character's width.
pub proof fn lemma_byte_len_take_next(s: Seq<char>, k: int)
    requires
        0 <= k < s.len(),
    ensures
        byte_len(s.take(k + 1)) == byte_len(s.take(k)) + utf8_width(s[k]),
{
    assert(s.take(k + 1).drop_last() =~= s.take(k));
}

/// A prefix is never longer in bytes than the whole sequence.
pub proof fn lemma_byte_len_take_le(s: Seq<char>, k: int)
    requires
        0 <= k <= s.len(),
    ensures
        byte_len(s.take(k)) <= byte_len(s),
        byte_len(s.take(k)) + byte_len(s.skip(k)) == byte_len(s),
{
    lemma_byte_len_concat(s.take(k), s.skip(k));
    assert(s.take(k) + s.skip(k) =~= s);
}

/// The length of the UTF-8 encoding of one character.
pub proof fn lemma_encode_char_len(c: char)
    ensures
        vstd::utf8::encode_utf8(seq![c]).len() == utf8_width(c),
{
    broadcast use vstd::utf8::char_is_scalar;
    let s = seq![c];
    assert(s.drop_first() =~= Seq::<char>::empty());
    assert(vstd::utf8::encode_utf8(s) == vstd::utf8::encode_scalar(c as u32) + vstd::utf8::encode_utf8(s.drop_first()));
    assert(vstd::utf8::is_scalar(c as u32));
}

/// Encoding a concatenation concatenates the encodings.
pub proof fn lemma_encode_concat(a: Seq<char>, b: Seq<char>)
    ensures
        vstd::utf8::encode_utf8(a + b) == vstd::utf8::encode_utf8(a) + vstd::utf8::encode_utf8(b),
    decreases a.len(),
{
    if a.len() == 0 {
        assert(a + b =~= b);
        assert(vstd::utf8::encode_utf8(a) =~= Seq::<u8>::empty());
        assert(vstd::utf8::encode_utf8(a) + vstd::utf8::encode_utf8(b) =~= vstd::utf8::encode_utf8(b));
    } else {
        lemma_encode_concat(a.drop_first(), b);
        assert((a + b).drop_first() =~= a.drop_first() + b);
        assert((a + b)[0] == a[0]);
        assert(vstd::utf8::encode_utf8(a + b) =~= vstd::utf8::encode_scalar(a[0] as u32)
            + (vstd::utf8::encode_utf8(a.drop_first()) + vstd::utf8::encode_utf8(b)));
    }
}

/// `byte_len` is the length of vstd's UTF-8 encoding.
pub proof fn lemma_byte_len_is_encoding_len(s: Seq<char>)
    ensures
        byte_len(s) == vstd::utf8::encode_utf8(s).len(),
    decreases s.len(),
{
    if s.len() == 0 {
    } else {
        lemma_byte_len_is_encoding_len(s.drop_last());
        lemma_encode_concat(s.drop_last(), seq![s.last()]);
        assert(s.drop_last() + seq![s.last()] =~= s);
        lemma_encode_char_len(s.last());
    }
}

/// Length in bytes of `s` (as `str::len`).
pub fn str_byte_len(s: &str) -> (n: usize)
    ensures
        n == byte_len(s@),
{
    let b = s.as_bytes();
    let n = b.len();
    proof {
        lemma_byte_len_is_encoding_len(s@);
    }
    n
}


/// Rust's `char::is_whitespace`: the Unicode `White_Space` property.
pub open spec fn is_whitespace(c: char) -> bool {
    let u = c as u32;
    ||| 0x9 <= u <= 0xD
    ||| u == 0x20
    ||| u == 0x85
    ||| u == 0xA0
    ||| u == 0x1680
    ||| 0x2000 <= u <= 0x200A
    ||| u == 0x2028
    ||| u == 0x2029
    ||| u == 0x202F
    ||| u == 0x205F
    ||| u == 0x3000
}

/// Whether `c` is white space (as `char::is_whitespace`).
pub fn char_is_whitespace(c: char) -> (b: bool)
    ensures
        b == is_whitespace(c),
{
    let u = c as u32;
    (0x9 <= u && u <= 0xD) || u == 0x20 || u == 0x85 || u == 0xA0 || u == 0x1680 || (0x2000 <= u
        && u <= 0x200A) || u == 0x2028 || u == 0x2029 || u == 0x202F || u == 0x205F || u == 0x3000
}

/// `s` without trailing white space (as `str::trim_end`).
pub open spec fn trim_end(s: Seq<char>) -> Seq<char>
    decreases s.len(),
{
    if s.len() > 0 && is_whitespace(s.last()) {
        trim_end(s.drop_last())
    } else {
        s
    }
}

/// `s` without leading white space (as `str::trim_start`).
pub open spec fn trim_start(s: Seq<char>) -> Seq<char>
    decreases s.len(),
{
    if s.len() > 0 && is_whitespace(s[0]) {
        trim_start(s.drop_first())
    } else {
        s
    }
}

/// `s` without leading and trailing white space (as `str::trim`).
pub open spec fn trim(s: Seq<char>) -> Seq<char> {
    trim_start(trim_end(s))
}

/// Whether `s` begins with `p`.
pub open spec fn starts_with(s: Seq<char>, p: Seq<char>) -> bool {
    p.len() <= s.len() && s.take(p.len() as int) == p
}

/// Whether `p` occurs in `s` as a contiguous piece.
pub open spec fn contains_seq(s: Seq<char>, p: Seq<char>) -> bool {
    exists|i: int| 0 <= i && i + p.len() <= s.len() && #[trigger] s.subrange(i, i + p.len()) == p
}

/// Index of the first `c` in `s`, or `s.len()` when there is none.
pub open spec fn index_of(s: Seq<char>, c: char) -> nat
    decreases s.len(),
{
    if s.len() == 0 {
        0
    } else if s[0] == c {
        0
    } else {
        1 + index_of(s.drop_first(), c)
    }
}

/// Index of the first character of `s` that is not `c`, or `s.len()`.
pub open spec fn index_of_other(s: Seq<char>, c: char) -> nat
    decreases s.len(),
{
    if s.len() == 0 {
        0
    } else if s[0] != c {
        0
    } else {
        1 + index_of_other(s.drop_first(), c)
    }
}

/// Index of the last `c` in `s`, or `-1` when there is none.
pub open spec fn last_index_of(s: Seq<char>, c: char) -> int
    decreases s.len(),
{
    if s.len() == 0 {
        -1
    } else if s.last() == c {
        s.len() - 1
    } else {
        last_index_of(s.drop_last(), c)
    }
}

/// A line without its trailing carriage return, if it had one.
pub open spec fn strip_cr(l: Seq<char>) -> Seq<char> {
    if l.len() > 0 && l.last() == '\r' {
        l.drop_last()
    } else {
        l
    }
}

/// The lines of `s` (as `str::lines`): pieces split at `\n`, each stripped of
/// one trailing `\r` when it was terminated by `\n`; no final empty line.
pub open spec fn lines(s: Seq<char>) -> Seq<Seq<char>>
    decreases s.len(),
{
    if s.len() == 0 {
        seq![]
    } else {
        let i = index_of(s, '\n');
        if i >= s.len() {
            seq![s]
        } else {
            seq![strip_cr(s.take(i as int))] + lines(s.skip((i + 1) as int))
        }
    }
}

pub proof fn lemma_index_of_bound(s: Seq<char>, c: char)
    ensures
        index_of(s, c) <= s.len(),
        index_of(s, c) < s.len() ==> s[index_of(s, c) as int] == c,
        forall|j: int| 0 <= j < index_of(s, c) ==> s[j] != c,
    decreases s.len(),
{
    if s.len() > 0 && s[0] != c {
        lemma_index_of_bound(s.drop_first(), c);
        assert forall|j: int| 0 <= j < index_of(s, c) implies s[j] != c by {
            if j > 0 {
                assert(s[j] == s.drop_first()[j - 1]);
            }
        }
    }
}

/// `index_of` is determined by the first position holding `c`.
pub proof fn lemma_index_of_at(s: Seq<char>, c: char, k: int)
    requires
        0 <= k <= s.len(),
        forall|j: int| 0 <= j < k ==> s[j] != c,
        k == s.len() || s[k] == c,
    ensures
        index_of(s, c) == k,
    decreases s.len(),
{
    if s.len() > 0 && k > 0 {
        assert(s[0] != c);
        assert forall|j: int| 0 <= j < k - 1 implies s.drop_first()[j] != c by {
            assert(s.drop_first()[j] == s[j + 1]);
        }
        lemma_index_of_at(s.drop_first(), c, k - 1);
    }
}

pub proof fn lemma_index_of_other_at(s: Seq<char>, c: char, k: int)
    requires
        0 <= k <= s.len(),
        forall|j: int| 0 <= j < k ==> s[j] == c,
        k == s.len() || s[k] != c,
    ensures
        index_of_other(s, c) == k,
    decreases s.len(),
{
    if s.len() > 0 && k > 0 {
        assert(s[0] == c);
        assert forall|j: int| 0 <= j < k - 1 implies s.drop_first()[j] == c by {
            assert(s.drop_first()[j] == s[j + 1]);
        }
        lemma_index_of_other_at(s.drop_first(), c, k - 1);
    }
}

pub proof fn lemma_last_index_of_at(s: Seq<char>, c: char, k: int)
    requires
        -1 <= k < s.len(),
        forall|j: int| k < j < s.len() ==> s[j] != c,
        k == -1 || s[k] == c,
    ensures
        last_index_of(s, c) == k,
    decreases s.len(),
{
    if s.len() > 0 && k < s.len() - 1 {
        assert(s.last() != c);
        lemma_last_index_of_at(s.drop_last(), c, k);
    }
}

pub proof fn lemma_trim_end_at(s: Seq<char>, k: int)
    requires
        0 <= k <= s.len(),
        forall|j: int| k <= j < s.len() ==> is_whitespace(#[trigger] s[j]),
        k == 0 || !is_whitespace(s[k - 1]),
    ensures
        trim_end(s) == s.take(k),
    decreases s.len(),
{
    if s.len() > k {
        assert(is_whitespace(s.last()));
        assert forall|j: int| k <= j < s.drop_last().len() implies is_whitespace(
            #[trigger] s.drop_last()[j],
        ) by {
            assert(s.drop_last()[j] == s[j]);
        }
        lemma_trim_end_at(s.drop_last(), k);
        assert(s.drop_last().take(k) =~= s.take(k));
    } else {
        assert(s.take(k) =~= s);
    }
}

pub proof fn lemma_trim_start_at(s: Seq<char>, k: int)
    requires
        0 <= k <= s.len(),
        forall|j: int| 0 <= j < k ==> is_whitespace(#[trigger] s[j]),
        k == s.len() || !is_whitespace(s[k]),
    ensures
        trim_start(s) == s.skip(k),
    decreases s.len(),
{
    if k > 0 {
        assert(is_whitespace(s[0]));
        assert forall|j: int| 0 <= j < k - 1 implies is_whitespace(
            #[trigger] s.drop_first()[j],
        ) by {
            assert(s.drop_first()[j] == s[j + 1]);
        }
        lemma_trim_start_at(s.drop_first(), k - 1);
        assert(s.drop_first().skip(k - 1) =~= s.skip(k));
    } else {
        assert(s.skip(0) =~= s);
    }
}

/// Index of the first `c` in `s[from..]`, or `s.len()`.
pub fn find_char_from(s: &[char], c: char, from: usize) -> (r: usize)
    requires
        from <= s@.len(),
    ensures
        r == from + index_of(s@.skip(from as int), c),
        from <= r <= s@.len(),
{
    let mut k = from;
    while k < s.len() && s[k] != c
        invariant
            from <= k <= s@.len(),
            forall|j: int| from <= j < k ==> s@[j] != c,
        decreases s@.len() - k,
    {
        k += 1;
    }
    proof {
        let t = s@.skip(from as int);
        assert forall|j: int| 0 <= j < k - from implies t[j] != c by {
            assert(t[j] == s@[j + from]);
        }
        lemma_index_of_at(t, c, k - from);
    }
    k
}

/// Index of the first character other than `c` in `s[from..]`, or `s.len()`.
pub fn find_other_from(s: &[char], c: char, from: usize) -> (r: usize)
    requires
        from <= s@.len(),
    ensures
        r == from + index_of_other(s@.skip(from as int), c),
        from <= r <= s@.len(),
{
    let mut k = from;
    while k < s.len() && s[k] == c
        invariant
            from <= k <= s@.len(),
            forall|j: int| from <= j < k ==> s@[j] == c,
        decreases s@.len() - k,
    {
        k += 1;
    }
    proof {
        let t = s@.skip(from as int);
        assert forall|j: int| 0 <= j < k - from implies t[j] == c by {
            assert(t[j] == s@[j + from]);
        }
        lemma_index_of_other_at(t, c, k - from);
    }
    k
}

/// One past the last `c` in `s[..end]`, or `0` when there is none.
pub fn rfind_char_end(s: &[char], c: char, end: usize) -> (r: usize)
    requires
        end <= s@.len(),
    ensures
        r == last_index_of(s@.take(end as int), c) + 1,
        r <= end,
{
    let mut k = end;
    while k > 0 && s[k - 1] != c
        invariant
            k <= end <= s@.len(),
            forall|j: int| k <= j < end ==> s@[j] != c,
        decreases k,
    {
        k -= 1;
    }
    proof {
        let t = s@.take(end as int);
        assert forall|j: int| k - 1 < j < t.len() implies t[j] != c by {
            assert(t[j] == s@[j]);
        }
        lemma_last_index_of_at(t, c, k - 1);
    }
    k
}

/// Length of `s[..end]` once trailing white space is removed.
pub fn trim_end_len(s: &[char], end: usize) -> (r: usize)
    requires
        end <= s@.len(),
    ensures
        r <= end,
        trim_end(s@.take(end as int)) == s@.take(r as int),
{
    let mut k = end;
    while k > 0 && char_is_whitespace(s[k - 1])
        invariant
            k <= end <= s@.len(),
            forall|j: int| k <= j < end ==> is_whitespace(#[trigger] s@[j]),
        decreases k,
    {
        k -= 1;
    }
    proof {
        let t = s@.take(end as int);
        assert forall|j: int| k <= j < t.len() implies is_whitespace(#[trigger] t[j]) by {
            assert(t[j] == s@[j]);
        }
        lemma_trim_end_at(t, k as int);
        assert(t.take(k as int) =~= s@.take(k as int));
    }
    k
}

/// Start of `s[from..]` once leading white space is removed.
pub fn trim_start_from(s: &[char], from: usize) -> (r: usize)
    requires
        from <= s@.len(),
    ensures
        from <= r <= s@.len(),
        trim_start(s@.skip(from as int)) == s@.skip(r as int),
{
    let mut k = from;
    while k < s.len() && char_is_whitespace(s[k])
        invariant
            from <= k <= s@.len(),
            forall|j: int| from <= j < k ==> is_whitespace(#[trigger] s@[j]),
        decreases s@.len() - k,
    {
        k += 1;
    }
    proof {
        let t = s@.skip(from as int);
        assert forall|j: int| 0 <= j < k - from implies is_whitespace(#[trigger] t[j]) by {
            assert(t[j] == s@[j + from]);
        }
        lemma_trim_start_at(t, k - from);
        assert(t.skip(k - from) =~= s@.skip(k as int));
    }
    k
}


/// The characters `s[lo..hi]`.
pub fn copy_range(s: &[char], lo: usize, hi: usize) -> (v: Vec<char>)
    requires
        lo <= hi <= s@.len(),
    ensures
        v@ == s@.subrange(lo as int, hi as int),
{
    let mut v: Vec<char> = Vec::new();
    let mut k = lo;
    while k < hi
        invariant
            lo <= k <= hi <= s@.len(),
            v@ == s@.subrange(lo as int, k as int),
        decreases hi - k,
    {
        v.push(s[k]);
        k += 1;
        proof {
            assert(v@ =~= s@.subrange(lo as int, k as int));
        }
    }
    v
}

/// The character sequences held by a vector of character vectors.
pub open spec fn views(v: Seq<Vec<char>>) -> Seq<Seq<char>> {
    v.map_values(|x: Vec<char>| x@)
}

/// The lines of `s` (as `str::lines`).
pub fn lines_of(s: &[char]) -> (out: Vec<Vec<char>>)
    ensures
        views(out@) == lines(s@),
{
    let mut out: Vec<Vec<char>> = Vec::new();
    let mut pos: usize = 0;
    proof {
        assert(s@.skip(0) =~= s@);
    }
    while pos < s.len()
        invariant
            pos <= s@.len(),
            views(out@) + lines(s@.skip(pos as int)) == lines(s@),
        decreases s@.len() - pos,
    {
        let ghost t = s@.skip(pos as int);
        let j = find_char_from(s, '\n', pos);
        proof {
            lemma_index_of_bound(t, '\n');
        }
        let ghost old_out = views(out@);
        if j < s.len() {
            let mut line = copy_range(s, pos, j);
            if line.len() > 0 && line[line.len() - 1] == '\r' {
                line.pop();
            }
            proof {
                assert(t.take((j - pos) as int) =~= s@.subrange(pos as int, j as int));
                assert(t.skip((j - pos + 1) as int) =~= s@.skip(j + 1));
                assert(line@ == strip_cr(s@.subrange(pos as int, j as int)));
            }
            out.push(line);
            pos = j + 1;
            proof {
                assert(views(out@) =~= old_out.push(line@));
                assert(old_out.push(line@) + lines(s@.skip(pos as int)) =~= old_out + lines(t));
            }
        } else {
            let line = copy_range(s, pos, s.len());
            proof {
                assert(line@ =~= t);
            }
            out.push(line);
            pos = s.len();
            proof {
                assert(views(out@) =~= old_out.push(line@));
                assert(s@.skip(pos as int) =~= Seq::<char>::empty());
                assert(old_out.push(line@) + lines(s@.skip(pos as int)) =~= old_out + lines(t));
            }
        }
    }
    proof {
        assert(s@.skip(pos as int) =~= Seq::<char>::empty());
        assert(views(out@) + lines(s@.skip(pos as int)) =~= views(out@));
    }
    out
}

/// Whether `s[at..]` begins with `p`.
pub fn starts_with_at(s: &[char], at: usize, p: &[char]) -> (b: bool)
    requires
        at <= s@.len(),
    ensures
        b == starts_with(s@.skip(at as int), p@),
{
    let slen = s.len();
    if p.len() > slen - at {
        return false;
    }
    let mut k: usize = 0;
    while k < p.len()
        invariant
            at <= s@.len(),
            at + p@.len() <= s@.len(),
            slen == s@.len(),
            k <= p@.len(),
            forall|j: int| 0 <= j < k ==> s@[at + j] == p@[j],
        decreases p@.len() - k,
    {
        if s[at + k] != p[k] {
            proof {
                assert(s@.skip(at as int).take(p@.len() as int)[k as int] != p@[k as int]);
            }
            return false;
        }
        k += 1;
    }
    proof {
        assert(s@.skip(at as int).take(p@.len() as int) =~= p@);
    }
    true
}

/// Whether `p` occurs in `s` as a contiguous piece (as `str::contains`).
pub fn contains_chars(s: &[char], p: &[char]) -> (b: bool)
    ensures
        b == contains_seq(s@, p@),
{
    if p.len() > s.len() {
        return false;
    }
    if p.len() == 0 {
        proof {
            assert(s@.subrange(0int, 0int + p@.len()) =~= p@);
        }
        return true;
    }
    let mut i: usize = 0;
    while i <= s.len() - p.len()
        invariant
            1 <= p@.len() <= s@.len(),
            i <= s@.len() - p@.len() + 1,
            forall|j: int| 0 <= j < i ==> #[trigger] s@.subrange(j, j + p@.len()) != p@,
        decreases s@.len() - p@.len() + 1 - i,
    {
        if starts_with_at(s, i, p) {
            proof {
                assert(s@.skip(i as int).take(p@.len() as int) =~= s@.subrange(
                    i as int,
                    i + p@.len(),
                ));
            }
            return true;
        }
        proof {
            assert(s@.skip(i as int).take(p@.len() as int) =~= s@.subrange(i as int, i + p@.len()));
        }
        i += 1;
    }
    proof {
        assert forall|j: int| 0 <= j && j + p@.len() <= s@.len() implies #[trigger] s@.subrange(
            j,
            j + p@.len(),
        ) != p@ by {}
    }
    false
}

/// Whether `c` occurs in `s`.
pub fn contains_char(s: &[char], c: char) -> (b: bool)
    ensures
        b == s@.contains(c),
{
    let r = find_char_from(s, c, 0);
    proof {
        assert(s@.skip(0) =~= s@);
        lemma_index_of_bound(s@, c);
        if s@.contains(c) {
            let w = choose|w: int| 0 <= w < s@.len() && s@[w] == c;
            assert(w >= r);
        }
    }
    r < s.len()
}

/// Appends `c` to `s` (as `String::push`).
#[verifier::external_body]
pub(crate) fn push_char(s: &mut String, c: char)
    ensures
        final(s)@ == old(s)@.push(c),
{
    s.push(c);
}

/// `n` copies of `c` (as `c.to_string().repeat(n)`).
pub fn repeat_char(c: char, n: usize) -> (s: String)
    ensures
        s@ == Seq::new(n as nat, |i: int| c),
{
    let mut s = String::new();
    let mut i: usize = 0;
    while i < n
        invariant
            i <= n,
            s@ == Seq::new(i as nat, |j: int| c),
        decreases n - i,
    {
        push_char(&mut s, c);
        i += 1;
        proof {
            assert(s@ =~= Seq::new(i as nat, |j: int| c));
        }
    }
    s
}

/// The string made of the characters of `v`.
pub fn string_from_chars(v: &[char]) -> (s: String)
    ensures
        s@ == v@,
{
    let mut s = String::new();
    let mut k: usize = 0;
    while k < v.len()
        invariant
            k <= v@.len(),
            s@ == v@.take(k as int),
        decreases v@.len() - k,
    {
        push_char(&mut s, v[k]);
        k += 1;
        proof {
            assert(s@ =~= v@.take(k as int));
        }
    }
    proof {
        assert(v@.take(k as int) =~= v@);
    }
    s
}


/// `s[..lo] + ins + s[hi..]`.
pub fn splice(s: &[char], lo: usize, hi: usize, ins: &[char]) -> (v: Vec<char>)
    requires
        lo <= hi <= s@.len(),
    ensures
        v@ == s@.take(lo as int) + ins@ + s@.skip(hi as int),
{
    let mut v = copy_range(s, 0, lo);
    let mut k: usize = 0;
    while k < ins.len()
        invariant
            k <= ins@.len(),
            v@ == s@.take(lo as int) + ins@.take(k as int),
        decreases ins@.len() - k,
    {
        v.push(ins[k]);
        k += 1;
        proof {
            assert(v@ =~= s@.take(lo as int) + ins@.take(k as int));
        }
    }
    let mut j = hi;
    proof {
        assert(ins@.take(k as int) =~= ins@);
        assert(s@.subrange(0, lo as int) =~= s@.take(lo as int));
    }
    while j < s.len()
        invariant
            hi <= j <= s@.len(),
            v@ == s@.take(lo as int) + ins@ + s@.subrange(hi as int, j as int),
        decreases s@.len() - j,
    {
        v.push(s[j]);
        j += 1;
        proof {
            assert(v@ =~= s@.take(lo as int) + ins@ + s@.subrange(hi as int, j as int));
        }
    }
    proof {
        assert(s@.subrange(hi as int, j as int) =~= s@.skip(hi as int));
    }
    v
}

/// Number of occurrences of `c` in `s`.
pub open spec fn count_char(s: Seq<char>, c: char) -> nat
    decreases s.len(),
{
    if s.len() == 0 {
        0
    } else {
        count_char(s.drop_last(), c) + if s.last() == c {
            1nat
        } else {
            0nat
        }
    }
}

/// Number of occurrences of `c` in `s[..end]`.
pub fn count_char_in(s: &[char], c: char, end: usize) -> (n: usize)
    requires
        end <= s@.len(),
    ensures
        n == count_char(s@.take(end as int), c),
{
    let mut n: usize = 0;
    let mut k: usize = 0;
    proof {
        assert(s@.take(0) =~= Seq::<char>::empty());
    }
    while k < end
        invariant
            k <= end <= s@.len(),
            n == count_char(s@.take(k as int), c),
            n <= k,
        decreases end - k,
    {
        proof {
            assert(s@.take(k + 1).drop_last() =~= s@.take(k as int));
        }
        if s[k] == c {
            n += 1;
        }
        k += 1;
    }
    n
}

/// One past the last `c` in `s[..end]`, or `0` (the start of the piece that
/// `split(c)` yields last).
pub fn last_index_of_char_before(s: &[char], c: char, end: usize) -> (r: usize)
    requires
        end <= s@.len(),
    ensures
        r == last_index_of(s@.take(end as int), c) + 1,
        r <= end,
{
    rfind_char_end(s, c, end)
}

/// The display width in terminal columns that `unicode_width` assigns to a
/// string.
pub uninterp spec fn display_width(s: Seq<char>) -> nat;

/// Display width of `s` in terminal columns.
///
/// Calls `unicode_width::UnicodeWidthStr::width`; the result is claimed to be
/// the value of [`display_width`] on the characters of `s`, a function of
/// them alone (the crate's width tables are fixed at build time).
#[verifier::external_body]
pub(crate) fn str_display_width(s: &str) -> (w: usize)
    ensures
        w == display_width(s@),
{
    unicode_width::UnicodeWidthStr::width(s)
}

/// The decimal digit character for `d < 10`.
pub open spec fn digit_char(d: nat) -> char {
    if d == 0 {
        '0'
    } else if d == 1 {
        '1'
    } else if d == 2 {
        '2'
    } else if d == 3 {
        '3'
    } else if d == 4 {
        '4'
    } else if d == 5 {
        '5'
    } else if d == 6 {
        '6'
    } else if d == 7 {
        '7'
    } else if d == 8 {
        '8'
    } else {
        '9'
    }
}

/// The decimal digits of `n`, most significant first, without leading zeros.
pub open spec fn decimal_digits(n: nat) -> Seq<char>
    decreases n,
{
    if n < 10 {
        seq![digit_char(n)]
    } else {
        decimal_digits(n / 10).push(digit_char(n % 10))
    }
}

/// `n` written in decimal, with a leading `-` when negative (as `Display`
/// prints integers).
pub open spec fn decimal(n: int) -> Seq<char> {
    if n < 0 {
        seq!['-'] + decimal_digits((-n) as nat)
    } else {
        decimal_digits(n as nat)
    }
}

fn digit_of(d: u64) -> (c: char)
    requires
        d < 10,
    ensures
        c == digit_char(d as nat),
{
    if d == 0 {
        '0'
    } else if d == 1 {
        '1'
    } else if d == 2 {
        '2'
    } else if d == 3 {
        '3'
    } else if d == 4 {
        '4'
    } else if d == 5 {
        '5'
    } else if d == 6 {
        '6'
    } else if d == 7 {
        '7'
    } else if d == 8 {
        '8'
    } else {
        '9'
    }
}

/// The decimal digits of `n`.
fn digits_u64(n: u64) -> (v: Vec<char>)
    ensures
        v@ == decimal_digits(n as nat),
    decreases n,
{
    if n < 10 {
        let mut v = Vec::new();
        v.push(digit_of(n));
        proof {
            assert(v@ =~= seq![digit_char(n as nat)]);
        }
        v
    } else {
        let mut v = digits_u64(n / 10);
        v.push(digit_of(n % 10));
        v
    }
}

/// `n` in decimal (as `u64`'s `Display`).
pub fn u64_to_decimal(n: u64) -> (s: String)
    ensures
        s@ == decimal(n as int),
{
    let v = digits_u64(n);
    string_from_chars(v.as_slice())
}

/// `n` in decimal (as `usize`'s `Display`).
pub fn usize_to_decimal(n: usize) -> (s: String)
    ensures
        s@ == decimal(n as int),
{
    u64_to_decimal(n as u64)
}

/// `n` in decimal, with a leading `-` when negative (as `i64`'s `Display`).
pub fn i64_to_decimal(n: i64) -> (s: String)
    ensures
        s@ == decimal(n as int),
{
    if n < 0 {
        let mag: u64 = if n == i64::MIN {
            0x8000_0000_0000_0000u64
        } else {
            (-n) as u64
        };
        let v = digits_u64(mag);
        let mut s = String::new();
        push_char(&mut s, '-');
        let rest = string_from_chars(v.as_slice());
        s.append(rest.as_str());
        proof {
            assert(s@ =~= seq!['-'] + decimal_digits((-n) as nat));
        }
        s
    } else {
        u64_to_decimal(n as u64)
    }
}

/// Text that can be turned into an owned `String` (what `impl Into<String>`
/// arguments accept in this library: `&str` and `String`).
pub trait IntoText {
    /// The characters the value stands for.
    spec fn text_view(&self) -> Seq<char>;

    /// The value as an owned string.
    fn into_text(self) -> (s: String)
        ensures
            s@ == self.text_view(),
    ;
}

impl<'a> IntoText for &'a str {
    open spec fn text_view(&self) -> Seq<char> {
        (*self)@
    }

    fn into_text(self) -> (s: String) {
        self.to_owned()
    }
}

impl IntoText for String {
    open spec fn text_view(&self) -> Seq<char> {
        self@
    }

    fn into_text(self) -> (s: String) {
        self
    }
}

} // verus!
