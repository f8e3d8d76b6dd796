//! Putting items in order by keys: the leaderboards of the curator's status
//! board, the name order of the usage list and the time order of a session
//! search.  Items are ranked by their keys, compared lexicographically, and
//! items with equal keys keep their order, as a stable sort keeps them.

use vstd::prelude::*;
use crate::text::chars_of;

verus! {

/// `a` comes before `b` in lexicographic order, looking from position `i`
/// on: at the first position where they differ the element of `a` is the
/// smaller one, or `a` ends there and `b` goes on.
pub open spec fn lex_lt_from(a: Seq<int>, b: Seq<int>, i: int) -> bool
    decreases a.len() - i,
{
    if i >= a.len() {
        i < b.len()
    } else if i >= b.len() {
        false
    } else if a[i] < b[i] {
        true
    } else if a[i] > b[i] {
        false
    } else {
        lex_lt_from(a, b, i + 1)
    }
}

/// `a` comes before `b` in lexicographic order.
pub open spec fn lex_lt(a: Seq<int>, b: Seq<int>) -> bool {
    lex_lt_from(a, b, 0)
}

/// Item `a` comes before item `b`: its key is smaller, or the keys are
/// equal and `a` stands first.
pub open spec fn precedes(keys: Seq<Seq<int>>, a: int, b: int) -> bool {
    lex_lt(keys[a], keys[b]) || (keys[a] == keys[b] && a < b)
}

/// `r` lists the first `limit` of the items that `incl` takes (all of
/// them where there are fewer), by position, in the order of `precedes`.
pub open spec fn is_ranking(r: Seq<usize>, keys: Seq<Seq<int>>, incl: Seq<bool>, limit: nat) -> bool {
    &&& r.len() <= limit
    &&& forall|i: int| 0 <= i < r.len() ==> r[i] < keys.len() && incl[r[i] as int]
    &&& forall|i: int, j: int|
        0 <= i < j < r.len() ==> #[trigger] precedes(keys, r[i] as int, r[j] as int)
    &&& forall|m: int|
        0 <= m < keys.len() && #[trigger] incl[m] && !r.contains(m as usize) ==> r.len() == limit
            && forall|i: int| 0 <= i < r.len() ==> #[trigger] precedes(keys, r[i] as int, m)
}

/// The integers of a key.
pub open spec fn ints(v: Seq<i128>) -> Seq<int> {
    v.map_values(|x: i128| x as int)
}

/// The keys, as integers.
pub open spec fn key_view(keys: Seq<Vec<i128>>) -> Seq<Seq<int>> {
    keys.map_values(|k: Vec<i128>| ints(k@))
}

proof fn lemma_lex_irreflexive(a: Seq<int>, i: int)
    requires
        0 <= i,
    ensures
        !lex_lt_from(a, a, i),
    decreases a.len() - i,
{
    if i < a.len() {
        lemma_lex_irreflexive(a, i + 1);
    }
}

proof fn lemma_lex_asymmetric(a: Seq<int>, b: Seq<int>, i: int)
    requires
        0 <= i,
        lex_lt_from(a, b, i),
    ensures
        !lex_lt_from(b, a, i),
    decreases a.len() - i,
{
    if i < a.len() && i < b.len() && a[i] == b[i] {
        lemma_lex_asymmetric(a, b, i + 1);
    }
}

proof fn lemma_lex_transitive(a: Seq<int>, b: Seq<int>, c: Seq<int>, i: int)
    requires
        0 <= i,
        lex_lt_from(a, b, i),
        lex_lt_from(b, c, i),
    ensures
        lex_lt_from(a, c, i),
    decreases a.len() - i,
{
    if i < a.len() && i < b.len() && i < c.len() && a[i] == b[i] && b[i] == c[i] {
        lemma_lex_transitive(a, b, c, i + 1);
    }
}

proof fn lemma_lex_total(a: Seq<int>, b: Seq<int>, i: int)
    requires
        0 <= i <= a.len(),
        i <= b.len(),
        !lex_lt_from(a, b, i),
        !lex_lt_from(b, a, i),
    ensures
        a.len() == b.len(),
        forall|j: int| i <= j < a.len() ==> a[j] == b[j],
    decreases a.len() - i,
{
    if i < a.len() && i < b.len() {
        lemma_lex_total(a, b, i + 1);
    }
}

/// Two keys neither of which comes before the other are equal.
proof fn lemma_lex_equal(a: Seq<int>, b: Seq<int>)
    requires
        !lex_lt(a, b),
        !lex_lt(b, a),
    ensures
        a == b,
{
    lemma_lex_total(a, b, 0);
    assert(a =~= b);
}

proof fn lemma_precedes_irreflexive(keys: Seq<Seq<int>>, a: int)
    ensures
        !precedes(keys, a, a),
{
    lemma_lex_irreflexive(keys[a], 0);
}

proof fn lemma_precedes_asymmetric(keys: Seq<Seq<int>>, a: int, b: int)
    requires
        precedes(keys, a, b),
    ensures
        !precedes(keys, b, a),
{
    if lex_lt(keys[a], keys[b]) {
        lemma_lex_asymmetric(keys[a], keys[b], 0);
        if keys[b] == keys[a] {
            lemma_lex_irreflexive(keys[a], 0);
        }
    } else {
        lemma_lex_irreflexive(keys[a], 0);
    }
}

proof fn lemma_precedes_transitive(keys: Seq<Seq<int>>, a: int, b: int, c: int)
    requires
        precedes(keys, a, b),
        precedes(keys, b, c),
    ensures
        precedes(keys, a, c),
{
    if lex_lt(keys[a], keys[b]) && lex_lt(keys[b], keys[c]) {
        lemma_lex_transitive(keys[a], keys[b], keys[c], 0);
    }
}

proof fn lemma_precedes_total(keys: Seq<Seq<int>>, a: int, b: int)
    requires
        a != b,
    ensures
        precedes(keys, a, b) || precedes(keys, b, a),
{
    if !lex_lt(keys[a], keys[b]) && !lex_lt(keys[b], keys[a]) {
        lemma_lex_equal(keys[a], keys[b]);
    }
}

/// The key of a text: its characters' code points, so that texts compare
/// as strings do.
pub open spec fn text_key(s: Seq<char>) -> Seq<int> {
    s.map_values(|c: char| c as u32 as int)
}

/// The key of `s`.
pub fn key_of_text(s: &str) -> (k: Vec<i128>)
    ensures
        ints(k@) == text_key(s@),
{
    let cs = chars_of(s);
    let mut k: Vec<i128> = Vec::new();
    let mut i: usize = 0;
    while i < cs.len()
        invariant
            i <= cs@.len(),
            cs@ == s@,
            k@.len() == i,
            forall|j: int| 0 <= j < i ==> k@[j] as int == cs@[j] as u32 as int,
        decreases cs@.len() - i,
    {
        let c = cs[i];
        let v: u32 = c as u32;
        k.push(v as i128);
        i += 1;
    }
    proof {
        assert(ints(k@) =~= text_key(s@));
    }
    k
}

/// Whether key `a` comes before key `b`.
pub fn key_lt(a: &Vec<i128>, b: &Vec<i128>) -> (lt: bool)
    ensures
        lt == lex_lt(ints(a@), ints(b@)),
{
    let ghost x = ints(a@);
    let ghost y = ints(b@);
    let mut i: usize = 0;
    while i < a.len() && i < b.len()
        invariant
            0 <= i <= a@.len(),
            i <= b@.len(),
            x == ints(a@),
            y == ints(b@),
            lex_lt(x, y) == lex_lt_from(x, y, i as int),
        decreases a@.len() - i,
    {
        if a[i] < b[i] {
            return true;
        }
        if a[i] > b[i] {
            return false;
        }
        i += 1;
    }
    i >= a.len() && i < b.len()
}

/// The first `limit` of the items that `wanted` takes, by position, in
/// the order of their keys; items with equal keys keep their order.
pub fn rank(keys: &Vec<Vec<i128>>, wanted: &Vec<bool>, limit: usize) -> (r: Vec<usize>)
    requires
        wanted@.len() == keys@.len(),
    ensures
        is_ranking(r@, key_view(keys@), wanted@, limit as nat),
{
    let ghost k = key_view(keys@);
    let n = keys.len();
    let mut taken: Vec<bool> = Vec::new();
    let mut t: usize = 0;
    while t < n
        invariant
            t <= n,
            taken@.len() == t,
            forall|m: int| 0 <= m < t ==> !taken@[m],
        decreases n - t,
    {
        taken.push(false);
        t += 1;
    }
    let mut r: Vec<usize> = Vec::new();
    let mut done = false;
    while r.len() < limit && !done
        invariant
            n == keys@.len(),
            wanted@.len() == n,
            taken@.len() == n,
            k == key_view(keys@),
            r@.len() <= limit,
            forall|m: int| 0 <= m < n ==> (#[trigger] taken@[m] <==> r@.contains(m as usize)),
            forall|i: int| 0 <= i < r@.len() ==> r@[i] < n && wanted@[r@[i] as int],
            forall|i: int, j: int|
                0 <= i < j < r@.len() ==> #[trigger] precedes(k, r@[i] as int, r@[j] as int),
            forall|m: int, i: int|
                0 <= m < n && wanted@[m] && !taken@[m] && 0 <= i < r@.len() ==> #[trigger] precedes(
                    k,
                    r@[i] as int,
                    m,
                ),
            done ==> forall|m: int| 0 <= m < n && wanted@[m] ==> taken@[m],
        decreases limit - r@.len(), if done {
            0int
        } else {
            1int
        },
    {
        let mut best: usize = n;
        let mut j: usize = 0;
        while j < n
            invariant
                n == keys@.len(),
                wanted@.len() == n,
                taken@.len() == n,
                k == key_view(keys@),
                j <= n,
                best == n || (best < j && wanted@[best as int] && !taken@[best as int]),
                forall|m: int|
                    0 <= m < j && wanted@[m] && !taken@[m] ==> best < n && (m == best
                        || precedes(k, best as int, m)),
            decreases n - j,
        {
            if wanted[j] && !taken[j] {
                if best == n {
                    best = j;
                } else if key_lt(&keys[j], &keys[best]) {
                    proof {
                        assert(k[j as int] == ints(keys@[j as int]@));
                        assert(k[best as int] == ints(keys@[best as int]@));
                        assert(precedes(k, j as int, best as int));
                        assert forall|m: int|
                            0 <= m < j && wanted@[m] && !taken@[m] implies precedes(
                                k,
                                j as int,
                                m,
                            ) by {
                            if m != best {
                                lemma_precedes_transitive(k, j as int, best as int, m);
                            }
                        }
                    }
                    best = j;
                } else {
                    proof {
                        assert(k[j as int] == ints(keys@[j as int]@));
                        assert(k[best as int] == ints(keys@[best as int]@));
                        if !lex_lt(k[best as int], k[j as int]) {
                            lemma_lex_equal(k[best as int], k[j as int]);
                        }
                        assert(precedes(k, best as int, j as int));
                    }
                }
            }
            j += 1;
        }
        if best == n {
            done = true;
        } else {
            let ghost old_r = r@;
            let ghost old_taken = taken@;
            r.push(best);
            taken.set(best, true);
            proof {
                assert forall|m: int| 0 <= m < n implies (#[trigger] taken@[m] <==> r@.contains(
                    m as usize,
                )) by {
                    if m == best as int {
                        assert(r@[r@.len() - 1] == best);
                    } else {
                        assert(old_taken[m] <==> old_r.contains(m as usize));
                        if old_r.contains(m as usize) {
                            let p = choose|p: int| 0 <= p < old_r.len() && old_r[p] == m as usize;
                            assert(r@[p] == m as usize);
                        }
                        if r@.contains(m as usize) {
                            let p = choose|p: int| 0 <= p < r@.len() && r@[p] == m as usize;
                            assert(p < old_r.len());
                            assert(old_r[p] == m as usize);
                        }
                    }
                }
                assert forall|i: int, j: int| 0 <= i < j < r@.len() implies #[trigger] precedes(
                    k,
                    r@[i] as int,
                    r@[j] as int,
                ) by {
                    if j == r@.len() - 1 {
                        assert(r@[j] == best);
                        assert(old_r[i] == r@[i]);
                    } else {
                        assert(old_r[i] == r@[i] && old_r[j] == r@[j]);
                    }
                }
                assert forall|m: int, i: int|
                    0 <= m < n && wanted@[m] && !taken@[m] && 0 <= i < r@.len() implies #[trigger] precedes(
                    k,
                    r@[i] as int,
                    m,
                ) by {
                    assert(m != best as int);
                    assert(!old_taken[m]);
                    if i == r@.len() - 1 {
                        assert(r@[i] == best);
                    } else {
                        assert(old_r[i] == r@[i]);
                    }
                }
            }
        }
    }
    proof {
        assert forall|m: int|
            0 <= m < n && #[trigger] wanted@[m] && !r@.contains(m as usize) implies r@.len()
            == limit && forall|i: int| 0 <= i < r@.len() ==> #[trigger] precedes(k, r@[i] as int, m) by {
            assert(!taken@[m]);
        }
    }
    r
}

/// A ranking is unique: two lists that both rank the same items by the
/// same keys up to the same limit are the same list.
pub proof fn law_ranking_unique(
    r1: Seq<usize>,
    r2: Seq<usize>,
    keys: Seq<Seq<int>>,
    incl: Seq<bool>,
    limit: nat,
)
    requires
        incl.len() == keys.len(),
        is_ranking(r1, keys, incl, limit),
        is_ranking(r2, keys, incl, limit),
    ensures
        r1 == r2,
{
    lemma_ranking_prefix(r1, r2, keys, incl, limit, 0);
}

proof fn lemma_ranking_prefix(
    r1: Seq<usize>,
    r2: Seq<usize>,
    keys: Seq<Seq<int>>,
    incl: Seq<bool>,
    limit: nat,
    p: int,
)
    requires
        incl.len() == keys.len(),
        is_ranking(r1, keys, incl, limit),
        is_ranking(r2, keys, incl, limit),
        0 <= p <= r1.len(),
        p <= r2.len(),
        forall|q: int| 0 <= q < p ==> r1[q] == r2[q],
    ensures
        r1 == r2,
    decreases limit - p,
{
    if p < r1.len() && p < r2.len() {
        let a = r1[p];
        let b = r2[p];
        if a != b {
            lemma_precedes_total(keys, a as int, b as int);
            if precedes(keys, a as int, b as int) {
                lemma_ranking_earlier_absent(r1, r2, keys, incl, limit, p);
            } else {
                lemma_ranking_earlier_absent(r2, r1, keys, incl, limit, p);
            }
        } else {
            lemma_ranking_prefix(r1, r2, keys, incl, limit, p + 1);
        }
    } else if p < r1.len() {
        lemma_ranking_longer(r1, r2, keys, incl, limit, p);
    } else if p < r2.len() {
        lemma_ranking_longer(r2, r1, keys, incl, limit, p);
    } else {
        assert(r1 =~= r2);
    }
}

/// Where two rankings agree before `p`, the first one's item at `p` does
/// not come before the second one's.
proof fn lemma_ranking_earlier_absent(
    r1: Seq<usize>,
    r2: Seq<usize>,
    keys: Seq<Seq<int>>,
    incl: Seq<bool>,
    limit: nat,
    p: int,
)
    requires
        incl.len() == keys.len(),
        is_ranking(r1, keys, incl, limit),
        is_ranking(r2, keys, incl, limit),
        0 <= p < r1.len(),
        p < r2.len(),
        forall|q: int| 0 <= q < p ==> r1[q] == r2[q],
    ensures
        !precedes(keys, r1[p] as int, r2[p] as int),
{
    let a = r1[p];
    let b = r2[p];
    assert(0 <= a < keys.len() && incl[a as int]);
    if !precedes(keys, a as int, b as int) {
    } else if r2.contains(a) {
        let q = choose|q: int| 0 <= q < r2.len() && r2[q] == a;
        if q < p {
            assert(r1[q] == a);
            assert(precedes(keys, r1[q] as int, r1[p] as int));
            lemma_precedes_irreflexive(keys, a as int);
        } else if q == p {
            lemma_precedes_irreflexive(keys, a as int);
        } else {
            assert(precedes(keys, r2[p] as int, r2[q] as int));
            lemma_precedes_asymmetric(keys, a as int, b as int);
        }
    } else {
        assert(precedes(keys, r2[p] as int, a as int));
        lemma_precedes_asymmetric(keys, a as int, b as int);
    }
}

/// A ranking that agrees with another on all of that other one is no
/// longer than it.
proof fn lemma_ranking_longer(
    r1: Seq<usize>,
    r2: Seq<usize>,
    keys: Seq<Seq<int>>,
    incl: Seq<bool>,
    limit: nat,
    p: int,
)
    requires
        incl.len() == keys.len(),
        is_ranking(r1, keys, incl, limit),
        is_ranking(r2, keys, incl, limit),
        0 <= p <= r1.len(),
        p == r2.len(),
        forall|q: int| 0 <= q < p ==> r1[q] == r2[q],
    ensures
        r1.len() == p,
{
    if p < r1.len() {
        let a = r1[p];
        assert(0 <= a < keys.len() && incl[a as int]);
        if r2.contains(a) {
            let q = choose|q: int| 0 <= q < r2.len() && r2[q] == a;
            assert(r1[q] == a);
            assert(precedes(keys, r1[q] as int, r1[p] as int));
            lemma_precedes_irreflexive(keys, a as int);
        } else {
            assert(r2.len() == limit);
        }
    }
}

} // verus!
