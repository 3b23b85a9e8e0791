//! Fuzzy subsequence match on script names: a prefix ranks first, then the
//! shortest window that still contains the query, then catalogue order.

use vstd::prelude::*;

use super::text::{char_lowercase, chars_of, lowercase_of_char};

verus! {

#[derive(Debug, Clone, PartialEq, Eq)]
pub struct FuzzyMatch {
    pub index: usize,
    pub positions: Vec<usize>,
}

/// Two characters match when they are equal or lowercase to the same text.
pub open spec fn ci_eq(a: char, b: char) -> bool {
    a == b || char_lowercase(a) == char_lowercase(b)
}

/// Positions as integers.
pub open spec fn as_ints(v: Seq<usize>) -> Seq<int> {
    v.map_values(|p: usize| p as int)
}

/// Greedy left-to-right match of `needle[k..]` in `hay[i..]`: each needle
/// character takes the first matching hay character after the previous one.
pub open spec fn greedy(hay: Seq<char>, needle: Seq<char>, i: int, k: int) -> Option<Seq<int>>
    decreases hay.len() - i,
{
    if k >= needle.len() {
        Some(Seq::empty())
    } else if i < 0 || i >= hay.len() {
        None
    } else if ci_eq(hay[i], needle[k]) {
        match greedy(hay, needle, i + 1, k + 1) {
            Some(p) => Some(seq![i].add(p)),
            None => None,
        }
    } else {
        greedy(hay, needle, i + 1, k)
    }
}

/// Width of the window of a greedy match that started at `start`.
pub open spec fn window_of(p: Seq<int>, start: int) -> int {
    p.last() - start + 1
}

/// Best match over the starts `0..n`: the smallest window, the earliest start
/// among equal windows.
pub open spec fn best_upto(hay: Seq<char>, needle: Seq<char>, n: int) -> Option<(int, Seq<int>)>
    decreases n,
{
    if n <= 0 {
        None
    } else {
        let prev = best_upto(hay, needle, n - 1);
        match greedy(hay, needle, n - 1, 0) {
            None => prev,
            Some(p) => {
                let w = window_of(p, n - 1);
                match prev {
                    Some(b) => if w < b.0 {
                        Some((w, p))
                    } else {
                        prev
                    },
                    None => Some((w, p)),
                }
            },
        }
    }
}

/// The query is a case-insensitive prefix of the name.
pub open spec fn is_prefix_ci(hay: Seq<char>, needle: Seq<char>) -> bool {
    hay.len() >= needle.len() && forall|i: int| 0 <= i < needle.len() ==> ci_eq(hay[i], needle[i])
}

/// Rank, window and highlighted positions of a name for a query, or `None`
/// when the query is not a subsequence of the name. The empty query keeps
/// every name, with no highlight.
pub open spec fn name_score(name: Seq<char>, query: Seq<char>) -> Option<(int, int, Seq<int>)> {
    if query.len() == 0 {
        Some((0, 0, Seq::empty()))
    } else {
        match best_upto(name, query, name.len() as int) {
            Some(b) => Some((if is_prefix_ci(name, query) { 0 } else { 1 }, b.0, b.1)),
            None => None,
        }
    }
}

/// Ordering of results: rank, then window, then catalogue index.
pub open spec fn key_lt(r1: int, w1: int, i1: int, r2: int, w2: int, i2: int) -> bool {
    r1 < r2 || (r1 == r2 && (w1 < w2 || (w1 == w2 && i1 < i2)))
}

proof fn lemma_greedy_shape(hay: Seq<char>, needle: Seq<char>, i: int, k: int)
    requires
        0 <= k <= needle.len(),
        0 <= i,
        greedy(hay, needle, i, k) is Some,
    ensures
        ({
            let p = greedy(hay, needle, i, k)->0;
            &&& p.len() == needle.len() - k
            &&& forall|a: int| 0 <= a < p.len() ==> i <= #[trigger] p[a] < hay.len()
            &&& forall|a: int, b: int| 0 <= a < b < p.len() ==> p[a] < p[b]
        }),
    decreases hay.len() - i,
{
    if k >= needle.len() {
    } else if i >= hay.len() {
    } else if ci_eq(hay[i], needle[k]) {
        lemma_greedy_shape(hay, needle, i + 1, k + 1);
        let q = greedy(hay, needle, i + 1, k + 1)->0;
        let p = seq![i].add(q);
        assert forall|a: int| 0 <= a < p.len() implies i <= #[trigger] p[a] < hay.len() by {
            if a > 0 {
                assert(p[a] == q[a - 1]);
            }
        }
        assert forall|a: int, b: int| 0 <= a < b < p.len() implies p[a] < p[b] by {
            if a > 0 {
                assert(p[a] == q[a - 1]);
            }
            assert(p[b] == q[b - 1]);
        }
    } else {
        lemma_greedy_shape(hay, needle, i + 1, k);
    }
}

proof fn lemma_best_shape(hay: Seq<char>, needle: Seq<char>, n: int)
    requires
        needle.len() > 0,
        0 <= n <= hay.len(),
        best_upto(hay, needle, n) is Some,
    ensures
        ({
            let b = best_upto(hay, needle, n)->0;
            &&& 1 <= b.0 <= hay.len()
            &&& b.1.len() == needle.len()
            &&& forall|a: int| 0 <= a < b.1.len() ==> 0 <= #[trigger] b.1[a] < hay.len()
        }),
    decreases n,
{
    if n > 0 {
        let prev = best_upto(hay, needle, n - 1);
        if prev is Some {
            lemma_best_shape(hay, needle, n - 1);
        }
        if greedy(hay, needle, n - 1, 0) is Some {
            lemma_greedy_shape(hay, needle, n - 1, 0);
            let p = greedy(hay, needle, n - 1, 0)->0;
            assert(p[p.len() - 1] >= n - 1);
        }
    }
}

fn chars_eq_ignore_case(left: char, right: char) -> (r: bool)
    ensures
        r == ci_eq(left, right),
{
    if left == right {
        return true;
    }
    let l = lowercase_of_char(left);
    let r = lowercase_of_char(right);
    if l.len() != r.len() {
        return false;
    }
    let mut i: usize = 0;
    while i < l.len()
        invariant
            l@ == char_lowercase(left),
            r@ == char_lowercase(right),
            l@.len() == r@.len(),
            i <= l@.len(),
            forall|t: int| 0 <= t < i ==> l@[t] == r@[t],
        decreases l.len() - i,
    {
        if l[i] != r[i] {
            return false;
        }
        i += 1;
    }
    assert(l@ =~= r@);
    true
}

fn is_prefix(hay: &Vec<char>, needle: &Vec<char>) -> (r: bool)
    ensures
        r == is_prefix_ci(hay@, needle@),
{
    if hay.len() < needle.len() {
        return false;
    }
    let mut i: usize = 0;
    while i < needle.len()
        invariant
            hay@.len() >= needle@.len(),
            i <= needle@.len(),
            forall|t: int| 0 <= t < i ==> ci_eq(hay@[t], needle@[t]),
        decreases needle.len() - i,
    {
        if !chars_eq_ignore_case(hay[i], needle[i]) {
            return false;
        }
        i += 1;
    }
    true
}

/// Greedy match of the whole needle starting at `start`.
fn greedy_from(hay: &Vec<char>, needle: &Vec<char>, start: usize) -> (r: Option<Vec<usize>>)
    requires
        needle@.len() > 0,
        start < hay@.len(),
    ensures
        match r {
            Some(p) => greedy(hay@, needle@, start as int, 0) == Some(as_ints(p@)),
            None => greedy(hay@, needle@, start as int, 0) is None,
        },
{
    let mut positions: Vec<usize> = Vec::new();
    let mut needle_at: usize = 0;
    let mut hay_at: usize = start;
    let needle_len = needle.len();
    while hay_at < hay.len()
        invariant
            needle@.len() > 0,
            needle_len == needle@.len(),
            start <= hay_at <= hay@.len(),
            needle_at < needle@.len(),
            greedy(hay@, needle@, start as int, 0) == match greedy(
                hay@,
                needle@,
                hay_at as int,
                needle_at as int,
            ) {
                Some(p) => Some(as_ints(positions@).add(p)),
                None => None::<Seq<int>>,
            },
        decreases hay.len() - hay_at,
    {
        if chars_eq_ignore_case(hay[hay_at], needle[needle_at]) {
            let ghost before = as_ints(positions@);
            positions.push(hay_at);
            assert(as_ints(positions@) =~= before.push(hay_at as int));
            proof {
                let g = greedy(hay@, needle@, hay_at as int + 1, needle_at as int + 1);
                if g is Some {
                    assert(before.add(seq![hay_at as int].add(g->0)) =~= before.push(
                        hay_at as int,
                    ).add(g->0));
                }
            }
            needle_at += 1;
            if needle_at == needle_len {
                assert(greedy(hay@, needle@, hay_at as int + 1, needle_at as int) == Some(
                    Seq::<int>::empty(),
                ));
                assert(as_ints(positions@).add(Seq::<int>::empty()) =~= as_ints(positions@));
                return Some(positions);
            }
        }
        hay_at += 1;
    }
    None
}

/// Rank, window and positions of the best match of `needle` in `hay`.
fn match_name(hay: &Vec<char>, needle: &Vec<char>) -> (r: Option<(u8, usize, Vec<usize>)>)
    requires
        needle@.len() > 0,
    ensures
        match r {
            Some(m) => name_score(hay@, needle@) == Some((m.0 as int, m.1 as int, as_ints(m.2@))),
            None => name_score(hay@, needle@) is None,
        },
{
    let mut best: Option<(usize, Vec<usize>)> = None;
    let mut start: usize = 0;
    while start < hay.len()
        invariant
            needle@.len() > 0,
            start <= hay@.len(),
            match best {
                Some(b) => best_upto(hay@, needle@, start as int) == Some(
                    (b.0 as int, as_ints(b.1@)),
                ),
                None => best_upto(hay@, needle@, start as int) is None,
            },
        decreases hay.len() - start,
    {
        let attempt = greedy_from(hay, needle, start);
        proof {
            if attempt is Some {
                lemma_greedy_shape(hay@, needle@, start as int, 0);
            }
        }
        match attempt {
            None => {},
            Some(positions) => {
                let last = positions[positions.len() - 1];
                assert(as_ints(positions@)[positions@.len() - 1] == last as int);
                let window = last - start + 1;
                let better = match &best {
                    Some(b) => window < b.0,
                    None => true,
                };
                if better {
                    best = Some((window, positions));
                }
            },
        }
        start += 1;
    }
    match best {
        None => None,
        Some(b) => {
            let rank: u8 = if is_prefix(hay, needle) {
                0
            } else {
                1
            };
            Some((rank, b.0, b.1))
        },
    }
}

/// What the results hold after the names `0..index` were scored: each result
/// names a matching name with its key and highlight, every matching name is
/// there, and the results are in key order.
#[verifier::opaque]
spec fn filter_inv(
    names: Seq<&str>,
    query: Seq<char>,
    result: Seq<FuzzyMatch>,
    keys: Seq<(u8, usize)>,
    index: int,
) -> bool {
    &&& result.len() == keys.len()
    &&& forall|j: int|
        0 <= j < result.len() ==> {
            let m = #[trigger] result[j];
            &&& m.index < index
            &&& name_score(names[m.index as int]@, query) == Some(
                (keys[j].0 as int, keys[j].1 as int, as_ints(m.positions@)),
            )
        }
    &&& forall|k: int|
        0 <= k < index && (#[trigger] name_score(names[k]@, query)) is Some ==> exists|j: int|
            0 <= j < result.len() && result[j].index == k
    &&& forall|j1: int, j2: int|
        #![trigger result[j1], result[j2]]
        0 <= j1 < j2 < result.len() ==> key_lt(
            keys[j1].0 as int,
            keys[j1].1 as int,
            result[j1].index as int,
            keys[j2].0 as int,
            keys[j2].1 as int,
            result[j2].index as int,
        )
}

proof fn lemma_filter_skip(
    names: Seq<&str>,
    query: Seq<char>,
    result: Seq<FuzzyMatch>,
    keys: Seq<(u8, usize)>,
    index: int,
)
    requires
        0 <= index < names.len(),
        filter_inv(names, query, result, keys, index),
        name_score(names[index]@, query) is None,
    ensures
        filter_inv(names, query, result, keys, index + 1),
{
    reveal(filter_inv);
}

proof fn lemma_filter_insert(
    names: Seq<&str>,
    query: Seq<char>,
    result: Seq<FuzzyMatch>,
    keys: Seq<(u8, usize)>,
    index: int,
    p: int,
    item: FuzzyMatch,
    key: (u8, usize),
)
    requires
        0 <= index < names.len(),
        filter_inv(names, query, result, keys, index),
        0 <= p <= keys.len(),
        forall|t: int|
            0 <= t < p ==> (keys[t].0 < key.0 || (keys[t].0 == key.0 && keys[t].1 <= key.1)),
        p < keys.len() ==> (keys[p].0 > key.0 || (keys[p].0 == key.0 && keys[p].1 > key.1)),
        item.index == index,
        name_score(names[index]@, query) == Some(
            (key.0 as int, key.1 as int, as_ints(item.positions@)),
        ),
    ensures
        filter_inv(names, query, result.insert(p, item), keys.insert(p, key), index + 1),
{
    reveal(filter_inv);
    let nr = result.insert(p, item);
    let nk = keys.insert(p, key);
    assert forall|t: int| p <= t < keys.len() implies (keys[t].0 > key.0 || (keys[t].0 == key.0
        && keys[t].1 > key.1)) by {
        if t > p {
            assert(key_lt(
                keys[p].0 as int,
                keys[p].1 as int,
                result[p].index as int,
                keys[t].0 as int,
                keys[t].1 as int,
                result[t].index as int,
            ));
        }
    }
    assert forall|j: int| 0 <= j < nr.len() implies {
        let m = #[trigger] nr[j];
        &&& m.index < index + 1
        &&& name_score(names[m.index as int]@, query) == Some(
            (nk[j].0 as int, nk[j].1 as int, as_ints(m.positions@)),
        )
    } by {
        if j < p {
            assert(nr[j] == result[j]);
            assert(nk[j] == keys[j]);
        } else if j > p {
            assert(nr[j] == result[j - 1]);
            assert(nk[j] == keys[j - 1]);
        }
    }
    assert forall|k: int|
        0 <= k < index + 1 && (#[trigger] name_score(names[k]@, query)) is Some implies exists|
        j: int,
    | 0 <= j < nr.len() && nr[j].index == k by {
        if k == index {
            assert(nr[p].index == k);
        } else {
            let j0 = choose|j: int| 0 <= j < result.len() && result[j].index == k;
            if j0 < p {
                assert(nr[j0].index == k);
            } else {
                assert(nr[j0 + 1].index == k);
            }
        }
    }
    assert forall|j1: int, j2: int| 0 <= j1 < j2 < nr.len() implies key_lt(
        nk[j1].0 as int,
        nk[j1].1 as int,
        nr[j1].index as int,
        nk[j2].0 as int,
        nk[j2].1 as int,
        nr[j2].index as int,
    ) by {
        let a = if j1 < p {
            j1
        } else {
            j1 - 1
        };
        let b = if j2 < p {
            j2
        } else {
            j2 - 1
        };
        if j1 != p {
            assert(nr[j1] == result[a]);
            assert(nk[j1] == keys[a]);
            assert(result[a].index < index);
        }
        if j2 != p {
            assert(nr[j2] == result[b]);
            assert(nk[j2] == keys[b]);
            assert(result[b].index < index);
        }
    }
}

/// The results for a query: exactly the matching names, each with its
/// highlight, ordered by rank, window and catalogue position.
pub open spec fn is_filter_result(names: Seq<&str>, query: Seq<char>, r: Seq<FuzzyMatch>) -> bool {
    &&& forall|j: int|
        0 <= j < r.len() ==> {
            let m = #[trigger] r[j];
            &&& m.index < names.len()
            &&& name_score(names[m.index as int]@, query) is Some
            &&& (name_score(names[m.index as int]@, query)->0).2 == as_ints(m.positions@)
        }
    &&& forall|k: int|
        0 <= k < names.len() && (#[trigger] name_score(names[k]@, query)) is Some ==> exists|j: int|
            0 <= j < r.len() && r[j].index == k
    &&& forall|j1: int, j2: int|
        #![trigger r[j1], r[j2]]
        0 <= j1 < j2 < r.len() ==> {
            let s1 = name_score(names[r[j1].index as int]@, query)->0;
            let s2 = name_score(names[r[j2].index as int]@, query)->0;
            key_lt(s1.0, s1.1, r[j1].index as int, s2.0, s2.1, r[j2].index as int)
        }
}

/// The empty query keeps every name, in declaration order, without
/// highlights.
pub proof fn lemma_empty_query_keeps_order(names: Seq<&str>, r: Seq<FuzzyMatch>)
    requires
        is_filter_result(names, Seq::empty(), r),
    ensures
        r.len() == names.len(),
        forall|j: int| 0 <= j < r.len() ==> (#[trigger] r[j]).index == j && r[j].positions@.len() == 0,
{
    let q = Seq::<char>::empty();
    assert forall|j1: int, j2: int| 0 <= j1 < j2 < r.len() implies r[j1].index < r[j2].index by {
        assert(name_score(names[r[j1].index as int]@, q) == Some((0int, 0int, Seq::<int>::empty())));
        assert(name_score(names[r[j2].index as int]@, q) == Some((0int, 0int, Seq::<int>::empty())));
    }
    assert forall|k: int| 0 <= k < names.len() implies #[trigger] covered(r, k) by {
        assert(name_score(names[k]@, q) is Some);
    }
    lemma_increasing_cover(r, names.len() as int);
    assert forall|j: int| 0 <= j < r.len() implies (#[trigger] r[j]).positions@.len() == 0 by {
        assert(name_score(names[r[j].index as int]@, q) == Some((0int, 0int, Seq::<int>::empty())));
        assert(as_ints(r[j].positions@).len() == r[j].positions@.len());
    }
}

/// The positions pick, in increasing order, a character of the text for
/// each query character, equal to it up to case.
pub open spec fn is_embedding(hay: Seq<char>, needle: Seq<char>, e: Seq<int>) -> bool {
    &&& e.len() == needle.len()
    &&& forall|a: int| 0 <= a < e.len() ==> 0 <= #[trigger] e[a] < hay.len() && ci_eq(hay[e[a]], needle[a])
    &&& forall|a: int, b: int| 0 <= a < b < e.len() ==> e[a] < e[b]
}

/// How many characters the positions cover, first to last.
pub open spec fn span(e: Seq<int>) -> int {
    e.last() - e[0] + 1
}

proof fn lemma_greedy_matches(hay: Seq<char>, needle: Seq<char>, i: int, k: int)
    requires
        0 <= k <= needle.len(),
        0 <= i,
        greedy(hay, needle, i, k) is Some,
    ensures
        forall|a: int|
            0 <= a < greedy(hay, needle, i, k)->0.len() ==> ci_eq(
                hay[#[trigger] greedy(hay, needle, i, k)->0[a]],
                needle[k + a],
            ),
    decreases hay.len() - i,
{
    if k >= needle.len() {
    } else if i >= hay.len() {
    } else if ci_eq(hay[i], needle[k]) {
        lemma_greedy_matches(hay, needle, i + 1, k + 1);
        let q = greedy(hay, needle, i + 1, k + 1)->0;
        let p = greedy(hay, needle, i, k)->0;
        assert(p == seq![i].add(q));
        assert forall|a: int| 0 <= a < p.len() implies ci_eq(hay[#[trigger] p[a]], needle[k + a]) by {
            if a > 0 {
                assert(p[a] == q[a - 1]);
                assert(ci_eq(hay[q[a - 1]], needle[k + 1 + (a - 1)]));
            }
        }
    } else {
        lemma_greedy_matches(hay, needle, i + 1, k);
    }
}

/// Greedy matching from `i` succeeds whenever some embedding of the rest of
/// the query starts at `i` or later, and each of its positions comes no later.
proof fn lemma_greedy_earliest(hay: Seq<char>, needle: Seq<char>, i: int, k: int, e: Seq<int>)
    requires
        0 <= k <= needle.len(),
        0 <= i,
        e.len() == needle.len() - k,
        forall|a: int| 0 <= a < e.len() ==> i <= #[trigger] e[a] < hay.len() && ci_eq(hay[e[a]], needle[k + a]),
        forall|a: int, b: int| 0 <= a < b < e.len() ==> e[a] < e[b],
    ensures
        greedy(hay, needle, i, k) is Some,
        forall|a: int| 0 <= a < e.len() ==> #[trigger] greedy(hay, needle, i, k)->0[a] <= e[a],
    decreases hay.len() - i,
{
    if k >= needle.len() {
    } else {
        assert(i <= e[0] < hay.len());
        if ci_eq(hay[i], needle[k]) {
            let e2 = e.skip(1);
            assert forall|a: int| 0 <= a < e2.len() implies i + 1 <= #[trigger] e2[a] < hay.len() && ci_eq(hay[e2[a]], needle[k + 1 + a]) by {
                assert(e2[a] == e[a + 1]);
                assert(e[0] < e[a + 1]);
            }
            lemma_greedy_earliest(hay, needle, i + 1, k + 1, e2);
            lemma_greedy_shape(hay, needle, i + 1, k + 1);
            let q = greedy(hay, needle, i + 1, k + 1)->0;
            let p = greedy(hay, needle, i, k)->0;
            assert(p == seq![i].add(q));
            assert forall|a: int| 0 <= a < e.len() implies #[trigger] p[a] <= e[a] by {
                if a > 0 {
                    assert(p[a] == q[a - 1]);
                    assert(e2[a - 1] == e[a]);
                }
            }
        } else {
            assert(e[0] != i);
            assert forall|a: int| 0 <= a < e.len() implies i + 1 <= #[trigger] e[a] < hay.len() && ci_eq(hay[e[a]], needle[k + a]) by {
                if a > 0 {
                    assert(e[0] < e[a]);
                }
            }
            lemma_greedy_earliest(hay, needle, i + 1, k, e);
        }
    }
}

/// The best match over the starts below `n` comes from one of them, as the
/// greedy match from that start, and is no wider than the greedy match from
/// any start below `n`.
proof fn lemma_best_is_smallest(hay: Seq<char>, needle: Seq<char>, n: int)
    requires
        needle.len() > 0,
        0 <= n,
    ensures
        best_upto(hay, needle, n) is Some ==> exists|s: int|
            0 <= s < n && greedy(hay, needle, s, 0) == Some((best_upto(hay, needle, n)->0).1)
                && (best_upto(hay, needle, n)->0).0 == window_of((best_upto(hay, needle, n)->0).1, s),
        forall|s: int|
            0 <= s < n && (#[trigger] greedy(hay, needle, s, 0)) is Some ==> best_upto(hay, needle, n) is Some
                && (best_upto(hay, needle, n)->0).0 <= window_of(greedy(hay, needle, s, 0)->0, s),
    decreases n,
{
    if n > 0 {
        lemma_best_is_smallest(hay, needle, n - 1);
        let prev = best_upto(hay, needle, n - 1);
        if prev is Some {
            let s = choose|s: int|
                0 <= s < n - 1 && greedy(hay, needle, s, 0) == Some((prev->0).1) && (prev->0).0 == window_of((prev->0).1, s);
            assert(0 <= s < n);
        }
        if greedy(hay, needle, n - 1, 0) is Some {
            let s = n - 1;
            assert(0 <= s < n);
        }
    }
}

/// Every match of a filter result shows the query picked out of the name, in
/// order and up to case, over the smallest span any such pick covers.
pub proof fn lemma_highlights_are_a_tightest_match(
    names: Seq<&str>,
    query: Seq<char>,
    r: Seq<FuzzyMatch>,
    j: int,
    e: Seq<int>,
)
    requires
        is_filter_result(names, query, r),
        query.len() > 0,
        0 <= j < r.len(),
    ensures
        is_embedding(names[r[j].index as int]@, query, as_ints(r[j].positions@)),
        is_embedding(names[r[j].index as int]@, query, e) ==> span(as_ints(r[j].positions@)) <= span(e),
{
    let m = r[j];
    let name = names[m.index as int]@;
    let n = name.len() as int;
    let b = best_upto(name, query, n)->0;
    assert(name_score(name, query) is Some);
    assert(b.1 == as_ints(m.positions@));
    lemma_best_is_smallest(name, query, n);
    let s = choose|s: int| 0 <= s < n && greedy(name, query, s, 0) == Some(b.1) && b.0 == window_of(b.1, s);
    lemma_greedy_shape(name, query, s, 0);
    lemma_greedy_matches(name, query, s, 0);
    assert forall|a: int| 0 <= a < b.1.len() implies 0 <= #[trigger] b.1[a] < name.len() && ci_eq(name[b.1[a]], query[a]) by {
        assert(ci_eq(name[b.1[a]], query[0 + a]));
    }
    assert(s <= b.1[0]);
    if is_embedding(name, query, e) {
        let t = e[0];
        assert forall|a: int| 0 <= a < e.len() implies t <= #[trigger] e[a] < name.len() && ci_eq(name[e[a]], query[0 + a]) by {
            if a > 0 {
                assert(e[0] < e[a]);
            }
        }
        lemma_greedy_earliest(name, query, t, 0, e);
        let p = greedy(name, query, t, 0)->0;
        lemma_greedy_shape(name, query, t, 0);
        assert(p[p.len() - 1] <= e[e.len() - 1]);
        assert(0 <= t < n);
        assert(b.0 <= window_of(p, t));
    }
}

/// A name is among the results exactly when the query can be picked out of
/// it in order, up to case; names the query starts (up to case) come before
/// the others.
pub proof fn lemma_results_are_the_names_that_embed_the_query(
    names: Seq<&str>,
    query: Seq<char>,
    r: Seq<FuzzyMatch>,
)
    requires
        is_filter_result(names, query, r),
        query.len() > 0,
    ensures
        forall|k: int|
            0 <= k < names.len() ==> (covered(r, k) <==> exists|e: Seq<int>| #[trigger] is_embedding(names[k]@, query, e)),
        forall|j1: int, j2: int|
            #![trigger r[j1], r[j2]]
            0 <= j1 < j2 < r.len() && is_prefix_ci(names[r[j2].index as int]@, query) ==> is_prefix_ci(
                names[r[j1].index as int]@,
                query,
            ),
{
    assert forall|k: int| 0 <= k < names.len() implies (covered(r, k) <==> exists|e: Seq<int>| #[trigger] is_embedding(names[k]@, query, e)) by {
        if covered(r, k) {
            let j = choose|j: int| 0 <= j < r.len() && r[j].index == k;
            lemma_highlights_are_a_tightest_match(names, query, r, j, Seq::empty());
            assert(is_embedding(names[k]@, query, as_ints(r[j].positions@)));
        }
        if exists|e: Seq<int>| #[trigger] is_embedding(names[k]@, query, e) {
            let e = choose|e: Seq<int>| #[trigger] is_embedding(names[k]@, query, e);
            let name = names[k]@;
            assert forall|a: int| 0 <= a < e.len() implies 0 <= #[trigger] e[a] < name.len() && ci_eq(name[e[a]], query[0 + a]) by {}
            lemma_greedy_earliest(name, query, 0, 0, e);
            lemma_best_is_smallest(name, query, name.len() as int);
            assert(0 <= e[0] < name.len());
            assert(greedy(name, query, 0, 0) is Some);
            assert(name_score(name, query) is Some);
        }
    }
    assert forall|j1: int, j2: int|
        #![trigger r[j1], r[j2]]
        0 <= j1 < j2 < r.len() && is_prefix_ci(names[r[j2].index as int]@, query) implies is_prefix_ci(
            names[r[j1].index as int]@,
            query,
        ) by {
        let s1 = name_score(names[r[j1].index as int]@, query)->0;
        let s2 = name_score(names[r[j2].index as int]@, query)->0;
        assert(key_lt(s1.0, s1.1, r[j1].index as int, s2.0, s2.1, r[j2].index as int));
    }
}

/// Some result names the index.
pub open spec fn covered(r: Seq<FuzzyMatch>, k: int) -> bool {
    exists|i: int| 0 <= i < r.len() && r[i].index == k
}

/// Strictly increasing indices below `n` that cover every index below `n`
/// are `0, 1, ..., n - 1`.
proof fn lemma_increasing_cover(r: Seq<FuzzyMatch>, n: int)
    requires
        n >= 0,
        forall|j: int| 0 <= j < r.len() ==> (#[trigger] r[j]).index < n,
        forall|k: int| 0 <= k < n ==> #[trigger] covered(r, k),
        forall|j1: int, j2: int| 0 <= j1 < j2 < r.len() ==> #[trigger] r[j1].index < #[trigger] r[j2].index,
    ensures
        r.len() == n,
        forall|j: int| 0 <= j < r.len() ==> (#[trigger] r[j]).index == j,
{
    assert forall|j: int| 0 <= j < r.len() implies j <= (#[trigger] r[j]).index by {
        lemma_index_at_least(r, j);
    }
    assert forall|j: int| 0 <= j < r.len() implies (#[trigger] r[j]).index <= j by {
        let k = r[j].index as int;
        // every index below k appears before position j
        lemma_cover_before(r, n, j);
    }
    if r.len() < n {
        assert(covered(r, n - 1));
        let w = choose|j: int| 0 <= j < r.len() && r[j].index == n - 1;
        assert(r[w].index <= w);
    }
    if r.len() > n {
        assert(r[n].index >= n);
    }
}

proof fn lemma_index_at_least(r: Seq<FuzzyMatch>, j: int)
    requires
        0 <= j < r.len(),
        forall|j1: int, j2: int| 0 <= j1 < j2 < r.len() ==> #[trigger] r[j1].index < #[trigger] r[j2].index,
    ensures
        j <= r[j].index,
    decreases j,
{
    if j > 0 {
        lemma_index_at_least(r, j - 1);
        assert(r[j - 1].index < r[j].index);
    }
}

proof fn lemma_cover_before(r: Seq<FuzzyMatch>, n: int, j: int)
    requires
        0 <= j < r.len(),
        forall|j2: int| 0 <= j2 < r.len() ==> (#[trigger] r[j2]).index < n,
        forall|k: int| 0 <= k < n ==> #[trigger] covered(r, k),
        forall|j1: int, j2: int| 0 <= j1 < j2 < r.len() ==> #[trigger] r[j1].index < #[trigger] r[j2].index,
    ensures
        r[j].index <= j,
    decreases j,
{
    if j == 0 {
        if r[0].index > 0 {
            assert(covered(r, 0));
            let w = choose|i: int| 0 <= i < r.len() && r[i].index == 0;
            if w > 0 {
                assert(r[0].index < r[w].index);
            }
        }
    } else {
        lemma_cover_before(r, n, j - 1);
        let k = r[j - 1].index + 1;
        if r[j].index > k {
            assert(k < n);
            assert(covered(r, k));
            let w = choose|i: int| 0 <= i < r.len() && r[i].index == k;
            if w < j {
                if w == j - 1 {
                } else {
                    assert(r[w].index < r[j - 1].index);
                }
            } else if w > j {
                assert(r[j].index < r[w].index);
            }
        }
    }
}

/// Names that contain the query as a case-insensitive subsequence, ordered
/// by rank (prefixes first), then window width, then catalogue position.
pub fn filter_names(names: &[&str], query: &str) -> (r: Vec<FuzzyMatch>)
    ensures
        is_filter_result(names@, query@, r@),
{
    let needle = chars_of(query);
    let mut result: Vec<FuzzyMatch> = Vec::new();
    let mut keys: Vec<(u8, usize)> = Vec::new();
    let mut index: usize = 0;
    proof {
        reveal(filter_inv);
    }
    while index < names.len()
        invariant
            needle@ == query@,
            index <= names@.len(),
            filter_inv(names@, query@, result@, keys@, index as int),
        decreases names.len() - index,
    {
        let scored: Option<(u8, usize, Vec<usize>)> = if needle.len() == 0 {
            Some((0u8, 0usize, Vec::new()))
        } else {
            let hay = chars_of(names[index]);
            match_name(&hay, &needle)
        };
        proof {
            if needle@.len() == 0 {
                assert(as_ints(Seq::<usize>::empty()) =~= Seq::<int>::empty());
            }
        }
        match scored {
            None => {
                proof {
                    lemma_filter_skip(names@, query@, result@, keys@, index as int);
                }
            },
            Some((rank, window, positions)) => {
                proof {
                    reveal(filter_inv);
                }
                let mut p: usize = 0;
                while p < keys.len()
                    invariant
                        p <= keys@.len(),
                        forall|t: int|
                            0 <= t < p ==> (keys@[t].0 < rank || (keys@[t].0 == rank
                                && keys@[t].1 <= window)),
                    ensures
                        p <= keys@.len(),
                        forall|t: int|
                            0 <= t < p ==> (keys@[t].0 < rank || (keys@[t].0 == rank
                                && keys@[t].1 <= window)),
                        p < keys@.len() ==> (keys@[p as int].0 > rank || (keys@[p as int].0
                            == rank && keys@[p as int].1 > window)),
                    decreases keys.len() - p,
                {
                    let (kr, kw) = keys[p];
                    if kr > rank || (kr == rank && kw > window) {
                        break;
                    }
                    p += 1;
                }
                let item = FuzzyMatch { index, positions };
                proof {
                    lemma_filter_insert(
                        names@,
                        query@,
                        result@,
                        keys@,
                        index as int,
                        p as int,
                        item,
                        (rank, window),
                    );
                }
                result.insert(p, item);
                keys.insert(p, (rank, window));
            },
        }
        index += 1;
    }
    proof {
        reveal(filter_inv);
    }
    result
}

} // verus!
