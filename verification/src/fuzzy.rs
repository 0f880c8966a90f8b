//! Fuzzy string matching: the Levenshtein ratio of two strings, and their edit distance.

use vstd::prelude::*;
use crate::text::{lowercase, str_eq, to_lowercase, trim, trim_lower};
use crate::types::{
    score_at_least, score_den, score_greater, score_is_full, score_num, Ratio, Similarity,
};

verus! {

/// The smaller of three numbers.
pub open spec fn min3(a: nat, b: nat, c: nat) -> nat {
    if a <= b && a <= c {
        a
    } else if b <= c {
        b
    } else {
        c
    }
}

/// The minimum number of single-character insertions, deletions and substitutions that turn
/// `a` into `b`.
pub open spec fn edit_distance(a: Seq<char>, b: Seq<char>) -> nat
    decreases a.len() + b.len(),
{
    if a.len() == 0 {
        b.len()
    } else if b.len() == 0 {
        a.len()
    } else {
        min3(
            edit_distance(a.drop_last(), b) + 1,
            edit_distance(a, b.drop_last()) + 1,
            edit_distance(a.drop_last(), b.drop_last()) + (if a.last() == b.last() {
                0nat
            } else {
                1nat
            }),
        )
    }
}

/// The minimum number of single-character insertions and deletions that turn `a` into `b`
/// (a substitution counts as one of each).
pub open spec fn indel_distance(a: Seq<char>, b: Seq<char>) -> nat
    decreases a.len() + b.len(),
{
    if a.len() == 0 {
        b.len()
    } else if b.len() == 0 {
        a.len()
    } else if a.last() == b.last() {
        indel_distance(a.drop_last(), b.drop_last())
    } else {
        let p = indel_distance(a.drop_last(), b) + 1;
        let q = indel_distance(a, b.drop_last()) + 1;
        if p <= q {
            p
        } else {
            q
        }
    }
}

/// The similarity of `a` and `b`, the Levenshtein ratio: identical strings score 1; otherwise
/// their trimmed, lowercased forms score one less the insertions and deletions that turn one
/// into the other over their total character count.
pub open spec fn similarity_of(a: Seq<char>, b: Seq<char>) -> Similarity {
    if a == b {
        Similarity { distance: 0, length: 0 }
    } else {
        let x = lowercase(trim(a));
        let y = lowercase(trim(b));
        Similarity {
            distance: indel_distance(x, y) as u128,
            length: (x.len() + y.len()) as u128,
        }
    }
}

/// `strsim::levenshtein`: the minimum number of single-character insertions, deletions and
/// substitutions that turn `a` into `b`.
#[verifier::external_body]
fn levenshtein(a: &str, b: &str) -> (d: usize)
    ensures
        d == edit_distance(a@, b@),
{
    strsim::levenshtein(a, b)
}

/// The indel distance is at most the total length.
proof fn lemma_indel_bound(a: Seq<char>, b: Seq<char>)
    ensures
        indel_distance(a, b) <= a.len() + b.len(),
    decreases a.len() + b.len(),
{
    if a.len() > 0 && b.len() > 0 {
        lemma_indel_bound(a.drop_last(), b.drop_last());
        lemma_indel_bound(a.drop_last(), b);
    }
}

/// The indel distance does not depend on the order of its arguments.
proof fn lemma_indel_symmetric(a: Seq<char>, b: Seq<char>)
    ensures
        indel_distance(a, b) == indel_distance(b, a),
    decreases a.len() + b.len(),
{
    if a.len() > 0 && b.len() > 0 {
        lemma_indel_symmetric(a.drop_last(), b);
        lemma_indel_symmetric(a, b.drop_last());
        lemma_indel_symmetric(a.drop_last(), b.drop_last());
    }
}

/// Only equal strings are at indel distance 0.
proof fn lemma_indel_zero(a: Seq<char>, b: Seq<char>)
    requires
        indel_distance(a, b) == 0,
    ensures
        a == b,
    decreases a.len() + b.len(),
{
    if a.len() > 0 && b.len() > 0 {
        lemma_indel_zero(a.drop_last(), b.drop_last());
        assert(a =~= a.drop_last().push(a.last()));
        assert(b =~= b.drop_last().push(b.last()));
    }
}

/// Similarity does not depend on the order of the two strings.
pub proof fn law_similarity_symmetric(a: Seq<char>, b: Seq<char>)
    ensures
        similarity_of(a, b) == similarity_of(b, a),
{
    lemma_indel_symmetric(lowercase(trim(a)), lowercase(trim(b)));
}

/// A string is fully similar to itself, so it matches itself under any threshold of at most 1.
pub proof fn law_similarity_identical(a: Seq<char>, threshold: Ratio)
    requires
        threshold.num <= threshold.den,
    ensures
        score_is_full(similarity_of(a, a)),
        score_at_least(similarity_of(a, a), threshold),
{
}

/// A score of 1 means the strings are the same once trimmed and lowercased (for strings whose
/// lengths a machine can count).
pub proof fn law_full_similarity_means_same_text(a: Seq<char>, b: Seq<char>)
    requires
        lowercase(trim(a)).len() <= usize::MAX,
        lowercase(trim(b)).len() <= usize::MAX,
        score_is_full(similarity_of(a, b)),
    ensures
        lowercase(trim(a)) == lowercase(trim(b)),
{
    if a != b {
        let x = lowercase(trim(a));
        let y = lowercase(trim(b));
        lemma_indel_bound(x, y);
        if x.len() + y.len() > 0 {
            lemma_indel_zero(x, y);
        }
    }
}

/// The indel distance between `a` and `b`, by dynamic programming over their prefixes.
fn indel(a: &Vec<char>, b: &Vec<char>) -> (d: u128)
    ensures
        d == indel_distance(a@, b@),
{
    let n = a.len();
    let m = b.len();
    let mut prev: Vec<u128> = Vec::new();
    assert(a@.take(0).len() == 0 && b@.take(0).len() == 0);
    prev.push(0);
    let mut j: usize = 0;
    while j < m
        invariant
            j <= m,
            m == b@.len(),
            prev@.len() == j + 1,
            forall|k: int| 0 <= k <= j ==> prev@[k] == indel_distance(a@.take(0), b@.take(k)),
        decreases m - j,
    {
        assert(a@.take(0).len() == 0);
        prev.push(j as u128 + 1);
        j = j + 1;
    }
    let mut i: usize = 0;
    while i < n
        invariant
            i <= n,
            n == a@.len(),
            m == b@.len(),
            prev@.len() == m + 1,
            forall|k: int| 0 <= k <= m ==> prev@[k] == indel_distance(a@.take(i as int), b@.take(k)),
        decreases n - i,
    {
        let ghost ai = a@.take(i + 1);
        assert(ai.drop_last() =~= a@.take(i as int));
        assert(ai.last() == a@[i as int]);
        let mut cur: Vec<u128> = Vec::new();
        assert(b@.take(0).len() == 0);
        cur.push((i + 1) as u128);
        let mut j: usize = 0;
        while j < m
            invariant
                i < n,
                n == a@.len(),
                m == b@.len(),
                j <= m,
                ai == a@.take(i + 1),
                ai.drop_last() == a@.take(i as int),
                ai.last() == a@[i as int],
                prev@.len() == m + 1,
                forall|k: int| 0 <= k <= m ==> prev@[k] == indel_distance(a@.take(i as int), b@.take(k)),
                cur@.len() == j + 1,
                forall|k: int| 0 <= k <= j ==> cur@[k] == indel_distance(ai, b@.take(k)),
            decreases m - j,
        {
            let ghost bj = b@.take(j + 1);
            assert(bj.drop_last() =~= b@.take(j as int));
            assert(bj.last() == b@[j as int]);
            proof {
                lemma_indel_bound(a@.take(i as int), bj);
                lemma_indel_bound(ai, b@.take(j as int));
            }
            let v = if a[i] == b[j] {
                prev[j]
            } else {
                let p = prev[j + 1];
                let q = cur[j];
                if p <= q {
                    p + 1
                } else {
                    q + 1
                }
            };
            cur.push(v);
            j = j + 1;
        }
        prev = cur;
        i = i + 1;
    }
    assert(a@.take(n as int) =~= a@);
    assert(b@.take(m as int) =~= b@);
    prev[m]
}

/// Calculate the similarity of two strings.
pub fn similarity(a: &str, b: &str) -> (s: Similarity)
    ensures
        s == similarity_of(a@, b@),
        s.distance <= s.length,
        s.length < factor_bound(),
{
    if str_eq(a, b) {
        return Similarity { distance: 0, length: 0 };
    }
    let x = trim_lower(a);
    let y = trim_lower(b);
    let d = indel(&x, &y);
    proof {
        lemma_indel_bound(x@, y@);
    }
    Similarity { distance: d, length: x.len() as u128 + y.len() as u128 }
}

/// Calculate the Levenshtein distance between the lowercased strings.
pub fn distance(a: &str, b: &str) -> (d: usize)
    ensures
        d == edit_distance(lowercase(a@), lowercase(b@)),
{
    let x = to_lowercase(a);
    let y = to_lowercase(b);
    levenshtein(x.as_str(), y.as_str())
}

/// The bound below which the factors of a product are compared: `2^66`.
pub open spec fn factor_bound() -> int {
    0x4_0000_0000_0000_0000
}

/// The product `x * y` as a high and a low part in base `2^66`.
fn wide_mul(x: u128, y: u128) -> (r: (u128, u128))
    requires
        x < factor_bound(),
        y < factor_bound(),
    ensures
        r.1 < factor_bound(),
        r.0 * factor_bound() + r.1 == x * y,
{
    let k: u128 = 0x2_0000_0000;
    let m: u128 = 0x4_0000_0000_0000_0000;
    let xh = x / k;
    let xl = x % k;
    let yh = y / k;
    let yl = y % k;
    proof {
        assert(x == xh * k + xl && xl < k && xh < k) by (nonlinear_arith)
            requires
                xh == x / k,
                xl == x % k,
                x < 0x4_0000_0000_0000_0000,
                k == 0x2_0000_0000,
        ;
        assert(y == yh * k + yl && yl < k && yh < k) by (nonlinear_arith)
            requires
                yh == y / k,
                yl == y % k,
                y < 0x4_0000_0000_0000_0000,
                k == 0x2_0000_0000,
        ;
        assert(xh * yh < m && xh * yl < m && xl * yh < m && xl * yl < m) by (nonlinear_arith)
            requires
                xh < k,
                xl < k,
                yh < k,
                yl < k,
                k == 0x2_0000_0000,
                m == 0x4_0000_0000_0000_0000,
        ;
    }
    let hh = xh * yh;
    let mid = xh * yl + xl * yh;
    let ll = xl * yl;
    proof {
        assert(mid * k + ll < 0x1_0000_0000_0000_0000_0000_0000_0000) by (nonlinear_arith)
            requires
                mid < 2 * m,
                ll < m,
                k == 0x2_0000_0000,
                m == 0x4_0000_0000_0000_0000,
        ;
        lemma_split_product(xh as int, xl as int, yh as int, yl as int, k as int);
        assert(x * y == hh * m + mid * k + ll);
    }
    let rest = mid * k + ll;
    let carry = rest / m;
    let low = rest % m;
    proof {
        assert(rest == carry * m + low && low < m && carry < m) by (nonlinear_arith)
            requires
                carry == rest / m,
                low == rest % m,
                rest < 0x1_0000_0000_0000_0000_0000_0000_0000,
                m == 0x4_0000_0000_0000_0000,
        ;
    }
    (hh + carry, low)
}

/// The product of two numbers written in base `k`, digit by digit.
proof fn lemma_split_product(xh: int, xl: int, yh: int, yl: int, k: int)
    ensures
        (xh * k + xl) * (yh * k + yl) == xh * yh * (k * k) + (xh * yl + xl * yh) * k + xl * yl,
{
    assert((xh * k + xl) * (yh * k + yl) == (xh * k) * (yh * k) + (xh * k) * yl + xl * (yh * k)
        + xl * yl) by (nonlinear_arith);
    assert((xh * k) * (yh * k) == xh * yh * (k * k)) by (nonlinear_arith);
    assert((xh * k) * yl + xl * (yh * k) == (xh * yl + xl * yh) * k) by (nonlinear_arith);
}

/// `x * y < z * w`, for factors below `2^66`.
fn product_less(x: u128, y: u128, z: u128, w: u128) -> (b: bool)
    requires
        x < factor_bound(),
        y < factor_bound(),
        z < factor_bound(),
        w < factor_bound(),
    ensures
        b == (x * y < z * w),
{
    let (h1, l1) = wide_mul(x, y);
    let (h2, l2) = wide_mul(z, w);
    proof {
        let m = factor_bound();
        assert((h1 * m + l1 < h2 * m + l2) == (h1 < h2 || (h1 == h2 && l1 < l2)))
            by (nonlinear_arith)
            requires
                0 <= l1 < m,
                0 <= l2 < m,
                h1 >= 0,
                h2 >= 0,
                m > 0,
        ;
    }
    h1 < h2 || (h1 == h2 && l1 < l2)
}

/// The numerator and denominator of a score, as machine values.
fn score_parts(s: Similarity) -> (r: (u128, u128))
    requires
        s.distance <= s.length,
    ensures
        r.0 == score_num(s),
        r.1 == score_den(s),
{
    if s.length == 0 {
        (1, 1)
    } else {
        (s.length - s.distance, s.length)
    }
}

/// The score of `s` is at least `t`.
pub fn at_least(s: Similarity, t: Ratio) -> (b: bool)
    requires
        s.distance <= s.length,
        s.length < factor_bound(),
    ensures
        b == score_at_least(s, t),
{
    let (num, den) = score_parts(s);
    !product_less(num, t.den as u128, t.num as u128, den)
}

/// The score of `a` is greater than that of `b`.
pub fn greater(a: Similarity, b: Similarity) -> (r: bool)
    requires
        a.distance <= a.length,
        b.distance <= b.length,
        a.length < factor_bound(),
        b.length < factor_bound(),
    ensures
        r == score_greater(a, b),
{
    let (na, da) = score_parts(a);
    let (nb, db) = score_parts(b);
    product_less(nb, da, na, db)
}

/// Check if two strings are a fuzzy match at or above a threshold.
pub fn is_fuzzy_match(a: &str, b: &str, threshold: Ratio) -> (r: bool)
    ensures
        r == score_at_least(similarity_of(a@, b@), threshold),
{
    let s = similarity(a, b);
    at_least(s, threshold)
}

/// The views of a sequence of string slices.
pub open spec fn strs_view(s: Seq<&str>) -> Seq<Seq<char>> {
    s.map_values(|x: &str| x@)
}

proof fn lemma_greater_step(a: Similarity, b: Similarity, c: Similarity)
    requires
        a.distance <= a.length,
        b.distance <= b.length,
        c.distance <= c.length,
        score_greater(a, b),
        !score_greater(c, b),
    ensures
        score_greater(a, c),
        !score_greater(c, a),
{
    let (na, da) = (score_num(a), score_den(a));
    let (nb, db) = (score_num(b), score_den(b));
    let (nc, dc) = (score_num(c), score_den(c));
    assert(na * dc > nc * da) by (nonlinear_arith)
        requires
            na * db > nb * da,
            nc * db <= nb * dc,
            da > 0,
            db > 0,
            dc > 0,
            na >= 0,
            nb >= 0,
            nc >= 0,
    ;
}

proof fn lemma_positive_greater_than_zero(a: Similarity, c: Similarity)
    requires
        a.distance <= a.length,
        c.distance <= c.length,
        score_num(a) > 0,
        score_num(c) == 0,
    ensures
        score_greater(a, c),
        !score_greater(c, a),
{
    let (na, da) = (score_num(a), score_den(a));
    let dc = score_den(c);
    assert(na * dc > 0) by (nonlinear_arith)
        requires
            na > 0,
            dc > 0,
    ;
}

/// Find the best match for `target` among `candidates`: the first candidate with the highest
/// positive score, with its position and score; `None` when every score is 0.
pub fn find_best_match<'a>(target: &str, candidates: &'a [&'a str]) -> (r: Option<
    (usize, &'a str, Similarity),
>)
    ensures
        match r {
            Some((i, c, s)) => {
                &&& i < candidates@.len()
                &&& c@ == candidates@[i as int]@
                &&& s == similarity_of(target@, c@)
                &&& score_num(s) > 0
                &&& forall|j: int|
                    0 <= j < candidates@.len() ==> !score_greater(
                        #[trigger] similarity_of(target@, candidates@[j]@),
                        s,
                    )
                &&& forall|j: int|
                    0 <= j < i ==> score_greater(s, #[trigger] similarity_of(target@, candidates@[j]@))
            },
            None => forall|j: int|
                0 <= j < candidates@.len() ==> score_num(
                    #[trigger] similarity_of(target@, candidates@[j]@),
                ) == 0,
        },
{
    let mut best: Option<(usize, Similarity)> = None;
    let mut i: usize = 0;
    while i < candidates.len()
        invariant
            i <= candidates@.len(),
            forall|j: int|
                0 <= j < i ==> (#[trigger] similarity_of(target@, candidates@[j]@)).distance
                    <= similarity_of(target@, candidates@[j]@).length,
            match best {
                Some((bi, bs)) => {
                    &&& bi < i
                    &&& bs == similarity_of(target@, candidates@[bi as int]@)
                    &&& bs.distance <= bs.length
                    &&& bs.length < factor_bound()
                    &&& score_num(bs) > 0
                    &&& forall|j: int|
                        0 <= j < i ==> !score_greater(
                            #[trigger] similarity_of(target@, candidates@[j]@),
                            bs,
                        )
                    &&& forall|j: int|
                        0 <= j < bi ==> score_greater(
                            bs,
                            #[trigger] similarity_of(target@, candidates@[j]@),
                        )
                },
                None => forall|j: int|
                    0 <= j < i ==> score_num(#[trigger] similarity_of(target@, candidates@[j]@))
                        == 0,
            },
        decreases candidates@.len() - i,
    {
        let s = similarity(target, candidates[i]);
        match best {
            Some((bi, bs)) => {
                if greater(s, bs) {
                    proof {
                        assert forall|j: int| 0 <= j < i + 1 implies !score_greater(
                            #[trigger] similarity_of(target@, candidates@[j]@),
                            s,
                        ) && (j < i ==> score_greater(s, similarity_of(target@, candidates@[j]@))) by {
                            if j < i {
                                lemma_greater_step(s, bs, similarity_of(target@, candidates@[j]@));
                            }
                        }
                        assert(score_num(s) > 0) by (nonlinear_arith)
                            requires
                                score_num(s) * score_den(bs) > score_num(bs) * score_den(s),
                                score_num(bs) > 0,
                                score_den(s) > 0,
                                score_den(bs) > 0,
                        ;
                    }
                    best = Some((i, s));
                }
            },
            None => {
                if s.distance < s.length || s.length == 0 {
                    proof {
                        assert forall|j: int| 0 <= j < i + 1 implies !score_greater(
                            #[trigger] similarity_of(target@, candidates@[j]@),
                            s,
                        ) && (j < i ==> score_greater(s, similarity_of(target@, candidates@[j]@))) by {
                            if j < i {
                                lemma_positive_greater_than_zero(
                                    s,
                                    similarity_of(target@, candidates@[j]@),
                                );
                            }
                        }
                    }
                    best = Some((i, s));
                }
            },
        }
        i = i + 1;
    }
    match best {
        Some((bi, bs)) => Some((bi, candidates[bi], bs)),
        None => None,
    }
}

/// The pairs `(i, j, score)` for `a` at position `i` against each of `bs` whose score is below
/// 1 and at least `threshold`.
pub open spec fn fuzzy_pairs_for(a: Seq<char>, i: int, bs: Seq<Seq<char>>, threshold: Ratio) -> Seq<
    (usize, usize, Similarity),
>
    decreases bs.len(),
{
    if bs.len() == 0 {
        seq![]
    } else {
        let prev = fuzzy_pairs_for(a, i, bs.drop_last(), threshold);
        let s = similarity_of(a, bs.last());
        if !score_is_full(s) && score_at_least(s, threshold) {
            prev.push((i as usize, (bs.len() - 1) as usize, s))
        } else {
            prev
        }
    }
}

/// All such pairs for `as_` against `bs`, in order of `i`, then `j`.
pub open spec fn fuzzy_pairs(as_: Seq<Seq<char>>, bs: Seq<Seq<char>>, threshold: Ratio) -> Seq<
    (usize, usize, Similarity),
>
    decreases as_.len(),
{
    if as_.len() == 0 {
        seq![]
    } else {
        fuzzy_pairs(as_.drop_last(), bs, threshold) + fuzzy_pairs_for(
            as_.last(),
            as_.len() - 1,
            bs,
            threshold,
        )
    }
}

/// Batch fuzzy matching for column values: the positions of pairs whose score is at or above
/// the threshold but below 1.
pub fn find_fuzzy_mismatches(values_a: &[&str], values_b: &[&str], threshold: Ratio) -> (r: Vec<
    (usize, usize, Similarity),
>)
    ensures
        r@ == fuzzy_pairs(strs_view(values_a@), strs_view(values_b@), threshold),
{
    let ghost av = strs_view(values_a@);
    let ghost bv = strs_view(values_b@);
    let mut results: Vec<(usize, usize, Similarity)> = Vec::new();
    let mut i: usize = 0;
    while i < values_a.len()
        invariant
            i <= values_a@.len(),
            av == strs_view(values_a@),
            bv == strs_view(values_b@),
            results@ == fuzzy_pairs(av.take(i as int), bv, threshold),
        decreases values_a@.len() - i,
    {
        let ghost before = results@;
        let mut j: usize = 0;
        while j < values_b.len()
            invariant
                i < values_a@.len(),
                j <= values_b@.len(),
                av == strs_view(values_a@),
                bv == strs_view(values_b@),
                results@ == before + fuzzy_pairs_for(av[i as int], i as int, bv.take(j as int), threshold),
            decreases values_b@.len() - j,
        {
            assert(bv.take(j + 1).drop_last() =~= bv.take(j as int));
            let s = similarity(values_a[i], values_b[j]);
            if !(s.distance == 0 || s.length == 0) && at_least(s, threshold) {
                results.push((i, j, s));
            }
            j = j + 1;
        }
        assert(bv.take(values_b@.len() as int) =~= bv);
        assert(av.take(i + 1).drop_last() =~= av.take(i as int));
        i = i + 1;
    }
    assert(av.take(values_a@.len() as int) =~= av);
    results
}

} // verus!
