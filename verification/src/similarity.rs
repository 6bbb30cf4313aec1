//! The similarity matcher behind "did you mean" suggestions.
//!
//! Closeness of two strings is a normalised common-subsequence ratio,
//! compared case-insensitively: with `m` the length of a longest common
//! subsequence of the case-folded strings, the score is `2*m / (|a|+|b|)`.
//! A candidate is retained when its score strictly exceeds the threshold,
//! which is given in hundredths to keep the whole computation in integers.
//! The result keeps the candidates' input order; no re-sorting by score.

use vstd::prelude::*;

use crate::text::to_chars;

verus! {

/// The threshold, in hundredths, used for suggestion lookups.
pub const SIMILARITY_THRESHOLD: u32 = 60;

/// ASCII case folding of one character.
pub open spec fn lower_char(c: char) -> char {
    if 'A' <= c && c <= 'Z' {
        (((c as u8) + 32) as char)
    } else {
        c
    }
}

/// ASCII case folding of a string.
pub open spec fn lower_seq(s: Seq<char>) -> Seq<char> {
    s.map_values(|c: char| lower_char(c))
}

/// The length of a longest common subsequence of `a` and `b`.
pub open spec fn lcs_len(a: Seq<char>, b: Seq<char>) -> nat
    decreases a.len(), b.len(),
{
    if a.len() == 0 || b.len() == 0 {
        0
    } else if a.last() == b.last() {
        lcs_len(a.drop_last(), b.drop_last()) + 1
    } else {
        let x = lcs_len(a.drop_last(), b);
        let y = lcs_len(a, b.drop_last());
        if x >= y {
            x
        } else {
            y
        }
    }
}

/// A common subsequence is never longer than either string.
pub proof fn lemma_lcs_len_bound(a: Seq<char>, b: Seq<char>)
    ensures
        lcs_len(a, b) <= a.len(),
        lcs_len(a, b) <= b.len(),
    decreases a.len(), b.len(),
{
    if a.len() == 0 || b.len() == 0 {
    } else if a.last() == b.last() {
        lemma_lcs_len_bound(a.drop_last(), b.drop_last());
    } else {
        lemma_lcs_len_bound(a.drop_last(), b);
        lemma_lcs_len_bound(a, b.drop_last());
    }
}

/// A string shares a full-length common subsequence with itself.
pub proof fn lemma_lcs_len_self(a: Seq<char>)
    ensures
        lcs_len(a, a) == a.len(),
    decreases a.len(),
{
    if a.len() > 0 {
        lemma_lcs_len_self(a.drop_last());
    }
}

/// Whether `cand` is similar to `target` at `threshold` hundredths:
/// the common-subsequence ratio of the case-folded strings strictly
/// exceeds the threshold. Two empty strings match exactly, so they pass
/// every threshold below one hundred.
pub open spec fn similar(target: Seq<char>, cand: Seq<char>, threshold: int) -> bool {
    let t = lower_seq(target);
    let c = lower_seq(cand);
    if t.len() + c.len() == 0 {
        threshold < 100
    } else {
        200 * lcs_len(t, c) > threshold * (t.len() + c.len())
    }
}

/// An exact match, up to case, passes every threshold below one hundred.
/// This holds because an exact match's score is the highest possible one.
pub proof fn lemma_exact_match_similar(target: Seq<char>, cand: Seq<char>, threshold: int)
    requires
        lower_seq(target) == lower_seq(cand),
        0 <= threshold < 100,
    ensures
        similar(target, cand, threshold),
{
    let t = lower_seq(target);
    lemma_lcs_len_self(t);
    if t.len() + t.len() > 0 {
        assert(200 * lcs_len(t, t) == 200 * t.len());
        assert(threshold * (t.len() + t.len()) < 100 * (t.len() + t.len()))
            by (nonlinear_arith)
            requires
                threshold < 100,
                t.len() > 0,
        ;
    }
}

/// The candidates similar to `target`, kept in their input order.
pub open spec fn filter_similar(
    target: Seq<char>,
    cands: Seq<Seq<char>>,
    threshold: int,
) -> Seq<Seq<char>>
    decreases cands.len(),
{
    if cands.len() == 0 {
        Seq::<Seq<char>>::empty()
    } else {
        let rest = filter_similar(target, cands.drop_last(), threshold);
        if similar(target, cands.last(), threshold) {
            rest.push(cands.last())
        } else {
            rest
        }
    }
}

/// Case folding of one vector of characters.
fn to_lower_chars(v: &Vec<char>) -> (r: Vec<char>)
    ensures
        r@ == lower_seq(v@),
{
    let mut r: Vec<char> = Vec::new();
    let mut i: usize = 0;
    let n = v.len();
    while i < n
        invariant
            i <= n,
            n == v@.len(),
            r@ == lower_seq(v@.subrange(0, i as int)),
        decreases n - i,
    {
        let c = v[i];
        let lc: char = if c >= 'A' && c <= 'Z' {
            ((c as u8) + 32) as char
        } else {
            c
        };
        r.push(lc);
        proof {
            assert(r@ =~= lower_seq(v@.subrange(0, i + 1)));
        }
        i = i + 1;
    }
    proof {
        assert(v@.subrange(0, n as int) =~= v@);
    }
    r
}

/// The length of a longest common subsequence, by dynamic programming.
fn lcs(a: &Vec<char>, b: &Vec<char>) -> (r: usize)
    ensures
        r == lcs_len(a@, b@),
{
    let la = a.len();
    let lb = b.len();
    let mut table: Vec<Vec<usize>> = Vec::new();
    let mut row0: Vec<usize> = Vec::new();
    row0.push(0);
    let mut j0: usize = 0;
    while j0 < lb
        invariant
            j0 <= lb,
            row0@.len() == j0 + 1,
            forall|j: int| 0 <= j <= j0 ==> row0@[j] == 0,
        decreases lb - j0,
    {
        row0.push(0);
        j0 = j0 + 1;
    }
    table.push(row0);
    let mut i: usize = 0;
    while i < la
        invariant
            i <= la,
            la == a@.len(),
            lb == b@.len(),
            table@.len() == i + 1,
            forall|x: int| 0 <= x <= i ==> #[trigger] table@[x]@.len() == lb + 1,
            forall|x: int, y: int|
                0 <= x <= i && 0 <= y <= lb ==> #[trigger] table@[x]@[y] == lcs_len(
                    a@.subrange(0, x),
                    b@.subrange(0, y),
                ),
        decreases la - i,
    {
        let mut row: Vec<usize> = Vec::new();
        row.push(0);
        proof {
            assert(b@.subrange(0, 0).len() == 0);
        }
        let mut j: usize = 0;
        while j < lb
            invariant
                i < la,
                j <= lb,
                la == a@.len(),
                lb == b@.len(),
                row@.len() == j + 1,
                table@.len() == i + 1,
                forall|x: int| 0 <= x <= i ==> #[trigger] table@[x]@.len() == lb + 1,
                forall|x: int, y: int|
                    0 <= x <= i && 0 <= y <= lb ==> #[trigger] table@[x]@[y] == lcs_len(
                        a@.subrange(0, x),
                        b@.subrange(0, y),
                    ),
                forall|y: int|
                    0 <= y <= j ==> #[trigger] row@[y] == lcs_len(
                        a@.subrange(0, i + 1),
                        b@.subrange(0, y),
                    ),
            decreases lb - j,
        {
            let ghost pa = a@.subrange(0, i + 1);
            let ghost pb = b@.subrange(0, j + 1);
            proof {
                lemma_lcs_len_bound(pa, pb);
                assert(pa.last() == a@[i as int]);
                assert(pb.last() == b@[j as int]);
                assert(pa.drop_last() =~= a@.subrange(0, i as int));
                assert(pb.drop_last() =~= b@.subrange(0, j as int));
                lemma_lcs_len_bound(a@.subrange(0, i as int), pb);
                lemma_lcs_len_bound(pa, b@.subrange(0, j as int));
            }
            let cell: usize = if a[i] == b[j] {
                table[i][j] + 1
            } else {
                let x = table[i][j + 1];
                let y = row[j];
                if x >= y {
                    x
                } else {
                    y
                }
            };
            row.push(cell);
            j = j + 1;
        }
        table.push(row);
        i = i + 1;
    }
    proof {
        assert(a@.subrange(0, la as int) =~= a@);
        assert(b@.subrange(0, lb as int) =~= b@);
    }
    table[la][lb]
}

/// Whether one candidate is similar to the case-folded target.
fn is_similar(target_lower: &Vec<char>, cand: &Vec<char>, threshold: u32, Ghost(t0): Ghost<
    Seq<char>,
>) -> (r: bool)
    requires
        target_lower@ == lower_seq(t0),
    ensures
        r == similar(t0, cand@, threshold as int),
{
    let cl = to_lower_chars(cand);
    let m = lcs(target_lower, &cl);
    let total: u128 = (target_lower.len() as u128) + (cl.len() as u128);
    if total == 0 {
        threshold < 100
    } else {
        proof {
            assert((threshold as u128) * total <= 0xffffffffu128 * 0x3ffffffffffffffffu128)
                by (nonlinear_arith)
                requires
                    (threshold as u128) <= 0xffffffffu128,
                    total <= 0x3ffffffffffffffffu128,
            ;
        }
        200u128 * (m as u128) > (threshold as u128) * total
    }
}

/// The candidates within `strings` whose similarity to `string` strictly
/// exceeds `threshold` (in hundredths), in their input order.
pub fn find_similar_string(string: String, strings: Vec<String>, threshold: u32) -> (r: Vec<
    String,
>)
    ensures
        r.deep_view() == filter_similar(string@, strings.deep_view(), threshold as int),
{
    let tc = to_chars(string.as_str());
    let tl = to_lower_chars(&tc);
    let mut r: Vec<String> = Vec::new();
    let mut i: usize = 0;
    let n = strings.len();
    proof {
        assert(strings.deep_view().subrange(0, 0) =~= Seq::<Seq<char>>::empty());
    }
    while i < n
        invariant
            i <= n,
            n == strings@.len(),
            strings.deep_view().len() == n,
            tl@ == lower_seq(string@),
            r.deep_view() == filter_similar(
                string@,
                strings.deep_view().subrange(0, i as int),
                threshold as int,
            ),
            forall|j: int|
                0 <= j < n ==> #[trigger] strings.deep_view()[j] == strings@[j]@,
        decreases n - i,
    {
        let cc = to_chars(strings[i].as_str());
        let keep = is_similar(&tl, &cc, threshold, Ghost(string@));
        let ghost dv = strings.deep_view();
        let ghost before = r.deep_view();
        if keep {
            r.push(strings[i].clone());
        }
        proof {
            assert(dv.subrange(0, i + 1).drop_last() =~= dv.subrange(0, i as int));
            assert(dv.subrange(0, i + 1).last() == dv[i as int]);
            if keep {
                assert(r.deep_view() =~= before.push(dv[i as int]));
            }
        }
        i = i + 1;
    }
    proof {
        assert(strings.deep_view().subrange(0, n as int) =~= strings.deep_view());
    }
    r
}

/// The names similar to `key` at the suggestion threshold, or `None` when
/// there are none.
pub fn find_similar_vars(key: &str, names: Vec<String>) -> (r: Option<Vec<String>>)
    ensures
        match r {
            Some(v) => v.deep_view() == filter_similar(
                key@,
                names.deep_view(),
                SIMILARITY_THRESHOLD as int,
            ) && v.deep_view().len() > 0,
            None => filter_similar(key@, names.deep_view(), SIMILARITY_THRESHOLD as int).len()
                == 0,
        },
{
    let similar_names = find_similar_string(String::from_str(key), names, SIMILARITY_THRESHOLD);
    if similar_names.len() == 0 {
        proof {
            assert(similar_names.deep_view().len() == similar_names@.len());
        }
        None
    } else {
        proof {
            assert(similar_names.deep_view().len() == similar_names@.len());
        }
        Some(similar_names)
    }
}

} // verus!
