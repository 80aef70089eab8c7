//! Grey-level histograms of answer boxes, the quantile bins of such a
//! histogram, and the reading of a binary answer box from its median.

use vstd::prelude::*;

verus! {

/// Number of bins of a histogram of 8-bit grey levels.
pub const HIST_BINS: usize = 256;

/// A box counts as checked when its median grey level is at most this.
pub const CHECKED_MAX_LEVEL: usize = 142;

/// The answer read from a box.
#[derive(Clone, Copy, Debug, PartialEq, Eq, Structural)]
pub enum Answer {
    /// A box that is either checked (`true`) or left blank (`false`).
    Binary(bool),
}

/// Why no answer could be read from a box.
#[derive(Clone, Copy, Debug, PartialEq, Eq, Structural)]
pub enum AnalysisError {
    /// The box holds no pixels, so it has no median grey level.
    EmptyBox,
}

/// How many of `pixels` have grey level `v`.
pub open spec fn count_level(pixels: Seq<u8>, v: int) -> nat
    decreases pixels.len(),
{
    if pixels.len() == 0 {
        0
    } else {
        count_level(pixels.drop_last(), v) + if pixels.last() as int == v {
            1nat
        } else {
            0nat
        }
    }
}

/// The sum of the first `k` bins of `h`.
pub open spec fn prefix_total(h: Seq<u64>, k: int) -> int
    decreases k,
{
    if k <= 0 {
        0
    } else {
        prefix_total(h, k - 1) + h[k - 1]
    }
}

/// The sum of all bins of `h`.
pub open spec fn total(h: Seq<u64>) -> int {
    prefix_total(h, h.len() as int)
}

/// Bin `i` is where the cumulative share of `h` first reaches `num / den`:
/// the bins up to `i` hold at least that share, the bins before `i` less.
pub open spec fn is_quantile_index(h: Seq<u64>, num: int, den: int, i: int) -> bool {
    &&& 0 <= i < h.len()
    &&& prefix_total(h, i + 1) * den >= total(h) * num
    &&& forall|j: int| 0 <= j < i ==> #[trigger] prefix_total(h, j + 1) * den < total(h) * num
}

/// Counting a level in a longer sequence never gives less.
proof fn lemma_count_level_bound(pixels: Seq<u8>, v: int)
    ensures
        count_level(pixels, v) <= pixels.len(),
    decreases pixels.len(),
{
    if pixels.len() > 0 {
        lemma_count_level_bound(pixels.drop_last(), v);
    }
}

/// Prefix sums grow with their length.
pub proof fn lemma_prefix_monotone(h: Seq<u64>, j: int, k: int)
    requires
        0 <= j <= k <= h.len(),
    ensures
        prefix_total(h, j) <= prefix_total(h, k),
    decreases k - j,
{
    if j < k {
        lemma_prefix_monotone(h, j, k - 1);
    }
}

/// Counts every grey level of `pixels` into 256 bins: bin `v` holds the
/// number of pixels of level `v`.
pub fn histogram(pixels: &[u8]) -> (h: Vec<u64>)
    ensures
        h@.len() == HIST_BINS,
        forall|v: int| 0 <= v < HIST_BINS ==> h@[v] == count_level(pixels@, v),
        total(h@) == pixels@.len(),
{
    let mut h: Vec<u64> = Vec::new();
    for v in 0..HIST_BINS
        invariant
            h@.len() == v,
            forall|w: int| 0 <= w < v ==> h@[w] == 0,
    {
        h.push(0);
    }
    let n = pixels.len();
    for i in 0..n
        invariant
            n == pixels@.len(),
            h@.len() == HIST_BINS,
            forall|v: int|
                0 <= v < HIST_BINS ==> h@[v] == count_level(#[trigger] pixels@.take(i as int), v),
    {
        let p = pixels[i] as usize;
        proof {
            assert(pixels@.take(i + 1).drop_last() =~= pixels@.take(i as int));
            assert(pixels@.take(i + 1).last() == pixels@[i as int]);
            lemma_count_level_bound(pixels@.take(i as int), p as int);
            assert(pixels@.take(i as int).len() == i);
        }
        let c = h[p];
        h.set(p, c + 1);
        proof {
            assert forall|v: int| 0 <= v < HIST_BINS implies h@[v] == count_level(
                #[trigger] pixels@.take(i + 1),
                v,
            ) by {
                assert(count_level(pixels@.take(i + 1), v) == count_level(
                    pixels@.take(i as int),
                    v,
                ) + if pixels@[i as int] as int == v {
                    1nat
                } else {
                    0nat
                });
            }
        }
    }
    proof {
        assert(pixels@.take(n as int) =~= pixels@);
        law_histogram_total(pixels@, h@);
    }
    h
}

/// How many of `pixels` have a grey level below `k`.
pub open spec fn count_below(pixels: Seq<u8>, k: int) -> int
    decreases k,
{
    if k <= 0 {
        0
    } else {
        count_below(pixels, k - 1) + count_level(pixels, k - 1)
    }
}

proof fn lemma_count_below_step(pixels: Seq<u8>, k: int)
    requires
        pixels.len() > 0,
        0 <= k,
    ensures
        count_below(pixels, k) == count_below(pixels.drop_last(), k) + if pixels.last() < k {
            1int
        } else {
            0int
        },
    decreases k,
{
    if k > 0 {
        lemma_count_below_step(pixels, k - 1);
    }
}

proof fn lemma_count_below_all(pixels: Seq<u8>)
    ensures
        count_below(pixels, HIST_BINS as int) == pixels.len(),
    decreases pixels.len(),
{
    if pixels.len() == 0 {
        lemma_count_below_zero(pixels, HIST_BINS as int);
    } else {
        lemma_count_below_step(pixels, HIST_BINS as int);
        lemma_count_below_all(pixels.drop_last());
    }
}

proof fn lemma_count_below_zero(pixels: Seq<u8>, k: int)
    requires
        pixels.len() == 0,
    ensures
        count_below(pixels, k) == 0,
    decreases k,
{
    if k > 0 {
        lemma_count_below_zero(pixels, k - 1);
    }
}

proof fn lemma_prefix_is_count_below(pixels: Seq<u8>, h: Seq<u64>, k: int)
    requires
        h.len() == HIST_BINS,
        forall|v: int| 0 <= v < HIST_BINS ==> h[v] == count_level(pixels, v),
        0 <= k <= HIST_BINS,
    ensures
        prefix_total(h, k) == count_below(pixels, k),
    decreases k,
{
    if k > 0 {
        lemma_prefix_is_count_below(pixels, h, k - 1);
    }
}

/// The bins of a histogram add up to the number of pixels counted, and the
/// first `k` bins to the number of pixels of a level below `k`.
pub proof fn law_histogram_total(pixels: Seq<u8>, h: Seq<u64>)
    requires
        h.len() == HIST_BINS,
        forall|v: int| 0 <= v < HIST_BINS ==> h[v] == count_level(pixels, v),
    ensures
        total(h) == pixels.len(),
        forall|k: int| 0 <= k <= HIST_BINS ==> #[trigger] prefix_total(h, k) == count_below(pixels, k),
{
    lemma_count_below_all(pixels);
    lemma_prefix_is_count_below(pixels, h, HIST_BINS as int);
    assert forall|k: int| 0 <= k <= HIST_BINS implies #[trigger] prefix_total(h, k) == count_below(pixels, k) by {
        lemma_prefix_is_count_below(pixels, h, k);
    }
}

/// The bin at which the cumulative share of `hist` first reaches `num / den`,
/// or `None` when the histogram is empty (all bins zero).
pub fn index_quartile(hist: &[u64], num: u64, den: u64) -> (r: Option<usize>)
    requires
        0 < den,
        num <= den,
        total(hist@) <= u64::MAX,
    ensures
        r is None <==> total(hist@) == 0,
        r matches Some(i) ==> is_quantile_index(hist@, num as int, den as int, i as int),
{
    let n = hist.len();
    let mut t: u64 = 0;
    for i in 0..n
        invariant
            n == hist@.len(),
            total(hist@) <= u64::MAX,
            t == prefix_total(hist@, i as int),
    {
        proof {
            lemma_prefix_monotone(hist@, i + 1, n as int);
        }
        t = t + hist[i];
    }
    if t == 0 {
        return None;
    }
    proof {
        lemma_u64_product_fits(t, num);
    }
    let target: u128 = (t as u128) * (num as u128);
    let mut acc: u64 = 0;
    for i in 0..n
        invariant
            n == hist@.len(),
            t == total(hist@),
            t > 0,
            target == t * num,
            num <= den,
            acc == prefix_total(hist@, i as int),
            forall|j: int| 0 <= j < i ==> #[trigger] prefix_total(hist@, j + 1) * den < target,
    {
        proof {
            lemma_prefix_monotone(hist@, i + 1, n as int);
        }
        acc = acc + hist[i];
        proof {
            lemma_u64_product_fits(acc, den);
        }
        let reached: u128 = (acc as u128) * (den as u128);
        if reached >= target {
            return Some(i);
        }
    }
    proof {
        assert(t * den >= t * num) by (nonlinear_arith)
            requires
                num <= den,
        ;
        assert(prefix_total(hist@, (n - 1) + 1) * den < target);
    }
    None
}

/// The quantile bin lies at or below bin `k` exactly when the bins up to `k`
/// already hold the share `num / den`.
pub proof fn law_quantile_threshold(h: Seq<u64>, num: int, den: int, i: int, k: int)
    requires
        is_quantile_index(h, num, den, i),
        0 <= k < h.len(),
        0 < den,
    ensures
        (i <= k) <==> (prefix_total(h, k + 1) * den >= total(h) * num),
{
    if i <= k {
        lemma_prefix_monotone(h, i + 1, k + 1);
        assert(prefix_total(h, i + 1) * den <= prefix_total(h, k + 1) * den) by (nonlinear_arith)
            requires
                prefix_total(h, i + 1) <= prefix_total(h, k + 1),
                0 < den,
        ;
    } else {
        assert(prefix_total(h, k + 1) * den < total(h) * num);
    }
}

/// A larger share never gives an earlier bin: for `num1 / den1 <= num2 /
/// den2` the quantile bin of the first share is at or below that of the
/// second.
pub proof fn law_quantile_monotone(
    h: Seq<u64>,
    num1: int,
    den1: int,
    i1: int,
    num2: int,
    den2: int,
    i2: int,
)
    requires
        0 < den1,
        0 < den2,
        0 <= num1,
        num1 * den2 <= num2 * den1,
        is_quantile_index(h, num1, den1, i1),
        is_quantile_index(h, num2, den2, i2),
    ensures
        i1 <= i2,
{
    let p = prefix_total(h, i2 + 1);
    let t = total(h);
    lemma_prefix_monotone(h, 0, h.len() as int);
    assert(p * den1 >= t * num1) by (nonlinear_arith)
        requires
            p * den2 >= t * num2,
            num1 * den2 <= num2 * den1,
            0 < den1,
            0 < den2,
            0 <= t,
    {
        assert(p * den2 * den1 >= t * num2 * den1);
        assert(t * num2 * den1 >= t * num1 * den2);
    }
    if i2 < i1 {
        assert(prefix_total(h, i2 + 1) * den1 < total(h) * num1);
    }
}

/// Reads a binary box from its grey-level histogram: the box is checked when
/// its median grey level is at most `CHECKED_MAX_LEVEL`, that is, when at
/// least half of its pixels have a level of at most `CHECKED_MAX_LEVEL`.
/// A box without pixels has no answer.
pub fn binary_box_analysis(hist: &[u64]) -> (r: Result<Answer, AnalysisError>)
    requires
        hist@.len() == HIST_BINS,
        total(hist@) <= u64::MAX,
    ensures
        r == if total(hist@) == 0 {
            Err(AnalysisError::EmptyBox)
        } else {
            Ok(
                Answer::Binary(
                    2 * prefix_total(hist@, CHECKED_MAX_LEVEL + 1) >= total(hist@),
                ),
            )
        },
{
    match index_quartile(hist, 1, 2) {
        None => Err(AnalysisError::EmptyBox),
        Some(i) => {
            proof {
                law_quantile_threshold(hist@, 1, 2, i as int, CHECKED_MAX_LEVEL as int);
            }
            Ok(Answer::Binary(i <= CHECKED_MAX_LEVEL))
        },
    }
}

/// A non-empty box of pixels reads as checked exactly when at least half of
/// its pixels have a grey level of at most `CHECKED_MAX_LEVEL`.
pub proof fn law_box_checked_iff_half_dark(pixels: Seq<u8>, h: Seq<u64>)
    requires
        h.len() == HIST_BINS,
        forall|v: int| 0 <= v < HIST_BINS ==> h[v] == count_level(pixels, v),
    ensures
        total(h) == pixels.len(),
        (2 * prefix_total(h, CHECKED_MAX_LEVEL + 1) >= total(h)) == (2 * count_below(
            pixels,
            CHECKED_MAX_LEVEL + 1,
        ) >= pixels.len()),
{
    law_histogram_total(pixels, h);
    assert(prefix_total(h, CHECKED_MAX_LEVEL + 1) == count_below(pixels, CHECKED_MAX_LEVEL + 1));
}

/// Darkening pixels never lowers the number of pixels below a level.
proof fn lemma_darker_counts_more(p1: Seq<u8>, p2: Seq<u8>, k: int)
    requires
        p1.len() == p2.len(),
        forall|i: int| 0 <= i < p1.len() ==> p2[i] <= p1[i],
        0 <= k,
    ensures
        count_below(p2, k) >= count_below(p1, k),
    decreases p1.len(),
{
    if p1.len() == 0 {
        lemma_count_below_zero(p1, k);
        lemma_count_below_zero(p2, k);
    } else {
        let d1 = p1.drop_last();
        let d2 = p2.drop_last();
        assert forall|i: int| 0 <= i < d1.len() implies d2[i] <= d1[i] by {
            assert(d1[i] == p1[i] && d2[i] == p2[i]);
        }
        lemma_darker_counts_more(d1, d2, k);
        lemma_count_below_step(p1, k);
        lemma_count_below_step(p2, k);
        assert(p2.last() <= p1.last());
    }
}

/// Darkening a box never un-checks it: when every pixel of the second box
/// is at least as dark as the pixel at the same place in the first box,
/// the second box holds at least as many pixels of a level of at most
/// `CHECKED_MAX_LEVEL`, so it reads as checked whenever the first does.
pub proof fn law_darkening_keeps_checked(p1: Seq<u8>, h1: Seq<u64>, p2: Seq<u8>, h2: Seq<u64>)
    requires
        p1.len() == p2.len(),
        forall|i: int| 0 <= i < p1.len() ==> p2[i] <= p1[i],
        h1.len() == HIST_BINS,
        forall|v: int| 0 <= v < HIST_BINS ==> h1[v] == count_level(p1, v),
        h2.len() == HIST_BINS,
        forall|v: int| 0 <= v < HIST_BINS ==> h2[v] == count_level(p2, v),
    ensures
        total(h1) == total(h2),
        prefix_total(h2, CHECKED_MAX_LEVEL + 1) >= prefix_total(h1, CHECKED_MAX_LEVEL + 1),
        2 * prefix_total(h1, CHECKED_MAX_LEVEL + 1) >= total(h1) ==> 2 * prefix_total(
            h2,
            CHECKED_MAX_LEVEL + 1,
        ) >= total(h2),
{
    law_histogram_total(p1, h1);
    law_histogram_total(p2, h2);
    assert(prefix_total(h1, CHECKED_MAX_LEVEL + 1) == count_below(p1, CHECKED_MAX_LEVEL + 1));
    assert(prefix_total(h2, CHECKED_MAX_LEVEL + 1) == count_below(p2, CHECKED_MAX_LEVEL + 1));
    lemma_darker_counts_more(p1, p2, CHECKED_MAX_LEVEL + 1);
}

proof fn lemma_u64_product_fits(a: u64, b: u64)
    ensures
        (a as int) * (b as int) <= u128::MAX,
{
    assert((a as int) * (b as int) <= (u64::MAX as int) * (u64::MAX as int)) by (nonlinear_arith)
        requires
            a <= u64::MAX,
            b <= u64::MAX,
            0 <= a,
            0 <= b,
    ;
}

} // verus!
