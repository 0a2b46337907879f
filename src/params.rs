use vstd::prelude::*;

use crate::gray::GrayImage;
use vstd::arithmetic::div_mod::{lemma_fundamental_div_mod, lemma_mod_pos_bound};

verus! {

/// Sum of the samples.
pub open spec fn sum_of(s: Seq<u8>) -> int
    decreases s.len(),
{
    if s.len() == 0 {
        0
    } else {
        sum_of(s.drop_last()) + s.last() as int
    }
}

/// Sum of the squared samples.
pub open spec fn sum_sq_of(s: Seq<u8>) -> int
    decreases s.len(),
{
    if s.len() == 0 {
        0
    } else {
        sum_sq_of(s.drop_last()) + (s.last() as int) * (s.last() as int)
    }
}

/// `n * sum_sq - sum * sum`, which is `n * n` times the variance of the
/// samples (the squared standard deviation).
pub open spec fn spread(n: int, sum: int, sum_sq: int) -> int {
    n * sum_sq - sum * sum
}

/// The weight, in hundredths, for a given contrast: the standard deviation
/// `sigma` is compared with 30 and 60 by comparing `n * n * sigma * sigma`
/// with `n * n * 900` and `n * n * 3600`. An empty image falls in the last
/// bucket.
pub open spec fn weight_for(n: int, sum: int, sum_sq: int) -> u32 {
    if spread(n, sum, sum_sq) < 900 * n * n {
        12
    } else if spread(n, sum, sum_sq) < 3600 * n * n {
        8
    } else {
        5
    }
}

/// The blur radius in thirtieths of a pixel: `clamp(min_side / 30, 5, 30)`
/// times 30.
pub open spec fn radius_thirtieths_for(min_side: u32) -> u32 {
    if min_side < 150 {
        150
    } else if min_side > 900 {
        900
    } else {
        min_side
    }
}

/// The radius always lies between 5 and 30 pixels.
pub proof fn lemma_radius_bounds(min_side: u32)
    ensures
        150 <= radius_thirtieths_for(min_side) <= 900,
{
}

/// A higher contrast never selects a larger weight: for the same number of
/// samples, a larger spread gives a weight no larger.
pub proof fn lemma_weight_falls_with_contrast(n: int, sum1: int, sq1: int, sum2: int, sq2: int)
    requires
        spread(n, sum1, sq1) <= spread(n, sum2, sq2),
    ensures
        weight_for(n, sum2, sq2) <= weight_for(n, sum1, sq1),
{
}

/// Global statistics of an image: its number of samples, the sum of the
/// samples and of their squares, and its shorter side.
pub struct ImageStats {
    pub count: u64,
    pub sum: u128,
    pub sum_sq: u128,
    pub min_side: u32,
}

impl ImageStats {
    /// The sums are those of `count` samples in `[0, 255]`.
    pub open spec fn wf(&self) -> bool {
        self.sum <= 255 * self.count && self.sum_sq <= 65025 * self.count
    }
}

/// The two parameters of the binarization: the blur radius, in thirtieths of a
/// pixel, and the sensitivity weight, in hundredths.
pub struct Params {
    pub radius_thirtieths: u32,
    pub weight_pct: u32,
}

impl Params {
    /// A positive radius and a weight strictly between 0 and 1.
    pub open spec fn wf(&self) -> bool {
        self.radius_thirtieths > 0 && 0 < self.weight_pct < 100
    }

    /// Fixed parameters; `None` unless the radius is positive and the weight
    /// lies strictly between 0 and 100 hundredths.
    pub fn new(radius_thirtieths: u32, weight_pct: u32) -> (r: Option<Params>)
        ensures
            r.is_some() <==> radius_thirtieths > 0 && 0 < weight_pct < 100,
            r matches Some(p) ==> p.wf() && p.radius_thirtieths == radius_thirtieths
                && p.weight_pct == weight_pct,
    {
        if radius_thirtieths > 0 && 0 < weight_pct && weight_pct < 100 {
            Some(Params { radius_thirtieths, weight_pct })
        } else {
            None
        }
    }
}

proof fn lemma_sums_step(s: Seq<u8>, i: int)
    requires
        0 <= i < s.len(),
    ensures
        sum_of(s.take(i + 1)) == sum_of(s.take(i)) + s[i] as int,
        sum_sq_of(s.take(i + 1)) == sum_sq_of(s.take(i)) + (s[i] as int) * (s[i] as int),
{
    assert(s.take(i + 1).drop_last() =~= s.take(i));
}

/// Computes the global statistics of an image in one pass.
pub fn image_stats(img: &GrayImage) -> (r: ImageStats)
    requires
        img.wf(),
    ensures
        r.wf(),
        r.count == img@.len(),
        r.sum == sum_of(img@),
        r.sum_sq == sum_sq_of(img@),
        r.min_side == if img.spec_width() <= img.spec_height() {
            img.spec_width()
        } else {
            img.spec_height()
        },
{
    let px = img.pixels();
    let n = px.len();
    let mut sum: u128 = 0;
    let mut sum_sq: u128 = 0;
    let mut i: usize = 0;
    while i < n
        invariant
            px@ == img@,
            n == px@.len(),
            i <= n,
            sum == sum_of(px@.take(i as int)),
            sum_sq == sum_sq_of(px@.take(i as int)),
            sum <= 255 * i,
            sum_sq <= 65025 * i,
        decreases n - i,
    {
        let v = px[i];
        proof {
            lemma_sums_step(px@, i as int);
            assert((v as int) * (v as int) <= 65025) by (nonlinear_arith)
                requires
                    v <= 255,
            ;
        }
        sum = sum + v as u128;
        sum_sq = sum_sq + (v as u128) * (v as u128);
        i = i + 1;
    }
    assert(px@.take(n as int) =~= px@);
    let w = img.width();
    let h = img.height();
    let min_side = if w <= h {
        w
    } else {
        h
    };
    ImageStats { count: n as u64, sum, sum_sq, min_side }
}

/// Whether `spread(n, sum, sum_sq) < t * n * n`, decided without overflow.
///
/// With `sum == q * n + rem`, the spread is `n * c - rem * rem` where
/// `c == sum_sq - q * q * n - 2 * q * rem`, so the comparison reads
/// `n * (c - t * n) < rem * rem`, whose operands stay small.
fn spread_below(n: u64, sum: u128, sum_sq: u128, t: u32) -> (r: bool)
    requires
        n > 0,
        sum <= 255 * n,
        sum_sq <= 65025 * n,
        t <= 3600,
    ensures
        r == (spread(n as int, sum as int, sum_sq as int) < (t as int) * (n as int) * (n as int)),
{
    let nn = n as u128;
    let q: u128 = sum / nn;
    let rem: u128 = sum % nn;
    proof {
        lemma_fundamental_div_mod(sum as int, nn as int);
        lemma_mod_pos_bound(sum as int, nn as int);
        assert(q <= 255) by (nonlinear_arith)
            requires
                sum == nn * q + rem,
                sum <= 255 * nn,
                nn > 0,
                rem >= 0,
        ;
        assert(q * q <= 65025) by (nonlinear_arith)
            requires
                q <= 255,
        ;
        assert(q * q * nn <= 65025 * 0xffff_ffff_ffff_ffff) by (nonlinear_arith)
            requires
                q * q <= 65025,
                nn <= 0xffff_ffff_ffff_ffff,
        ;
        assert((t as int) * (n as int) <= 3600 * 0xffff_ffff_ffff_ffff) by (nonlinear_arith)
            requires
                t <= 3600,
                n <= 0xffff_ffff_ffff_ffff,
        ;
        assert(2 * q * rem <= 510 * 0xffff_ffff_ffff_ffff) by (nonlinear_arith)
            requires
                q <= 255,
                rem < nn,
                nn <= 0xffff_ffff_ffff_ffff,
        ;
    }
    let qq: u128 = q * q;
    let c: i128 = sum_sq as i128 - (qq * nn) as i128 - (2 * q * rem) as i128;
    let d: i128 = c - (t as i128) * (n as i128);
    proof {
        let ni = n as int;
        let ri = rem as int;
        assert(ni * (sum_sq as int) - (sum as int) * (sum as int) == ni * (c as int) - ri * ri) by (nonlinear_arith)
            requires
                sum as int == ni * (q as int) + ri,
                c as int == sum_sq as int - (q as int) * (q as int) * ni - 2 * (q as int) * ri,
        ;
        assert(ni * (c as int) - ri * ri < (t as int) * ni * ni <==> ni * (d as int) < ri * ri)
            by (nonlinear_arith)
            requires
                d as int == c as int - (t as int) * ni,
        ;
        assert(spread(ni, sum as int, sum_sq as int) < (t as int) * ni * ni <==> ni * (d as int) < ri * ri);
    }
    let ghost prod = (n as int) * (d as int);
    let ghost sq = (rem as int) * (rem as int);
    if d < 0 {
        proof {
            assert((n as int) * (d as int) < 0) by (nonlinear_arith)
                requires
                    n > 0,
                    d < 0,
            ;
            assert((rem as int) * (rem as int) >= 0) by (nonlinear_arith);
            assert(prod < sq);
        }
        true
    } else if d == 0 {
        proof {
            assert((rem as int) * (rem as int) > 0 <==> rem != 0) by (nonlinear_arith)
                requires
                    rem >= 0,
            ;
        }
        assert(prod == 0) by (nonlinear_arith)
            requires
                prod == (n as int) * (d as int),
                d == 0,
        ;
        assert(rem != 0 <==> prod < sq);
        rem != 0
    } else if d >= n as i128 {
        proof {
            assert((n as int) * (d as int) >= (rem as int) * (rem as int)) by (nonlinear_arith)
                requires
                    d >= n,
                    0 <= rem < n,
            ;
        }
        assert(!(prod < sq));
        false
    } else {
        let du = d as u128;
        proof {
            assert(nn * du < 0x1_0000_0000_0000_0000 * 0x1_0000_0000_0000_0000) by (nonlinear_arith)
                requires
                    du < nn,
                    nn <= 0xffff_ffff_ffff_ffff,
            ;
            assert(rem * rem < 0x1_0000_0000_0000_0000 * 0x1_0000_0000_0000_0000) by (nonlinear_arith)
                requires
                    rem < nn,
                    nn <= 0xffff_ffff_ffff_ffff,
            ;
        }
        assert((nn * du < rem * rem) == (prod < sq));
        nn * du < rem * rem
    }
}

/// Derives the parameters from the statistics of the enhanced image: the radius
/// grows with the shorter side and is held to `[5, 30]` pixels, and the weight
/// falls as the standard deviation rises (12, 8 or 5 hundredths below 30,
/// below 60, and from 60 on).
pub fn derive_params(stats: &ImageStats) -> (r: Params)
    requires
        stats.wf(),
    ensures
        r.wf(),
        r.radius_thirtieths == radius_thirtieths_for(stats.min_side),
        r.weight_pct == weight_for(stats.count as int, stats.sum as int, stats.sum_sq as int),
{
    let radius_thirtieths = if stats.min_side < 150 {
        150
    } else if stats.min_side > 900 {
        900
    } else {
        stats.min_side
    };
    let weight_pct = if stats.count == 0 {
        assert(stats.sum == 0);
        assert(spread(0, 0, stats.sum_sq as int) == 0) by (nonlinear_arith);
        assert(weight_for(0, 0, stats.sum_sq as int) == 5);
        5
    } else if spread_below(stats.count, stats.sum, stats.sum_sq, 900) {
        12
    } else if spread_below(stats.count, stats.sum, stats.sum_sq, 3600) {
        8
    } else {
        5
    };
    Params { radius_thirtieths, weight_pct }
}

} // verus!
