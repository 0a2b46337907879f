use vstd::prelude::*;

use crate::gray::GrayImage;

verus! {

/// The classification rule for one pixel: with the weight given in hundredths,
/// `e >= b * (1 - weight)` reads `100 * e >= b * (100 - weight)`.
pub open spec fn passes(e: u8, b: u8, weight_pct: u32) -> bool {
    100 * (e as int) >= (b as int) * (100 - weight_pct as int)
}

/// The output sample for one pixel: white when it passes, black otherwise.
pub open spec fn threshold_value(e: u8, b: u8, weight_pct: u32) -> u8 {
    if passes(e, b, weight_pct) {
        255
    } else {
        0
    }
}

/// The binary image, sample by sample, for an enhanced image and its blur.
pub open spec fn threshold_seq(e: Seq<u8>, b: Seq<u8>, weight_pct: u32) -> Seq<u8> {
    Seq::new(e.len(), |i: int| threshold_value(e[i], b[i], weight_pct))
}

/// Classifies one pixel against its local baseline.
pub fn threshold_pixel(e: u8, b: u8, weight_pct: u32) -> (r: u8)
    requires
        weight_pct <= 100,
    ensures
        r == threshold_value(e, b, weight_pct),
{
    let margin: u32 = 100 - weight_pct;
    assert((b as u32) * margin <= 255 * 100) by (nonlinear_arith)
        requires
            b <= 255,
            margin <= 100,
    ;
    if 100 * (e as u32) >= (b as u32) * margin {
        255
    } else {
        0
    }
}

/// Binarizes `enhanced` against its blurred copy `blurred`.
pub fn adaptive_threshold(enhanced: &GrayImage, blurred: &GrayImage, weight_pct: u32) -> (r:
    GrayImage)
    requires
        enhanced.wf(),
        blurred.wf(),
        blurred.spec_width() == enhanced.spec_width(),
        blurred.spec_height() == enhanced.spec_height(),
        weight_pct <= 100,
    ensures
        r.wf(),
        r.spec_width() == enhanced.spec_width(),
        r.spec_height() == enhanced.spec_height(),
        r@ == threshold_seq(enhanced@, blurred@, weight_pct),
        forall|i: int| 0 <= i < r@.len() ==> r@[i] == 0 || r@[i] == 255,
{
    let e = enhanced.pixels();
    let b = blurred.pixels();
    let n = e.len();
    let mut out: Vec<u8> = Vec::with_capacity(n);
    let mut i: usize = 0;
    while i < n
        invariant
            e@ == enhanced@,
            b@ == blurred@,
            n == e@.len(),
            b@.len() == n,
            weight_pct <= 100,
            i <= n,
            out@.len() == i,
            forall|j: int| 0 <= j < i ==> out@[j] == threshold_value(e@[j], b@[j], weight_pct),
        decreases n - i,
    {
        let v = threshold_pixel(e[i], b[i], weight_pct);
        out.push(v);
        i = i + 1;
    }
    assert(out@ =~= threshold_seq(enhanced@, blurred@, weight_pct));
    let r = GrayImage::new(enhanced.width(), enhanced.height(), out);
    r.unwrap()
}

/// The number of white samples.
pub open spec fn count_foreground(s: Seq<u8>) -> nat
    decreases s.len(),
{
    if s.len() == 0 {
        0
    } else {
        count_foreground(s.drop_last()) + if s.last() == 255 {
            1nat
        } else {
            0nat
        }
    }
}

/// Every output sample is black or white, whatever the inputs and the weight.
pub proof fn lemma_binary_range(e: Seq<u8>, b: Seq<u8>, weight_pct: u32)
    ensures
        forall|i: int|
            0 <= i < threshold_seq(e, b, weight_pct).len() ==> threshold_seq(e, b, weight_pct)[i]
                == 0 || threshold_seq(e, b, weight_pct)[i] == 255,
{
}

/// The output keeps the number of samples of the enhanced image.
pub proof fn lemma_same_size(e: Seq<u8>, b: Seq<u8>, weight_pct: u32)
    ensures
        threshold_seq(e, b, weight_pct).len() == e.len(),
{
}

/// Each output sample depends only on the two input samples at its own index,
/// so the samples may be computed in any order, or in parallel, with the same
/// result.
pub proof fn lemma_pixelwise(e1: Seq<u8>, b1: Seq<u8>, e2: Seq<u8>, b2: Seq<u8>, weight_pct: u32, i: int)
    requires
        0 <= i < e1.len(),
        0 <= i < e2.len(),
        e1[i] == e2[i],
        b1[i] == b2[i],
    ensures
        threshold_seq(e1, b1, weight_pct)[i] == threshold_seq(e2, b2, weight_pct)[i],
{
}

/// Equal inputs and an equal weight give the same binary image.
pub proof fn lemma_deterministic(e1: Seq<u8>, b1: Seq<u8>, e2: Seq<u8>, b2: Seq<u8>, weight_pct: u32)
    requires
        e1 == e2,
        b1 == b2,
    ensures
        threshold_seq(e1, b1, weight_pct) == threshold_seq(e2, b2, weight_pct),
{
}

/// A pixel equal to its baseline is white: the comparison is inclusive.
pub proof fn lemma_tie(v: u8, weight_pct: u32)
    requires
        weight_pct <= 100,
    ensures
        threshold_value(v, v, weight_pct) == 255,
{
    assert((v as int) * (100 - weight_pct as int) <= 100 * (v as int)) by (nonlinear_arith)
        requires
            0 <= v,
            0 <= 100 - weight_pct as int <= 100,
    ;
}

/// A pixel whose baseline is 0 is white, whatever its own value.
pub proof fn lemma_zero_baseline(e: u8, weight_pct: u32)
    ensures
        threshold_value(e, 0, weight_pct) == 255,
{
}

/// Where the enhanced image equals its blur (a flat image), every sample is white.
pub proof fn lemma_flat_all_foreground(e: Seq<u8>, weight_pct: u32)
    requires
        weight_pct <= 100,
    ensures
        forall|i: int| 0 <= i < e.len() ==> threshold_seq(e, e, weight_pct)[i] == 255,
        count_foreground(threshold_seq(e, e, weight_pct)) == e.len(),
{
    assert forall|i: int| 0 <= i < e.len() implies threshold_seq(e, e, weight_pct)[i] == 255 by {
        lemma_tie(e[i], weight_pct);
    }
    lemma_count_all(threshold_seq(e, e, weight_pct));
}

proof fn lemma_count_all(s: Seq<u8>)
    requires
        forall|i: int| 0 <= i < s.len() ==> s[i] == 255,
    ensures
        count_foreground(s) == s.len(),
    decreases s.len(),
{
    if s.len() > 0 {
        lemma_count_all(s.drop_last());
    }
}

/// A larger weight lowers the threshold: a pixel white under one weight stays
/// white under any larger one.
pub proof fn lemma_weight_monotone_pixel(e: u8, b: u8, w1: u32, w2: u32)
    requires
        w1 <= w2,
        threshold_value(e, b, w1) == 255,
    ensures
        threshold_value(e, b, w2) == 255,
{
    assert((b as int) * (100 - w2 as int) <= (b as int) * (100 - w1 as int)) by (nonlinear_arith)
        requires
            0 <= b,
            w1 <= w2,
    ;
}

/// Raising the weight, with the same images, never lowers the number of white
/// samples.
pub proof fn lemma_weight_monotone(e: Seq<u8>, b: Seq<u8>, w1: u32, w2: u32)
    requires
        w1 <= w2,
        b.len() == e.len(),
    ensures
        count_foreground(threshold_seq(e, b, w1)) <= count_foreground(threshold_seq(e, b, w2)),
{
    let s1 = threshold_seq(e, b, w1);
    let s2 = threshold_seq(e, b, w2);
    assert forall|i: int| 0 <= i < s1.len() && s1[i] == 255 implies s2[i] == 255 by {
        lemma_weight_monotone_pixel(e[i], b[i], w1, w2);
    }
    lemma_count_le(s1, s2);
}

proof fn lemma_count_le(s1: Seq<u8>, s2: Seq<u8>)
    requires
        s1.len() == s2.len(),
        forall|i: int| 0 <= i < s1.len() && s1[i] == 255 ==> s2[i] == 255,
    ensures
        count_foreground(s1) <= count_foreground(s2),
    decreases s1.len(),
{
    if s1.len() > 0 {
        lemma_count_le(s1.drop_last(), s2.drop_last());
    }
}

} // verus!
