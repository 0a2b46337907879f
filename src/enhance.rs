use vstd::prelude::*;

use crate::gray::GrayImage;
use crate::params::{
    derive_params, image_stats, radius_thirtieths_for, sum_of, sum_sq_of, weight_for, Params,
};

verus! {

/// The samples after histogram equalization of an image with samples `px`.
pub uninterp spec fn equalized(px: Seq<u8>) -> Seq<u8>;

/// Relies on `imageproc::contrast::equalize_histogram_mut`: it maps every
/// sample through the cumulative histogram of the image, so the result depends
/// on the samples alone, keeps their number, and never makes a brighter sample
/// darker than a dimmer one. Its histogram counts in `u32`.
#[verifier::external_body]
fn equalize_samples(width: u32, height: u32, pixels: Vec<u8>) -> (r: Vec<u8>)
    requires
        pixels@.len() == width as int * height as int,
        pixels@.len() <= u32::MAX,
    ensures
        r@ == equalized(pixels@),
        r@.len() == pixels@.len(),
        forall|i: int, j: int|
            0 <= i < r@.len() && 0 <= j < r@.len() && pixels@[i] <= pixels@[j] ==> r@[i] <= r@[j],
{
    let mut img = image::GrayImage::from_raw(width, height, pixels).unwrap();
    imageproc::contrast::equalize_histogram_mut(&mut img);
    img.into_raw()
}

/// Stretches the contrast of an image by histogram equalization; the size is
/// kept and the order of intensities is preserved.
pub fn enhance(img: GrayImage) -> (r: GrayImage)
    requires
        img.wf(),
        img@.len() <= u32::MAX,
    ensures
        r.wf(),
        r.spec_width() == img.spec_width(),
        r.spec_height() == img.spec_height(),
        r@ == equalized(img@),
        forall|i: int, j: int|
            0 <= i < r@.len() && 0 <= j < r@.len() && img@[i] <= img@[j] ==> r@[i] <= r@[j],
{
    let w = img.width();
    let h = img.height();
    let px = img.into_pixels();
    let out = equalize_samples(w, h, px);
    GrayImage::new(w, h, out).unwrap()
}

/// Enhances a raw image and derives the binarization parameters from the
/// statistics of the enhanced image (not of the raw one).
pub fn enhance_and_derive(raw: GrayImage) -> (r: (GrayImage, Params))
    requires
        raw.wf(),
        raw@.len() <= u32::MAX,
    ensures
        r.0.wf(),
        r.0.spec_width() == raw.spec_width(),
        r.0.spec_height() == raw.spec_height(),
        r.0@ == equalized(raw@),
        r.1.wf(),
        r.1.radius_thirtieths == radius_thirtieths_for(
            if raw.spec_width() <= raw.spec_height() {
                raw.spec_width()
            } else {
                raw.spec_height()
            },
        ),
        r.1.weight_pct == weight_for(
            raw@.len() as int,
            sum_of(equalized(raw@)),
            sum_sq_of(equalized(raw@)),
        ),
{
    let enhanced = enhance(raw);
    let stats = image_stats(&enhanced);
    let params = derive_params(&stats);
    (enhanced, params)
}

} // verus!
