use adaptive_binarize::{
    adaptive_threshold, derive_params, enhance, enhance_and_derive, image_stats, threshold_pixel,
    GrayImage, Params,
};

fn flat(width: u32, height: u32, value: u8) -> GrayImage {
    GrayImage::new(width, height, vec![value; (width * height) as usize]).unwrap()
}

/// Half the samples at `mean - dev`, half at `mean + dev`: standard deviation `dev`.
fn two_level(dev: u8) -> GrayImage {
    let mut px = Vec::new();
    for i in 0..100u32 {
        px.push(if i % 2 == 0 { 128 - dev } else { 128 + dev });
    }
    GrayImage::new(10, 10, px).unwrap()
}

fn blur(img: &GrayImage, params: &Params) -> GrayImage {
    let buf = image::GrayImage::from_raw(img.width(), img.height(), img.pixels().clone()).unwrap();
    let sigma = params.radius_thirtieths as f32 / 30.0;
    let out = imageproc::filter::gaussian_blur_f32(&buf, sigma);
    GrayImage::new(img.width(), img.height(), out.into_raw()).unwrap()
}

fn count_white(img: &GrayImage) -> usize {
    img.pixels().iter().filter(|&&v| v == 255).count()
}

#[test]
fn new_checks_sample_count() {
    assert!(GrayImage::new(2, 3, vec![0; 6]).is_some());
    assert!(GrayImage::new(2, 3, vec![0; 5]).is_none());
    assert!(GrayImage::new(2, 3, vec![0; 7]).is_none());
    let img = GrayImage::new(0, 0, Vec::new()).unwrap();
    assert_eq!(img.width(), 0);
    assert_eq!(img.height(), 0);
}

#[test]
fn params_reject_invalid_values() {
    assert!(Params::new(0, 10).is_none());
    assert!(Params::new(150, 0).is_none());
    assert!(Params::new(150, 100).is_none());
    let p = Params::new(150, 12).unwrap();
    assert_eq!(p.radius_thirtieths, 150);
    assert_eq!(p.weight_pct, 12);
}

#[test]
fn pixel_rule_exact_values() {
    // 100 * 100 >= 200 * 88 fails: black.
    assert_eq!(threshold_pixel(100, 200, 12), 0);
    // 100 * 176 >= 200 * 88 holds with equality: white.
    assert_eq!(threshold_pixel(176, 200, 12), 255);
    assert_eq!(threshold_pixel(175, 200, 12), 0);
    assert_eq!(threshold_pixel(190, 200, 5), 255);
    assert_eq!(threshold_pixel(189, 200, 5), 0);
}

#[test]
fn tie_is_foreground() {
    for v in [0u8, 1, 128, 255] {
        for w in [5u32, 8, 12] {
            assert_eq!(threshold_pixel(v, v, w), 255);
        }
    }
    let img = flat(1, 1, 77);
    let out = adaptive_threshold(&img, &img, 12);
    assert_eq!(out.pixels(), &vec![255u8]);
}

#[test]
fn zero_baseline_is_foreground() {
    let e = GrayImage::new(3, 1, vec![0, 10, 255]).unwrap();
    let b = flat(3, 1, 0);
    let out = adaptive_threshold(&e, &b, 5);
    assert_eq!(out.pixels(), &vec![255u8, 255, 255]);
}

#[test]
fn output_is_binary_and_same_size() {
    let e = GrayImage::new(4, 2, vec![0, 50, 100, 150, 200, 250, 30, 90]).unwrap();
    let b = GrayImage::new(4, 2, vec![10, 60, 120, 200, 180, 255, 100, 90]).unwrap();
    let out = adaptive_threshold(&e, &b, 8);
    assert_eq!(out.width(), 4);
    assert_eq!(out.height(), 2);
    assert_eq!(out.pixels(), &vec![0u8, 0, 0, 0, 255, 255, 0, 255]);
    assert!(out.pixels().iter().all(|&v| v == 0 || v == 255));
}

#[test]
fn threshold_is_deterministic() {
    let e = GrayImage::new(3, 2, vec![5, 90, 180, 33, 240, 12]).unwrap();
    let b = GrayImage::new(3, 2, vec![40, 100, 170, 60, 250, 13]).unwrap();
    let a = adaptive_threshold(&e, &b, 12);
    let c = adaptive_threshold(&e, &b, 12);
    assert_eq!(a.pixels(), c.pixels());
}

#[test]
fn larger_weight_never_loses_foreground() {
    let e = GrayImage::new(4, 1, vec![80, 90, 95, 100]).unwrap();
    let b = flat(4, 1, 100);
    let counts: Vec<usize> = [0u32, 5, 8, 12, 20]
        .iter()
        .map(|&w| count_white(&adaptive_threshold(&e, &b, w)))
        .collect();
    assert_eq!(counts, vec![1, 2, 2, 3, 4]);
}

#[test]
fn radius_follows_shorter_side() {
    for (w, h, expected) in [(60u32, 80u32, 150u32), (300, 400, 300), (1300, 1200, 900)] {
        let stats = image_stats(&flat(w, h, 0));
        assert_eq!(stats.min_side, w.min(h));
        assert_eq!(derive_params(&stats).radius_thirtieths, expected);
    }
}

#[test]
fn weight_buckets() {
    for (dev, expected) in [(29u8, 12u32), (30, 8), (31, 8), (59, 8), (60, 5), (61, 5)] {
        let stats = image_stats(&two_level(dev));
        assert_eq!(stats.count, 100);
        assert_eq!(derive_params(&stats).weight_pct, expected, "deviation {}", dev);
    }
    let flat_stats = image_stats(&flat(5, 5, 200));
    assert_eq!(flat_stats.sum, 5000);
    assert_eq!(flat_stats.sum_sq, 1_000_000);
    assert_eq!(derive_params(&flat_stats).weight_pct, 12);
}

#[test]
fn empty_image_takes_last_bucket() {
    let stats = image_stats(&flat(0, 7, 0));
    assert_eq!(stats.count, 0);
    let p = derive_params(&stats);
    assert_eq!(p.weight_pct, 5);
    assert_eq!(p.radius_thirtieths, 150);
}

#[test]
fn enhance_stretches_histogram() {
    let img = GrayImage::new(2, 1, vec![0, 100]).unwrap();
    let out = enhance(img);
    assert_eq!(out.width(), 2);
    assert_eq!(out.height(), 1);
    assert_eq!(out.pixels(), &vec![127u8, 255]);
}

#[test]
fn enhance_keeps_intensity_order() {
    let img = GrayImage::new(3, 2, vec![40, 10, 200, 10, 90, 40]).unwrap();
    let src = img.pixels().clone();
    let out = enhance(img);
    for i in 0..6 {
        for j in 0..6 {
            if src[i] <= src[j] {
                assert!(out.pixels()[i] <= out.pixels()[j]);
            }
        }
    }
}

#[test]
fn uniform_gray_becomes_all_white() {
    let raw = flat(100, 100, 128);
    let (enhanced, params) = enhance_and_derive(raw);
    assert_eq!(enhanced.width(), 100);
    assert_eq!(enhanced.height(), 100);
    assert_eq!(params.radius_thirtieths, 150);
    assert_eq!(params.weight_pct, 12);
    let blurred = blur(&enhanced, &params);
    let out = adaptive_threshold(&enhanced, &blurred, params.weight_pct);
    assert_eq!(out.width(), 100);
    assert_eq!(out.height(), 100);
    assert!(out.pixels().iter().all(|&v| v == 255));
}
