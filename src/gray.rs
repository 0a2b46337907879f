use vstd::prelude::*;

verus! {

/// A single-channel 8-bit image stored row by row.
pub struct GrayImage {
    width: u32,
    height: u32,
    pixels: Vec<u8>,
}

impl GrayImage {
    /// The image is well formed when it holds exactly one sample per pixel.
    pub open spec fn wf(&self) -> bool {
        self.view().len() == self.spec_width() as int * self.spec_height() as int
    }

    pub closed spec fn spec_width(&self) -> u32 {
        self.width
    }

    pub closed spec fn spec_height(&self) -> u32 {
        self.height
    }

    /// The samples, row by row.
    pub closed spec fn view(&self) -> Seq<u8> {
        self.pixels@
    }

    /// Builds an image from its samples; `None` unless there is exactly one
    /// sample per pixel.
    pub fn new(width: u32, height: u32, pixels: Vec<u8>) -> (r: Option<GrayImage>)
        ensures
            r.is_some() <==> pixels@.len() == width as int * height as int,
            r matches Some(img) ==> img.wf() && img.spec_width() == width
                && img.spec_height() == height && img@ == pixels@,
    {
        assert((width as u128) * (height as u128) <= 0xffff_ffff_ffff_ffff_ffff_ffff_ffff_ffffu128)
            by (nonlinear_arith)
            requires
                width <= 0xffff_ffffu32,
                height <= 0xffff_ffffu32,
        ;
        let area: u128 = (width as u128) * (height as u128);
        if (pixels.len() as u128) == area {
            Some(GrayImage { width, height, pixels })
        } else {
            None
        }
    }

    pub fn width(&self) -> (r: u32)
        ensures
            r == self.spec_width(),
    {
        self.width
    }

    pub fn height(&self) -> (r: u32)
        ensures
            r == self.spec_height(),
    {
        self.height
    }

    /// The samples, row by row.
    pub fn pixels(&self) -> (r: &Vec<u8>)
        ensures
            r@ == self@,
    {
        &self.pixels
    }

    /// Hands the samples back, row by row.
    pub fn into_pixels(self) -> (r: Vec<u8>)
        ensures
            r@ == self@,
    {
        self.pixels
    }
}

} // verus!
