//! Plain raster images: RGB bytes in row-major order, three bytes per pixel.

use vstd::prelude::*;

verus! {

/// A decoded raster image. `rgb` holds the red, green and blue channel of
/// every pixel in row-major order, so pixel `(x, y)` starts at byte
/// `3 * (y * width + x)`.
pub struct Image {
    pub width: u32,
    pub height: u32,
    pub rgb: Vec<u8>,
}

/// Why a raw buffer was rejected as an image.
#[derive(PartialEq, Eq, Structural, Debug, Clone, Copy)]
pub enum ImageError {
    /// The buffer length does not match the declared dimensions, or a
    /// dimension is zero.
    InvalidImage,
}

/// The color of pixel `(x, y)` of a row-major RGB byte sequence of width `w`.
pub open spec fn pixel_at(rgb: Seq<u8>, w: int, x: int, y: int) -> (u8, u8, u8) {
    let base = 3 * (y * w + x);
    (rgb[base], rgb[base + 1], rgb[base + 2])
}

impl Image {
    /// A well-formed image is at least 1x1 and its buffer holds exactly
    /// three bytes per pixel.
    pub open spec fn wf(&self) -> bool {
        &&& 1 <= self.width
        &&& 1 <= self.height
        &&& self.rgb@.len() == 3 * (self.width as int) * (self.height as int)
    }

    /// The color of pixel `(x, y)`.
    pub open spec fn spec_pixel(&self, x: int, y: int) -> (u8, u8, u8) {
        pixel_at(self.rgb@, self.width as int, x, y)
    }

    /// Builds an image from a raw buffer, rejecting one whose length does
    /// not match the declared dimensions.
    pub fn new(width: u32, height: u32, rgb: Vec<u8>) -> (r: Result<Image, ImageError>)
        ensures
            r is Ok <==> (1 <= width && 1 <= height && rgb@.len() == 3 * (width as int) * (
            height as int)),
            r matches Ok(img) ==> img.width == width && img.height == height && img.rgb@ == rgb@
                && img.wf(),
            r is Err ==> r == Err::<Image, ImageError>(ImageError::InvalidImage),
    {
        if width == 0 || height == 0 {
            return Err(ImageError::InvalidImage);
        }
        proof {
            assert(3 * (width as int) * (height as int) <= 3 * 0xffff_ffff * 0xffff_ffff)
                by (nonlinear_arith)
                requires
                    width <= 0xffff_ffffu32,
                    height <= 0xffff_ffffu32,
            ;
        }
        let expected: u128 = 3u128 * (width as u128) * (height as u128);
        if (rgb.len() as u128) != expected {
            return Err(ImageError::InvalidImage);
        }
        Ok(Image { width, height, rgb })
    }

    /// Reads pixel `(x, y)`.
    pub fn get_pixel(&self, x: u32, y: u32) -> (c: (u8, u8, u8))
        requires
            self.wf(),
            x < self.width,
            y < self.height,
        ensures
            c == self.spec_pixel(x as int, y as int),
    {
        let buf_len: usize = self.rgb.len();
        proof {
            assert(buf_len == 3 * (self.width as int) * (self.height as int));
            lemma_pixel_base_in_bounds(
                self.width as int,
                self.height as int,
                x as int,
                y as int,
            );
        }
        let base: usize = 3 * ((y as usize) * (self.width as usize) + (x as usize));
        (self.rgb[base], self.rgb[base + 1], self.rgb[base + 2])
    }
}

/// The first byte of pixel `(x, y)` lies inside a `3 * w * h` buffer, with
/// room for all three channels.
pub proof fn lemma_pixel_base_in_bounds(w: int, h: int, x: int, y: int)
    requires
        1 <= w,
        1 <= h,
        0 <= x < w,
        0 <= y < h,
    ensures
        0 <= 3 * (y * w + x),
        3 * (y * w + x) + 2 < 3 * w * h,
{
    assert(3 * (y * w + x) + 2 < 3 * w * h && 0 <= y * w + x) by (nonlinear_arith)
        requires
            1 <= w,
            1 <= h,
            0 <= x < w,
            0 <= y < h,
    ;
}

} // verus!
