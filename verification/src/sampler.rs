//! Palette sampling: one representative color per cell of a Cols x Rows
//! grid laid over a reference image, obtained by averaging a 3x3 patch of
//! pixels around the cell's center.

use vstd::prelude::*;

use crate::img::{pixel_at, Image};

verus! {

/// `v` clamped into `[lo, hi]`.
pub open spec fn clamp_int(v: int, lo: int, hi: int) -> int {
    if v < lo {
        lo
    } else if v > hi {
        hi
    } else {
        v
    }
}

/// The pixel at `(x, y)` after clamping both coordinates to the image
/// bounds, as the border handling of the 3x3 patch does.
pub open spec fn clamped_pixel(img: Image, x: int, y: int) -> (u8, u8, u8) {
    pixel_at(
        img.rgb@,
        img.width as int,
        clamp_int(x, 0, img.width - 1),
        clamp_int(y, 0, img.height - 1),
    )
}

/// Channel-wise sum of a running total and one more pixel.
pub open spec fn add_channels(t: (int, int, int), c: (u8, u8, u8)) -> (int, int, int) {
    (t.0 + c.0, t.1 + c.1, t.2 + c.2)
}

/// Channel-wise sum of the nine clamped pixels of the 3x3 patch centered
/// on `(cx, cy)`.
pub open spec fn patch_total(img: Image, cx: int, cy: int) -> (int, int, int) {
    let t0 = add_channels((0, 0, 0), clamped_pixel(img, cx - 1, cy - 1));
    let t1 = add_channels(t0, clamped_pixel(img, cx - 1, cy));
    let t2 = add_channels(t1, clamped_pixel(img, cx - 1, cy + 1));
    let t3 = add_channels(t2, clamped_pixel(img, cx, cy - 1));
    let t4 = add_channels(t3, clamped_pixel(img, cx, cy));
    let t5 = add_channels(t4, clamped_pixel(img, cx, cy + 1));
    let t6 = add_channels(t5, clamped_pixel(img, cx + 1, cy - 1));
    let t7 = add_channels(t6, clamped_pixel(img, cx + 1, cy));
    add_channels(t7, clamped_pixel(img, cx + 1, cy + 1))
}

/// The 3x3 patch average around `(cx, cy)`: each channel summed over the
/// nine clamped reads and divided by nine, truncating.
pub open spec fn spec_average_patch(img: Image, cx: int, cy: int) -> (u8, u8, u8) {
    let t = patch_total(img, cx, cy);
    ((t.0 / 9) as u8, (t.1 / 9) as u8, (t.2 / 9) as u8)
}

/// The pixel-space center of grid cell `k` of `n` along an axis of `dim`
/// pixels: `(k + 1/2) * dim / n` rounded to the nearest integer (halves
/// up), clamped to the last valid index.
pub open spec fn spec_cell_center(k: int, n: int, dim: int) -> int {
    let c = ((2 * k + 1) * dim + n) / (2 * n);
    if c > dim - 1 {
        dim - 1
    } else {
        c
    }
}

/// Palette entry `k` (row-major) of the Cols x Rows grid over `img`: the
/// patch average at the cell's center.
pub open spec fn spec_palette_entry(img: Image, cols: int, rows: int, k: int) -> (u8, u8, u8) {
    let row = k / cols;
    let col = k % cols;
    spec_average_patch(
        img,
        spec_cell_center(col, cols, img.width as int),
        spec_cell_center(row, rows, img.height as int),
    )
}

/// Reads the pixel at `(x, y)` with both coordinates clamped to the image
/// bounds.
pub fn read_clamped(img: &Image, x: i64, y: i64) -> (c: (u8, u8, u8))
    requires
        img.wf(),
        -0x2_0000_0000 < x < 0x2_0000_0000,
        -0x2_0000_0000 < y < 0x2_0000_0000,
    ensures
        c == clamped_pixel(*img, x as int, y as int),
{
    let xc: i64 = if x < 0 {
        0
    } else if x > (img.width - 1) as i64 {
        (img.width - 1) as i64
    } else {
        x
    };
    let yc: i64 = if y < 0 {
        0
    } else if y > (img.height - 1) as i64 {
        (img.height - 1) as i64
    } else {
        y
    };
    img.get_pixel(xc as u32, yc as u32)
}

/// Averages the 3x3 patch of clamped pixels centered on `(cx, cy)`:
/// integer accumulation per channel, divided by nine, truncating.
pub fn average_patch(img: &Image, cx: u32, cy: u32) -> (c: (u8, u8, u8))
    requires
        img.wf(),
    ensures
        c == spec_average_patch(*img, cx as int, cy as int),
{
    let cxi: i64 = cx as i64;
    let cyi: i64 = cy as i64;
    let mut r: u32 = 0;
    let mut g: u32 = 0;
    let mut b: u32 = 0;
    let p = read_clamped(img, cxi - 1, cyi - 1);
    r = r + p.0 as u32;
    g = g + p.1 as u32;
    b = b + p.2 as u32;
    let p = read_clamped(img, cxi - 1, cyi);
    r = r + p.0 as u32;
    g = g + p.1 as u32;
    b = b + p.2 as u32;
    let p = read_clamped(img, cxi - 1, cyi + 1);
    r = r + p.0 as u32;
    g = g + p.1 as u32;
    b = b + p.2 as u32;
    let p = read_clamped(img, cxi, cyi - 1);
    r = r + p.0 as u32;
    g = g + p.1 as u32;
    b = b + p.2 as u32;
    let p = read_clamped(img, cxi, cyi);
    r = r + p.0 as u32;
    g = g + p.1 as u32;
    b = b + p.2 as u32;
    let p = read_clamped(img, cxi, cyi + 1);
    r = r + p.0 as u32;
    g = g + p.1 as u32;
    b = b + p.2 as u32;
    let p = read_clamped(img, cxi + 1, cyi - 1);
    r = r + p.0 as u32;
    g = g + p.1 as u32;
    b = b + p.2 as u32;
    let p = read_clamped(img, cxi + 1, cyi);
    r = r + p.0 as u32;
    g = g + p.1 as u32;
    b = b + p.2 as u32;
    let p = read_clamped(img, cxi + 1, cyi + 1);
    r = r + p.0 as u32;
    g = g + p.1 as u32;
    b = b + p.2 as u32;
    ((r / 9) as u8, (g / 9) as u8, (b / 9) as u8)
}

/// Computes the pixel-space center of cell `k` of `n` along an axis of
/// `dim` pixels.
pub fn cell_center(k: u32, n: u32, dim: u32) -> (c: u32)
    requires
        1 <= n,
        k < n,
        1 <= dim,
    ensures
        c == spec_cell_center(k as int, n as int, dim as int),
        c < dim,
{
    proof {
        assert((2 * (k as int) + 1) * (dim as int) <= 0x2_0000_0000 * 0x1_0000_0000)
            by (nonlinear_arith)
            requires
                0 <= k as int,
                k as int <= 0xffff_ffff,
                0 <= dim as int <= 0xffff_ffff,
        ;
    }
    let num: u128 = (2 * (k as u128) + 1) * (dim as u128) + (n as u128);
    let den: u128 = 2 * (n as u128);
    let q: u128 = num / den;
    let cap: u32 = dim - 1;
    if q > cap as u128 {
        cap
    } else {
        q as u32
    }
}

/// Extracts the palette: one averaged color per cell of the Cols x Rows
/// grid, in row-major order.
pub fn sample_palette(img: &Image, cols: u32, rows: u32) -> (pal: Vec<(u8, u8, u8)>)
    requires
        img.wf(),
        1 <= cols,
        1 <= rows,
        (cols as int) * (rows as int) <= usize::MAX,
    ensures
        pal@.len() == (cols as int) * (rows as int),
        forall|k: int|
            0 <= k < pal@.len() ==> pal@[k] == spec_palette_entry(
                *img,
                cols as int,
                rows as int,
                k,
            ),
{
    let total: usize = (cols as usize) * (rows as usize);
    let mut pal: Vec<(u8, u8, u8)> = Vec::new();
    let mut k: usize = 0;
    while k < total
        invariant
            img.wf(),
            1 <= cols,
            1 <= rows,
            total == (cols as int) * (rows as int),
            k <= total,
            pal@.len() == k,
            forall|j: int|
                0 <= j < k ==> pal@[j] == spec_palette_entry(*img, cols as int, rows as int, j),
        decreases total - k,
    {
        let row: u32 = (k / (cols as usize)) as u32;
        let col: u32 = (k % (cols as usize)) as u32;
        proof {
            assert((k as int) / (cols as int) < rows as int && (k as int) % (cols as int)
                < cols as int) by (nonlinear_arith)
                requires
                    0 <= k as int,
                    (k as int) < (cols as int) * (rows as int),
                    1 <= cols as int,
                    1 <= rows as int,
            ;
        }
        let cx: u32 = cell_center(col, cols, img.width);
        let cy: u32 = cell_center(row, rows, img.height);
        let c = average_patch(img, cx, cy);
        pal.push(c);
        k = k + 1;
    }
    pal
}

} // verus!
