//! Quantization encoder: maps every pixel of a downsampled image to its
//! nearest palette entry, turns the entry's grid cell into a normalized
//! UV coordinate, and serializes the coordinates as comma-separated
//! `u:v` tokens with two decimal digits each.

use image::imageops::FilterType;
use image::{DynamicImage, RgbImage};
use vstd::prelude::*;
use vstd::string::StringExecFns;

use crate::img::{pixel_at, Image};
use crate::perceptual::{dist_to, lab_distance_bits};

verus! {

/// Why an encode call was rejected.
#[derive(PartialEq, Eq, Structural, Debug, Clone, Copy)]
pub enum EncodeError {
    /// The palette grid has zero cells.
    EmptyPalette,
}

/// The index of the palette entry nearest to `c`, scanning in ascending
/// order so that the lowest index wins ties.
pub open spec fn spec_nearest_index(c: (u8, u8, u8), pal: Seq<(u8, u8, u8)>) -> int
    decreases pal.len(),
{
    if pal.len() <= 1 {
        0
    } else {
        let rest = spec_nearest_index(c, pal.drop_last());
        if dist_to(c, pal.last()) < dist_to(c, pal[rest]) {
            pal.len() - 1
        } else {
            rest
        }
    }
}

/// The nearest index is in range, minimizes the distance, and every
/// earlier entry lies strictly farther away (lowest index wins ties).
pub proof fn lemma_nearest_minimal(c: (u8, u8, u8), pal: Seq<(u8, u8, u8)>)
    requires
        pal.len() >= 1,
    ensures
        0 <= spec_nearest_index(c, pal) < pal.len(),
        forall|j: int|
            0 <= j < pal.len() ==> dist_to(c, pal[spec_nearest_index(c, pal)]) <= dist_to(
                c,
                #[trigger] pal[j],
            ),
        forall|j: int|
            0 <= j < spec_nearest_index(c, pal) ==> dist_to(c, #[trigger] pal[j]) > dist_to(
                c,
                pal[spec_nearest_index(c, pal)],
            ),
    decreases pal.len(),
{
    if pal.len() > 1 {
        let sub = pal.drop_last();
        lemma_nearest_minimal(c, sub);
        let r = spec_nearest_index(c, sub);
        assert(forall|j: int| 0 <= j < sub.len() ==> #[trigger] pal[j] == sub[j]);
        assert(pal.last() == pal[pal.len() - 1]);
        if dist_to(c, pal.last()) < dist_to(c, pal[r]) {
            assert(spec_nearest_index(c, pal) == pal.len() - 1);
            assert forall|j: int| 0 <= j < pal.len() - 1 implies dist_to(c, #[trigger] pal[j])
                > dist_to(c, pal[pal.len() - 1]) by {
                assert(dist_to(c, sub[j]) >= dist_to(c, sub[r]));
            }
        } else {
            assert(spec_nearest_index(c, pal) == r);
        }
    }
}

/// Finds the palette entry perceptually nearest to `c`; the lowest index
/// wins ties.
pub fn nearest_palette_index(c: (u8, u8, u8), pal: &Vec<(u8, u8, u8)>) -> (i: usize)
    requires
        pal@.len() >= 1,
    ensures
        i == spec_nearest_index(c, pal@),
        i < pal@.len(),
{
    let mut best: usize = 0;
    let mut best_d: u32 = lab_distance_bits(c, pal[0]);
    let mut j: usize = 1;
    proof {
        assert(pal@.take(1).len() == 1);
        assert(pal@.take(1)[0] == pal@[0]);
    }
    while j < pal.len()
        invariant
            1 <= j <= pal@.len(),
            best < j,
            best == spec_nearest_index(c, pal@.take(j as int)),
            best_d == dist_to(c, pal@[best as int]),
        decreases pal@.len() - j,
    {
        let d: u32 = lab_distance_bits(c, pal[j]);
        proof {
            let pre = pal@.take(j as int);
            let ext = pal@.take(j as int + 1);
            assert(ext.drop_last() =~= pre);
            assert(ext.last() == pal@[j as int]);
            assert(ext[spec_nearest_index(c, pre)] == pal@[spec_nearest_index(c, pre)]);
        }
        if d < best_d {
            best = j;
            best_d = d;
        }
        j = j + 1;
    }
    proof {
        assert(pal@.take(pal@.len() as int) =~= pal@);
    }
    best
}

/// The character for decimal digit `d`.
pub open spec fn digit_char(d: int) -> char {
    if d == 0 {
        '0'
    } else if d == 1 {
        '1'
    } else if d == 2 {
        '2'
    } else if d == 3 {
        '3'
    } else if d == 4 {
        '4'
    } else if d == 5 {
        '5'
    } else if d == 6 {
        '6'
    } else if d == 7 {
        '7'
    } else if d == 8 {
        '8'
    } else {
        '9'
    }
}

/// The center coordinate of cell `k` of `n`, `(k + 1/2) / n`, scaled by
/// 100 and rounded to the nearest integer, ties to even, as fixed
/// two-decimal formatting renders it.
pub open spec fn spec_uv_scaled(k: int, n: int) -> int {
    let num = (2 * k + 1) * 100;
    let den = 2 * n;
    let q = num / den;
    let rem = num % den;
    if 2 * rem > den {
        q + 1
    } else if 2 * rem < den {
        q
    } else if q % 2 == 1 {
        q + 1
    } else {
        q
    }
}

/// The scaled coordinate of a cell center always lies in `[0, 100]`.
pub proof fn lemma_uv_scaled_range(k: int, n: int)
    requires
        0 <= k < n,
    ensures
        0 <= spec_uv_scaled(k, n) <= 100,
{
    let num = (2 * k + 1) * 100;
    let den = 2 * n;
    assert(num / den <= 99 && num / den >= 0 && num % den >= 0) by (nonlinear_arith)
        requires
            0 <= k < n,
            num == (2 * k + 1) * 100,
            den == 2 * n,
    ;
}

/// A coordinate in `[0, 100]` as fixed two-decimal text: `"0.25"`,
/// `"0.50"`, `"1.00"`.
pub open spec fn spec_fmt2(s: int) -> Seq<char> {
    seq![digit_char(s / 100), '.', digit_char((s / 10) % 10), digit_char(s % 10)]
}

/// The serialized token of palette cell `idx` in a Cols x Rows grid:
/// `u` from the cell's column, `v` from its row counted from the bottom,
/// joined by a colon.
pub open spec fn spec_token(idx: int, cols: int, rows: int) -> Seq<char> {
    let col = idx % cols;
    let raw_row = idx / cols;
    let row = rows - 1 - raw_row;
    spec_fmt2(spec_uv_scaled(col, cols)) + seq![':'] + spec_fmt2(spec_uv_scaled(row, rows))
}

/// Appends the digit character of `d`.
fn append_digit(s: &mut String, d: u8)
    requires
        d < 10,
    ensures
        final(s)@ == old(s)@ + seq![digit_char(d as int)],
{
    match d {
        0 => {
            proof {
                reveal_strlit("0");
            }
            s.append("0");
        },
        1 => {
            proof {
                reveal_strlit("1");
            }
            s.append("1");
        },
        2 => {
            proof {
                reveal_strlit("2");
            }
            s.append("2");
        },
        3 => {
            proof {
                reveal_strlit("3");
            }
            s.append("3");
        },
        4 => {
            proof {
                reveal_strlit("4");
            }
            s.append("4");
        },
        5 => {
            proof {
                reveal_strlit("5");
            }
            s.append("5");
        },
        6 => {
            proof {
                reveal_strlit("6");
            }
            s.append("6");
        },
        7 => {
            proof {
                reveal_strlit("7");
            }
            s.append("7");
        },
        8 => {
            proof {
                reveal_strlit("8");
            }
            s.append("8");
        },
        _ => {
            proof {
                reveal_strlit("9");
            }
            s.append("9");
        },
    }
    assert(s@ =~= old(s)@ + seq![digit_char(d as int)]);
}

/// Appends a scaled coordinate as fixed two-decimal text.
fn append_fmt2(s: &mut String, v: u8)
    requires
        v <= 100,
    ensures
        final(s)@ == old(s)@ + spec_fmt2(v as int),
{
    append_digit(s, v / 100);
    proof {
        reveal_strlit(".");
    }
    s.append(".");
    append_digit(s, (v / 10) % 10);
    append_digit(s, v % 10);
    assert(s@ =~= old(s)@ + spec_fmt2(v as int));
}

/// Computes the scaled two-decimal coordinate of cell `k` of `n`.
fn uv_scaled(k: u32, n: u32) -> (v: u8)
    requires
        1 <= n,
        k < n,
    ensures
        v == spec_uv_scaled(k as int, n as int),
        v <= 100,
{
    proof {
        lemma_uv_scaled_range(k as int, n as int);
    }
    let num: u64 = (2 * (k as u64) + 1) * 100;
    let den: u64 = 2 * (n as u64);
    let q: u64 = num / den;
    let rem: u64 = num % den;
    let r: u64 = if 2 * rem > den {
        q + 1
    } else if 2 * rem < den {
        q
    } else if q % 2 == 1 {
        q + 1
    } else {
        q
    };
    r as u8
}

/// Appends the token of palette cell `idx`.
fn append_token(s: &mut String, idx: usize, cols: u32, rows: u32)
    requires
        1 <= cols,
        1 <= rows,
        idx < (cols as int) * (rows as int),
    ensures
        final(s)@ == old(s)@ + spec_token(idx as int, cols as int, rows as int),
{
    proof {
        assert((idx as int) / (cols as int) < rows as int) by (nonlinear_arith)
            requires
                0 <= idx as int,
                (idx as int) < (cols as int) * (rows as int),
                1 <= cols as int,
                1 <= rows as int,
        ;
    }
    let raw_row: u32 = ((idx as u64) / (cols as u64)) as u32;
    let col: u32 = ((idx as u64) % (cols as u64)) as u32;
    let row: u32 = rows - 1 - raw_row;
    let u: u8 = uv_scaled(col, cols);
    let v: u8 = uv_scaled(row, rows);
    append_fmt2(s, u);
    proof {
        reveal_strlit(":");
    }
    s.append(":");
    append_fmt2(s, v);
    assert(s@ =~= old(s)@ + spec_token(idx as int, cols as int, rows as int));
}

/// The first `count` tokens of the encoding of a `w` x `h` RGB buffer,
/// joined by commas. Tokens are emitted in column-major order, bottom to
/// top within each column: token `t` encodes the pixel at
/// `(t / h, h - 1 - t % h)`.
pub open spec fn spec_encoded_prefix(
    rgb: Seq<u8>,
    w: int,
    h: int,
    pal: Seq<(u8, u8, u8)>,
    cols: int,
    rows: int,
    count: int,
) -> Seq<char>
    decreases count,
{
    if count <= 0 {
        Seq::<char>::empty()
    } else {
        let t = count - 1;
        let x = t / h;
        let y = h - 1 - (t % h);
        let tok = spec_token(spec_nearest_index(pixel_at(rgb, w, x, y), pal), cols, rows);
        if count == 1 {
            tok
        } else {
            spec_encoded_prefix(rgb, w, h, pal, cols, rows, t) + seq![','] + tok
        }
    }
}

/// The full encoding of a `w` x `h` RGB buffer: one token per pixel,
/// `w * h` in all, joined by commas.
pub open spec fn spec_encode_grid(
    rgb: Seq<u8>,
    w: int,
    h: int,
    pal: Seq<(u8, u8, u8)>,
    cols: int,
    rows: int,
) -> Seq<char> {
    spec_encoded_prefix(rgb, w, h, pal, cols, rows, w * h)
}

/// Serializes every pixel of an already-downsampled image as the UV token
/// of its nearest palette entry, in column-major bottom-to-top order,
/// comma-separated.
pub fn encode_pixels(img: &Image, pal: &Vec<(u8, u8, u8)>, cols: u32, rows: u32) -> (s: String)
    requires
        img.wf(),
        1 <= cols,
        1 <= rows,
        pal@.len() == (cols as int) * (rows as int),
    ensures
        s@ == spec_encode_grid(
            img.rgb@,
            img.width as int,
            img.height as int,
            pal@,
            cols as int,
            rows as int,
        ),
{
    proof {
        assert(pal@.len() >= 1) by (nonlinear_arith)
            requires
                pal@.len() == (cols as int) * (rows as int),
                1 <= cols as int,
                1 <= rows as int,
        ;
    }
    let mut s = String::new();
    let mut x: u32 = 0;
    while x < img.width
        invariant
            img.wf(),
            1 <= cols,
            1 <= rows,
            pal@.len() == (cols as int) * (rows as int),
            pal@.len() >= 1,
            x <= img.width,
            s@ == spec_encoded_prefix(
                img.rgb@,
                img.width as int,
                img.height as int,
                pal@,
                cols as int,
                rows as int,
                (x as int) * (img.height as int),
            ),
        decreases img.width - x,
    {
        let mut yi: u32 = 0;
        while yi < img.height
            invariant
                img.wf(),
                1 <= cols,
                1 <= rows,
                pal@.len() == (cols as int) * (rows as int),
                pal@.len() >= 1,
                x < img.width,
                yi <= img.height,
                s@ == spec_encoded_prefix(
                    img.rgb@,
                    img.width as int,
                    img.height as int,
                    pal@,
                    cols as int,
                    rows as int,
                    (x as int) * (img.height as int) + yi as int,
                ),
            decreases img.height - yi,
        {
            let ghost prev = s@;
            let ghost t: int = (x as int) * (img.height as int) + yi as int;
            let y: u32 = img.height - 1 - yi;
            let c: (u8, u8, u8) = img.get_pixel(x, y);
            let idx: usize = nearest_palette_index(c, pal);
            proof {
                vstd::arithmetic::div_mod::lemma_fundamental_div_mod_converse(
                    t,
                    img.height as int,
                    x as int,
                    yi as int,
                );
            }
            if x > 0 || yi > 0 {
                proof {
                    reveal_strlit(",");
                }
                s.append(",");
            }
            append_token(&mut s, idx, cols, rows);
            proof {
                let w = img.width as int;
                let h = img.height as int;
                let tok = spec_token(
                    spec_nearest_index(img.spec_pixel(x as int, y as int), pal@),
                    cols as int,
                    rows as int,
                );
                if t == 0 {
                    assert(s@ =~= spec_encoded_prefix(
                        img.rgb@,
                        w,
                        h,
                        pal@,
                        cols as int,
                        rows as int,
                        1,
                    ));
                } else {
                    assert(s@ =~= prev + seq![','] + tok);
                }
            }
            yi = yi + 1;
        }
        proof {
            assert((x as int + 1) * (img.height as int) == (x as int) * (img.height as int) + (
            img.height as int)) by (nonlinear_arith);
        }
        x = x + 1;
    }
    proof {
        assert((x as int) * (img.height as int) == (img.width as int) * (img.height as int));
    }
    s
}

/// The RGB bytes of `rgb` (a `w` x `h` row-major buffer) resampled to
/// `ow` x `oh` pixels with nearest-neighbor filtering, as the image
/// crate computes them. A function of the source bytes and the four
/// dimensions alone.
pub uninterp spec fn resize_px(rgb: Seq<u8>, w: int, h: int, ow: int, oh: int) -> Seq<u8>;

/// Relies on image's `DynamicImage::resize_exact` with
/// `FilterType::Nearest`: a deterministic nearest-neighbor resample to
/// exactly the requested dimensions, depending on the source pixels and
/// the dimensions alone; `to_rgb8` then yields three bytes per output
/// pixel.
#[verifier::external_body]
fn resize_nearest(img: &Image, out_width: u32, out_height: u32) -> (r: Image)
    requires
        img.wf(),
        1 <= out_width,
        1 <= out_height,
    ensures
        r.width == out_width,
        r.height == out_height,
        r.rgb@ == resize_px(
            img.rgb@,
            img.width as int,
            img.height as int,
            out_width as int,
            out_height as int,
        ),
        r.rgb@.len() == 3 * (out_width as int) * (out_height as int),
{
    let buf = RgbImage::from_raw(img.width, img.height, img.rgb.clone()).expect(
        "well-formed image buffer",
    );
    let resized = DynamicImage::ImageRgb8(buf).resize_exact(
        out_width,
        out_height,
        FilterType::Nearest,
    );
    Image { width: out_width, height: out_height, rgb: resized.to_rgb8().into_raw() }
}

/// Downsamples the captured image to `out_width` x `out_height` with
/// nearest-neighbor sampling and serializes every output pixel as the UV
/// token of its perceptually nearest palette entry, in column-major
/// bottom-to-top order, comma-separated. A palette grid with zero cells
/// is rejected.
pub fn encode_uv_csv(
    img: &Image,
    pal: &Vec<(u8, u8, u8)>,
    cols: u32,
    rows: u32,
    out_width: u32,
    out_height: u32,
) -> (r: Result<String, EncodeError>)
    requires
        img.wf(),
        pal@.len() == (cols as int) * (rows as int),
        1 <= out_width,
        1 <= out_height,
    ensures
        r is Ok <==> (1 <= cols && 1 <= rows),
        r matches Ok(s) ==> s@ == spec_encode_grid(
            resize_px(
                img.rgb@,
                img.width as int,
                img.height as int,
                out_width as int,
                out_height as int,
            ),
            out_width as int,
            out_height as int,
            pal@,
            cols as int,
            rows as int,
        ),
        r is Err ==> r == Err::<String, EncodeError>(EncodeError::EmptyPalette),
{
    if cols == 0 || rows == 0 {
        return Err(EncodeError::EmptyPalette);
    }
    let resized = resize_nearest(img, out_width, out_height);
    Ok(encode_pixels(&resized, pal, cols, rows))
}

} // verus!
