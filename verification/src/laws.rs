//! The pipeline's guarantees that relate several functions: determinism,
//! token count, coordinate range, index/coordinate round-trip, exact-match
//! selection, and solid-image sampling.

use vstd::prelude::*;

use crate::encoder::{
    spec_encode_grid, spec_encoded_prefix, spec_fmt2, spec_nearest_index, spec_token,
    spec_uv_scaled, digit_char, lemma_nearest_minimal,
};
use crate::img::Image;
use crate::perceptual::dist_to;
use crate::sampler::{
    clamp_int, clamped_pixel, patch_total, spec_cell_center, spec_palette_entry,
};

verus! {

/// How often `c` occurs in `s`.
pub open spec fn count_char(s: Seq<char>, c: char) -> int
    decreases s.len(),
{
    if s.len() == 0 {
        0
    } else {
        count_char(s.drop_last(), c) + if s.last() == c {
            1int
        } else {
            0int
        }
    }
}

/// The number of comma-separated tokens of an encoded string: one more
/// than its commas, since no token contains a comma.
pub open spec fn spec_token_count(s: Seq<char>) -> int {
    count_char(s, ',') + 1
}

/// Character counts add over concatenation.
pub proof fn lemma_count_concat(a: Seq<char>, b: Seq<char>, c: char)
    ensures
        count_char(a + b, c) == count_char(a, c) + count_char(b, c),
    decreases b.len(),
{
    if b.len() == 0 {
        assert(a + b =~= a);
    } else {
        lemma_count_concat(a, b.drop_last(), c);
        assert((a + b).drop_last() =~= a + b.drop_last());
        assert((a + b).last() == b.last());
    }
}

/// A one-character sequence holds `t` once or never.
pub proof fn lemma_count_singleton(c: char, t: char)
    ensures
        count_char(seq![c], t) == if c == t {
            1int
        } else {
            0int
        },
{
    let s = seq![c];
    assert(s.len() == 1);
    assert(s.last() == c);
    assert(s.drop_last() =~= Seq::<char>::empty());
    assert(count_char(Seq::<char>::empty(), t) == 0);
}

/// Two-decimal coordinate text contains no comma.
pub proof fn lemma_fmt2_comma_free(s: int)
    ensures
        count_char(spec_fmt2(s), ',') == 0,
{
    let f = spec_fmt2(s);
    assert(f =~= seq![digit_char(s / 100)] + seq!['.'] + seq![digit_char((s / 10) % 10)]
        + seq![digit_char(s % 10)]);
    lemma_count_singleton(digit_char(s / 100), ',');
    lemma_count_singleton('.', ',');
    lemma_count_singleton(digit_char((s / 10) % 10), ',');
    lemma_count_singleton(digit_char(s % 10), ',');
    lemma_count_concat(seq![digit_char(s / 100)], seq!['.'], ',');
    lemma_count_concat(seq![digit_char(s / 100)] + seq!['.'], seq![digit_char((s / 10) % 10)], ',');
    lemma_count_concat(
        seq![digit_char(s / 100)] + seq!['.'] + seq![digit_char((s / 10) % 10)],
        seq![digit_char(s % 10)],
        ',',
    );
}

/// A UV token contains no comma.
pub proof fn lemma_token_comma_free(idx: int, cols: int, rows: int)
    ensures
        count_char(spec_token(idx, cols, rows), ',') == 0,
{
    let col = idx % cols;
    let raw_row = idx / cols;
    let row = rows - 1 - raw_row;
    lemma_fmt2_comma_free(spec_uv_scaled(col, cols));
    lemma_fmt2_comma_free(spec_uv_scaled(row, rows));
    lemma_count_singleton(':', ',');
    lemma_count_concat(spec_fmt2(spec_uv_scaled(col, cols)), seq![':'], ',');
    lemma_count_concat(
        spec_fmt2(spec_uv_scaled(col, cols)) + seq![':'],
        spec_fmt2(spec_uv_scaled(row, rows)),
        ',',
    );
}

/// The first `count` tokens are joined by exactly `count - 1` commas.
pub proof fn lemma_prefix_comma_count(
    rgb: Seq<u8>,
    w: int,
    h: int,
    pal: Seq<(u8, u8, u8)>,
    cols: int,
    rows: int,
    count: int,
)
    requires
        1 <= count,
    ensures
        count_char(spec_encoded_prefix(rgb, w, h, pal, cols, rows, count), ',') == count - 1,
    decreases count,
{
    let t = count - 1;
    let x = t / h;
    let y = h - 1 - (t % h);
    let idx = spec_nearest_index(crate::img::pixel_at(rgb, w, x, y), pal);
    lemma_token_comma_free(idx, cols, rows);
    if count > 1 {
        lemma_prefix_comma_count(rgb, w, h, pal, cols, rows, t);
        lemma_count_singleton(',', ',');
        lemma_count_concat(spec_encoded_prefix(rgb, w, h, pal, cols, rows, t), seq![','], ',');
        lemma_count_concat(
            spec_encoded_prefix(rgb, w, h, pal, cols, rows, t) + seq![','],
            spec_token(idx, cols, rows),
            ',',
        );
    }
}

/// The encoded text of a `w` x `h` image always holds exactly `w * h`
/// comma-separated tokens.
pub proof fn lemma_token_count(
    rgb: Seq<u8>,
    w: int,
    h: int,
    pal: Seq<(u8, u8, u8)>,
    cols: int,
    rows: int,
)
    requires
        1 <= w,
        1 <= h,
    ensures
        spec_token_count(spec_encode_grid(rgb, w, h, pal, cols, rows)) == w * h,
{
    assert(1 <= w * h) by (nonlinear_arith)
        requires
            1 <= w,
            1 <= h,
    ;
    lemma_prefix_comma_count(rgb, w, h, pal, cols, rows, w * h);
}

/// The encoded text is fully determined by the image bytes, dimensions,
/// palette and grid geometry: identical inputs encode identically.
pub proof fn lemma_encode_deterministic(
    rgb: Seq<u8>,
    w: int,
    h: int,
    pal: Seq<(u8, u8, u8)>,
    cols: int,
    rows: int,
    s1: Seq<char>,
    s2: Seq<char>,
)
    requires
        s1 == spec_encode_grid(rgb, w, h, pal, cols, rows),
        s2 == spec_encode_grid(rgb, w, h, pal, cols, rows),
    ensures
        s1 == s2,
{
}

/// Every cell-center coordinate, as the exact rational
/// `(2k + 1) / (2n)`, lies strictly between 0 and 1: its numerator is
/// positive and strictly below its denominator.
pub proof fn lemma_uv_strictly_inside(k: int, n: int)
    requires
        0 <= k < n,
    ensures
        0 < 2 * k + 1,
        2 * k + 1 < 2 * n,
{
}

/// The two-decimal rendering of a cell center also stays strictly inside
/// `(0, 1)` whenever the axis has fewer than a hundred cells; with more,
/// rounding can reach `0.00` or `1.00` even though the exact coordinate
/// never does.
pub proof fn lemma_uv_scaled_strictly_inside(k: int, n: int)
    requires
        0 <= k < n,
        n < 100,
    ensures
        0 < spec_uv_scaled(k, n) < 100,
{
    let num = (2 * k + 1) * 100;
    let den = 2 * n;
    let q = num / den;
    let rem = num % den;
    vstd::arithmetic::div_mod::lemma_fundamental_div_mod(num, den);
    assert(0 <= q <= 99 && 0 <= rem < den) by (nonlinear_arith)
        requires
            0 <= k < n,
            num == (2 * k + 1) * 100,
            den == 2 * n,
            q == num / den,
            rem == num % den,
    ;
    assert(num == den * q + rem);
    if q == 0 {
        assert(den * q == 0) by (nonlinear_arith)
            requires
                q == 0,
        ;
        assert(rem == num);
        assert(2 * rem > den);
    }
    if q == 99 {
        assert(den * q == 99 * den) by (nonlinear_arith)
            requires
                q == 99,
        ;
        assert(num <= 100 * den - 100);
        assert(rem <= den - 100);
        assert(2 * rem < den);
    }
}

/// The floor of a cell center times the cell count recovers the cell:
/// `floor(((2k + 1) / (2n)) * n) == k`.
pub proof fn lemma_center_floor(k: int, n: int)
    requires
        0 <= k < n,
    ensures
        ((2 * k + 1) * n) / (2 * n) == k,
{
    assert((2 * k + 1) * n == k * (2 * n) + n) by (nonlinear_arith);
    vstd::arithmetic::div_mod::lemma_fundamental_div_mod_converse(
        (2 * k + 1) * n,
        2 * n,
        k,
        n,
    );
}

/// Decoding the UV coordinate of palette index `i` recovers its cell:
/// the floor of `u * cols` is `i`'s column, the floor of `v * rows` is
/// its bottom-origin row, and the two together recover `i`.
pub proof fn lemma_index_roundtrip(i: int, cols: int, rows: int)
    requires
        1 <= cols,
        1 <= rows,
        0 <= i < cols * rows,
    ensures
        ((2 * (i % cols) + 1) * cols) / (2 * cols) == i % cols,
        ((2 * (rows - 1 - i / cols) + 1) * rows) / (2 * rows) == rows - 1 - i / cols,
        (rows - 1 - (rows - 1 - i / cols)) * cols + i % cols == i,
{
    let col = i % cols;
    let raw_row = i / cols;
    assert(0 <= raw_row < rows && 0 <= col < cols) by (nonlinear_arith)
        requires
            1 <= cols,
            1 <= rows,
            0 <= i < cols * rows,
            raw_row == i / cols,
            col == i % cols,
    ;
    lemma_center_floor(col, cols);
    lemma_center_floor(rows - 1 - raw_row, rows);
    vstd::arithmetic::div_mod::lemma_fundamental_div_mod(i, cols);
    assert(raw_row * cols == cols * raw_row) by (nonlinear_arith);
}

/// A palette entry at perceptual distance zero is selected, barring an
/// earlier entry that also lies at distance zero: the selected entry's
/// distance is zero and its index is no later.
pub proof fn lemma_exact_match_selected(c: (u8, u8, u8), pal: Seq<(u8, u8, u8)>, j: int)
    requires
        0 <= j < pal.len(),
        dist_to(c, pal[j]) == 0,
    ensures
        spec_nearest_index(c, pal) <= j,
        dist_to(c, pal[spec_nearest_index(c, pal)]) == 0,
{
    lemma_nearest_minimal(c, pal);
    let i = spec_nearest_index(c, pal);
    assert(dist_to(c, pal[i]) <= dist_to(c, pal[j]));
    if i > j {
        assert(dist_to(c, pal[j]) > dist_to(c, pal[i]));
    }
}

/// Every pixel of the image has color `c`.
pub open spec fn is_solid(img: Image, c: (u8, u8, u8)) -> bool {
    forall|x: int, y: int|
        0 <= x < img.width && 0 <= y < img.height ==> #[trigger] img.spec_pixel(x, y) == c
}

/// A cell center lies inside the image axis it was computed for.
pub proof fn lemma_cell_center_range(k: int, n: int, dim: int)
    requires
        0 <= k < n,
        1 <= dim,
    ensures
        0 <= spec_cell_center(k, n, dim) <= dim - 1,
{
    assert(((2 * k + 1) * dim + n) / (2 * n) >= 0) by (nonlinear_arith)
        requires
            0 <= k < n,
            1 <= dim,
    ;
}

/// Any clamped read of a solid image returns its color.
proof fn solid_read(img: Image, c: (u8, u8, u8), x: int, y: int)
    requires
        img.wf(),
        is_solid(img, c),
    ensures
        clamped_pixel(img, x, y) == c,
{
    let xc = clamp_int(x, 0, img.width - 1);
    let yc = clamp_int(y, 0, img.height - 1);
    assert(img.spec_pixel(xc, yc) == c);
}

/// Sampling a solid single-color reference yields a palette every entry
/// of which equals that exact color: the 3x3 average of identical values
/// is that value, and truncating division has no effect.
pub proof fn lemma_solid_palette(img: Image, c: (u8, u8, u8), cols: int, rows: int, k: int)
    requires
        img.wf(),
        is_solid(img, c),
        1 <= cols,
        1 <= rows,
        0 <= k < cols * rows,
    ensures
        spec_palette_entry(img, cols, rows, k) == c,
{
    let col = k % cols;
    let raw_row = k / cols;
    assert(0 <= raw_row < rows && 0 <= col < cols) by (nonlinear_arith)
        requires
            1 <= cols,
            1 <= rows,
            0 <= k < cols * rows,
            raw_row == k / cols,
            col == k % cols,
    ;
    let w = img.width as int;
    let h = img.height as int;
    lemma_cell_center_range(col, cols, w);
    lemma_cell_center_range(raw_row, rows, h);
    let cx = spec_cell_center(col, cols, w);
    let cy = spec_cell_center(raw_row, rows, h);
    assert(clamped_pixel(img, cx - 1, cy - 1) == c) by { solid_read(img, c, cx - 1, cy - 1) };
    assert(clamped_pixel(img, cx - 1, cy) == c) by { solid_read(img, c, cx - 1, cy) };
    assert(clamped_pixel(img, cx - 1, cy + 1) == c) by { solid_read(img, c, cx - 1, cy + 1) };
    assert(clamped_pixel(img, cx, cy - 1) == c) by { solid_read(img, c, cx, cy - 1) };
    assert(clamped_pixel(img, cx, cy) == c) by { solid_read(img, c, cx, cy) };
    assert(clamped_pixel(img, cx, cy + 1) == c) by { solid_read(img, c, cx, cy + 1) };
    assert(clamped_pixel(img, cx + 1, cy - 1) == c) by { solid_read(img, c, cx + 1, cy - 1) };
    assert(clamped_pixel(img, cx + 1, cy) == c) by { solid_read(img, c, cx + 1, cy) };
    assert(clamped_pixel(img, cx + 1, cy + 1) == c) by { solid_read(img, c, cx + 1, cy + 1) };
    let t = patch_total(img, cx, cy);
    assert(t.0 == 9 * c.0 && t.1 == 9 * c.1 && t.2 == 9 * c.2);
    assert(t.0 / 9 == c.0 && t.1 / 9 == c.1 && t.2 / 9 == c.2);
}

} // verus!

