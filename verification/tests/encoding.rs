use flaggrid::encoder::{encode_pixels, encode_uv_csv, nearest_palette_index, EncodeError};
use flaggrid::img::Image;

fn black_white_image() -> Image {
    Image::new(2, 1, vec![0, 0, 0, 255, 255, 255]).unwrap()
}

#[test]
fn scenario_two_cell_grid() {
    let palette: Vec<(u8, u8, u8)> = vec![(0, 0, 0), (255, 255, 255)];
    let img = black_white_image();
    let s = encode_pixels(&img, &palette, 2, 1);
    assert_eq!(s, "0.25:0.50,0.75:0.50");
}

#[test]
fn scenario_through_resize() {
    let palette: Vec<(u8, u8, u8)> = vec![(0, 0, 0), (255, 255, 255)];
    let img = black_white_image();
    let s = encode_uv_csv(&img, &palette, 2, 1, 2, 1).unwrap();
    assert_eq!(s, "0.25:0.50,0.75:0.50");
}

#[test]
fn scenario_tokens_decode_back() {
    let palette: Vec<(u8, u8, u8)> = vec![(0, 0, 0), (255, 255, 255)];
    let img = black_white_image();
    let s = encode_pixels(&img, &palette, 2, 1);
    let cols = 2.0f64;
    let decoded: Vec<usize> = s
        .split(',')
        .map(|tok| {
            let (u, _v) = tok.split_once(':').unwrap();
            let u: f64 = u.parse().unwrap();
            (u * cols).floor() as usize
        })
        .collect();
    assert_eq!(decoded, vec![0, 1]);
}

#[test]
fn token_count_matches_output_pixels() {
    let palette: Vec<(u8, u8, u8)> = vec![(0, 0, 0), (255, 255, 255)];
    let rgb: Vec<u8> = (0..3 * 5 * 4).map(|i| (i * 7 % 256) as u8).collect();
    let img = Image::new(5, 4, rgb).unwrap();
    let s = encode_uv_csv(&img, &palette, 2, 1, 3, 2).unwrap();
    assert_eq!(s.split(',').count(), 6);
}

#[test]
fn encode_is_deterministic() {
    let palette: Vec<(u8, u8, u8)> = vec![(10, 200, 30), (255, 0, 255), (0, 0, 0)];
    let rgb: Vec<u8> = (0..3 * 8 * 8).map(|i| (i * 13 % 256) as u8).collect();
    let img = Image::new(8, 8, rgb).unwrap();
    let a = encode_uv_csv(&img, &palette, 3, 1, 4, 4).unwrap();
    let b = encode_uv_csv(&img, &palette, 3, 1, 4, 4).unwrap();
    assert_eq!(a, b);
}

#[test]
fn traversal_is_column_major_bottom_up() {
    // 1x2 image: bottom pixel (y = 1) is white, top pixel (y = 0) black.
    // Bottom-to-top order within the single column puts white first.
    let palette: Vec<(u8, u8, u8)> = vec![(0, 0, 0), (255, 255, 255)];
    let img = Image::new(1, 2, vec![0, 0, 0, 255, 255, 255]).unwrap();
    let s = encode_pixels(&img, &palette, 2, 1);
    assert_eq!(s, "0.75:0.50,0.25:0.50");
}

#[test]
fn exact_match_entry_is_selected() {
    let palette: Vec<(u8, u8, u8)> = vec![(255, 255, 255), (0, 0, 0), (12, 200, 9)];
    assert_eq!(nearest_palette_index((0, 0, 0), &palette), 1);
    assert_eq!(nearest_palette_index((12, 200, 9), &palette), 2);
}

#[test]
fn tie_break_picks_lowest_index() {
    let palette: Vec<(u8, u8, u8)> = vec![(50, 60, 70), (50, 60, 70)];
    assert_eq!(nearest_palette_index((50, 60, 70), &palette), 0);
    assert_eq!(nearest_palette_index((51, 61, 71), &palette), 0);
}

#[test]
fn near_black_maps_to_black_not_white() {
    let palette: Vec<(u8, u8, u8)> = vec![(255, 255, 255), (0, 0, 0)];
    assert_eq!(nearest_palette_index((10, 10, 10), &palette), 1);
}

#[test]
fn uv_rounds_half_up_above_tie() {
    // cols = 3: u of column 0 is 1/6 = 0.1666.., printed as 0.17.
    let palette: Vec<(u8, u8, u8)> = vec![(0, 0, 0), (255, 255, 255), (200, 0, 0)];
    let img = Image::new(1, 1, vec![0, 0, 0]).unwrap();
    let s = encode_pixels(&img, &palette, 3, 1);
    assert_eq!(s, "0.17:0.50");
}

#[test]
fn uv_rounds_ties_to_even() {
    // cols = 4: u of column 0 is 1/8 = 0.125, a tie at the second decimal,
    // rendered 0.12 as two-decimal float formatting renders it.
    let palette: Vec<(u8, u8, u8)> = vec![(0, 0, 0), (255, 255, 255), (200, 0, 0), (0, 0, 200)];
    let img = Image::new(1, 1, vec![0, 0, 0]).unwrap();
    let s = encode_pixels(&img, &palette, 4, 1);
    assert_eq!(s, "0.12:0.50");
}

#[test]
fn vertical_flip_of_rows() {
    // 2 rows: index 0 sits in the top row, so its v uses the bottom-origin
    // row 1 of 2: v = 1.5 / 2 = 0.75.
    let palette: Vec<(u8, u8, u8)> = vec![(0, 0, 0), (255, 255, 255)];
    let img = Image::new(1, 1, vec![0, 0, 0]).unwrap();
    let s = encode_pixels(&img, &palette, 1, 2);
    assert_eq!(s, "0.50:0.75");
}

#[test]
fn empty_palette_is_rejected() {
    let palette: Vec<(u8, u8, u8)> = Vec::new();
    let img = Image::new(1, 1, vec![9, 9, 9]).unwrap();
    let r = encode_uv_csv(&img, &palette, 0, 5, 2, 2);
    assert_eq!(r, Err(EncodeError::EmptyPalette));
}

#[test]
fn resize_of_solid_image_stays_solid() {
    let palette: Vec<(u8, u8, u8)> = vec![(200, 10, 10), (10, 10, 200)];
    let mut rgb: Vec<u8> = Vec::new();
    for _ in 0..16 {
        rgb.extend_from_slice(&[200, 10, 10]);
    }
    let img = Image::new(4, 4, rgb).unwrap();
    let s = encode_uv_csv(&img, &palette, 2, 1, 2, 2).unwrap();
    assert_eq!(s, "0.25:0.50,0.25:0.50,0.25:0.50,0.25:0.50");
}

#[test]
fn downsampling_picks_real_pixels() {
    // Left half solid red, right half solid blue; downsampled to 2x1 the
    // two output pixels must still map to the two distinct entries.
    let palette: Vec<(u8, u8, u8)> = vec![(255, 0, 0), (0, 0, 255)];
    let mut rgb: Vec<u8> = Vec::new();
    for _y in 0..4 {
        for x in 0..8 {
            if x < 4 {
                rgb.extend_from_slice(&[255, 0, 0]);
            } else {
                rgb.extend_from_slice(&[0, 0, 255]);
            }
        }
    }
    let img = Image::new(8, 4, rgb).unwrap();
    let s = encode_uv_csv(&img, &palette, 2, 1, 2, 1).unwrap();
    assert_eq!(s, "0.25:0.50,0.75:0.50");
}
