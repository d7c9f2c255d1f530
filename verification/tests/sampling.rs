use flaggrid::img::{Image, ImageError};
use flaggrid::sampler::{average_patch, cell_center, sample_palette};

#[test]
fn image_rejects_mismatched_buffer() {
    assert!(matches!(Image::new(2, 2, vec![0; 11]), Err(ImageError::InvalidImage)));
    assert!(matches!(Image::new(2, 2, vec![0; 13]), Err(ImageError::InvalidImage)));
    assert!(Image::new(2, 2, vec![0; 12]).is_ok());
}

#[test]
fn image_rejects_zero_dimension() {
    assert!(matches!(Image::new(0, 3, Vec::new()), Err(ImageError::InvalidImage)));
    assert!(matches!(Image::new(3, 0, Vec::new()), Err(ImageError::InvalidImage)));
}

#[test]
fn solid_image_yields_solid_palette() {
    let mut rgb: Vec<u8> = Vec::new();
    for _ in 0..20 {
        rgb.extend_from_slice(&[10, 20, 30]);
    }
    let img = Image::new(5, 4, rgb).unwrap();
    let pal = sample_palette(&img, 2, 2);
    assert_eq!(pal, vec![(10, 20, 30); 4]);
}

#[test]
fn palette_length_is_cols_times_rows() {
    let rgb: Vec<u8> = (0..3 * 14 * 12).map(|i| (i % 251) as u8).collect();
    let img = Image::new(14, 12, rgb).unwrap();
    let pal = sample_palette(&img, 7, 6);
    assert_eq!(pal.len(), 42);
}

#[test]
fn average_truncates_and_clamps_at_border() {
    // 2x1 image, black then white. The patch around (0, 0) clamps to six
    // black reads and three white ones: 765 / 9 = 85 exactly per channel.
    let img = Image::new(2, 1, vec![0, 0, 0, 255, 255, 255]).unwrap();
    assert_eq!(average_patch(&img, 0, 0), (85, 85, 85));
    // Around (1, 0) it is three black and six white: 1530 / 9 = 170.
    assert_eq!(average_patch(&img, 1, 0), (170, 170, 170));
}

#[test]
fn average_of_identical_pixels_is_exact() {
    let img = Image::new(1, 1, vec![7, 250, 0]).unwrap();
    assert_eq!(average_patch(&img, 0, 0), (7, 250, 0));
}

#[test]
fn cell_center_rounds_to_nearest() {
    // Cell 0 of 7 over 100 pixels: (0.5) * 100 / 7 = 7.14.. -> 7.
    assert_eq!(cell_center(0, 7, 100), 7);
    // Cell 0 of 2 over 10 pixels: 0.5 * 5 = 2.5 -> rounds half up to 3.
    assert_eq!(cell_center(0, 2, 10), 3);
    // Last cell clamps to the final pixel index.
    assert_eq!(cell_center(0, 1, 1), 0);
    assert_eq!(cell_center(9, 10, 10), 9);
}

#[test]
fn row_major_palette_order() {
    // 12x12 image of four solid 6x6 quadrants; each cell center's 3x3
    // patch stays inside its own quadrant, so the palette lists the
    // quadrant colors in row-major order.
    let a = (10, 0, 0);
    let b = (0, 10, 0);
    let c = (0, 0, 10);
    let d = (200, 200, 200);
    let mut rgb: Vec<u8> = Vec::new();
    for y in 0..12 {
        for x in 0..12 {
            let (r, g, bl) = match (x < 6, y < 6) {
                (true, true) => a,
                (false, true) => b,
                (true, false) => c,
                (false, false) => d,
            };
            rgb.extend_from_slice(&[r, g, bl]);
        }
    }
    let img = Image::new(12, 12, rgb).unwrap();
    let pal = sample_palette(&img, 2, 2);
    assert_eq!(pal, vec![a, b, c, d]);
}
