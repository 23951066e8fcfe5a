use client::video::interpolater::{at, interpolate, BilinearInterpolater, BilinearWeight};
use client::video::{normalize, ramp_step, render, TerminalCell, UPPER_HALF_BLOCK};

fn gray(width: usize, height: usize, value: u8) -> Vec<u8> {
    vec![value; width * height * 3]
}

#[test]
fn quantization_end_points() {
    assert_eq!(normalize(0), 232);
    assert_eq!(normalize(255), 255);
    assert_eq!(ramp_step(0), 0);
    assert_eq!(ramp_step(255), 23);
}

#[test]
fn quantization_truncates() {
    assert_eq!(normalize(10), 232);
    assert_eq!(normalize(11), 233);
    assert_eq!(normalize(127), 243);
    assert_eq!(normalize(128), 244);
    assert_eq!(normalize(245), 254);
    assert_eq!(normalize(246), 255);
}

#[test]
fn quantization_is_monotonic_and_within_ramp() {
    let mut last = normalize(0);
    for value in 0..=255u8 {
        let ansi = normalize(value);
        assert!(ansi >= last);
        assert!(ansi >= 232);
        assert_eq!(ansi as u32, 232 + (value as u32 * 24) / 256);
        last = ansi;
    }
}

#[test]
fn weight_of_first_sample_is_first_pixel() {
    let weight = BilinearWeight::new(0, 0, 640, 480, 10, 20);
    assert_eq!(weight, BilinearWeight { x0: 0, y0: 0, x1: 0, y1: 0, dx: 0, dy: 0 });
}

#[test]
fn weight_follows_ratio_of_input_minus_one() {
    // Column 3 of 4 over 9 pixels lies at 3 * 8 / 4 = 6; row 1 of 4 over 4 pixels at 3 / 4.
    let weight = BilinearWeight::new(3, 1, 9, 4, 4, 4);
    assert_eq!(weight, BilinearWeight { x0: 6, y0: 0, x1: 6, y1: 1, dx: 0, dy: 3 });
    // Column 2 of 5 over 4 pixels lies at 2 * 3 / 5 = 1 + 1/5.
    let weight = BilinearWeight::new(2, 0, 4, 1, 5, 2);
    assert_eq!(weight, BilinearWeight { x0: 1, y0: 0, x1: 2, y1: 0, dx: 1, dy: 0 });
}

#[test]
fn last_sample_stays_inside_the_picture() {
    for input in 1..40usize {
        for output in 1..40usize {
            let weight = BilinearWeight::new(output - 1, output - 1, input, input, output, output);
            assert!(weight.x1 < input);
            assert!(weight.y1 < input);
            assert!(weight.x0 <= weight.x1 && weight.x1 <= weight.x0 + 1);
            assert!(weight.dx < output);
        }
    }
}

#[test]
fn luminance_uses_bt709_weights() {
    let rgb = [255u8, 0, 0, 0, 255, 0, 0, 0, 255, 255, 255, 255];
    assert_eq!(at(0, 0, 2, &rgb), 2126 * 255);
    assert_eq!(at(1, 0, 2, &rgb), 7152 * 255);
    assert_eq!(at(0, 1, 2, &rgb), 722 * 255);
    assert_eq!(at(1, 1, 2, &rgb), 2_550_000);
}

#[test]
fn interpolation_blends_four_corners() {
    // White, black / black, white; the sample one third of the way in both directions.
    let rgb = [255u8, 255, 255, 0, 0, 0, 0, 0, 0, 255, 255, 255];
    let weight = BilinearWeight { x0: 0, y0: 0, x1: 1, y1: 1, dx: 1, dy: 1 };
    // 255 * (2 * 2 + 1 * 1) / 9 = 141.66
    assert_eq!(interpolate(2, &rgb, &weight, 3, 3), 141);
    let corner = BilinearWeight { x0: 0, y0: 0, x1: 0, y1: 0, dx: 0, dy: 0 };
    assert_eq!(interpolate(2, &rgb, &corner, 3, 3), 255);
    let red = [255u8, 0, 0];
    assert_eq!(interpolate(1, &red, &corner, 1, 2), 54);
}

#[test]
fn new_resampler_has_black_grid_of_one_value_per_sample() {
    let resampler = BilinearInterpolater::new(7, 5);
    assert_eq!(resampler.grayscale_buffer().len(), 7 * 5);
    assert!(resampler.grayscale_buffer().iter().all(|value| *value == 0));
    assert!(resampler.bilinear_weights().is_empty());
    assert_eq!(resampler.input_resolution(), (0, 0));
}

#[test]
fn weight_table_is_kept_for_same_resolution_and_changes_with_it() {
    let mut resampler = BilinearInterpolater::new(6, 8);
    resampler.update_weights_if_needed(32, 24);
    let first: Vec<BilinearWeight> = resampler.bilinear_weights().to_vec();
    assert_eq!(first.len(), 6 * 8);
    resampler.update_weights_if_needed(32, 24);
    assert_eq!(resampler.bilinear_weights(), &first[..]);
    resampler.update_weights_if_needed(48, 24);
    assert_ne!(resampler.bilinear_weights(), &first[..]);
    assert_eq!(resampler.input_resolution(), (48, 24));
    resampler.update_weights_if_needed(32, 24);
    assert_eq!(resampler.bilinear_weights(), &first[..]);
}

#[test]
fn weight_table_is_row_major() {
    let mut resampler = BilinearInterpolater::new(3, 2);
    resampler.update_weights_if_needed(7, 5);
    let table = resampler.bilinear_weights();
    assert_eq!(table.len(), 6);
    for y in 0..2usize {
        for x in 0..3usize {
            assert_eq!(table[y * 3 + x], BilinearWeight::new(x, y, 7, 5, 3, 2));
        }
    }
}

#[test]
fn single_column_table_ignores_width() {
    let mut narrow = BilinearInterpolater::new(1, 4);
    narrow.update_weights_if_needed(2, 8);
    let first: Vec<BilinearWeight> = narrow.bilinear_weights().to_vec();
    narrow.update_weights_if_needed(3, 8);
    assert_eq!(narrow.bilinear_weights(), &first[..]);
}

#[test]
fn grid_length_is_columns_times_rows_of_samples() {
    for (columns, rows) in [(1u16, 1u16), (4, 3), (16, 9), (0, 5), (5, 0)] {
        // Two rows of samples for each of `rows` rows of cells.
        let mut resampler = BilinearInterpolater::new(columns, 2 * rows);
        let expected = columns as usize * rows as usize * 2;
        assert_eq!(resampler.grayscale_buffer().len(), expected);
        resampler.update_weights_if_needed(8, 6);
        assert_eq!(resampler.grayscale_buffer().len(), expected);
        resampler.update_grayscale_buffer(&gray(8, 6, 200));
        assert_eq!(resampler.grayscale_buffer().len(), expected);
        resampler.update_weights_if_needed(3, 2);
        resampler.update_grayscale_buffer(&gray(3, 2, 5));
        assert_eq!(resampler.grayscale_buffer().len(), expected);
    }
    let odd = BilinearInterpolater::new(4, 3);
    assert_eq!(odd.grayscale_buffer().len(), 12);
}

#[test]
fn two_samples_over_two_pixels() {
    let mut resampler = BilinearInterpolater::new(2, 1);
    resampler.update_weights_if_needed(2, 1);
    // The ratio is (2 - 1) / 2: the second sample lies halfway between the pixels.
    assert_eq!(
        resampler.bilinear_weights(),
        &[
            BilinearWeight { x0: 0, y0: 0, x1: 0, y1: 0, dx: 0, dy: 0 },
            BilinearWeight { x0: 0, y0: 0, x1: 1, y1: 0, dx: 1, dy: 0 },
        ]
    );
    // Green 100 has the luminance 71.52; halfway to black it is 35.76.
    resampler.update_grayscale_buffer(&[0, 100, 0, 0, 0, 0]);
    assert_eq!(resampler.grayscale_buffer(), &[71, 35]);
}

#[test]
fn bytes_behind_the_picture_are_not_read() {
    let mut resampler = BilinearInterpolater::new(2, 1);
    resampler.update_weights_if_needed(2, 1);
    resampler.update_grayscale_buffer(&[0, 100, 0, 0, 0, 0, 255, 255, 255, 9]);
    assert_eq!(resampler.grayscale_buffer(), &[71, 35]);
    assert_eq!(resampler.input_resolution(), (2, 1));
    assert_eq!(resampler.bilinear_weights().len(), 2);
}

#[test]
fn uniform_picture_gives_uniform_grid() {
    let mut resampler = BilinearInterpolater::new(5, 6);
    resampler.update_weights_if_needed(17, 11);
    resampler.update_grayscale_buffer(&gray(17, 11, 90));
    assert!(resampler.grayscale_buffer().iter().all(|value| *value == 90));
    resampler.update_grayscale_buffer(&gray(17, 11, 255));
    assert!(resampler.grayscale_buffer().iter().all(|value| *value == 255));
}

#[test]
fn gradient_is_sampled_between_pixels() {
    // One row of five pixels 0, 40, 80, 120, 160 resampled to four columns:
    // positions 0, 1, 2, 3 land on the pixels themselves.
    let mut rgb = Vec::new();
    for x in 0..5u8 {
        rgb.extend_from_slice(&[x * 40, x * 40, x * 40]);
    }
    let mut resampler = BilinearInterpolater::new(4, 2);
    resampler.update_weights_if_needed(5, 1);
    resampler.update_grayscale_buffer(&rgb);
    assert_eq!(resampler.grayscale_buffer(), &[0, 40, 80, 120, 0, 40, 80, 120]);
    // Three columns: positions 0, 4/3, 8/3 give 0, 53.33, 106.66.
    let mut resampler = BilinearInterpolater::new(3, 2);
    resampler.update_weights_if_needed(5, 1);
    resampler.update_grayscale_buffer(&rgb);
    assert_eq!(resampler.grayscale_buffer(), &[0, 53, 106, 0, 53, 106]);
}

#[test]
fn grid_without_resolution_stays_black() {
    let mut resampler = BilinearInterpolater::new(2, 4);
    resampler.update_grayscale_buffer(&[]);
    assert_eq!(resampler.grayscale_buffer(), &[0u8; 8]);
}

#[test]
fn rows_are_grouped_in_pairs() {
    let mut rgb = Vec::new();
    for y in 0..4u8 {
        for _ in 0..3 {
            rgb.extend_from_slice(&[y * 50, y * 50, y * 50]);
        }
    }
    let mut resampler = BilinearInterpolater::new(3, 4);
    resampler.update_weights_if_needed(3, 4);
    resampler.update_grayscale_buffer(&rgb);
    let groups = resampler.grouped_rows();
    assert_eq!(groups.len(), 2);
    // Rows 0..4 of the grid lie at 0, 3/4, 6/4, 9/4 of the picture: 0, 37.5, 75, 112.5.
    assert_eq!(groups[0], &[0, 0, 0, 37, 37, 37]);
    assert_eq!(groups[1], &[75, 75, 75, 112, 112, 112]);
    let none = BilinearInterpolater::new(0, 3);
    assert!(none.grouped_rows().is_empty());

    // An odd number of rows: the last row stands alone. The rows lie at 0, 1, 2 of the
    // picture's four rows.
    let mut odd = BilinearInterpolater::new(3, 3);
    odd.update_weights_if_needed(3, 4);
    odd.update_grayscale_buffer(&rgb);
    let groups = odd.grouped_rows();
    assert_eq!(groups.len(), 2);
    assert_eq!(groups[0], &[0, 0, 0, 50, 50, 50]);
    assert_eq!(groups[1], &[100, 100, 100]);
}

#[test]
fn render_pairs_even_and_odd_rows() {
    let grid = [0u8, 255, 128, 64, 10, 11, 245, 246];
    let rows = render(&grid, 2, 2, 5, 9);
    assert_eq!(rows.len(), 2);
    assert_eq!(
        rows[0],
        vec![
            TerminalCell { column: 5, row: 9, glyph: UPPER_HALF_BLOCK, top_color: 0, bottom_color: 12 },
            TerminalCell { column: 6, row: 9, glyph: UPPER_HALF_BLOCK, top_color: 23, bottom_color: 6 },
        ]
    );
    assert_eq!(
        rows[1],
        vec![
            TerminalCell { column: 5, row: 10, glyph: UPPER_HALF_BLOCK, top_color: 0, bottom_color: 22 },
            TerminalCell { column: 6, row: 10, glyph: UPPER_HALF_BLOCK, top_color: 1, bottom_color: 23 },
        ]
    );
    assert_eq!(rows[1][1].top_ansi(), 233);
    assert_eq!(rows[1][1].bottom_ansi(), 255);
    assert_eq!(UPPER_HALF_BLOCK, '\u{2580}');
}

#[test]
fn render_of_empty_grid() {
    assert!(render(&[], 0, 0, 0, 0).is_empty());
    assert_eq!(render(&[], 0, 2, 0, 0), vec![Vec::<TerminalCell>::new(), Vec::new()]);
}

#[test]
fn quantization_agrees_with_the_formula_in_floating_point() {
    for value in 0..=255u8 {
        let expected = 232 + ((value as f32) / 256.0 * 24.0) as u8;
        assert_eq!(normalize(value), expected);
    }
}

fn float_luminance(rgb: &[u8], x: usize, y: usize, stride: usize) -> f64 {
    let base = (y * stride + x) * 3;
    0.2126 * rgb[base] as f64 + 0.7152 * rgb[base + 1] as f64 + 0.0722 * rgb[base + 2] as f64
}

#[test]
fn grid_agrees_with_the_formulas_in_floating_point() {
    let (width, height) = (23usize, 17usize);
    let mut rgb = Vec::new();
    for y in 0..height {
        for x in 0..width {
            rgb.push(((x * 37 + y * 11) % 256) as u8);
            rgb.push(((x * 5 + y * 91) % 256) as u8);
            rgb.push(((x * 131 + y * 3) % 256) as u8);
        }
    }
    let (columns, rows) = (9usize, 5usize);
    let mut resampler = BilinearInterpolater::new(columns as u16, (2 * rows) as u16);
    resampler.update_weights_if_needed(width, height);
    resampler.update_grayscale_buffer(&rgb);
    let grid = resampler.grayscale_buffer();
    let x_ratio = (width - 1) as f64 / columns as f64;
    let y_ratio = (height - 1) as f64 / (2 * rows) as f64;
    for y in 0..2 * rows {
        for x in 0..columns {
            let (px, py) = (x as f64 * x_ratio, y as f64 * y_ratio);
            let (x0, y0) = (px.floor() as usize, py.floor() as usize);
            let (x1, y1) = (px.ceil() as usize, py.ceil() as usize);
            let (dx, dy) = (px - x0 as f64, py - y0 as f64);
            let value = float_luminance(&rgb, x0, y0, width) * (1.0 - dx) * (1.0 - dy)
                + float_luminance(&rgb, x1, y0, width) * dx * (1.0 - dy)
                + float_luminance(&rgb, x0, y1, width) * (1.0 - dx) * dy
                + float_luminance(&rgb, x1, y1, width) * dx * dy;
            let got = grid[y * columns + x] as f64;
            assert!((value.clamp(0.0, 255.0) - got).abs() < 1.0 + 1e-6);
            assert!(got <= value + 1e-6);
        }
    }
}
