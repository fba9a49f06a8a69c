//! The plane coder: images coded and decoded back, and its tables and
//! predictor on fixed values.

use directx_shader_translate::plane_codec::{
    decode_plane, encode_plane, neighbors, plane_fits, try_decode_plane, QUANT11, QUANT5,
};

fn make_test_image(width: u32, height: u32) -> Vec<i32> {
    (0..(width * height))
        .map(|i| {
            let x = i % width;
            let y = i / width;
            (((x * 17 + y * 31) % 200) as i32) + ((x as i32 * 3 - y as i32 * 5) % 7)
        })
        .collect()
}

#[test]
fn encode_then_decode_reproduces_the_original_image_exactly() {
    const WIDTH: u32 = 20;
    const HEIGHT: u32 = 15;
    let image = make_test_image(WIDTH, HEIGHT);

    let compressed = encode_plane(&image, WIDTH, HEIGHT);
    let decoded = decode_plane(&compressed, WIDTH, HEIGHT);

    assert_eq!(decoded, image);
    println!(
        "{WIDTH}x{HEIGHT}={} samples coded into {} bytes ({} bytes raw)",
        WIDTH * HEIGHT,
        compressed.len(),
        WIDTH as usize * HEIGHT as usize * std::mem::size_of::<i32>()
    );
}

#[test]
fn encode_then_decode_handles_a_flat_solid_color_image() {
    const WIDTH: u32 = 10;
    const HEIGHT: u32 = 10;
    let image = vec![42i32; (WIDTH * HEIGHT) as usize];

    let compressed = encode_plane(&image, WIDTH, HEIGHT);
    let decoded = decode_plane(&compressed, WIDTH, HEIGHT);

    assert_eq!(decoded, image);
}

#[test]
fn encode_then_decode_handles_negative_and_large_pixel_values() {
    const WIDTH: u32 = 12;
    const HEIGHT: u32 = 8;
    let image: Vec<i32> = (0..(WIDTH * HEIGHT))
        .map(|i| {
            let x = (i % WIDTH) as i32;
            let y = (i / WIDTH) as i32;
            -1000 + x * x - y * 50
        })
        .collect();

    let compressed = encode_plane(&image, WIDTH, HEIGHT);
    let decoded = decode_plane(&compressed, WIDTH, HEIGHT);

    assert_eq!(decoded, image);
}

#[test]
fn quant_tables_match_the_real_ffmpeg_source_at_key_sample_points() {
    assert_eq!(QUANT11[0], 0);
    assert_eq!(QUANT11[1], 1);
    assert_eq!(QUANT11[255], -1);
    assert_eq!(QUANT11[128], -5);
    assert_eq!(QUANT5[0], 0);
    assert_eq!(QUANT5[255], -1);
    assert_eq!(QUANT5[128], -2);
}

#[test]
fn an_empty_plane_round_trips() {
    let image: Vec<i32> = Vec::new();
    let compressed = encode_plane(&image, 0, 0);
    assert_eq!(decode_plane(&compressed, 0, 0), image);
}

#[test]
fn a_single_row_and_a_single_column_round_trip() {
    let row: Vec<i32> = vec![5, -3, 100, 100, 0, 7];
    assert_eq!(decode_plane(&encode_plane(&row, 6, 1), 6, 1), row);
    let col: Vec<i32> = vec![9, 9, -9, 1000, 2];
    assert_eq!(decode_plane(&encode_plane(&col, 1, 5), 1, 5), col);
}

#[test]
fn neighbours_at_the_origin_are_zero() {
    let image = vec![1, 2, 3, 4];
    assert_eq!(neighbors(&image, 2, 0, 0), (0, 0, 0, 0, 0, 0));
}

#[test]
fn neighbours_inside_a_small_image() {
    let image = vec![1, 2, 3, 4, 5, 6];
    // (x, y) = (1, 1) in a 3-wide image: left 4, top 2, top-left 1,
    // top-right 3; two to the left and two above fall back to left and top.
    assert_eq!(neighbors(&image, 3, 1, 1), (4, 2, 1, 3, 4, 2));
}

#[test]
fn the_checked_coder_agrees_with_the_plain_one() {
    let image = make_test_image(9, 7);
    assert!(plane_fits(&image, 9, 7));
    let compressed = encode_plane(&image, 9, 7);
    assert_eq!(try_decode_plane(&compressed, 9, 7), Some(image.clone()));
    assert_eq!(decode_plane(&compressed, 9, 7), image);
    let wide = vec![i32::MAX, i32::MIN, 0, 5];
    assert!(!plane_fits(&wide, 2, 2));
    let small = vec![1 << 20, -(1 << 20), 1 << 20, -(1 << 20)];
    assert!(plane_fits(&small, 2, 2));
}

#[test]
fn neighbors_read_only_the_samples_before_the_current_one() {
    // width 3, sample (1, 1): only the first four samples exist yet.
    let partial = [1, 2, 3, 4];
    assert_eq!(neighbors(&partial, 3, 1, 1), (4, 2, 1, 3, 4, 2));
    let full = [1, 2, 3, 4, 99, 98];
    assert_eq!(neighbors(&full, 3, 1, 1), neighbors(&partial, 3, 1, 1));
}
