//! PNG textures: known images encoded with the `png` encoder and decoded
//! back, and the vendor names of device ids.

use directx_shader_translate::graphics_data::{
    find_memory_type, load_png_rgba8, samples_to_pixels, vendor_name_from_id, PngColor, Rgba8,
};
use std::io::Cursor;

fn encode_test_png(width: u32, height: u32, pixels: &[Rgba8]) -> Vec<u8> {
    let mut out = Vec::new();
    {
        let mut encoder = png::Encoder::new(Cursor::new(&mut out), width, height);
        encoder.set_color(png::ColorType::Rgba);
        encoder.set_depth(png::BitDepth::Eight);
        let mut writer = encoder.write_header().expect("write PNG header");
        let mut raw = Vec::with_capacity(pixels.len() * 4);
        for p in pixels {
            raw.extend_from_slice(&[p.r, p.g, p.b, p.a]);
        }
        writer.write_image_data(&raw).expect("write PNG image data");
    }
    out
}

#[test]
fn round_trips_a_known_2x2_rgba_checkerboard_through_real_png_encode_decode() {
    let red = Rgba8 { r: 220, g: 20, b: 20, a: 255 };
    let green = Rgba8 { r: 20, g: 220, b: 20, a: 255 };
    let blue = Rgba8 { r: 20, g: 20, b: 220, a: 255 };
    let yellow = Rgba8 { r: 220, g: 220, b: 20, a: 255 };
    let original = vec![red, green, blue, yellow];

    let png_bytes = encode_test_png(2, 2, &original);
    let texture = load_png_rgba8(&png_bytes).expect("decode real PNG bytes");

    assert_eq!(texture.width, 2);
    assert_eq!(texture.height, 2);
    assert_eq!(texture.pixels, original);
}

#[test]
fn round_trips_semi_transparent_alpha_values_through_real_png_encode_decode() {
    let translucent = Rgba8 { r: 100, g: 150, b: 200, a: 77 };
    let opaque = Rgba8 { r: 5, g: 5, b: 5, a: 255 };
    let original = vec![translucent, opaque];

    let png_bytes = encode_test_png(2, 1, &original);
    let texture = load_png_rgba8(&png_bytes).expect("decode real PNG bytes");

    assert_eq!(texture.pixels, original);
}

#[test]
fn honestly_rejects_garbage_bytes_that_are_not_a_png() {
    let garbage = [0u8; 16];
    assert!(load_png_rgba8(&garbage).is_err());
}

#[test]
fn rgb_and_gray_samples_become_opaque_pixels() {
    assert_eq!(samples_to_pixels(PngColor::Rgb, &[1, 2, 3, 4, 5, 6]), vec![
        Rgba8 { r: 1, g: 2, b: 3, a: 255 },
        Rgba8 { r: 4, g: 5, b: 6, a: 255 },
    ]);
    assert_eq!(samples_to_pixels(PngColor::Grayscale, &[9, 0]), vec![
        Rgba8 { r: 9, g: 9, b: 9, a: 255 },
        Rgba8 { r: 0, g: 0, b: 0, a: 255 },
    ]);
    assert_eq!(samples_to_pixels(PngColor::GrayscaleAlpha, &[7, 8, 1]), vec![Rgba8 { r: 7, g: 7, b: 7, a: 8 }]);
}

#[test]
fn a_gray_png_decodes_to_gray_pixels() {
    let mut out = Vec::new();
    {
        let mut encoder = png::Encoder::new(Cursor::new(&mut out), 3, 1);
        encoder.set_color(png::ColorType::Grayscale);
        encoder.set_depth(png::BitDepth::Eight);
        let mut writer = encoder.write_header().expect("write PNG header");
        writer.write_image_data(&[0, 128, 255]).expect("write PNG image data");
    }
    let texture = load_png_rgba8(&out).expect("decode gray PNG");
    assert_eq!(texture.pixels, vec![
        Rgba8 { r: 0, g: 0, b: 0, a: 255 },
        Rgba8 { r: 128, g: 128, b: 128, a: 255 },
        Rgba8 { r: 255, g: 255, b: 255, a: 255 },
    ]);
}

#[test]
fn vendor_names_of_known_and_unknown_ids() {
    assert_eq!(vendor_name_from_id(0x10DE), "NVIDIA");
    assert_eq!(vendor_name_from_id(0x1002), "AMD");
    assert_eq!(vendor_name_from_id(0x1022), "AMD");
    assert_eq!(vendor_name_from_id(0x8086), "Intel");
    assert_eq!(vendor_name_from_id(0x5143), "Qualcomm");
    assert_eq!(vendor_name_from_id(0x13B5), "ARM");
    assert_eq!(vendor_name_from_id(0x1010), "Imagination PowerVR");
    assert_eq!(vendor_name_from_id(0x1234), "Unknown");
}

#[test]
fn memory_type_is_the_first_allowed_one_with_the_required_flags() {
    let flags = [0x1u32, 0x6, 0x7];
    assert_eq!(find_memory_type(&flags, 0b110, 0x6), Some(1));
    assert_eq!(find_memory_type(&flags, 0b100, 0x6), Some(2));
    assert_eq!(find_memory_type(&flags, 0b111, 0x1), Some(0));
    assert_eq!(find_memory_type(&flags, 0b111, 0x8), None);
    assert_eq!(find_memory_type(&flags, 0, 0x0), None);
    assert_eq!(find_memory_type(&[], 0xFFFF_FFFF, 0), None);
}
