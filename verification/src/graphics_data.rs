//! Plain data of the graphics side: RGBA8 colours, textures decoded from
//! PNG (the `png` crate decodes, this module turns its samples into
//! pixels), and what is reported of a Vulkan device.

use vstd::prelude::*;

verus! {

/// An RGBA8 colour, as an `R8G8B8A8_UNORM` framebuffer holds it.
#[derive(Debug, Clone, Copy, PartialEq, Eq)]
pub struct Rgba8 {
    pub r: u8,
    pub g: u8,
    pub b: u8,
    pub a: u8,
}

/// A texture of `width` x `height` RGBA8 pixels, row by row.
#[derive(Debug)]
pub struct TextureRgba8 {
    pub width: u32,
    pub height: u32,
    pub pixels: Vec<Rgba8>,
}

/// What is reported of a Vulkan device with a graphics queue.
#[derive(Debug)]
pub struct GraphicsDeviceInfo {
    pub name: String,
    /// The PCI vendor id.
    pub vendor_id: u32,
    /// The vendor's name, from the PCI vendor id (see [`vendor_name_from_id`]).
    pub vendor: &'static str,
}

/// The vendor's name for a PCI vendor id: NVIDIA, AMD (two ids), Intel,
/// Qualcomm, ARM, Imagination PowerVR, else `"Unknown"`.
pub fn vendor_name_from_id(vendor_id: u32) -> (name: &'static str)
    ensures
        vendor_id == 0x10DE ==> name@ == "NVIDIA"@,
        vendor_id == 0x1002 || vendor_id == 0x1022 ==> name@ == "AMD"@,
        vendor_id == 0x8086 ==> name@ == "Intel"@,
        vendor_id == 0x5143 ==> name@ == "Qualcomm"@,
        vendor_id == 0x13B5 ==> name@ == "ARM"@,
        vendor_id == 0x1010 ==> name@ == "Imagination PowerVR"@,
        !(vendor_id == 0x10DE || vendor_id == 0x1002 || vendor_id == 0x1022 || vendor_id == 0x8086 || vendor_id
            == 0x5143 || vendor_id == 0x13B5 || vendor_id == 0x1010) ==> name@ == "Unknown"@,
{
    match vendor_id {
        0x10DE => "NVIDIA",
        0x1002 | 0x1022 => "AMD",
        0x8086 => "Intel",
        0x5143 => "Qualcomm",
        0x13B5 => "ARM",
        0x1010 => "Imagination PowerVR",
        _ => "Unknown",
    }
}

/// Memory type `i` is allowed by the resource's `type_bits` and has every
/// property flag in `required` (`flags[i]` holds the type's property flags).
pub open spec fn memory_type_fits(flags: Seq<u32>, type_bits: u32, required: u32, i: int) -> bool {
    &&& 0 <= i < 32
    &&& type_bits & (1u32 << (i as u32)) != 0
    &&& flags[i] & required == required
}

/// The first memory type that the resource may live in and that has the
/// required property flags; `type_flags` holds the property flags of the
/// device's memory types, in order (a Vulkan device reports at most 32).
pub fn find_memory_type(type_flags: &[u32], type_bits: u32, required: u32) -> (r: Option<u32>)
    requires
        type_flags@.len() <= 32,
    ensures
        match r {
            Some(i) => {
                &&& i < type_flags@.len()
                &&& memory_type_fits(type_flags@, type_bits, required, i as int)
                &&& forall|j: int| 0 <= j < i ==> !memory_type_fits(type_flags@, type_bits, required, j)
            },
            None => forall|j: int| 0 <= j < type_flags@.len() ==> !memory_type_fits(type_flags@, type_bits, required, j),
        },
{
    let mut i: usize = 0;
    while i < type_flags.len()
        invariant
            i <= type_flags@.len() <= 32,
            forall|j: int| 0 <= j < i ==> !memory_type_fits(type_flags@, type_bits, required, j),
        decreases type_flags@.len() - i,
    {
        let k = i as u32;
        if type_bits & (1u32 << k) != 0 && type_flags[i] & required == required {
            return Some(k);
        }
        i = i + 1;
    }
    None
}

#[verifier::external_type_specification]
#[verifier::external_body]
pub struct ExDecodingError(png::DecodingError);

/// The colour type of decoded PNG samples.
#[derive(Debug, Clone, Copy, PartialEq, Eq)]
pub enum PngColor {
    Grayscale,
    Rgb,
    Indexed,
    GrayscaleAlpha,
    Rgba,
}

/// A decoded PNG frame: its size, colour type and samples (8 bits each).
#[derive(Debug)]
pub struct PngFrame {
    pub width: u32,
    pub height: u32,
    pub color: PngColor,
    pub samples: Vec<u8>,
}

/// What `png` decodes from `bytes` with palette and grayscale expansion
/// and 16-bit samples stripped to 8: the frame's width, height, colour
/// type and samples, or `None` where it reports an error.
pub uninterp spec fn png_frame(bytes: Seq<u8>) -> Option<(u32, u32, PngColor, Seq<u8>)>;

/// Calls `png::Decoder::new` on the bytes, sets the transformations
/// `EXPAND | STRIP_16`, and reads the first frame (`read_info`,
/// `next_frame` into a buffer of `output_buffer_size`, cut to the frame's
/// `buffer_size`). The outcome is a function of the bytes alone; which
/// `DecodingError` comes back is not stated.
#[verifier::external_body]
fn decode_png_frame(bytes: &[u8]) -> (r: Result<PngFrame, png::DecodingError>)
    ensures
        match png_frame(bytes@) {
            Some((w, h, c, s)) => r matches Ok(f) && f.width == w && f.height == h && f.color == c && f.samples@ == s,
            None => r is Err,
        },
{
    let mut decoder = png::Decoder::new(bytes);
    decoder.set_transformations(png::Transformations::EXPAND | png::Transformations::STRIP_16);
    let mut reader = decoder.read_info()?;
    let mut samples = vec![0u8; reader.output_buffer_size()];
    let info = reader.next_frame(&mut samples)?;
    samples.truncate(info.buffer_size());
    let color = match info.color_type {
        png::ColorType::Grayscale => PngColor::Grayscale,
        png::ColorType::Rgb => PngColor::Rgb,
        png::ColorType::Indexed => PngColor::Indexed,
        png::ColorType::GrayscaleAlpha => PngColor::GrayscaleAlpha,
        png::ColorType::Rgba => PngColor::Rgba,
    };
    Ok(PngFrame { width: info.width, height: info.height, color, samples })
}

/// Why a PNG could not be loaded.
#[derive(Debug)]
pub enum PngLoadError {
    /// The decoder's error.
    Decode(png::DecodingError),
    /// Samples of a colour type that is not turned into pixels (palette
    /// indices, which the expansion does not leave).
    UnsupportedColorType(PngColor),
}

/// The number of samples per pixel of a colour type.
pub open spec fn samples_per_pixel(c: PngColor) -> int {
    match c {
        PngColor::Grayscale => 1,
        PngColor::Rgb => 3,
        PngColor::Indexed => 1,
        PngColor::GrayscaleAlpha => 2,
        PngColor::Rgba => 4,
    }
}

/// Pixel `k` of samples of colour type `c`: RGBA as it stands, RGB with
/// alpha 255, gray into all three channels (alpha its sample, or 255).
pub open spec fn pixel_of(c: PngColor, s: Seq<u8>, k: int) -> Rgba8 {
    match c {
        PngColor::Rgba => Rgba8 { r: s[4 * k], g: s[4 * k + 1], b: s[4 * k + 2], a: s[4 * k + 3] },
        PngColor::Rgb => Rgba8 { r: s[3 * k], g: s[3 * k + 1], b: s[3 * k + 2], a: 255 },
        PngColor::GrayscaleAlpha => Rgba8 { r: s[2 * k], g: s[2 * k], b: s[2 * k], a: s[2 * k + 1] },
        _ => Rgba8 { r: s[k], g: s[k], b: s[k], a: 255 },
    }
}

/// The pixels of samples of colour type `c`: one per whole group of
/// samples (a trailing partial group is left out).
pub open spec fn pixels_of(c: PngColor, s: Seq<u8>) -> Seq<Rgba8> {
    Seq::new(((s.len() as int) / samples_per_pixel(c)) as nat, |k: int| pixel_of(c, s, k))
}

/// Turns samples of colour type `c` into pixels (see [`pixels_of`]).
pub fn samples_to_pixels(c: PngColor, s: &[u8]) -> (p: Vec<Rgba8>)
    ensures
        p@ == pixels_of(c, s@),
{
    let n: usize = match c {
        PngColor::Rgba => 4,
        PngColor::Rgb => 3,
        PngColor::GrayscaleAlpha => 2,
        _ => 1,
    };
    let slen = s.len();
    let count = slen / n;
    let mut p: Vec<Rgba8> = Vec::new();
    let mut k: usize = 0;
    while k < count
        invariant
            slen == s@.len(),
            n as int == samples_per_pixel(c),
            count == (s@.len() as int) / (n as int),
            k <= count,
            p@.len() == k,
            forall|j: int| 0 <= j < k ==> #[trigger] p@[j] == pixel_of(c, s@, j),
        decreases count - k,
    {
        assert(n * k + n <= s@.len()) by (nonlinear_arith)
            requires
                k < count,
                count == (s@.len() as int) / (n as int),
                n >= 1,
        ;
        let i = n * k;
        let px = match c {
            PngColor::Rgba => Rgba8 { r: s[i], g: s[i + 1], b: s[i + 2], a: s[i + 3] },
            PngColor::Rgb => Rgba8 { r: s[i], g: s[i + 1], b: s[i + 2], a: 255 },
            PngColor::GrayscaleAlpha => Rgba8 { r: s[i], g: s[i], b: s[i], a: s[i + 1] },
            _ => Rgba8 { r: s[i], g: s[i], b: s[i], a: 255 },
        };
        p.push(px);
        k = k + 1;
    }
    assert(p@ =~= pixels_of(c, s@));
    p
}

/// Decodes a PNG into an RGBA8 texture: the frame that `png` decodes (see
/// [`png_frame`]) with its samples turned into pixels; the decoder's error,
/// or palette samples, are refused.
pub fn load_png_rgba8(bytes: &[u8]) -> (r: Result<TextureRgba8, PngLoadError>)
    ensures
        match png_frame(bytes@) {
            None => r is Err && r->Err_0 is Decode,
            Some((w, h, c, s)) => if c is Indexed {
                r is Err && r->Err_0 == PngLoadError::UnsupportedColorType(PngColor::Indexed)
            } else {
                r matches Ok(t) && t.width == w && t.height == h && t.pixels@ == pixels_of(c, s)
            },
        },
{
    let frame = match decode_png_frame(bytes) {
        Ok(f) => f,
        Err(e) => {
            return Err(PngLoadError::Decode(e));
        },
    };
    match frame.color {
        PngColor::Indexed => Err(PngLoadError::UnsupportedColorType(PngColor::Indexed)),
        c => Ok(TextureRgba8 { width: frame.width, height: frame.height, pixels: samples_to_pixels(c, frame.samples.as_slice()) }),
    }
}

} // verus!
