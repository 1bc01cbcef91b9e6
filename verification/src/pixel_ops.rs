//! Pixel format conversions between RGB888, RGB565 and RGB332, and the
//! single-channel filter kernels, all as exact bit-level functions.

use vstd::prelude::*;

verus! {

/// Color indices of the RGB332 palette the renderer draws with.
#[allow(non_camel_case_types)]
#[derive(Clone, Copy, PartialEq, Eq, Structural, Debug)]
pub enum colors {
    WHITE,
    RED,
    GREEN,
    BLUE,
    BLACK,
}

impl colors {
    /// The RGB332 byte of the palette color.
    pub fn value(&self) -> (v: u8)
        ensures
            v == spec_color_value(*self),
    {
        match self {
            colors::WHITE => 255,
            colors::RED => 133,
            colors::GREEN => 86,
            colors::BLUE => 38,
            colors::BLACK => 0,
        }
    }
}

/// The RGB332 byte of each palette color.
pub open spec fn spec_color_value(c: colors) -> u8 {
    match c {
        colors::WHITE => 255,
        colors::RED => 133,
        colors::GREEN => 86,
        colors::BLUE => 38,
        colors::BLACK => 0,
    }
}

/// RGB888 packed to RGB332: three red bits, three green bits, two blue
/// bits, each channel scaled by its level count.
pub open spec fn spec_make_pixel(r: u8, g: u8, b: u8) -> u8 {
    ((r / 36) << 5) | ((g / 36) << 2) | (b / 85)
}

/// RGB888 packed to RGB565: five red bits, six green bits, five blue bits.
pub open spec fn spec_make_pixel3(r: u8, g: u8, b: u8) -> u16 {
    (((r as u16) / 8) << 11) | (((g as u16) / 4) << 5) | ((b as u16) / 8)
}

/// The two bytes of a big-endian RGB565 pixel packed down to RGB332.
pub open spec fn spec_make_pixel2(b1: u8, b2: u8) -> u8 {
    let base_red = (b1 >> 3) / 4;
    let base_green = (((b1 & 0x07) << 3) & ((b2 & 0xe0) >> 2)) / 9;
    let base_blue = (b2 & 0x1f) / 10;
    ((base_red << 5) & 0xe0) | ((base_green << 2) & 0x1c) | (base_blue & 0x03)
}

/// An RGB332 byte widened to RGB565: each channel rescaled to its wider
/// level range.
pub open spec fn spec_convert_pixel(pix: u8) -> u16 {
    let base_red = (((((pix as u16) & 0xe0) >> 5) * 31) / 7) as u16;
    let base_green = (((((pix as u16) & 0x1c) >> 2) * 63) / 7) as u16;
    let base_blue = ((((pix as u16) & 0x03) * 31) / 3) as u16;
    (base_red << 11) | (base_green << 5) | base_blue
}

/// Packs an RGB888 color into one RGB332 byte.
pub fn make_pixel(r: u8, g: u8, b: u8) -> (out_pix: u8)
    ensures
        out_pix == spec_make_pixel(r, g, b),
{
    let out_pix: u8 = ((r / (255 / 7)) << 5) | ((g / (255 / 7)) << 2) | (b / (255 / 3));
    out_pix
}

/// Packs an RGB888 color into one RGB565 word.
pub fn make_pixel3(r: u8, g: u8, b: u8) -> (out_pix: u16)
    ensures
        out_pix == spec_make_pixel3(r, g, b),
{
    let out_pix: u16 = (((r as u16) / (255 / 31)) << 11) | (((g as u16) / (255 / 63)) << 5) | ((
    b as u16) / (255 / 31));
    out_pix
}

/// Packs the two bytes of a big-endian RGB565 pixel into one RGB332 byte.
pub fn make_pixel2(b1: u8, b2: u8) -> (out_pix: u8)
    ensures
        out_pix == spec_make_pixel2(b1, b2),
{
    let base_red: u8 = (b1 >> 3) / (31 / 7);
    let base_green: u8 = (((b1 & 0b0000_0111) << 3) & ((b2 & 0b1110_0000) >> 2)) / (63 / 7);
    let base_blue: u8 = (b2 & 0b0001_1111) / (31 / 3);
    let out_pix: u8 = ((base_red << 5) & 0b1110_0000) | ((base_green << 2) & 0b0001_1100) | (
    base_blue & 0b0000_0011);
    out_pix
}

/// Widens an RGB332 byte to an RGB565 word.
pub fn convert_pixel(pix: u8) -> (out_pix: u16)
    ensures
        out_pix == spec_convert_pixel(pix),
{
    proof {
        assert((((pix as u16) & 0xe0) >> 5) <= 7 && (((pix as u16) & 0x1c) >> 2) <= 7 && ((
        pix as u16) & 0x03) <= 3) by (bit_vector);
    }
    let base_red: u16 = (((pix as u16) & 0b1110_0000) >> 5) * 31 / 7;
    let base_green: u16 = (((pix as u16) & 0b0001_1100) >> 2) * 63 / 7;
    let base_blue: u16 = ((pix as u16) & 0b0000_0011) * 31 / 3;
    let out_pix: u16 = (base_red << 11) | (base_green << 5) | base_blue;
    out_pix
}

/// Keeps only the red channel of an RGB332 byte.
pub fn red_pixel_kernel(pix: u8) -> (r: u8)
    ensures
        r == pix & 0xe0,
{
    pix & 0b1110_0000
}

/// Keeps only the green channel of an RGB332 byte.
pub fn green_pixel_kernel(pix: u8) -> (r: u8)
    ensures
        r == pix & 0x1c,
{
    pix & 0b0001_1100
}

/// Keeps only the blue channel of an RGB332 byte.
pub fn blue_pixel_kernel(pix: u8) -> (r: u8)
    ensures
        r == pix & 0x03,
{
    pix & 0b0000_0011
}

/// Maps an RGB332 byte to the gray of its red channel's intensity.
pub fn red_grayscale_pixel_kernel(pix: u8) -> (r: u8)
    ensures
        r == spec_make_pixel(
            (((pix & 0xe0) >> 5) * 36) as u8,
            (((pix & 0xe0) >> 5) * 36) as u8,
            (((pix & 0xe0) >> 5) * 36) as u8,
        ),
{
    proof {
        assert(((pix & 0xe0u8) >> 5) <= 7) by (bit_vector);
    }
    let scale: u8 = ((pix & 0b1110_0000) >> 5) * (255 / 7);
    make_pixel(scale, scale, scale)
}

/// Maps an RGB332 byte to the gray of its green channel's intensity.
pub fn green_grayscale_pixel_kernel(pix: u8) -> (r: u8)
    ensures
        r == spec_make_pixel(
            (((pix & 0x1c) >> 2) * 36) as u8,
            (((pix & 0x1c) >> 2) * 36) as u8,
            (((pix & 0x1c) >> 2) * 36) as u8,
        ),
{
    proof {
        assert(((pix & 0x1cu8) >> 2) <= 7) by (bit_vector);
    }
    let scale: u8 = ((pix & 0b0001_1100) >> 2) * (255 / 7);
    make_pixel(scale, scale, scale)
}

/// Maps an RGB332 byte to the gray of its blue channel's intensity.
pub fn blue_grayscale_pixel_kernel(pix: u8) -> (r: u8)
    ensures
        r == spec_make_pixel(
            ((pix & 0x03) * 85) as u8,
            ((pix & 0x03) * 85) as u8,
            ((pix & 0x03) * 85) as u8,
        ),
{
    proof {
        assert((pix & 0x03u8) <= 3) by (bit_vector);
    }
    let scale: u8 = (pix & 0b0000_0011) * (255 / 3);
    make_pixel(scale, scale, scale)
}

} // verus!
