//! Pixel format conversion and display instruction tests.

use raster3d::display::{instr, SCREEN_HEIGHT, SCREEN_WIDTH};
use raster3d::pixel_ops::{
    blue_grayscale_pixel_kernel, blue_pixel_kernel, colors, convert_pixel,
    green_grayscale_pixel_kernel, green_pixel_kernel, make_pixel, make_pixel2, make_pixel3,
    red_grayscale_pixel_kernel, red_pixel_kernel,
};

#[test]
fn pack_rgb332_extremes() {
    assert_eq!(make_pixel(255, 255, 255), 0xff);
    assert_eq!(make_pixel(0, 0, 0), 0);
    assert_eq!(make_pixel(255, 0, 0), 0b1110_0000);
    assert_eq!(make_pixel(0, 255, 0), 0b0001_1100);
    assert_eq!(make_pixel(0, 0, 255), 0b0000_0011);
}

#[test]
fn pack_rgb565_extremes() {
    assert_eq!(make_pixel3(255, 255, 255), 0xffff);
    assert_eq!(make_pixel3(0, 0, 0), 0);
    assert_eq!(make_pixel3(255, 0, 0), 0b11111_000000_00000);
    assert_eq!(make_pixel3(0, 255, 0), 0b00000_111111_00000);
    assert_eq!(make_pixel3(0, 0, 255), 0b00000_000000_11111);
}

#[test]
fn repack_rgb565_bytes() {
    assert_eq!(make_pixel2(0xff, 0xff), 251);
    assert_eq!(make_pixel2(0, 0), 0);
}

#[test]
fn widen_rgb332_extremes() {
    assert_eq!(convert_pixel(0xff), 0xffff);
    assert_eq!(convert_pixel(0), 0);
    assert_eq!(convert_pixel(0b1110_0000), 0b11111_000000_00000);
    assert_eq!(convert_pixel(0b0001_1100), 0b00000_111111_00000);
    assert_eq!(convert_pixel(0b0000_0011), 0b00000_000000_11111);
}

#[test]
fn channel_kernels_mask() {
    assert_eq!(red_pixel_kernel(0xff), 0b1110_0000);
    assert_eq!(green_pixel_kernel(0xff), 0b0001_1100);
    assert_eq!(blue_pixel_kernel(0xff), 0b0000_0011);
    assert_eq!(red_pixel_kernel(0b0001_1111), 0);
}

#[test]
fn grayscale_kernels() {
    assert_eq!(red_grayscale_pixel_kernel(0b1110_0000), 254);
    assert_eq!(green_grayscale_pixel_kernel(0b0001_1100), 254);
    assert_eq!(blue_grayscale_pixel_kernel(0b0000_0011), 0xff);
    assert_eq!(red_grayscale_pixel_kernel(0), 0);
}

#[test]
fn palette_values() {
    assert_eq!(colors::WHITE.value(), 255);
    assert_eq!(colors::RED.value(), 133);
    assert_eq!(colors::GREEN.value(), 86);
    assert_eq!(colors::BLUE.value(), 38);
    assert_eq!(colors::BLACK.value(), 0);
}

#[test]
fn instruction_opcodes() {
    assert_eq!(instr::NOP.opcode(), 0x00);
    assert_eq!(instr::SWRESET.opcode(), 0x01);
    assert_eq!(instr::CASET.opcode(), 0x2a);
    assert_eq!(instr::RASET.opcode(), 0x2b);
    assert_eq!(instr::RAMWR.opcode(), 0x2c);
    assert_eq!(instr::VCMOFSET.opcode(), 0xc5);
}

#[test]
fn screen_dimensions() {
    assert_eq!(SCREEN_WIDTH, 320);
    assert_eq!(SCREEN_HEIGHT, 240);
}
