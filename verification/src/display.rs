//! The display controller's instruction set and screen geometry.
//!
//! The driver that streams the framebuffer over the wire lives outside
//! the verified core; this module holds what that protocol and the
//! renderer share: the command opcodes and the screen dimensions.

use vstd::prelude::*;

verus! {

/// The number of pixel columns of the target display.
pub const SCREEN_WIDTH: usize = 320;

/// The number of pixel rows of the target display.
pub const SCREEN_HEIGHT: usize = 240;

/// The command set of the display controller.
#[allow(non_camel_case_types)]
#[derive(Clone, Copy, PartialEq, Eq, Structural, Debug)]
pub enum instr {
    NOP,
    SWRESET,
    RDDID,
    RDDST,
    SLPIN,
    SLPOUT,
    PTLON,
    NORON,
    INVOFF,
    INVON,
    DISPOFF,
    DISPON,
    CASET,
    RASET,
    RAMWR,
    RAMRD,
    PTLAR,
    VSCRDER,
    TEOFF,
    TEON,
    MADCTL,
    VSCAD,
    COLMOD,
    VCMOFSET,
}

/// The wire opcode of each controller command.
pub open spec fn spec_opcode(i: instr) -> u8 {
    match i {
        instr::NOP => 0x00,
        instr::SWRESET => 0x01,
        instr::RDDID => 0x04,
        instr::RDDST => 0x09,
        instr::SLPIN => 0x10,
        instr::SLPOUT => 0x11,
        instr::PTLON => 0x12,
        instr::NORON => 0x13,
        instr::INVOFF => 0x20,
        instr::INVON => 0x21,
        instr::DISPOFF => 0x28,
        instr::DISPON => 0x29,
        instr::CASET => 0x2a,
        instr::RASET => 0x2b,
        instr::RAMWR => 0x2c,
        instr::RAMRD => 0x2e,
        instr::PTLAR => 0x30,
        instr::VSCRDER => 0x33,
        instr::TEOFF => 0x34,
        instr::TEON => 0x35,
        instr::MADCTL => 0x36,
        instr::VSCAD => 0x37,
        instr::COLMOD => 0x3a,
        instr::VCMOFSET => 0xc5,
    }
}

impl instr {
    /// The byte this command puts on the wire.
    pub fn opcode(&self) -> (b: u8)
        ensures
            b == spec_opcode(*self),
    {
        match self {
            instr::NOP => 0x00,
            instr::SWRESET => 0x01,
            instr::RDDID => 0x04,
            instr::RDDST => 0x09,
            instr::SLPIN => 0x10,
            instr::SLPOUT => 0x11,
            instr::PTLON => 0x12,
            instr::NORON => 0x13,
            instr::INVOFF => 0x20,
            instr::INVON => 0x21,
            instr::DISPOFF => 0x28,
            instr::DISPON => 0x29,
            instr::CASET => 0x2a,
            instr::RASET => 0x2b,
            instr::RAMWR => 0x2c,
            instr::RAMRD => 0x2e,
            instr::PTLAR => 0x30,
            instr::VSCRDER => 0x33,
            instr::TEOFF => 0x34,
            instr::TEON => 0x35,
            instr::MADCTL => 0x36,
            instr::VSCAD => 0x37,
            instr::COLMOD => 0x3a,
            instr::VCMOFSET => 0xc5,
        }
    }
}

} // verus!
