//! A CHIP-8 style virtual machine: a byte-addressable memory with a built-in
//! font table, sixteen 8-bit registers, a 64x32 monochrome framebuffer with a
//! wraparound XOR sprite blit, and the fetch-decode-execute interpreter that
//! drives them, all with proved contracts.

pub mod cpu;
pub mod display;
pub mod mem;
pub mod vm;
