//! An interpreter for a small 1970s-era virtual machine: 4096 bytes of
//! memory, 16 general 8-bit registers, a call stack, two countdown timers
//! and a monochrome 64x32 pixel display. Every instruction of the 35-opcode
//! set is executed by a verified handler whose contract states its exact
//! effect on the machine state.

pub mod display;
pub mod emulator;
pub mod input;
pub mod ops;
