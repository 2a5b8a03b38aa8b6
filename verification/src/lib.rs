//! A CHIP-8 virtual machine whose interpreter is proved against a
//! mathematical model of the instruction set: an 8-bit register CPU with a
//! 4096-byte address space, a 64x32 monochrome framebuffer, two countdown
//! timers and a 16-key keypad.
//!
//! `state` holds the model: the abstract machine state and one specification
//! function per instruction. `emulator` holds the executable machine, each
//! method proved to follow the model exactly. `laws` states and proves
//! properties that span several instructions.
pub mod emulator;
pub mod laws;
pub mod state;
