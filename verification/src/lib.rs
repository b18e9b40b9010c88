//! A verified interpreter for a small fixed-format 8-bit virtual machine:
//! sixteen 8-bit registers, 4096 bytes of memory, a 16-entry call stack,
//! two countdown timers, a 64x32 monochrome framebuffer and a 16-key latch.
//!
//! The machine fetches a 2-byte instruction each step, decodes it, executes
//! it, and reports whether the display changed, whether it is blocked
//! waiting for a key, and any decode, stack or memory fault.

pub mod decode;
pub mod display;
pub mod font;
pub mod laws;
pub mod machine;
pub mod mem;
pub mod rng;
pub mod state;
