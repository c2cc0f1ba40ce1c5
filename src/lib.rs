//! A small instruction-set emulator: a CPU with sixteen 8-bit registers, a
//! 4096-byte memory, and a sixteen-entry call stack, which fetches two-byte
//! instructions, decodes them, and executes them until it reaches a halt.
//!
//! Alongside it stands `Q7`, a signed fixed-point number with seven
//! fractional bits.
use vstd::prelude::*;

pub mod cpu;
pub mod decode;
pub mod machine;
pub mod q7;

verus! {

} // verus!
