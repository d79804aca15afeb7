//! A verified interpreter core for a small 8-bit virtual computer: 4KB of
//! memory, sixteen 8-bit registers, a 64x32 one-bit display, two countdown
//! timers and a hexadecimal keypad, driven one instruction per tick.

pub mod arith;
pub mod instr;
pub mod laws;
pub mod machine;
pub mod rng;
pub mod step;
