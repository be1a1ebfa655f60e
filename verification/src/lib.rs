//! An emulator core for a classic 8-bit fantasy console: 4 KiB of memory,
//! sixteen 8-bit registers, a 16-entry call stack, two countdown timers, a
//! 64x32 monochrome display with XOR sprite composition, and a 16-key pad.
//!
//! The interpreter ([`cpu::Cpu`]) fetches, decodes and executes one
//! instruction per clock cycle; every public operation carries a contract
//! that pins down its effect on an abstract machine state ([`cpu::CpuModel`]).

pub mod cpu;
pub mod world;
