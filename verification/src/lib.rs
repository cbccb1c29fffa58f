//! A model of combinational logic built bottom-up: single-bit gates, the
//! 16-bit chips composed from them, and an arithmetic logic unit driven by
//! six control bits.
//!
//! A bit is a `u8` holding 0 or 1. A word is a `[u8; 16]` of bits with the
//! most significant bit at index 0.

pub mod alu;
pub mod chips;
pub mod gates;
pub mod word;
