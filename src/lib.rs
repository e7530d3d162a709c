//! Linking and invocation core of a closure-based JIT runtime.
//!
//! A compiled module (machine code plus symbolic metadata) is turned into a
//! linked module: absolute entry addresses, an address-keyed stack map, one
//! closure per function in a one-shot registry, and resolved relocations.

pub mod x64;
pub mod encode;
pub mod stackmap;
pub mod module;
pub mod error;
pub mod runtime;
pub mod linking;
pub mod laws;
pub mod emit;
pub mod cgutil;
pub mod region;
