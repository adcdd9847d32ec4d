//! Verified decoder for the Luau virtual machine's serialized bytecode format.
//!
//! The crate reads one compiled chunk from a byte buffer: a version byte, a
//! shared string table, a flat table of function prototypes, and a main-chunk
//! selector. Every decoding step is specified against a mathematical model of
//! the wire format and checked for bounds, termination and determinism.

pub mod bytecode;
pub mod error;
pub mod model;
pub mod deserializer;
