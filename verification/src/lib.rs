//! A debugger core for a 16-bit stack machine with a 32 K-word address space:
//! the machine itself, its instruction decoder, breakpoints, and the codec
//! that saves and restores a run.

pub mod debugger;
pub mod errors;
pub mod machine;
pub mod memory;
pub mod op_code;
pub mod text;
pub mod wire;
