//! An interpreter for a frame-based abstract machine ("TIM" style): closures
//! over argument frames, a closure stack, and a value stack for strict
//! integer arithmetic.
//!
//! - `datatypes`: instructions, addresses, closures and environments.
//! - `codestore`: the program, a mapping from label to instruction sequence.
//! - `state`: the machine's registers, its fatal conditions, and address
//!   resolution.
//! - `machine`: the step function, the driver loop, and the laws of
//!   straight-line arithmetic.
//! - `decode`: from a structured-data document to a code store.
pub mod codestore;
pub mod datatypes;
pub mod decode;
pub mod machine;
pub mod state;
