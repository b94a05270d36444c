//! A verified decoder and interpreter for a small subset of the WebAssembly
//! binary module format.
//!
//! The crate decodes a byte stream into a [`module::Module`] (function
//! signatures, locals, instruction sequences, exports), resolves an export
//! name to a callable function, and executes a function body on a stack
//! machine over `i32` values.  Every decoding and execution step is verified
//! against a mathematical description of the format and of the machine.

pub mod cursor;
pub mod error;
pub mod instance;
pub mod module;
