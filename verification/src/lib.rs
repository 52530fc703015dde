//! Planning layer of an LLM inference runtime: checkpoint inventories,
//! weight layouts, numeric format conversions and the device programs of
//! the Gemma 4 NVFP4 forward path.
//!
//! Everything in this crate is a function from plain values to plain
//! values. Reading files, talking to the GPU driver and floating-point
//! arithmetic belong to the caller.

pub mod formats;
pub mod json;
pub mod limits;
pub mod loader;
pub mod runtime;
pub mod tensor;
pub mod text;
pub mod weight_bytes;
