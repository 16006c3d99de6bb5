//! Decoder for the WebAssembly binary module format.
//!
//! The decoder turns an immutable byte buffer into a structured `Module`
//! value, or reports a structured error.  Decoding is a pure function of the
//! input bytes: the grammar is specified by spec functions over `Seq<u8>`,
//! and every executable decoder is proved to return exactly what its spec
//! function denotes.
//!
//! Layer order, bottom up: the error model (`error`), LEB128 integers
//! (`leb128`), primitive values (`values`), the type grammar (`types`),
//! index spaces (`indices`), instructions and expressions (`instr`),
//! sections (`sections`), and the module assembler (`module`).

pub mod error;
pub mod indices;
pub mod instr;
pub mod leb128;
pub mod module;
pub mod sections;
pub mod types;
pub mod values;
