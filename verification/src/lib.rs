//! Type-directed encoding of columnar message instances into positional records.
//!
//! A message instance arrives as a struct-of-arrays value; a registry of message
//! descriptors says which members the message has and in which order they are laid
//! out. The encoder walks the descriptor, takes each member's column or a synthesized
//! default, and produces a record whose fields are identified by position alone.
//!
//! - [`descriptor`]: message descriptors and the registry.
//! - [`columnar`]: the input, arrays and structs-of-arrays.
//! - [`value`]: the output, values and records.
//! - [`defaults`]: default values for members that an instance leaves out.
//! - [`encode`]: the struct encoder and the leaf encoders.
//! - [`laws`]: what holds of every encoding.
//! - [`error`]: the failures.
//! - [`control`]: decisions of the loops that serve control connections.

pub mod columnar;
pub mod control;
pub mod defaults;
pub mod descriptor;
pub mod encode;
pub mod error;
pub mod laws;
pub mod value;
