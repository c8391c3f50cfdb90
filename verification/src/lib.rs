//! A compiler for a small concatenative stack language.
//!
//! Source programs are whitespace-separated tokens that manipulate a run-time
//! operand stack.  A single pass fuses the tokenizer with a block-structured
//! compiler: it recognises nested definitions, keeps a stack of code buffers so
//! each block captures its generated text, enforces a static stack type
//! discipline, and emits target text through a pluggable backend.
//!
//! The whole pass is modelled by a purely mathematical interpreter (see
//! [`model`]); the executable compiler is proved to compute exactly the state
//! that the model describes.

pub mod backends;
pub mod errors;
pub mod frontend;
pub mod laws;
pub mod model;
pub mod state;
pub mod strutil;
