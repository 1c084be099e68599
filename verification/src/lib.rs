//! An interpreter for a small line-oriented scripting language describing
//! 2-D vector drawings. Source text is tokenized, parsed into a program of
//! instructions, and evaluated on a value stack; drawable results become
//! draw commands that the caller hands to a rendering backend.
pub mod token;
pub mod ast;
pub mod stdlib;
pub mod runtime;
pub mod output;

pub use ast::{parse_file, Program};
pub use output::{DrawBuffer, DrawCommand};
pub use runtime::{Error, Runtime};
