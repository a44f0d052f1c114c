//! Translator from a small stack-based virtual-machine language to the
//! assembly of a 16-bit word-addressable target machine.
//!
//! The library parses one source line into a command, maps each command to
//! an exact sequence of target instructions (threading a globally unique
//! jump-label counter and the name of the function currently being
//! emitted), renders those instructions as text, and concatenates the
//! per-unit results, optionally behind a fixed bootstrap prologue.

pub mod command;
pub mod gen;
pub mod instr;
pub mod labels;
pub mod machine;
pub mod semantics;
pub mod text;
pub mod translate;
