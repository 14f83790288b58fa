//! Turns a list of C/C++ header references and compiler flags into the pieces
//! needed to run a binding generator: classified arguments, the text of an
//! aggregate header, the generator's argument vector and the final output text.

pub mod assemble;
pub mod classify;
pub mod command;
pub mod header;
pub mod pipeline;
pub mod text;
