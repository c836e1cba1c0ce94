//! A small tokenizer for C header files: a character-level state machine that
//! recognises comments and records them as token spans, together with the
//! bookkeeping types used around it (source locations, parsed lines, header
//! files and the checks made before a file is read).

pub mod ast;
pub mod file;
pub mod header_file;
pub mod parser;
pub mod state;
pub mod text;
pub mod token;
