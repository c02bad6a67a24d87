//! A small interactive shell: the command-line lexer, redirections,
//! builtin commands and completion, with their contracts.

pub mod text;
pub mod lexer;
pub mod redirect;
pub mod paths;
pub mod command;
pub mod completion;
pub mod laws;
