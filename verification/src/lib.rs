//! Request parsing, response framing, terminal protocol and command-line
//! policy for the `wanix` CLI, with their behaviour stated as contracts.

pub mod text;
pub mod error;
pub mod seqs;
pub mod http;
pub mod terminal;
pub mod serve;
pub mod volume;
pub mod tool;
pub mod terminal_mode;
pub mod wasm;
