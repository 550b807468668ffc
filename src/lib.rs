//! Kaguya: a stack-based language whose words are Japanese characters.
//!
//! The library holds the tokenizer and the evaluator as a resumable machine.
//! Numbers are kept as IEEE-754 binary64 bit patterns; whatever needs float
//! arithmetic, text I/O or the process is asked of the host through
//! `runtime::Request` and answered with `runtime::Reply`.
pub mod value;
pub mod lexer;
pub mod memory;
pub mod words;
pub mod runtime;
pub mod laws;
