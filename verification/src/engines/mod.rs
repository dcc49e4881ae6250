//! Speech synthesis engines.

pub mod kokoro;
