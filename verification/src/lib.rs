//! Text-to-speech front end for the Kokoro voice model.
//!
//! The library turns text into the token sequences the model consumes, splits
//! them into model-sized chunks, parses the voice-style archive and decides
//! every step of a synthesis call. Running the phonemizer process and the
//! neural network is left to the caller, who feeds their results back in.

pub mod engines;
