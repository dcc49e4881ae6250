//! Kokoro text-to-speech engine.
//!
//! Voice names follow the pattern `{language_prefix}_{name}`, for example
//! `af_heart` (American English) or `jf_alpha` (Japanese).
//!
//! | Voice prefix | Language | Phonemizer code |
//! |---|---|---|
//! | `af_`, `am_` | American English | `en-us` |
//! | `bf_`, `bm_` | British English | `en-gb` |
//! | `ef_`, `em_` | Spanish | `es` |
//! | `ff_` | French | `fr` |
//! | `hf_`, `hm_` | Hindi | `hi` |
//! | `if_`, `im_` | Italian | `it` |
//! | `jf_`, `jm_` | Japanese | `ja` |
//! | `pf_`, `pm_` | Brazilian Portuguese | `pt-br` |
//! | `zf_`, `zm_` | Mandarin Chinese | `cmn` |

pub mod archive;
pub mod engine;
pub mod json;
pub mod model;
pub mod phonemizer;
pub mod text;
pub mod vocab;
pub mod voices;

pub use engine::{KokoroEngine, KokoroModelParams};
pub use model::KokoroError;
