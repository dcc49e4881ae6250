//! The engine: a model that is loaded or not, and what may be asked of it.

use vstd::prelude::*;
use super::model::{KokoroError, KokoroErrorView, KokoroModel};
use super::phonemizer::{phonemize_started, voice_language, EspeakConfig, Phonemization};
use super::voices::{names_ascend, texts};

verus! {

/// Parameters for configuring Kokoro model loading.
#[derive(Debug, Clone)]
pub struct KokoroModelParams {
    /// Number of CPU threads to use for inference.
    /// `None` uses the runtime's default (typically all available cores).
    pub num_threads: Option<usize>,
    /// Path for caching the optimized graph.
    ///
    /// - First load: the runtime optimizes the graph and writes the result here.
    /// - Subsequent loads: the cached graph is loaded without optimization,
    ///   which skips the expensive step entirely.
    ///
    /// Always use a writable location; bundled resource directories may be
    /// read-only.
    pub optimized_model_cache_path: Option<String>,
}

impl Default for KokoroModelParams {
    fn default() -> (params: KokoroModelParams)
        ensures
            params.num_threads is None,
            params.optimized_model_cache_path is None,
    {
        KokoroModelParams { num_threads: None, optimized_model_cache_path: None }
    }
}

/// The voice that is used when a request names none.
pub fn default_voice() -> (voice: &'static str)
    ensures
        voice@ == "af_heart"@,
{
    "af_heart"
}

/// Kokoro text-to-speech engine.
///
/// An engine is unloaded until a model is installed, and unloaded again
/// once the model is dropped. Only a loaded engine synthesizes.
pub struct KokoroEngine {
    model: Option<KokoroModel>,
    model_path: Option<String>,
    espeak: EspeakConfig,
}

impl KokoroEngine {
    /// Whether a model is loaded.
    pub closed spec fn loaded(&self) -> bool {
        self.model is Some
    }

    /// The loaded model.
    pub closed spec fn loaded_model(&self) -> KokoroModel
        recommends
            self.loaded(),
    {
        self.model->0
    }

    /// The directory that the loaded model came from.
    pub closed spec fn loaded_path(&self) -> Option<Seq<char>> {
        match self.model_path {
            Some(path) => Some(path@),
            None => None,
        }
    }

    /// Where the engine finds the phonemizer.
    pub closed spec fn espeak_config(&self) -> EspeakConfig {
        self.espeak
    }

    /// Create a new engine that uses `espeak-ng` from PATH.
    pub fn new() -> (engine: KokoroEngine)
        ensures
            !engine.loaded(),
            engine.loaded_path() is None,
            engine.espeak_config().bin_path is None,
            engine.espeak_config().data_path is None,
    {
        KokoroEngine {
            model: None,
            model_path: None,
            espeak: EspeakConfig { bin_path: None, data_path: None },
        }
    }

    /// Create a new engine with explicit espeak-ng binary and data paths.
    ///
    /// Use this when bundling espeak-ng with your application. Either path
    /// can be `None` to fall back to the system default.
    pub fn with_espeak(bin_path: Option<String>, data_path: Option<String>) -> (engine:
        KokoroEngine)
        ensures
            !engine.loaded(),
            engine.loaded_path() is None,
            engine.espeak_config().bin_path == bin_path,
            engine.espeak_config().data_path == data_path,
    {
        KokoroEngine { model: None, model_path: None, espeak: EspeakConfig { bin_path, data_path } }
    }

    /// Where the engine finds the phonemizer.
    pub fn espeak(&self) -> (config: &EspeakConfig)
        ensures
            *config == self.espeak_config(),
    {
        &self.espeak
    }

    /// Whether a model is loaded.
    pub fn is_loaded(&self) -> (r: bool)
        ensures
            r == self.loaded(),
    {
        self.model.is_some()
    }

    /// The loaded model, if there is one.
    pub fn model(&self) -> (model: Option<&KokoroModel>)
        ensures
            match model {
                Some(m) => self.loaded() && *m == self.loaded_model(),
                None => !self.loaded(),
            },
    {
        self.model.as_ref()
    }

    /// List all available voice names; none while no model is loaded.
    pub fn list_voices(&self) -> (names: Vec<&str>)
        ensures
            !self.loaded() ==> names@.len() == 0,
            self.loaded() ==> texts(names@).to_set() == self.loaded_model().voices().dom()
                && names_ascend(texts(names@)),
    {
        match &self.model {
            Some(model) => model.list_voices(),
            None => Vec::new(),
        }
    }

    /// Ends loading a model from `model_path`. If loading succeeded the
    /// engine holds the new model from now on; if it failed the engine is
    /// left as it was and the error is handed on.
    pub fn load_model_with_params(
        &mut self,
        model_path: &str,
        load: Result<KokoroModel, KokoroError>,
    ) -> (r: Result<(), KokoroError>)
        ensures
            final(self).espeak_config() == old(self).espeak_config(),
            match load {
                Ok(model) => r is Ok && final(self).loaded() && final(self).loaded_model() == model
                    && final(self).loaded_path() == Some(model_path@),
                Err(e) => r == Err::<(), KokoroError>(e) && *final(self) == *old(self),
            },
    {
        match load {
            Ok(model) => {
                self.model = Some(model);
                self.model_path = Some(model_path.to_string());
                Ok(())
            },
            Err(e) => Err(e),
        }
    }

    /// Unload the currently loaded model.
    pub fn unload_model(&mut self)
        ensures
            !final(self).loaded(),
            final(self).loaded_path() is None,
            final(self).espeak_config() == old(self).espeak_config(),
    {
        self.model = None;
        self.model_path = None;
    }

    /// Starts synthesizing `text` with the voice `voice`.
    ///
    /// Fails while no model is loaded. Otherwise the text is phonemized in
    /// the language of the voice, with the vocabulary of the loaded model.
    pub fn synthesize(&self, text: &str, voice: &str) -> (r: Result<Phonemization, KokoroError>)
        ensures
            match r {
                Ok(start) => self.loaded() && phonemize_started(
                    text@,
                    voice_language(voice@),
                    self.loaded_model().vocabulary(),
                    start,
                ),
                Err(e) => !self.loaded() && e@ == KokoroErrorView::ModelNotLoaded,
            },
    {
        match &self.model {
            Some(model) => Ok(model.synthesize_text(text, voice)),
            None => Err(KokoroError::ModelNotLoaded),
        }
    }
}

} // verus!
