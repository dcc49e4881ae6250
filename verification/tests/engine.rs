use std::io::Write;

use transcribe_rs::engines::kokoro::engine::default_voice;
use transcribe_rs::engines::kokoro::model::{GraphInput, IoErrorKind, KokoroModel};
use transcribe_rs::engines::kokoro::phonemizer::{EspeakConfig, Phonemization};
use transcribe_rs::engines::kokoro::{KokoroEngine, KokoroError, KokoroModelParams};
use zip::write::SimpleFileOptions;
use zip::ZipWriter;

fn voices_archive() -> Vec<u8> {
    let mut writer = ZipWriter::new(std::io::Cursor::new(Vec::new()));
    for name in ["bf_emma.npy", "af_heart.npy"] {
        let mut data = vec![0x93, b'N', b'U', b'M', b'P', b'Y', 1, 0, 0, 0];
        data.extend_from_slice(&[0u8; 1024]);
        writer.start_file(name, SimpleFileOptions::default()).expect("entry");
        writer.write_all(&data).expect("entry data");
    }
    writer.finish().expect("archive").into_inner()
}

fn load(voices: Option<Vec<u8>>) -> Result<KokoroModel, KokoroError> {
    let inputs = vec![GraphInput { name: "tokens".to_string(), dtype: "Int64".to_string() }];
    KokoroModel::load(&inputs, "models/kokoro/voices-v1.0.bin", voices, None)
}

#[test]
fn default_params_set_nothing() {
    let params = KokoroModelParams::default();
    assert_eq!(params.num_threads, None);
    assert_eq!(params.optimized_model_cache_path, None);
    assert_eq!(EspeakConfig::default(), EspeakConfig { bin_path: None, data_path: None });
    assert_eq!(default_voice(), "af_heart");
}

#[test]
fn new_engine_is_unloaded() {
    let engine = KokoroEngine::new();
    assert!(!engine.is_loaded());
    assert!(engine.model().is_none());
    assert_eq!(engine.list_voices(), Vec::<&str>::new());
    assert_eq!(engine.espeak(), &EspeakConfig { bin_path: None, data_path: None });
}

#[test]
fn with_espeak_keeps_the_paths() {
    let engine = KokoroEngine::with_espeak(
        Some("/app/espeak-ng/espeak-ng".to_string()),
        Some("/app/espeak-ng-data".to_string()),
    );
    assert!(!engine.is_loaded());
    assert_eq!(engine.espeak().bin_path.as_deref(), Some("/app/espeak-ng/espeak-ng"));
    assert_eq!(engine.espeak().data_path.as_deref(), Some("/app/espeak-ng-data"));
    let engine = KokoroEngine::with_espeak(None, Some("data".to_string()));
    assert_eq!(engine.espeak().bin_path, None);
}

#[test]
fn synthesize_before_load_fails() {
    let engine = KokoroEngine::new();
    match engine.synthesize("Hello", "af_heart") {
        Err(e) => assert_eq!(e, KokoroError::ModelNotLoaded),
        Ok(_) => panic!("an unloaded engine must not synthesize"),
    }
}

#[test]
fn load_then_synthesize_then_unload() {
    let mut engine = KokoroEngine::new();
    assert_eq!(engine.load_model_with_params("models/kokoro", load(Some(voices_archive()))), Ok(()));
    assert!(engine.is_loaded());
    assert_eq!(engine.list_voices(), vec!["af_heart", "bf_emma"]);
    match engine.synthesize("", "af_heart") {
        Ok(Phonemization::Finished(ids)) => assert_eq!(ids, Ok(Vec::new())),
        _ => panic!("empty text needs no phonemizer"),
    }
    match engine.synthesize("Hello there", "zf_xiaobei") {
        Ok(Phonemization::Pending(job)) => {
            assert_eq!(job.call().args[4], "cmn");
            assert_eq!(job.call().stdin, "Hello there\n");
        }
        _ => panic!("text needs the phonemizer"),
    }
    engine.unload_model();
    assert!(!engine.is_loaded());
    assert_eq!(engine.list_voices(), Vec::<&str>::new());
    assert!(matches!(engine.synthesize("Hello", "af_heart"), Err(KokoroError::ModelNotLoaded)));
}

#[test]
fn load_with_missing_voice_archive_leaves_the_engine_unloaded() {
    let mut engine = KokoroEngine::new();
    match engine.load_model_with_params("models/kokoro", load(None)) {
        Err(KokoroError::Io(e)) => assert_eq!(e.kind, IoErrorKind::NotFound),
        other => panic!("unexpected result {:?}", other),
    }
    assert!(!engine.is_loaded());
    assert!(matches!(engine.synthesize("Hello", "af_heart"), Err(KokoroError::ModelNotLoaded)));
}

#[test]
fn failed_load_keeps_the_model_that_was_loaded() {
    let mut engine = KokoroEngine::new();
    engine.load_model_with_params("a", load(Some(voices_archive()))).expect("loads");
    assert!(engine.load_model_with_params("b", load(Some(b"junk".to_vec()))).is_err());
    assert!(engine.is_loaded());
    assert_eq!(engine.list_voices(), vec!["af_heart", "bf_emma"]);
}
