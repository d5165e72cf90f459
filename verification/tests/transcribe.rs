use std::path::Path;
use auralflow::error::AuralFlowError;
use auralflow::transcribe::{
    bytes_equal, path_keys_equal, check_model_exists, check_sample_count, finish_transcript, inference_threads,
    no_voice_error, whisper_language, whisper_settings, ModelCache, MIN_SAMPLES,
};

#[test]
fn short_recordings_are_rejected() {
    assert!(check_sample_count(MIN_SAMPLES).is_ok());
    assert_eq!(
        check_sample_count(MIN_SAMPLES - 1),
        Err(AuralFlowError::Transcription(
            "la grabación es demasiado corta".into()
        ))
    );
}

#[test]
fn missing_model_file() {
    assert!(check_model_exists(true, "/m").is_ok());
    assert_eq!(
        check_model_exists(false, "/m/ggml-base-q5_1.bin"),
        Err(AuralFlowError::Model(
            "no se encontró el modelo en /m/ggml-base-q5_1.bin".into()
        ))
    );
}

#[test]
fn thread_counts() {
    assert_eq!(inference_threads(None), 4);
    assert_eq!(inference_threads(Some(0)), 1);
    assert_eq!(inference_threads(Some(1)), 1);
    assert_eq!(inference_threads(Some(4)), 4);
    assert_eq!(inference_threads(Some(5)), 4);
    assert_eq!(inference_threads(Some(8)), 7);
    assert_eq!(inference_threads(Some(13)), 12);
    assert_eq!(inference_threads(Some(64)), 12);
}

#[test]
fn whisper_language_choice() {
    assert_eq!(whisper_language("auto"), None);
    assert_eq!(whisper_language("en"), Some("en"));
}

#[test]
fn segments_are_joined_and_collapsed() {
    let segments = vec![" Hola,".to_string(), "  qué tal \n".to_string(), "bien.".to_string()];
    assert_eq!(finish_transcript(&segments).unwrap(), "Hola, qué tal bien.");
    let glued = vec!["a".to_string(), "b".to_string()];
    assert_eq!(finish_transcript(&glued).unwrap(), "a b");
}

#[test]
fn empty_transcript_is_an_error() {
    let empty: Vec<String> = vec![];
    let blank = vec![" ".to_string(), "\t".to_string()];
    for segments in [empty, blank] {
        assert_eq!(
            finish_transcript(&segments),
            Err(AuralFlowError::Transcription("Whisper no devolvió texto".into()))
        );
    }
}

#[test]
fn cache_gives_back_what_was_stored() {
    let key = |parts: &[&str]| -> Vec<Vec<u8>> { parts.iter().map(|p| p.as_bytes().to_vec()).collect() };
    let mut cache: ModelCache<u32> = ModelCache::new();
    assert_eq!(cache.lookup(&key(&["/", "a"])), None);
    cache.store(key(&["/", "a"]), 7);
    assert_eq!(cache.lookup(&key(&["/", "a"])), Some(&7));
    assert_eq!(cache.lookup(&key(&["/", "b"])), None);
    assert_eq!(cache.lookup(&key(&["/", "a", "b"])), None);
    assert_eq!(cache.lookup(&key(&["a"])), None);
    cache.store(key(&["/", "b"]), 9);
    assert_eq!(cache.lookup(&key(&["/", "a"])), None);
    assert_eq!(cache.lookup(&key(&["/", "b"])), Some(&9));
}

#[test]
fn paths_equal_by_component_share_an_entry() {
    let key = |p: &str| -> Vec<Vec<u8>> {
        Path::new(p).components().map(|c| c.as_os_str().as_encoded_bytes().to_vec()).collect()
    };
    let mut cache: ModelCache<u32> = ModelCache::new();
    cache.store(key("/m//ggml-base-q5_1.bin"), 1);
    assert_eq!(Path::new("/m//ggml-base-q5_1.bin"), Path::new("/m/ggml-base-q5_1.bin"));
    assert_eq!(cache.lookup(&key("/m/ggml-base-q5_1.bin")), Some(&1));
    assert_eq!(cache.lookup(&key("/m/./ggml-base-q5_1.bin")), Some(&1));
    assert_eq!(cache.lookup(&key("/n/ggml-base-q5_1.bin")), None);
}

#[test]
fn preview_settings() {
    let preview = whisper_settings(true, Some(8));
    assert!(preview.single_segment && preview.no_context);
    assert_eq!(preview.threads, 7);
    assert_eq!(preview.best_of, 1);
    let full = whisper_settings(false, None);
    assert!(!full.single_segment && !full.no_context);
    assert!(full.suppress_blank && full.suppress_non_speech && full.no_timestamps);
    assert!(!full.translate && !full.print_progress);
    assert_eq!(full.threads, 4);
}

#[test]
fn silence_error_and_byte_keys() {
    assert_eq!(
        no_voice_error(),
        AuralFlowError::Transcription("no se ha detectado voz; revisa el micrófono".into())
    );
    assert!(bytes_equal(b"abc", b"abc"));
    assert!(!bytes_equal(b"abc", b"abd"));
    assert!(!bytes_equal(b"abc", b"ab"));
}

#[test]
fn path_key_equality() {
    let a = vec![b"/".to_vec(), b"m".to_vec()];
    assert!(path_keys_equal(&a, &a.clone()));
    assert!(!path_keys_equal(&a, &vec![b"/".to_vec(), b"n".to_vec()]));
    assert!(!path_keys_equal(&a, &vec![b"/".to_vec()]));
}
