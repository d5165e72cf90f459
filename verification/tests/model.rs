use auralflow::error::AuralFlowError;
use auralflow::model::{
    check_model_magic, download_rejected_error, download_request_error, invalid_models_dir_error,
    is_supported_model, model_file_name, model_url, status, DownloadStep, ModelDownload,
    MIN_MODEL_BYTES,
};

#[test]
fn supported_models() {
    assert!(is_supported_model("base-q5_1"));
    assert!(is_supported_model("small-q5_1"));
    assert!(is_supported_model("large-v3-turbo-q5_0"));
    assert!(is_supported_model("tiny-q5_1"));
    assert!(!is_supported_model("medium-q5_0"));
    assert!(!is_supported_model(""));
    assert!(!is_supported_model("base-q5_1 "));
}

#[test]
fn file_name_and_url() {
    assert_eq!(model_file_name("base-q5_1").unwrap(), "ggml-base-q5_1.bin");
    assert_eq!(
        model_url("small-q5_1").unwrap(),
        "https://huggingface.co/ggerganov/whisper.cpp/resolve/main/ggml-small-q5_1.bin"
    );
    assert_eq!(
        model_file_name("../etc"),
        Err(AuralFlowError::Model("modelo no permitido".into()))
    );
    assert_eq!(
        model_url("../etc"),
        Err(AuralFlowError::Model("modelo no permitido".into()))
    );
}

#[test]
fn status_reports_installation_by_size() {
    let s = status("base-q5_1", "/m/ggml-base-q5_1.bin".into(), Some(MIN_MODEL_BYTES + 1)).unwrap();
    assert!(s.installed);
    assert_eq!(s.model_name, "base-q5_1");
    assert_eq!(s.path, "/m/ggml-base-q5_1.bin");
    assert!(!status("base-q5_1", "p".into(), Some(MIN_MODEL_BYTES)).unwrap().installed);
    assert!(!status("base-q5_1", "p".into(), None).unwrap().installed);
    assert!(status("nope", "p".into(), Some(5_000_000)).is_err());
}

#[test]
fn download_counts_chunks() {
    let mut download = ModelDownload::new(Some(2_000_000));
    let p1 = download.record_chunk(600_000);
    assert_eq!(p1.downloaded_bytes, 600_000);
    assert_eq!(p1.total_bytes, Some(2_000_000));
    assert_eq!(
        download.check_size(),
        Err(AuralFlowError::Model(
            "el archivo descargado no parece un modelo válido".into()
        ))
    );
    let p2 = download.record_chunk(400_000);
    assert_eq!(p2.downloaded_bytes, 1_000_000);
    assert_eq!(download.downloaded_bytes(), 1_000_000);
    assert!(download.check_size().is_ok());
}

#[test]
fn magic_bytes() {
    assert!(check_model_magic(*b"ggml").is_ok());
    assert!(check_model_magic(*b"lmgg").is_ok());
    assert_eq!(
        check_model_magic(*b"GGUF"),
        Err(AuralFlowError::Model(
            "la descarga no tiene el formato GGML esperado".into()
        ))
    );
    assert!(check_model_magic(*b"<htm").is_err());
}

#[test]
fn download_steps_check_size_then_magic() {
    let small = ModelDownload::new(None);
    let size_error = AuralFlowError::Model("el archivo descargado no parece un modelo válido".into());
    assert_eq!(small.next_step(None), DownloadStep::Discard(size_error.clone()));
    assert_eq!(small.next_step(Some(*b"ggml")), DownloadStep::Discard(size_error));
    let mut big = ModelDownload::new(None);
    big.record_chunk(MIN_MODEL_BYTES);
    assert_eq!(big.next_step(None), DownloadStep::ReadMagic);
    assert_eq!(big.next_step(Some(*b"lmgg")), DownloadStep::Install);
    assert_eq!(
        big.next_step(Some(*b"<!DO")),
        DownloadStep::Discard(AuralFlowError::Model(
            "la descarga no tiene el formato GGML esperado".into()
        ))
    );
}

#[test]
fn download_error_messages() {
    assert_eq!(
        invalid_models_dir_error(),
        AuralFlowError::Model("ruta de modelos inválida".into())
    );
    assert_eq!(
        download_request_error("dns"),
        AuralFlowError::Model("falló la descarga: dns".into())
    );
    assert_eq!(
        download_rejected_error("404"),
        AuralFlowError::Model("el servidor rechazó la descarga: 404".into())
    );
}
