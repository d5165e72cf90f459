use auralflow::error::AuralFlowError;
use auralflow::online::{
    groq_api_key, groq_connection_error, groq_invalid_reply_error, groq_language, groq_rejection,
    groq_rejection_message, groq_request, groq_transcript_text,
    pcm16_wav, pcm16_wav_fits, status_is_success, UPLOAD_SAMPLE_RATE,
};

#[test]
fn writes_valid_mono_wav_header() {
    let wav = pcm16_wav(&[0i16; 16_000], 16_000);
    assert_eq!(&wav[0..4], b"RIFF");
    assert_eq!(&wav[8..12], b"WAVE");
    assert_eq!(wav.len(), 32_044);
}

#[test]
fn wav_fields_and_samples() {
    let wav = pcm16_wav(&[1, -1, 0x1234], UPLOAD_SAMPLE_RATE);
    assert_eq!(wav.len(), 50);
    assert_eq!(&wav[4..8], &42u32.to_le_bytes());
    assert_eq!(&wav[12..16], b"fmt ");
    assert_eq!(&wav[16..20], &16u32.to_le_bytes());
    assert_eq!(&wav[20..22], &1u16.to_le_bytes());
    assert_eq!(&wav[22..24], &1u16.to_le_bytes());
    assert_eq!(&wav[24..28], &16_000u32.to_le_bytes());
    assert_eq!(&wav[28..32], &32_000u32.to_le_bytes());
    assert_eq!(&wav[32..34], &2u16.to_le_bytes());
    assert_eq!(&wav[34..36], &16u16.to_le_bytes());
    assert_eq!(&wav[36..40], b"data");
    assert_eq!(&wav[40..44], &6u32.to_le_bytes());
    assert_eq!(&wav[44..], &[0x01, 0x00, 0xff, 0xff, 0x34, 0x12]);
}

#[test]
fn empty_wav_is_header_only() {
    let wav = pcm16_wav(&[], 8_000);
    assert_eq!(wav.len(), 44);
    assert_eq!(&wav[4..8], &36u32.to_le_bytes());
}

#[test]
fn wav_limits() {
    assert!(pcm16_wav_fits(16_000, 16_000));
    assert!(!pcm16_wav_fits(16_000, u32::MAX));
}

#[test]
fn api_key_must_not_be_blank() {
    assert_eq!(groq_api_key("  gsk_abc \n").unwrap(), "gsk_abc");
    assert_eq!(
        groq_api_key("   "),
        Err(AuralFlowError::Online(
            "falta la clave API de Groq; añádela en Preferencias".into()
        ))
    );
    assert!(groq_api_key("").is_err());
}

#[test]
fn language_field() {
    assert_eq!(groq_language("auto"), None);
    assert_eq!(groq_language("es"), Some("es".to_string()));
}

#[test]
fn success_statuses() {
    assert!(status_is_success(200));
    assert!(status_is_success(299));
    assert!(!status_is_success(199));
    assert!(!status_is_success(300));
    assert!(!status_is_success(401));
}

#[test]
fn rejection_message_shows_status_and_truncated_body() {
    let body = "x".repeat(300);
    let error = groq_rejection(401, &body);
    let expected = format!("Groq respondió 401 Unauthorized: {}", "x".repeat(240));
    assert_eq!(error, AuralFlowError::Online(expected));
    assert_eq!(
        groq_rejection_message("500 Internal Server Error", "ñandú"),
        AuralFlowError::Online("Groq respondió 500 Internal Server Error: ñandú".into())
    );
    assert_eq!(
        groq_rejection(404, ""),
        AuralFlowError::Online("Groq respondió 404 Not Found: ".into())
    );
}

#[test]
fn transcript_is_trimmed() {
    assert_eq!(groq_transcript_text("  Hola mundo.\n"), "Hola mundo.");
}

#[test]
fn request_description() {
    let request = groq_request(&[0, 1], "es", " gsk ").unwrap();
    assert_eq!(request.url, "https://api.groq.com/openai/v1/audio/transcriptions");
    assert_eq!(request.bearer_token, "gsk");
    assert_eq!(request.file_name, "auralflow.wav");
    assert_eq!(request.mime_type, "audio/wav");
    assert_eq!(request.audio, pcm16_wav(&[0, 1], 16_000));
    assert_eq!(request.model, "whisper-large-v3-turbo");
    assert_eq!(request.response_format, "json");
    assert_eq!(request.temperature, "0");
    assert_eq!(request.language, Some("es".to_string()));
    assert_eq!(groq_request(&[], "auto", "k").unwrap().language, None);
    assert!(groq_request(&[], "es", " ").is_err());
}

#[test]
fn connection_and_reply_errors() {
    assert_eq!(
        groq_connection_error("timeout"),
        AuralFlowError::Online("no se pudo conectar con Groq: timeout".into())
    );
    assert_eq!(
        groq_invalid_reply_error("missing field `text`"),
        AuralFlowError::Online("respuesta inválida de Groq: missing field `text`".into())
    );
}
