use auralflow::audio::{
    accepted_samples, buffer_locked_error, check_captured, device_error, downmixed_len,
    max_recording_samples, resampled_len, AudioRecorder, DeviceFailure, InputDevice,
    RecordingFormat, WHISPER_SAMPLE_RATE,
};
use auralflow::error::AuralFlowError;

#[test]
fn resamples_to_expected_length() {
    let input = vec![0.0f32; 48_000];
    assert_eq!(resampled_len(input.len(), 48_000, WHISPER_SAMPLE_RATE), 16_000);
}

#[test]
fn resampled_length_edge_cases() {
    assert_eq!(resampled_len(0, 48_000, 16_000), 0);
    assert_eq!(resampled_len(10, 0, 16_000), 0);
    assert_eq!(resampled_len(10, 16_000, 0), 0);
    assert_eq!(resampled_len(3, 16_000, 16_000), 3);
    assert_eq!(resampled_len(44_100, 44_100, 16_000), 16_000);
    assert_eq!(resampled_len(100, 44_100, 16_000), 36);
    assert_eq!(resampled_len(8_000, 8_000, 16_000), 16_000);
    assert_eq!(resampled_len(100, 8_000, 16_000), 200);
}

#[test]
fn downmixed_length() {
    assert_eq!(downmixed_len(4, 2), 2);
    assert_eq!(downmixed_len(5, 2), 2);
    assert_eq!(downmixed_len(7, 1), 7);
    assert_eq!(downmixed_len(7, 0), 7);
    assert_eq!(downmixed_len(12, 6), 2);
}

#[test]
fn recorder_start_stop() {
    let mut recorder = AudioRecorder::new();
    assert!(!recorder.is_recording());
    let info = recorder.start("Mic".into(), 48_000, 2).unwrap();
    assert_eq!(info.device_name, "Mic");
    assert_eq!(info.sample_rate, 48_000);
    assert_eq!(info.channels, 2);
    assert!(recorder.is_recording());
    assert_eq!(
        recorder.start("Other".into(), 44_100, 1),
        Err(AuralFlowError::Audio("ya hay una grabación activa".into()))
    );
    assert_eq!(
        recorder.stop(),
        Ok(RecordingFormat { source_rate: 48_000, channels: 2 })
    );
    assert!(!recorder.is_recording());
    assert_eq!(
        recorder.stop(),
        Err(AuralFlowError::Audio("no hay una grabación activa".into()))
    );
}

#[test]
fn idle_check() {
    let mut recorder = AudioRecorder::default();
    assert!(recorder.check_idle().is_ok());
    recorder.start("Mic".into(), 16_000, 1).unwrap();
    assert!(recorder.check_idle().is_err());
}

#[test]
fn capture_limits() {
    assert_eq!(max_recording_samples(48_000, 2), 57_600_000);
    assert_eq!(accepted_samples(10, 4, 3), 3);
    assert_eq!(accepted_samples(10, 8, 5), 2);
    assert_eq!(accepted_samples(10, 10, 5), 0);
    assert_eq!(accepted_samples(10, 12, 5), 0);
    assert!(check_captured(1).is_ok());
    assert_eq!(
        check_captured(0),
        Err(AuralFlowError::Audio("el micrófono no entregó audio".into()))
    );
}

#[test]
fn start_recording_with_a_device() {
    let mut recorder = AudioRecorder::new();
    assert_eq!(
        recorder.start_recording(Err(DeviceFailure::NoMicrophone)),
        Err(AuralFlowError::Audio("no se encontró un micrófono".into()))
    );
    assert!(!recorder.is_recording());
    assert_eq!(
        recorder.stop(),
        Err(AuralFlowError::Audio("no hay una grabación activa".into()))
    );
    let device = InputDevice { name: "Mic".into(), sample_rate: 44_100, channels: 1 };
    let info = recorder.start_recording(Ok(device.clone())).unwrap();
    assert_eq!(info.device_name, "Mic");
    assert!(recorder.is_recording());
    assert_eq!(
        recorder.start_recording(Ok(device)),
        Err(AuralFlowError::Audio("ya hay una grabación activa".into()))
    );
    assert_eq!(
        recorder.stop(),
        Ok(RecordingFormat { source_rate: 44_100, channels: 1 })
    );
}

#[test]
fn device_error_messages() {
    let cases = [
        (DeviceFailure::ConfigUnavailable("x".into()), "configuración no disponible: x"),
        (DeviceFailure::UnsupportedFormat("I8".into()), "formato de micrófono no compatible: I8"),
        (DeviceFailure::OpenFailed("busy".into()), "no se pudo abrir el micrófono: busy"),
        (DeviceFailure::StartFailed("y".into()), "no se pudo iniciar: y"),
    ];
    for (failure, expected) in cases {
        assert_eq!(device_error(&failure), AuralFlowError::Audio(expected.into()));
    }
    assert_eq!(
        buffer_locked_error(),
        AuralFlowError::Audio("buffer de audio bloqueado".into())
    );
}
