use auralflow::config::{
    create_dir_failure, invalid_config_path, invalid_json, load, read_failure, write_failure,
    Settings,
};
use auralflow::error::AuralFlowError;

#[test]
fn defaults_are_valid() {
    assert!(Settings::default().validate().is_ok());
}

#[test]
fn rejects_unknown_models() {
    let mut settings = Settings::default();
    settings.model_name = "modelo-inventado".into();
    assert!(settings.validate().is_err());
}

#[test]
fn default_values() {
    let settings = Settings::default();
    assert_eq!(settings.model_name, "tiny-q5_1");
    assert_eq!(settings.language, "es");
    assert_eq!(settings.hotkey, "CommandOrControl+Shift+Space");
    assert!(settings.auto_paste);
}

#[test]
fn unknown_model_error_detail() {
    let mut settings = Settings::default();
    settings.model_name = "medium-q5_0".into();
    assert_eq!(
        settings.validate(),
        Err(AuralFlowError::Config("modelo no permitido".into()))
    );
}

#[test]
fn every_supported_model_validates() {
    for name in ["tiny-q5_1", "base-q5_1", "small-q5_1", "large-v3-turbo-q5_0"] {
        let mut settings = Settings::default();
        settings.model_name = name.into();
        assert!(settings.validate().is_ok(), "{name}");
    }
}

#[test]
fn languages() {
    for language in ["es", "en", "auto"] {
        let mut settings = Settings::default();
        settings.language = language.into();
        assert!(settings.validate().is_ok());
    }
    let mut settings = Settings::default();
    settings.language = "fr".into();
    assert_eq!(
        settings.validate(),
        Err(AuralFlowError::Config("idioma no permitido".into()))
    );
}

#[test]
fn model_is_checked_before_language() {
    let mut settings = Settings::default();
    settings.model_name = "x".into();
    settings.language = "fr".into();
    assert_eq!(
        settings.validate(),
        Err(AuralFlowError::Config("modelo no permitido".into()))
    );
}

#[test]
fn blank_hotkey_is_rejected() {
    for hotkey in ["", "   ", "\t\n", "\u{3000}"] {
        let mut settings = Settings::default();
        settings.hotkey = hotkey.into();
        assert_eq!(
            settings.validate(),
            Err(AuralFlowError::Config("el atajo global no es válido".into()))
        );
    }
}

#[test]
fn hotkey_length_limit_counts_bytes() {
    let mut settings = Settings::default();
    settings.hotkey = "a".repeat(100);
    assert!(settings.validate().is_ok());
    settings.hotkey = "a".repeat(101);
    assert!(settings.validate().is_err());
    // 50 two-byte characters are exactly 100 bytes; 51 are too many.
    settings.hotkey = "ñ".repeat(50);
    assert!(settings.validate().is_ok());
    settings.hotkey = "ñ".repeat(51);
    assert!(settings.validate().is_err());
}

#[test]
fn load_without_stored_settings_gives_defaults() {
    assert_eq!(load(None), Ok(Settings::default()));
}

#[test]
fn load_keeps_valid_and_rejects_invalid() {
    let mut settings = Settings::default();
    settings.language = "en".into();
    assert_eq!(load(Some(settings.clone())), Ok(settings.clone()));
    settings.language = "de".into();
    assert_eq!(
        load(Some(settings)),
        Err(AuralFlowError::Config("idioma no permitido".into()))
    );
}

#[test]
fn invalid_stored_model_fails_to_load() {
    let mut settings = Settings::default();
    settings.model_name = "medium".into();
    assert_eq!(
        load(Some(settings)),
        Err(AuralFlowError::Config("modelo no permitido".into()))
    );
}

#[test]
fn settings_file_errors() {
    assert_eq!(
        read_failure("/c/settings.json", "denied"),
        AuralFlowError::Config("no se pudo leer /c/settings.json: denied".into())
    );
    assert_eq!(
        invalid_json("EOF"),
        AuralFlowError::Config("JSON inválido: EOF".into())
    );
    assert_eq!(
        invalid_config_path(),
        AuralFlowError::Config("ruta de configuración inválida".into())
    );
    assert_eq!(
        create_dir_failure("ro"),
        AuralFlowError::Config("no se pudo crear la carpeta: ro".into())
    );
    assert_eq!(
        write_failure("full"),
        AuralFlowError::Config("no se pudo guardar: full".into())
    );
}
