use auralflow::error::AuralFlowError;

#[test]
fn messages_carry_the_part_label() {
    let cases = [
        (AuralFlowError::Audio("a".into()), "Audio: a"),
        (AuralFlowError::Model("b".into()), "Modelo: b"),
        (AuralFlowError::Transcription("c".into()), "Transcripción: c"),
        (AuralFlowError::Online("d".into()), "Servicio online: d"),
        (AuralFlowError::Config("e".into()), "Configuración: e"),
        (AuralFlowError::Clipboard("f".into()), "Portapapeles: f"),
    ];
    for (error, expected) in cases {
        assert_eq!(error.message(), expected);
    }
}
