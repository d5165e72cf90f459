use auralflow::error::AuralFlowError;
use auralflow::push_to_talk::{fn_key_event, FLAGS_CHANGED_MASK, FN_KEY_CODE};
use auralflow::session::{paste_report, transcript_result};

#[test]
fn paste_outcomes() {
    assert_eq!(paste_report(None), (false, None));
    assert_eq!(paste_report(Some(Ok(()))), (true, None));
    assert_eq!(
        paste_report(Some(Err(AuralFlowError::Clipboard("sin permiso".into())))),
        (
            false,
            Some("El texto se transcribió, pero no se pudo pegar: Portapapeles: sin permiso".into())
        )
    );
}

#[test]
fn transcript_result_fields() {
    let r = transcript_result("hola".into(), 1234, Some(Ok(())));
    assert_eq!(r.text, "hola");
    assert_eq!(r.elapsed_ms, 1234);
    assert!(r.pasted);
    assert_eq!(r.warning, None);
}

#[test]
fn fn_key_events() {
    assert_eq!(FLAGS_CHANGED_MASK, 4096);
    let pressed = fn_key_event(true, FN_KEY_CODE, true, true).unwrap();
    assert_eq!(pressed.state, "pressed");
    assert_eq!(pressed.key, "Fn");
    assert_eq!(fn_key_event(true, FN_KEY_CODE, true, false).unwrap().state, "released");
    assert_eq!(fn_key_event(true, 123, true, true), None);
    assert_eq!(fn_key_event(false, FN_KEY_CODE, true, true), None);
    assert_eq!(fn_key_event(true, FN_KEY_CODE, false, true), None);
}
