use auralflow::error::AuralFlowError;
use auralflow::paste::key_sequence_outcome;

#[test]
fn first_key_failure_is_reported() {
    assert_eq!(key_sequence_outcome(Ok(()), Ok(())), Ok(()));
    assert_eq!(
        key_sequence_outcome(Err("click".into()), Err("release".into())),
        Err(AuralFlowError::Clipboard("click".into()))
    );
    assert_eq!(
        key_sequence_outcome(Ok(()), Err("release".into())),
        Err(AuralFlowError::Clipboard("release".into()))
    );
}
