use auralflow::credentials::{
    access_failure, delete_outcome, groq_account, groq_key_request, load_groq_key, load_outcome,
    save_outcome, KeychainError,
};

fn failure(no_entry: bool, detail: &str) -> KeychainError {
    KeychainError { no_entry, detail: detail.into() }
}

#[test]
fn save_reports_failures() {
    assert_eq!(save_outcome(Ok(())), Ok(()));
    assert_eq!(
        save_outcome(Err(failure(false, "locked"))),
        Err("no se pudo guardar la clave en el llavero: locked".into())
    );
}

#[test]
fn missing_key_loads_as_none() {
    assert_eq!(load_outcome(Ok("gsk".into())), Ok(Some("gsk".into())));
    assert_eq!(
        load_outcome(Err(failure(true, "No matching entry found in secure storage"))),
        Ok(None)
    );
    assert_eq!(
        load_outcome(Err(failure(false, "denied"))),
        Err("no se pudo leer la clave del llavero: denied".into())
    );
}

#[test]
fn deleting_a_missing_key_succeeds() {
    assert_eq!(delete_outcome(Ok(())), Ok(()));
    assert_eq!(delete_outcome(Err(failure(true, "none"))), Ok(()));
    assert_eq!(
        delete_outcome(Err(failure(false, "denied"))),
        Err("no se pudo borrar la clave del llavero: denied".into())
    );
}

#[test]
fn access_failure_message() {
    assert_eq!(
        access_failure(&failure(false, "no store")),
        "no se pudo acceder al llavero del sistema: no store"
    );
}

#[test]
fn loading_reports_a_key_none_or_a_keychain_message() {
    match load_groq_key() {
        Ok(_) => {}
        Err(message) => assert!(
            message.starts_with("no se pudo acceder al llavero del sistema: ")
                || message.starts_with("no se pudo leer la clave del llavero: "),
            "{message}"
        ),
    }
}

#[test]
fn key_request_names_the_groq_entry_and_keeps_the_key_verbatim() {
    let account = groq_account();
    assert_eq!(account.service, "com.antoniojose.auralflow");
    assert_eq!(account.account, "groq-api-key");
    let request = groq_key_request("  gsk_123 ");
    assert_eq!(request.entry, account);
    assert_eq!(request.secret, "  gsk_123 ");
}
