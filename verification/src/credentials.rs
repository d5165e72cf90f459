//! The Groq API key, kept in the operating system's keychain.

use vstd::prelude::*;

verus! {

/// The keychain service under which the key is stored.
pub const SERVICE: &'static str = "com.antoniojose.auralflow";

/// The keychain account that holds the Groq API key.
pub const GROQ_ACCOUNT: &'static str = "groq-api-key";

#[verifier::external_type_specification]
#[verifier::external_body]
pub struct ExKeyringEntry(keyring::Entry);

#[verifier::external_type_specification]
#[verifier::external_body]
pub struct ExKeyringError(keyring::Error);

/// A keychain failure: whether it means that no credential is stored, and
/// the keychain's own description of it.
#[derive(Debug, Clone, PartialEq, Eq)]
pub struct KeychainError {
    pub no_entry: bool,
    pub detail: String,
}

/// Describes a keychain error.
///
/// Trusted: tells `keyring::Error::NoEntry` apart from the other variants and
/// displays the error with its `Display` impl, which for `NoEntry` writes the
/// fixed text stated here.
#[verifier::external_body]
fn describe_keyring_error(error: &keyring::Error) -> (r: KeychainError)
    ensures
        r.no_entry ==> r.detail@ == "No matching entry found in secure storage"@,
{
    let no_entry = match error {
        keyring::Error::NoEntry => true,
        _ => false,
    };
    KeychainError { no_entry, detail: error.to_string() }
}

/// The keychain entry a credential lives in: a service and an account.
#[derive(Debug, Clone, PartialEq, Eq)]
pub struct KeychainAccount {
    pub service: String,
    pub account: String,
}

/// A secret to store and the keychain entry to store it in.
#[derive(Debug, Clone, PartialEq, Eq)]
pub struct KeychainRequest {
    pub entry: KeychainAccount,
    pub secret: String,
}

/// Whether `a` names the keychain entry of the Groq API key.
pub open spec fn is_groq_account(a: KeychainAccount) -> bool {
    a.service@ == SERVICE@ && a.account@ == GROQ_ACCOUNT@
}

/// The keychain entry that holds the Groq API key.
pub fn groq_account() -> (r: KeychainAccount)
    ensures
        is_groq_account(r),
{
    KeychainAccount { service: String::from_str(SERVICE), account: String::from_str(GROQ_ACCOUNT) }
}

/// What saving `api_key` hands to the keychain: the Groq entry and the key
/// exactly as given (not trimmed).
pub fn groq_key_request(api_key: &str) -> (r: KeychainRequest)
    ensures
        is_groq_account(r.entry),
        r.secret@ == api_key@,
{
    KeychainRequest { entry: groq_account(), secret: String::from_str(api_key) }
}

/// Opens the keychain entry named by `account`.
///
/// Trusted: calls `keyring::Entry::new` with the account's service and
/// account name; what comes back depends on the platform's credential store,
/// so nothing is claimed of it.
#[verifier::external_body]
fn entry_new(account: &KeychainAccount) -> Result<keyring::Entry, keyring::Error> {
    keyring::Entry::new(&account.service, &account.account)
}

/// Stores `password` in `entry`.
///
/// Trusted: calls `keyring::Entry::set_password`; the outcome depends on the
/// credential store, so nothing is claimed of it.
#[verifier::external_body]
fn entry_set_password(entry: &keyring::Entry, password: &str) -> Result<(), keyring::Error> {
    entry.set_password(password)
}

/// Reads the password stored in `entry`.
///
/// Trusted: calls `keyring::Entry::get_password`; what comes back depends on
/// the credential store, so nothing is claimed of it.
#[verifier::external_body]
fn entry_get_password(entry: &keyring::Entry) -> Result<String, keyring::Error> {
    entry.get_password()
}

/// Deletes the credential stored in `entry`.
///
/// Trusted: calls `keyring::Entry::delete_credential`; the outcome depends on
/// the credential store, so nothing is claimed of it.
#[verifier::external_body]
fn entry_delete_credential(entry: &keyring::Entry) -> Result<(), keyring::Error> {
    entry.delete_credential()
}

/// `prefix` followed by the keychain's description of the failure.
pub open spec fn failure_text(prefix: Seq<char>, error: KeychainError) -> Seq<char> {
    prefix + error.detail@
}

/// The message for a keychain that cannot be opened.
pub open spec fn access_prefix() -> Seq<char> {
    "no se pudo acceder al llavero del sistema: "@
}

/// The message for a key that cannot be stored.
pub open spec fn save_prefix() -> Seq<char> {
    "no se pudo guardar la clave en el llavero: "@
}

/// The message for a key that cannot be read.
pub open spec fn load_prefix() -> Seq<char> {
    "no se pudo leer la clave del llavero: "@
}

/// The message for a key that cannot be deleted.
pub open spec fn delete_prefix() -> Seq<char> {
    "no se pudo borrar la clave del llavero: "@
}

fn prefixed(prefix: &str, error: &KeychainError) -> (r: String)
    ensures
        r@ == failure_text(prefix@, *error),
{
    let mut text = String::from_str(prefix);
    text.append(error.detail.as_str());
    text
}

/// The message for a keychain that could not be opened.
pub fn access_failure(error: &KeychainError) -> (r: String)
    ensures
        r@ == failure_text(access_prefix(), *error),
{
    prefixed("no se pudo acceder al llavero del sistema: ", error)
}

/// What storing the key reports, given what the keychain answered.
pub fn save_outcome(stored: Result<(), KeychainError>) -> (r: Result<(), String>)
    ensures
        stored is Ok <==> r is Ok,
        stored matches Err(e) ==> (r matches Err(m) && m@ == failure_text(save_prefix(), e)),
{
    match stored {
        Ok(()) => Ok(()),
        Err(e) => Err(prefixed("no se pudo guardar la clave en el llavero: ", &e)),
    }
}

/// What reading the key reports, given what the keychain answered: the key,
/// nothing when none is stored, or an error.
pub fn load_outcome(read: Result<String, KeychainError>) -> (r: Result<Option<String>, String>)
    ensures
        read matches Ok(k) ==> (r matches Ok(Some(k2)) && k2@ == k@),
        read matches Err(e) ==> (e.no_entry ==> r matches Ok(None)),
        read matches Err(e) ==> (!e.no_entry ==> (r matches Err(m) && m@ == failure_text(
            load_prefix(),
            e,
        ))),
{
    match read {
        Ok(key) => Ok(Some(key)),
        Err(e) => {
            if e.no_entry {
                Ok(None)
            } else {
                Err(prefixed("no se pudo leer la clave del llavero: ", &e))
            }
        },
    }
}

/// What deleting the key reports, given what the keychain answered: success
/// also when no key was stored.
pub fn delete_outcome(deleted: Result<(), KeychainError>) -> (r: Result<(), String>)
    ensures
        r is Ok <==> (deleted is Ok || (deleted matches Err(e) && e.no_entry)),
        deleted matches Err(e) ==> (!e.no_entry ==> (r matches Err(m) && m@ == failure_text(
            delete_prefix(),
            e,
        ))),
{
    match deleted {
        Ok(()) => Ok(()),
        Err(e) => {
            if e.no_entry {
                Ok(())
            } else {
                Err(prefixed("no se pudo borrar la clave del llavero: ", &e))
            }
        },
    }
}

/// Whether `m` is the message of a keychain failure with the given prefix.
pub open spec fn is_failure_with(m: Seq<char>, prefix: Seq<char>) -> bool {
    exists|e: KeychainError| m == #[trigger] failure_text(prefix, e)
}

fn groq_entry() -> (r: Result<keyring::Entry, String>)
    ensures
        r matches Err(m) ==> is_failure_with(m@, access_prefix()),
{
    let account = groq_account();
    match entry_new(&account) {
        Ok(entry) => Ok(entry),
        Err(error) => {
            let e = describe_keyring_error(&error);
            let m = access_failure(&e);
            Err(m)
        },
    }
}

/// Stores `api_key` as the Groq API key in the keychain: the entry and the
/// secret handed over are those of [`groq_key_request`]. On failure the
/// message says whether the keychain could not be opened or not written.
pub fn save_groq_key(api_key: &str) -> (r: Result<(), String>)
    ensures
        r matches Err(m) ==> (is_failure_with(m@, access_prefix()) || is_failure_with(
            m@,
            save_prefix(),
        )),
{
    let request = groq_key_request(api_key);
    let entry = match entry_new(&request.entry) {
        Ok(entry) => entry,
        Err(error) => {
            let e = describe_keyring_error(&error);
            return Err(access_failure(&e));
        },
    };
    let stored = match entry_set_password(&entry, request.secret.as_str()) {
        Ok(()) => Ok(()),
        Err(error) => Err(describe_keyring_error(&error)),
    };
    save_outcome(stored)
}

/// Reads the Groq API key from the keychain entry of [`groq_account`]:
/// `None` when none is stored.
pub fn load_groq_key() -> (r: Result<Option<String>, String>)
    ensures
        r matches Err(m) ==> (is_failure_with(m@, access_prefix()) || is_failure_with(
            m@,
            load_prefix(),
        )),
{
    let entry = groq_entry()?;
    let read = match entry_get_password(&entry) {
        Ok(key) => Ok(key),
        Err(error) => Err(describe_keyring_error(&error)),
    };
    load_outcome(read)
}

/// Deletes the Groq API key from the keychain entry of [`groq_account`];
/// succeeds also when none was stored.
pub fn delete_groq_key() -> (r: Result<(), String>)
    ensures
        r matches Err(m) ==> (is_failure_with(m@, access_prefix()) || is_failure_with(
            m@,
            delete_prefix(),
        )),
{
    let entry = groq_entry()?;
    let deleted = match entry_delete_credential(&entry) {
        Ok(()) => Ok(()),
        Err(error) => Err(describe_keyring_error(&error)),
    };
    delete_outcome(deleted)
}

} // verus!
