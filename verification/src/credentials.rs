use vstd::prelude::*;

verus! {

/// Failure of the operating system's credential store.
#[derive(Debug)]
pub enum CredentialError {
    KeychainError(String),
    NotFound,
}

/// Declares keyring's entry handle: an address into the credential store.
#[verifier::external_type_specification]
#[verifier::external_body]
pub struct ExEntry(keyring::Entry);

/// Declares keyring's error type.
#[verifier::external_type_specification]
#[verifier::external_body]
pub struct ExKeyringError(keyring::Error);

/// Relies on keyring::Entry::new: builds the entry addressing `user` under
/// the service namespace `service`.
#[verifier::external_body]
fn entry_new(service: &str, user: &str) -> Result<keyring::Entry, keyring::Error> {
    keyring::Entry::new(service, user)
}

/// Relies on keyring::Entry::set_password: stores the secret for the entry.
#[verifier::external_body]
fn entry_set_password(entry: &keyring::Entry, password: &str) -> Result<(), keyring::Error> {
    entry.set_password(password)
}

/// Relies on keyring::Entry::get_password: retrieves the secret for the
/// entry, or `Error::NoEntry` when none is stored.
#[verifier::external_body]
fn entry_get_password(entry: &keyring::Entry) -> Result<String, keyring::Error> {
    entry.get_password()
}

/// Relies on keyring::Entry::delete_credential: removes the entry from the
/// store.
#[verifier::external_body]
fn entry_delete_credential(entry: &keyring::Entry) -> Result<(), keyring::Error> {
    entry.delete_credential()
}

/// Relies on keyring::Error being an enum with a `NoEntry` variant, which
/// marks a lookup of an absent entry.
#[verifier::external_body]
fn keyring_error_is_no_entry(e: &keyring::Error) -> bool {
    matches!(e, keyring::Error::NoEntry)
}

/// Relies on keyring::Error's Display impl: a human-readable description.
#[verifier::external_body]
fn keyring_error_text(e: &keyring::Error) -> String {
    e.to_string()
}

/// The fixed service namespace of this application in the credential store,
/// so its entries never collide with unrelated applications' secrets.
pub fn service_name() -> (s: &'static str)
    ensures
        s@ == "mesagrid"@,
{
    "mesagrid"
}

/// Stores the password for a connection id in the credential store. Every
/// failure of the store is reported as `KeychainError`.
pub fn store_password(connection_id: &str, password: &str) -> (r: Result<(), CredentialError>)
    ensures
        !(r matches Err(CredentialError::NotFound)),
{
    let entry = match entry_new(service_name(), connection_id) {
        Ok(e) => e,
        Err(e) => {
            return Err(CredentialError::KeychainError(keyring_error_text(&e)));
        },
    };
    match entry_set_password(&entry, password) {
        Ok(()) => Ok(()),
        Err(e) => Err(CredentialError::KeychainError(keyring_error_text(&e))),
    }
}

/// Retrieves the password for a connection id. An absent entry is reported
/// as `NotFound`; every other failure of the store as `KeychainError`.
pub fn get_password(connection_id: &str) -> Result<String, CredentialError> {
    let entry = match entry_new(service_name(), connection_id) {
        Ok(e) => e,
        Err(e) => {
            return Err(CredentialError::KeychainError(keyring_error_text(&e)));
        },
    };
    match entry_get_password(&entry) {
        Ok(p) => Ok(p),
        Err(e) => {
            if keyring_error_is_no_entry(&e) {
                Err(CredentialError::NotFound)
            } else {
                Err(CredentialError::KeychainError(keyring_error_text(&e)))
            }
        },
    }
}

/// Deletes the password for a connection id, best effort: once the entry is
/// addressed, a failure to delete it is ignored.
pub fn delete_password(connection_id: &str) -> (r: Result<(), CredentialError>)
    ensures
        !(r matches Err(CredentialError::NotFound)),
{
    let entry = match entry_new(service_name(), connection_id) {
        Ok(e) => e,
        Err(e) => {
            return Err(CredentialError::KeychainError(keyring_error_text(&e)));
        },
    };
    let _ = entry_delete_credential(&entry);
    Ok(())
}

} // verus!
