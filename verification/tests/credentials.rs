use mesagrid_core::credentials::{delete_password, get_password, store_password, CredentialError};

#[test]
fn store_reports_no_not_found() {
    // the store either succeeds or fails as a keychain error, never NotFound
    match store_password("test-conn-id", "secret") {
        Ok(()) => {}
        Err(CredentialError::KeychainError(_)) => {}
        Err(CredentialError::NotFound) => panic!("store must not report NotFound"),
    }
}

#[test]
fn get_unknown_entry_is_not_found() {
    match get_password("never-stored-id") {
        Err(CredentialError::NotFound) => {}
        Err(CredentialError::KeychainError(_)) => {}
        Ok(_) => panic!("an unknown entry must not yield a password"),
    }
}

#[test]
fn delete_is_best_effort() {
    // deleting an absent entry does not fail as NotFound
    match delete_password("never-stored-id") {
        Ok(()) => {}
        Err(CredentialError::KeychainError(_)) => {}
        Err(CredentialError::NotFound) => panic!("delete must not report NotFound"),
    }
}
