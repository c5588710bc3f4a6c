//! The failure taxonomy of the vault client.
use vstd::prelude::*;

verus! {

/// Every way a vault operation can fail, as surfaced to the caller.
#[derive(Debug, Clone, Copy, PartialEq, Eq, Structural)]
pub enum VaultError {
    /// No bearer token is held: the session is anonymous.
    NotAuthenticated,
    /// No master password is cached: encrypted data cannot be handled.
    NotUnlocked,
    /// The transport failed or the service answered with a non-success status.
    NetworkFailure,
    /// A ciphertext blob is not valid base64 or is shorter than a nonce.
    MalformedCiphertext,
    /// The authentication tag did not verify: wrong password or tampered data.
    AuthenticationFailed,
    /// A payload does not round-trip through the canonical text form.
    SerializationError,
    /// User input failed a precondition, such as an empty required field.
    ValidationError,
    /// During a sync, the record at this position of the fetched list could
    /// not be decrypted or deserialized.
    DecryptionFailed { index: usize },
}

impl VaultError {
    /// A human-readable description, used for notifications.
    pub fn message(&self) -> (r: &'static str)
        ensures
            r@ == self.spec_message(),
    {
        let r = match self {
            VaultError::NotAuthenticated => "Not logged in",
            VaultError::NotUnlocked => "Master password not set",
            VaultError::NetworkFailure => "Network failure",
            VaultError::MalformedCiphertext => "Ciphertext too short or not valid base64",
            VaultError::AuthenticationFailed => "Decryption failed",
            VaultError::SerializationError => "Invalid secret format",
            VaultError::ValidationError => "Invalid input",
            VaultError::DecryptionFailed { .. } => "Could not decrypt a fetched record",
        };
        r
    }

    pub open spec fn spec_message(&self) -> Seq<char> {
        match self {
            VaultError::NotAuthenticated => "Not logged in"@,
            VaultError::NotUnlocked => "Master password not set"@,
            VaultError::NetworkFailure => "Network failure"@,
            VaultError::MalformedCiphertext => "Ciphertext too short or not valid base64"@,
            VaultError::AuthenticationFailed => "Decryption failed"@,
            VaultError::SerializationError => "Invalid secret format"@,
            VaultError::ValidationError => "Invalid input"@,
            VaultError::DecryptionFailed { .. } => "Could not decrypt a fetched record"@,
        }
    }
}

} // verus!
