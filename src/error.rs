//! The failures that the stores and circuits report.
use vstd::prelude::*;

verus! {

/// Every failure is typed and reported to the immediate caller.
#[derive(Clone, Copy, Debug, PartialEq, Eq, Structural)]
pub enum LedgerError {
    /// A missing account, position or ciphertext key.
    ReferenceNotFound,
    /// An insert on an occupied key.
    DuplicateKey,
    /// Notional, margin and leverage do not agree.
    ValidationFailed,
    /// A homomorphic call before the evaluation context was installed.
    EncryptionContextUnset,
}

impl LedgerError {
    /// The HTTP status that reports this failure.
    pub open spec fn spec_status(self) -> u16 {
        match self {
            LedgerError::ReferenceNotFound => 404,
            LedgerError::DuplicateKey => 409,
            LedgerError::ValidationFailed => 400,
            LedgerError::EncryptionContextUnset => 503,
        }
    }

    pub fn status_code(&self) -> (r: u16)
        ensures
            r == self.spec_status(),
    {
        match self {
            LedgerError::ReferenceNotFound => 404,
            LedgerError::DuplicateKey => 409,
            LedgerError::ValidationFailed => 400,
            LedgerError::EncryptionContextUnset => 503,
        }
    }

    /// The failure's name, for a response body.
    pub fn describe(&self) -> (r: String)
        ensures
            r@ == self.spec_name()@,
    {
        match self {
            LedgerError::ReferenceNotFound => "ReferenceNotFound".to_string(),
            LedgerError::DuplicateKey => "DuplicateKey".to_string(),
            LedgerError::ValidationFailed => "ValidationFailed".to_string(),
            LedgerError::EncryptionContextUnset => "EncryptionContextUnset".to_string(),
        }
    }

    pub open spec fn spec_name(self) -> &'static str {
        match self {
            LedgerError::ReferenceNotFound => "ReferenceNotFound",
            LedgerError::DuplicateKey => "DuplicateKey",
            LedgerError::ValidationFailed => "ValidationFailed",
            LedgerError::EncryptionContextUnset => "EncryptionContextUnset",
        }
    }
}

/// The HTTP status that reports `r`: 200 on success.
pub open spec fn code_of<T>(r: Result<T, LedgerError>) -> u16 {
    match r {
        Ok(_) => 200,
        Err(e) => e.spec_status(),
    }
}

/// The outcome that a status reports, the inverse of `code_of`.
pub open spec fn status_result(code: u16) -> Result<(), LedgerError> {
    if code == 404 {
        Err(LedgerError::ReferenceNotFound)
    } else if code == 409 {
        Err(LedgerError::DuplicateKey)
    } else if code == 400 {
        Err(LedgerError::ValidationFailed)
    } else if code == 503 {
        Err(LedgerError::EncryptionContextUnset)
    } else {
        Ok(())
    }
}

/// The response message for `r`: `ok` on success, else the failure's name.
pub open spec fn message_of<T>(r: Result<T, LedgerError>, ok: Seq<char>) -> Seq<char> {
    match r {
        Ok(_) => ok,
        Err(e) => e.spec_name()@,
    }
}

} // verus!
