//! The error taxonomy shared by the store, the device flow client and the
//! quota synchronizer.
use vstd::prelude::*;

verus! {

/// Every failure the library surfaces to its caller.
///
/// Corrupt or missing local data is never reported through this type: the
/// store recovers from it by treating the data as absent.
#[derive(Debug)]
pub enum StoreError {
    /// A referenced account id does not resolve to a stored record.
    NotFound { id: String },
    /// The OAuth client id is empty after trimming.
    ClientIdMissing,
    /// The provider answered with a non-success HTTP status.
    ProviderError { status: u16, body: String },
    /// The distinguished 403 answer "Resource not accessible by integration",
    /// which callers turn into different user guidance.
    PermissionIntegration,
    /// The usage payload lacks a required field; the field's name is carried.
    MalformedResponse { field: String },
    /// Serialization or filesystem failure reported by the persistence layer.
    PersistenceError { message: String },
}

impl StoreError {
    /// True when the error names a missing account.
    pub fn is_not_found(&self) -> (r: bool)
        ensures
            r == (self is NotFound),
    {
        match self {
            StoreError::NotFound { .. } => true,
            _ => false,
        }
    }
}

} // verus!
