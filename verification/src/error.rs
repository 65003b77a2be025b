//! The ways a synchronization can fail.

use vstd::prelude::*;
use crate::text::{append_digits, decimal_digits};

verus! {

/// Why a synchronization stopped.
#[derive(Clone, Copy, Debug, PartialEq, Eq)]
pub enum SyncError {
    /// The provider gateway did not answer its health check.
    ProviderUnavailable,
    /// One call to the provider failed or answered with something unreadable.
    /// Where the call was about a record, this holds the record's position in
    /// the provider's list of recent ids.
    ProviderRequestFailed(Option<usize>),
    /// The store failed, or answered with a surrogate id of zero.
    StoreFailure,
    /// No player goes by the name and tag that were asked for.
    IdentityNotResolvable,
    /// The region code is not one the provider routes.
    RegionUnsupported,
}

/// The message shown for an error.
pub open spec fn error_text(e: SyncError) -> Seq<char> {
    match e {
        SyncError::ProviderUnavailable =>
            "Proxy server is not available. Please start the diana-proxy server."@,
        SyncError::ProviderRequestFailed(None) => "Proxy API error"@,
        SyncError::ProviderRequestFailed(Some(position)) => "Proxy API error for match "@
            + decimal_digits(position as nat),
        SyncError::StoreFailure => "Database proxy error"@,
        SyncError::IdentityNotResolvable => "Player not found"@,
        SyncError::RegionUnsupported => "Unsupported region"@,
    }
}

/// A result with its value seen as plain values.
pub open spec fn result_view<T: DeepView>(r: Result<T, SyncError>) -> Result<T::V, SyncError> {
    match r {
        Ok(value) => Ok(value.deep_view()),
        Err(e) => Err(e),
    }
}

impl SyncError {
    /// A message for the caller to show.
    pub fn message(&self) -> (r: String)
        ensures
            r@ == error_text(*self),
    {
        match self {
            SyncError::ProviderUnavailable => {
                "Proxy server is not available. Please start the diana-proxy server.".to_owned()
            },
            SyncError::ProviderRequestFailed(None) => "Proxy API error".to_owned(),
            SyncError::ProviderRequestFailed(Some(position)) => {
                let mut text = "Proxy API error for match ".to_owned();
                append_digits(&mut text, *position as u128);
                text
            },
            SyncError::StoreFailure => "Database proxy error".to_owned(),
            SyncError::IdentityNotResolvable => "Player not found".to_owned(),
            SyncError::RegionUnsupported => "Unsupported region".to_owned(),
        }
    }
}

} // verus!
