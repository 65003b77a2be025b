use diana::error::SyncError;

#[test]
fn each_error_has_its_message() {
    assert_eq!(SyncError::ProviderUnavailable.message(), "Proxy server is not available. Please start the diana-proxy server.");
    assert_eq!(SyncError::ProviderRequestFailed(None).message(), "Proxy API error");
    assert_eq!(
        SyncError::ProviderRequestFailed(Some(7)).message(),
        "Proxy API error for match 7"
    );
    assert_eq!(
        SyncError::ProviderRequestFailed(Some(120)).message(),
        "Proxy API error for match 120"
    );
    assert_eq!(SyncError::StoreFailure.message(), "Database proxy error");
    assert_eq!(SyncError::IdentityNotResolvable.message(), "Player not found");
    assert_eq!(SyncError::RegionUnsupported.message(), "Unsupported region");
}
