use ullage::error::{PartialFailure, ProviderError};

#[test]
fn from_error_uses_the_category_message() {
    let failure = PartialFailure::from_error(
        "profile",
        &ProviderError::ProtocolIncompatible {
            message: "vendor said display_name conflicted".into(),
        },
    );
    assert_eq!(failure.scope, "profile");
    assert_eq!(
        failure.message,
        "provider protocol response is incompatible"
    );
    assert!(!failure.message.contains("vendor"));
}

#[test]
fn sanitized_preserves_rate_limit_retry_delay() {
    let error = ProviderError::RateLimited {
        message: "slow down, token=secret".into(),
        retry_after_seconds: Some(17),
    }
    .sanitized();
    assert_eq!(
        error,
        ProviderError::RateLimited {
            message: "provider rate limited the request".into(),
            retry_after_seconds: Some(17),
        }
    );
}
