//! Provider failures and the fixed texts they are reduced to before they leave
//! the process.

use vstd::prelude::*;

use crate::text;

verus! {

/// Message stored for snapshots written before partial failures kept a
/// provider-defined scope and a category-normalized message.
pub const LEGACY_PARTIAL_FAILURE_MESSAGE: &'static str = "provider reported partial data";

/// One part of a query that could not be answered.
#[derive(Debug, PartialEq, Eq)]
pub struct PartialFailure {
    pub scope: String,
    pub message: String,
}

impl Clone for PartialFailure {
    fn clone(&self) -> (result: Self)
        ensures
            result == *self,
    {
        PartialFailure { scope: self.scope.clone(), message: self.message.clone() }
    }
}

impl PartialFailure {
    /// Builds a failure whose message is the stable category text, never vendor copy.
    pub fn from_error(scope: &str, error: &ProviderError) -> (result: Self)
        ensures
            result.scope@ == scope@,
            result.message@ == error.category_text(),
    {
        PartialFailure { scope: scope.to_owned(), message: error.sanitized_message().to_owned() }
    }
}

/// What a query gave back: everything, or what could be had and what could not.
#[derive(Debug, PartialEq)]
pub enum QueryOutcome<T> {
    Complete { data: T },
    Partial { data: T, failures: Vec<PartialFailure> },
}

impl<T> QueryOutcome<T> {
    /// The data of the outcome, complete or not.
    pub open spec fn payload(self) -> T {
        match self {
            QueryOutcome::Complete { data } => data,
            QueryOutcome::Partial { data, .. } => data,
        }
    }

    /// What could not be had, or nothing for a complete outcome.
    pub open spec fn missing(self) -> Option<Seq<PartialFailure>> {
        match self {
            QueryOutcome::Complete { .. } => None,
            QueryOutcome::Partial { failures, .. } => Some(failures@),
        }
    }

    /// Converts the data and keeps the failures, or fails as the conversion does.
    pub fn try_map<U, E, F: FnOnce(T) -> Result<U, E>>(self, convert: F) -> (result: Result<
        QueryOutcome<U>,
        E,
    >)
        requires
            convert.requires((self.payload(),)),
        ensures
            match result {
                Ok(outcome) => {
                    &&& convert.ensures((self.payload(),), Ok(outcome.payload()))
                    &&& outcome.missing() == self.missing()
                },
                Err(error) => convert.ensures((self.payload(),), Err(error)),
            },
    {
        match self {
            QueryOutcome::Complete { data } => match convert(data) {
                Ok(data) => Ok(QueryOutcome::Complete { data }),
                Err(error) => Err(error),
            },
            QueryOutcome::Partial { data, failures } => match convert(data) {
                Ok(data) => Ok(QueryOutcome::Partial { data, failures }),
                Err(error) => Err(error),
            },
        }
    }

    /// Whether part of the answer is missing.
    pub fn is_partial(&self) -> (result: bool)
        ensures
            result == (self is Partial),
    {
        match self {
            QueryOutcome::Complete { .. } => false,
            QueryOutcome::Partial { .. } => true,
        }
    }
}

/// A provider failure, with the text the provider gave.
#[derive(Debug, PartialEq, Eq)]
pub enum ProviderError {
    AuthenticationInvalid { message: String },
    RateLimited { message: String, retry_after_seconds: Option<u64> },
    Network { message: String },
    ProtocolIncompatible { message: String },
    UnsupportedCapability { capability: String },
}

/// The category of a provider failure, without any text.
#[derive(Clone, Copy, Debug, PartialEq, Eq, Structural)]
pub enum ProviderErrorKind {
    AuthenticationInvalid,
    RateLimited,
    Network,
    ProtocolIncompatible,
    UnsupportedCapability,
}

/// What a provider call gives back.
pub type ProviderResult<T> = Result<T, ProviderError>;

/// The fixed text of a failure category.
pub open spec fn category_text(kind: ProviderErrorKind) -> Seq<char> {
    match kind {
        ProviderErrorKind::AuthenticationInvalid => "provider authentication is invalid"@,
        ProviderErrorKind::RateLimited => "provider rate limited the request"@,
        ProviderErrorKind::Network => "provider network request failed"@,
        ProviderErrorKind::ProtocolIncompatible => "provider protocol response is incompatible"@,
        ProviderErrorKind::UnsupportedCapability => "provider capability"@,
    }
}

/// A message that carries no vendor text: the text of a category, or the one
/// that older snapshots hold.
pub open spec fn sanitized_text(message: Seq<char>) -> bool {
    ||| message == LEGACY_PARTIAL_FAILURE_MESSAGE@
    ||| exists|kind: ProviderErrorKind| message == #[trigger] category_text(kind)
}

impl ProviderError {
    /// The category of the failure.
    pub open spec fn category(self) -> ProviderErrorKind {
        match self {
            ProviderError::AuthenticationInvalid { .. } => ProviderErrorKind::AuthenticationInvalid,
            ProviderError::RateLimited { .. } => ProviderErrorKind::RateLimited,
            ProviderError::Network { .. } => ProviderErrorKind::Network,
            ProviderError::ProtocolIncompatible { .. } => ProviderErrorKind::ProtocolIncompatible,
            ProviderError::UnsupportedCapability { .. } => ProviderErrorKind::UnsupportedCapability,
        }
    }

    /// The fixed text of the failure's category.
    pub open spec fn category_text(self) -> Seq<char> {
        category_text(self.category())
    }

    /// The text the failure carries.
    pub open spec fn carried_text(self) -> Seq<char> {
        match self {
            ProviderError::AuthenticationInvalid { message } => message@,
            ProviderError::RateLimited { message, .. } => message@,
            ProviderError::Network { message } => message@,
            ProviderError::ProtocolIncompatible { message } => message@,
            ProviderError::UnsupportedCapability { capability } => capability@,
        }
    }

    /// How long the provider asked to be left alone.
    pub open spec fn retry_delay(self) -> Option<u64> {
        match self {
            ProviderError::RateLimited { retry_after_seconds, .. } => retry_after_seconds,
            _ => None,
        }
    }

    /// The same failure, but for the text, which is the fixed one of its category.
    pub open spec fn sanitizes_to(self, result: ProviderError) -> bool {
        &&& result.category() == self.category()
        &&& result.carried_text() == self.category_text()
        &&& result.retry_delay() == self.retry_delay()
    }

    /// The category of the failure.
    pub fn kind(&self) -> (result: ProviderErrorKind)
        ensures
            result == self.category(),
    {
        match self {
            ProviderError::AuthenticationInvalid { .. } => ProviderErrorKind::AuthenticationInvalid,
            ProviderError::RateLimited { .. } => ProviderErrorKind::RateLimited,
            ProviderError::Network { .. } => ProviderErrorKind::Network,
            ProviderError::ProtocolIncompatible { .. } => ProviderErrorKind::ProtocolIncompatible,
            ProviderError::UnsupportedCapability { .. } => ProviderErrorKind::UnsupportedCapability,
        }
    }

    /// The fixed text of the failure's category.
    pub fn sanitized_message(&self) -> (result: &'static str)
        ensures
            result@ == self.category_text(),
    {
        match self {
            ProviderError::AuthenticationInvalid { .. } => "provider authentication is invalid",
            ProviderError::RateLimited { .. } => "provider rate limited the request",
            ProviderError::Network { .. } => "provider network request failed",
            ProviderError::ProtocolIncompatible {
                ..
            } => "provider protocol response is incompatible",
            ProviderError::UnsupportedCapability { .. } => "provider capability",
        }
    }

    /// The same failure with the fixed text of its category for a message.
    pub fn sanitized(self) -> (result: Self)
        ensures
            self.sanitizes_to(result),
    {
        let message = self.sanitized_message().to_owned();
        match self {
            ProviderError::AuthenticationInvalid { .. } => ProviderError::AuthenticationInvalid {
                message,
            },
            ProviderError::RateLimited { retry_after_seconds, .. } => ProviderError::RateLimited {
                message,
                retry_after_seconds,
            },
            ProviderError::Network { .. } => ProviderError::Network { message },
            ProviderError::ProtocolIncompatible { .. } => ProviderError::ProtocolIncompatible {
                message,
            },
            ProviderError::UnsupportedCapability { .. } => ProviderError::UnsupportedCapability {
                capability: message,
            },
        }
    }

    /// Whether a partial failure message is one of the fixed texts.
    pub fn is_sanitized_partial_message(message: &str) -> (result: bool)
        ensures
            result == sanitized_text(message@),
    {
        if text::same_text(message, "provider authentication is invalid") {
            assert(message@ == category_text(ProviderErrorKind::AuthenticationInvalid));
            true
        } else if text::same_text(message, "provider rate limited the request") {
            assert(message@ == category_text(ProviderErrorKind::RateLimited));
            true
        } else if text::same_text(message, "provider network request failed") {
            assert(message@ == category_text(ProviderErrorKind::Network));
            true
        } else if text::same_text(message, "provider protocol response is incompatible") {
            assert(message@ == category_text(ProviderErrorKind::ProtocolIncompatible));
            true
        } else if text::same_text(message, "provider capability") {
            assert(message@ == category_text(ProviderErrorKind::UnsupportedCapability));
            true
        } else {
            text::same_text(message, LEGACY_PARTIAL_FAILURE_MESSAGE)
        }
    }

    /// What a person reads about the failure, vendor text and all.
    pub fn message(&self) -> (result: String)
        ensures
            result@ == self.described(),
    {
        match self {
            ProviderError::AuthenticationInvalid { message } => text::join2(
                "authentication is invalid: ",
                message.as_str(),
            ),
            ProviderError::RateLimited { message, .. } => text::join2(
                "rate limited: ",
                message.as_str(),
            ),
            ProviderError::Network { message } => text::join2("network error: ", message.as_str()),
            ProviderError::ProtocolIncompatible { message } => text::join2(
                "provider protocol is incompatible: ",
                message.as_str(),
            ),
            ProviderError::UnsupportedCapability { capability } => text::join2(
                "capability is not supported: ",
                capability.as_str(),
            ),
        }
    }

    /// The failure's description: what kind it is, then the text it carries.
    pub open spec fn described(self) -> Seq<char> {
        let heading = match self {
            ProviderError::AuthenticationInvalid { .. } => "authentication is invalid: "@,
            ProviderError::RateLimited { .. } => "rate limited: "@,
            ProviderError::Network { .. } => "network error: "@,
            ProviderError::ProtocolIncompatible { .. } => "provider protocol is incompatible: "@,
            ProviderError::UnsupportedCapability { .. } => "capability is not supported: "@,
        };
        heading + self.carried_text()
    }
}

impl Clone for ProviderError {
    fn clone(&self) -> (result: Self)
        ensures
            result == *self,
    {
        match self {
            ProviderError::AuthenticationInvalid { message } => {
                ProviderError::AuthenticationInvalid { message: message.clone() }
            },
            ProviderError::RateLimited { message, retry_after_seconds } => {
                ProviderError::RateLimited {
                    message: message.clone(),
                    retry_after_seconds: *retry_after_seconds,
                }
            },
            ProviderError::Network { message } => ProviderError::Network {
                message: message.clone(),
            },
            ProviderError::ProtocolIncompatible { message } => {
                ProviderError::ProtocolIncompatible { message: message.clone() }
            },
            ProviderError::UnsupportedCapability { capability } => {
                ProviderError::UnsupportedCapability { capability: capability.clone() }
            },
        }
    }
}

/// The message of a sanitized failure is recognized as sanitized, and
/// sanitizing a second time leaves category, text and retry delay as they are.
pub proof fn sanitizing_is_recognized_and_stable(
    error: ProviderError,
    once: ProviderError,
    twice: ProviderError,
)
    requires
        error.sanitizes_to(once),
        once.sanitizes_to(twice),
    ensures
        sanitized_text(once.carried_text()),
        twice.category() == once.category(),
        twice.carried_text() == once.carried_text(),
        twice.retry_delay() == once.retry_delay(),
{
    assert(once.carried_text() == category_text(error.category()));
}

/// A partial failure built from an error never carries the error's own text:
/// its message is recognized as sanitized.
pub proof fn failures_built_from_errors_are_sanitized(error: ProviderError)
    ensures
        sanitized_text(error.category_text()),
{
    assert(error.category_text() == category_text(error.category()));
}

} // verus!
