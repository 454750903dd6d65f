//! The ways in which finding the latest version of an image can fail.

use vstd::prelude::*;
use vstd::string::StringExecFns;

verus! {

/// Why no latest version could be resolved for a container.
#[derive(Clone, Copy, Debug, PartialEq, Eq, Structural)]
pub enum ResolveError {
    /// The registry kind is not one that the client knows.
    RegistryUnsupported,
    /// The registry kind needs a token and none was given.
    AuthRequired,
    /// The registry answered with status 429; `retry_after` is the delay in
    /// seconds that it advertised, if it advertised one.
    RateLimited { retry_after: Option<u64> },
    /// The request did not complete, or the status was outside 200..=299.
    TransportError,
    /// The body is no JSON text of the expected shape.
    MalformedResponse,
    /// No published tag is a version.
    NoValidTagsFound,
    /// The rolling tag list holds no `main` tag.
    SentinelNotFound,
    /// `main` is the last tag of the rolling tag list.
    NoTagAfterSentinel,
}

impl ResolveError {
    /// A short description for logs and reports.
    pub fn message(&self) -> (r: String)
        ensures
            r@ == (match *self {
                ResolveError::RegistryUnsupported => "Unsupported image source"@,
                ResolveError::AuthRequired => "Registry token is required"@,
                ResolveError::RateLimited { .. } => "Rate limited by the registry"@,
                ResolveError::TransportError => "Failed to fetch tags"@,
                ResolveError::MalformedResponse => "Failed to parse JSON response"@,
                ResolveError::NoValidTagsFound =>
                    "No valid semantic version tags found in the response"@,
                ResolveError::SentinelNotFound => "'main' tag not found"@,
                ResolveError::NoTagAfterSentinel => "No tag found after 'main'"@,
            }),
    {
        match *self {
            ResolveError::RegistryUnsupported => String::from_str("Unsupported image source"),
            ResolveError::AuthRequired => String::from_str("Registry token is required"),
            ResolveError::RateLimited { .. } => String::from_str("Rate limited by the registry"),
            ResolveError::TransportError => String::from_str("Failed to fetch tags"),
            ResolveError::MalformedResponse => String::from_str("Failed to parse JSON response"),
            ResolveError::NoValidTagsFound => String::from_str(
                "No valid semantic version tags found in the response",
            ),
            ResolveError::SentinelNotFound => String::from_str("'main' tag not found"),
            ResolveError::NoTagAfterSentinel => String::from_str("No tag found after 'main'"),
        }
    }
}

} // verus!
