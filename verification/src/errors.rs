//! The failures the token subsystem can report.
use vstd::prelude::*;

verus! {

/// Every failure the subsystem reports, one variant per cause.
///
/// An expired token is not an error: liveness is the boolean result of
/// verification, and only malformed input, a bad signature, a rejected
/// audience, or an unrepresentable timestamp produce a `JwtError`.
#[derive(Clone, Copy, Debug, PartialEq, Eq, Structural)]
pub enum JwtError {
    /// A duration offset could not be evaluated to a number of seconds.
    DurationFormat,
    /// The current time plus an offset exceeds the representable range.
    TimestampRange,
    /// The claim set could not be serialized for signing.
    Signing,
    /// A token does not parse into the expected three-segment structure.
    TokenMalformed,
    /// A token's signature does not match under the configured secret.
    SignatureInvalid,
    /// A token's audience claim is absent or not in the allow-list.
    AudienceRejected,
}

impl JwtError {
    /// A short human-readable description of the failure.
    pub fn message(&self) -> (r: &'static str)
        ensures
            r@ == self.message_spec(),
    {
        match self {
            JwtError::DurationFormat => "invalid duration offset",
            JwtError::TimestampRange => "timestamp out of range",
            JwtError::Signing => "claim set could not be serialized",
            JwtError::TokenMalformed => "token is malformed",
            JwtError::SignatureInvalid => "token signature is invalid",
            JwtError::AudienceRejected => "token audience is not allowed",
        }
    }

    /// What `message` returns for each variant.
    pub open spec fn message_spec(&self) -> Seq<char> {
        match self {
            JwtError::DurationFormat => "invalid duration offset"@,
            JwtError::TimestampRange => "timestamp out of range"@,
            JwtError::Signing => "claim set could not be serialized"@,
            JwtError::TokenMalformed => "token is malformed"@,
            JwtError::SignatureInvalid => "token signature is invalid"@,
            JwtError::AudienceRejected => "token audience is not allowed"@,
        }
    }
}

} // verus!
