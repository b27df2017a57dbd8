//! The reasons a request is turned down.

use vstd::prelude::*;

verus! {

/// Why a registration message was not accepted.
#[derive(Debug)]
pub enum RegistrationError {
    /// The bytes do not decode as a signed message.
    MalformedMessage,
    /// The message decodes but carries no signature.
    UnsignedMessage,
    /// The signed payload is not a public key.
    KeyParseError,
    /// The signature does not name exactly one issuer; these are the ones it names.
    AmbiguousIssuer(Vec<String>),
    /// The signature does not hold, or was not made by the key it signs.
    SignatureInvalid,
    /// An account for this identity exists already.
    DuplicateIdentity,
}

/// Why a document could not be shared or created.
#[derive(PartialEq, Eq, Structural, Clone, Copy, Debug)]
pub enum ShareError {
    UnknownDocument,
    NotOwner,
    UnknownGrantee,
    StorageUnavailable,
}

impl RegistrationError {
    /// A short text naming the reason.
    pub fn message(&self) -> (r: String) {
        match self {
            RegistrationError::MalformedMessage => String::from_str("malformed message"),
            RegistrationError::UnsignedMessage => String::from_str("message is not signed"),
            RegistrationError::KeyParseError => String::from_str("payload is not a public key"),
            RegistrationError::AmbiguousIssuer(_) => String::from_str(
                "signature must name exactly one issuer",
            ),
            RegistrationError::SignatureInvalid => String::from_str("invalid signature"),
            RegistrationError::DuplicateIdentity => String::from_str("user already exists"),
        }
    }
}

} // verus!
