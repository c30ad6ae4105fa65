use vstd::prelude::*;

verus! {

/// Errors raised by the card protocol engine.
#[derive(Debug, Clone, PartialEq, Eq)]
pub enum PivError {
    /// Transport-layer failure from the reader stack.
    Pcsc(String),
    /// Malformed BER-TLV data.
    Tlv { message: String },
    /// A GUID input that is not 16 bytes of hex.
    InvalidGuid(String),
    /// The card answered with a status word that no other kind covers.
    Apdu { sw: u16 },
    /// No reader holds the requested card.
    CardNotFound,
    /// No PIN was supplied.
    NoPin,
    /// The card rejected the PIN (status 63Cx).
    PinIncorrect { retries: u32 },
    /// The operation needs a verified PIN (status 6982).
    PinRequired,
    /// The PIN is blocked (status 6983).
    PinBlocked,
    /// No certificate was found in this slot.
    SlotEmpty(u8),
    /// The certificate holds a key type or curve that is not supported.
    UnsupportedAlgorithm(String),
    /// Failure from the certificate parser.
    Openssl(String),
    /// Failure from a cryptographic primitive.
    Crypto(String),
    /// Anything else, with a message.
    Other(String),
}

/// Errors of the agent process around the engine.
#[derive(Debug, Clone, PartialEq, Eq)]
pub enum PivyError {
    /// Socket or filesystem failure.
    Io(String),
    /// Anything else, with a message.
    Other(String),
}

/// A TLV error carrying the given message.
pub fn tlv_error(message: &str) -> (e: PivError)
    ensures
        e is Tlv,
{
    PivError::Tlv { message: message.to_owned() }
}

/// Failures of a signing request served by the agent.
#[derive(Debug, Clone, PartialEq, Eq)]
pub enum SignError {
    /// No cached identity has the requested public key.
    KeyNotFound,
    /// No reader holds the card of the requested key.
    CardUnavailable,
    /// The key's slot needs a PIN and none was supplied.
    PinRequired,
    /// The RSA key is too small for the chosen digest.
    KeyTooSmall,
    /// The card's signature is not a well-formed DER ECDSA signature.
    MalformedSignature,
    /// A failure from the card session.
    Card(PivError),
}

} // verus!
