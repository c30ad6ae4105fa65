//! A PIV smartcard engine for an SSH agent: BER-TLV and APDU codecs, the
//! PIV object model, the signing pipeline and the agent's session state.

pub mod error;
pub mod tlv;
pub mod apdu;
pub mod guid;
pub mod slot;
pub mod token;
pub mod sign;
pub mod agent;
pub mod probe;
