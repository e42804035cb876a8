//! Client side of the SCRAM-SHA-1 challenge-response authentication protocol.
//!
//! The three-step conversation with the server is modelled as pure functions
//! over plain byte values: the caller hands each server reply document to the
//! library and sends the command documents it builds in return, so the whole
//! state machine — message formats, nonce and signature checks, and the key
//! derivations — is verified, while transport stays outside.

pub mod codec;
pub mod conversation;
pub mod crypto;
pub mod document;
pub mod errors;
pub mod manager;
pub mod parse;
