//! Phantasma: an end-to-end encrypted messenger whose relay only ever sees
//! ciphertext. This crate holds the verified core of the client and the relay.

pub mod text;
pub mod protocol;
pub mod endpoints;
pub mod contacts;
pub mod encoding;
pub mod crypto;
pub mod identity;
pub mod relay;
pub mod cli;

