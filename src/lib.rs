//! Requester side of a device-attestation handshake: message codec, transcript,
//! certificate-chain slots and a phase-typed state machine.
pub mod config;
pub mod error;
pub mod wire;
pub mod msgs;
pub mod transcript;
pub mod requester;
pub mod slot;
