//! Text form of a partially signed transaction: the transaction's binary
//! encoding inside a base64 envelope.
//!
//! [`envelope`] is the outer layer, bytes to and from base64 text over the
//! symbols of [`alphabet`]; [`envelope_laws`] holds what is proved of it.
//! [`adapter`] composes the envelope with a binary transcoder that the caller
//! supplies, and keeps the failures of the two layers apart.

pub mod adapter;
pub mod alphabet;
pub mod envelope;
pub mod envelope_laws;
