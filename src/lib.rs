//! Merkle inclusion proofs carried over a Noise-secured channel: the proof
//! codec and verifier, length-prefixed framing, the responder handshake, and
//! the exchange with one peer that ties them together.
pub mod digest;
pub mod evidence;
pub mod frame;
pub mod handshake;
pub mod lemma;
pub mod orchestrator;
pub mod path;
