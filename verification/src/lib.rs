//! A signature-authenticated intent dispatcher.
//!
//! The library accepts a signed, time-bounded description of "call function F
//! on contract C with arguments A, on behalf of signer S", checks it against
//! a replay ledger and a time window, derives the challenge the signer must
//! have committed to, and drives the verify-then-route state machine. The
//! cryptographic verification authority and the routed target are external
//! collaborators: the library fixes exactly what is handed to them and what
//! each of their answers means for the dispatch.

pub mod errors;
pub mod intent;
pub mod encode;
pub mod challenge;
pub mod ledger;
pub mod expiration;
pub mod dispatcher;
pub mod registry;
