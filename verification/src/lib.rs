//! A TLS session hardening layer.
//!
//! The crate assembles secure default transport configurations for client and
//! server roles and independently verifies that a peer certificate's identity
//! matches the name the caller intended to reach, following the RFC 6125 style
//! of DNS wildcard matching with IP-address special casing.
//!
//! The underlying cryptographic engine (record layer, handshake state machine,
//! key exchange) and the low-level certificate parser are collaborators outside
//! this crate: the types here model exactly the data the decision logic reads
//! (subject alternative names, subject common names, option and mode flags),
//! and every decision over that data is verified.

pub mod bytes;
pub mod cert;
pub mod cipher;
pub mod connector;
pub mod dispatch;
pub mod ip;
pub mod matcher;
pub mod profile;
pub mod ssl;
pub mod verify;
