//! A client-side vault core: the cryptographic transform between payloads
//! and ciphertext blobs, the session and identity state machine, the
//! synchronization protocol around the remote store, and the terminal
//! interaction state machine. Network, storage and rendering stay with the
//! binary that embeds this crate.
pub mod cli;
pub mod codec;
pub mod crypto;
pub mod errors;
pub mod events;
pub mod models;
pub mod session;
pub mod strutil;
pub mod tui;
