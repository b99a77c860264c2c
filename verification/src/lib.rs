//! Core of a cloud control-plane backend: request canonicalization and
//! signing, endpoint and project resolution, and the state of a registry of
//! live remote-shell sessions, with the decision logic of the channel driver
//! and the one-shot executor.
//!
//! All network and terminal I/O lives outside this crate; the functions here
//! compute what to send, decide what an observed response or event means, and
//! keep the session bookkeeping sound.

pub mod canonical;
pub mod credentials;
pub mod models;
pub mod policy;
pub mod registry;
pub mod session;
pub mod signer;
pub mod strutil;
pub mod transport;
pub mod validate;
