//! The decision core of a request interceptor that decrypts incoming bodies and encrypts
//! outgoing ones (X25519 key agreement, AES-256-GCM, replay protection).
//!
//! The crate holds everything the interceptor decides: which requests it reads, how large a
//! body may grow, what is asked of the key stores and of the replay store and in which order,
//! what each answer leads to, what a refused request is told, and what becomes of the
//! response. Reading from sockets, awaiting the stores and running the inner service is left
//! to the caller, who performs the work that the current [`exchange::Stage`] names and hands
//! the outcome back as an [`exchange::Event`].

pub mod exchange;
pub mod interceptor;
pub mod laws;
pub mod models;
pub mod outcomes;
pub mod outside;
pub mod redis_model;
pub mod replay;
pub mod session;
pub mod text;

pub use exchange::{CheckedPacket, Event, Exchange, Forward, Packet, Policy, Rejection, Stage};
pub use interceptor::{
    Interceptor, InterceptorService, DEFAULT_MAX_BODY_BYTES, MAX_DECOMPRESSED_SIZE,
};
pub use replay::MemoryReplayStore;
pub use session::{DecryptedBody, RequestSessionKeys, SharedSecret};
