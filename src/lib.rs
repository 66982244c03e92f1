//! Client core for a streaming pronunciation-scoring service: request
//! signing, the three outbound frames, the receive-side state machine and
//! the reduction of the server's replies into a score report; beside it,
//! the anti-forgery token store and the security headers of the HTTP
//! server that hosts the client.

pub mod json;
pub mod primitives;
pub mod request;
pub mod frames;
pub mod scores;
pub mod decoder;
pub mod signer;
pub mod session;
pub mod service;
pub mod security;
pub mod csrf;
