//! Client-side model of a compositor's output protocol: frame decoding, the
//! registry handshake, per-output accumulation and the listing and watching
//! operations built on them.

pub mod client;
pub mod display;
pub mod laws;
pub mod output;
pub mod protocol;
pub mod request;
pub mod session;
pub mod text;
pub mod wire;
