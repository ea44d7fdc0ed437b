//! Packet authentication in the QUIC connection ID, verified.
//!
//! Every packet carries a token in its destination connection ID, which a filter
//! in front of the QUIC layer checks without decrypting anything:
//!
//! - [`auth`]: tokens, where they lie in a datagram, and when they are accepted;
//! - [`socket`]: what becomes of each datagram received and sent;
//! - [`endpoint`], [`tls`] and [`ping`]: how the two ends are set up, whom the
//!   client trusts, and the ping protocol they speak;
//! - [`blaster`] and [`rng`]: a load generator for the filter;
//! - [`laws`]: what holds across calls;
//! - [`token_laws`], [`traffic_laws`], [`blast_laws`] and [`ping_laws`]: what calls
//!   give, told by their arguments and results alone.
//!
//! The library decides and computes. Sockets, timers and the QUIC stack are left
//! to the program around it.

pub mod auth;
pub mod blast_laws;
pub mod blaster;
pub mod bytes;
pub mod endpoint;
pub mod laws;
pub mod net;
pub mod ping;
pub mod ping_laws;
pub mod rng;
pub mod socket;
pub mod text;
pub mod tls;
pub mod token_laws;
pub mod traffic_laws;

pub use ping::{ping_payload, ALPN, MAX_PING_BYTES};
