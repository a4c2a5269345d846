//! rs_srp, a reverse proxy that relays services behind NAT.
//!
//! The encrypted tunnel is a stack of layers, innermost last:
//! - a raw byte stream: TCP, QUIC or WSS ([`wss`]),
//! - [`session`] — a Noise `NKpsk0` session encrypting everything above it,
//! - [`mux`] — multiplexing, so many connections share one tunnel,
//! - [`proto`] — the control-plane messages exchanged over a substream.
//!
//! [`identity`] holds the server's persisted keys, [`crypto`] derives the Noise
//! PSK from the shared password and [`tlspin`] pins the server's certificate.
//! [`srpc`] is the relay client, [`srpd`] the relay server, and [`control`] the
//! two of them in conversation.

pub mod basic_string;
pub mod buffer;
pub mod bytes;
pub mod control;
pub mod crypto;
pub mod document;
pub mod identity;
pub mod logging;
pub mod mux;
pub mod noise;
pub mod proto;
pub mod session;
pub mod srpc;
pub mod srpd;
pub mod text;
pub mod tlspin;
pub mod types;
pub mod wss;
