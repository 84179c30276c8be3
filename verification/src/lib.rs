//! Message routing core of an Omikron relay: the wire vocabulary, the JSON
//! message envelope, the handshake state machines of the connections, the
//! registries of iota and call groups, logging and the crypto framing.

pub mod text;
pub mod user;
pub mod wire;
pub mod json;
pub mod ids;
pub mod communication;
pub mod hex;
pub mod primitives;
pub mod crypto_helper;
pub mod crypto_util;
pub mod clock;
pub mod calls;
pub mod omega;
pub mod rho;
pub mod anonymous;
pub mod outgoing;
pub mod client_connection;
pub mod client_requests;
pub mod iota_connection;
pub mod general_connection;
pub mod anonymous_client_connection;
pub mod call_connection;
pub mod omega_connection;
pub mod auth;
pub mod config;
pub mod logger;
pub mod console;
pub mod laws;
