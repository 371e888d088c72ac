//! Core logic of a VLESS-over-XHTTP proxy server with a Reality-style TLS 1.3
//! camouflage layer: wire codec, handshake key schedule, authenticator,
//! session pairing, traffic shaping, gRPC framing, and the packet classifier
//! mirrored by the kernel filter.

pub mod address;
pub mod auth;
pub mod cert_fetch;
pub mod config;
pub mod connection;
pub mod crypto;
pub mod encoding;
pub mod grpc;
pub mod handshake;
pub mod messages;
pub mod record;
pub mod schedule;
pub mod session;
pub mod shaper;
pub mod sniffer;
pub mod tls_handler;
pub mod xdp;
pub mod xhttp;
