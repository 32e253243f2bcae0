//! A layered network stack (Ethernet, IPv4, UDP, TCP) whose per-layer
//! decisions are written as functions from connection state and bytes to
//! bytes, so that the transport that moves frames can live elsewhere.
pub mod bytes;
pub mod address;
pub mod protocol;
pub mod ether;
pub mod ipv4;
pub mod udp;
pub mod tcp;
