//! Wire formats: messages exchanged over TCP and UDP, their framing, and
//! the trust-on-first-use decisions of the TLS layer.

pub mod protocol;
pub mod udp;
pub mod tls;
