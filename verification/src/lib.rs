//! The decision logic of TCP and SOCKS transports, free of I/O.
//!
//! Every module computes on plain values: which address to try next and for how long, which
//! bytes to send to a SOCKS proxy and what its replies mean, when a socket option has to be set.
//! The code around the library owns the sockets, the clock and the resolver; it performs what
//! the library asks for and hands the outcome back.

pub mod addr;
pub mod bound_proxy;
pub mod bound_proxy_laws;
pub mod budget;
pub mod error;
pub mod handshake;
pub mod proxy;
pub mod proxy_attempts;
pub mod socks;
pub mod socks4;
pub mod socks5;
pub mod socks5_laws;
pub mod tcp;
pub mod tcp_laws;
pub mod time;
pub mod transport;
