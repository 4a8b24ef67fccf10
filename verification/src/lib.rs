//! A SOCKS5 proxy endpoint as a verified protocol engine: the wire codec for
//! negotiation and connect messages, the address model, and the
//! per-connection state machine that tells its driver what to read, write,
//! resolve and connect.

pub mod socks5;
