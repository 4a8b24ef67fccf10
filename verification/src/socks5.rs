//! The SOCKS version 5 subset that the proxy speaks.

pub mod endpoint;
pub mod laws;
pub mod session;
pub mod types;
pub mod wire;
