//! Discovers and keeps a stable public (NAT-exterior) socket address, by
//! combining STUN Binding transactions with a keepalive loop.

pub mod batch;
pub mod cli;
pub mod error;
pub mod mapper;
pub mod net;
pub mod reuse_port;
pub mod session;
pub mod stun;
pub mod text;

pub use error::Error;
