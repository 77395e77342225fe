//! Proxy tunnels: configurations, the SOCKS5 and HTTP CONNECT handshakes, and
//! the reachability probe.

pub mod config;
pub mod error;
pub mod http;
pub mod probe;
pub mod socks5;
pub mod tunnel;
