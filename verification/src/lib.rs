//! Verified core of a terminal client's proxy tunnels, update checks and SSH
//! session bookkeeping.

pub mod foreign;
pub mod proxy;
pub mod ssh;
pub mod text;
pub mod updater;
