//! The host daemon: where usage comes from, and how it reaches the instrument.

pub mod credentials;
pub mod direct;
pub mod proxy;
pub mod proxy_credentials;
pub mod session;
pub mod transport;
pub mod usage;
