//! Verified core of a JSON-RPC reverse proxy: the network catalog, the
//! round-robin upstream and egress-proxy pools, and the decisions of the
//! retrying forwarder.
pub mod text;
pub mod network;
pub mod pool;
pub mod json;
pub mod error;
pub mod provider;
pub mod proxy;
pub mod forward;
pub mod route;
pub mod headers;
pub mod config;
