//! Settings of the proxy process.
use vstd::prelude::*;

verus! {

/// Where the proxy listens and where its URL lists are.
#[derive(Debug)]
pub struct Config {
    pub http_server_address: String,
    pub node_list_path: String,
    pub proxy_is_enabled: bool,
    pub proxy_list_path: String,
}

} // verus!
