//! Error kinds of the proxy.
use vstd::prelude::*;
use vstd::string::StringExecFns;

verus! {

/// Errors of the application as a whole.
#[derive(Debug)]
pub enum AppError {
    RequestRPCError,
    InitializeProviderError,
}

/// Errors raised while building the node pool.
#[derive(Debug)]
pub enum ProviderError {
    ReadNodeListError(std::io::Error),
    ParseNodeListError(std::io::Error),
    ParseNetworkNameError,
    InitializeProviderError,
}

impl AppError {
    /// A one-line description of the error.
    pub fn message(&self) -> (r: String)
        ensures
            self is RequestRPCError ==> r@ == "Error sending request to RPC node"@,
            self is InitializeProviderError ==> r@ == "Error parsing response from RPC node"@,
    {
        match self {
            AppError::RequestRPCError => String::from_str("Error sending request to RPC node"),
            AppError::InitializeProviderError => String::from_str("Error parsing response from RPC node"),
        }
    }
}

impl ProviderError {
    /// A one-line description of the error.
    pub fn message(&self) -> (r: String)
        ensures
            self is ReadNodeListError ==> r@ == "Error reading node list file"@,
            self is ParseNodeListError ==> r@ == "Error while parsing node list file"@,
            self is ParseNetworkNameError ==> r@ == "Error while parsing network name"@,
            self is InitializeProviderError ==> r@ == "Error while initializing provider"@,
    {
        match self {
            ProviderError::ReadNodeListError(_) => String::from_str("Error reading node list file"),
            ProviderError::ParseNodeListError(_) => String::from_str("Error while parsing node list file"),
            ProviderError::ParseNetworkNameError => String::from_str("Error while parsing network name"),
            ProviderError::InitializeProviderError => String::from_str("Error while initializing provider"),
        }
    }
}

} // verus!
