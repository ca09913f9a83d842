use rpc_proxy::network::Network;
use rpc_proxy::route::{route, Route};

#[test]
fn test_network_methods() {
    // Test from_str
    assert_eq!(Network::from_str("solana").unwrap(), Network::Solana);
    assert_eq!(
        Network::from_str("solana-devnet").unwrap(),
        Network::SolanaDevnet
    );

    // Test to_string
    assert_eq!(Network::Solana.to_string(), "solana");
    assert_eq!(Network::SolanaDevnet.to_string(), "solana-devnet");
    assert_eq!(Network::BSCTestnet.to_string(), "bsc-testnet");

    // Test as_ref
    assert_eq!(Network::Ethereum.as_ref(), "ethereum");
    assert_eq!(Network::BSC.as_ref(), "bsc");
}

#[test]
fn network_names_are_case_sensitive_and_exact() {
    assert!(Network::from_str("Solana").is_err());
    assert!(Network::from_str("bsc-testnet ").is_err());
    assert!(Network::from_str("").is_err());
    assert_eq!(Network::from_str("bsc-testnet").unwrap(), Network::BSCTestnet);
    assert_eq!(Network::from_str("ethereum").unwrap(), Network::Ethereum);
}

#[test]
fn every_name_parses_back() {
    let all = [
        Network::Solana,
        Network::SolanaDevnet,
        Network::Ethereum,
        Network::BSC,
        Network::BSCTestnet,
    ];
    for (i, n) in all.iter().enumerate() {
        assert_eq!(Network::from_str(n.as_ref()).unwrap(), *n);
        assert_eq!(n.index(), i);
    }
}

#[test]
fn known_network_path_routes_to_it() {
    assert_eq!(route("/rpc/solana"), Route::Rpc(Network::Solana));
    assert_eq!(route("/rpc/bsc-testnet"), Route::Rpc(Network::BSCTestnet));
}

#[test]
fn unknown_network_segment_is_a_bad_request() {
    assert_eq!(route("/rpc/dogecoin"), Route::InvalidNetwork);
    assert_eq!(route("/rpc/SOLANA"), Route::InvalidNetwork);
}

#[test]
fn unmatched_paths_are_not_found() {
    assert_eq!(route("/hello"), Route::NotFound);
    assert_eq!(route("/rpc/"), Route::NotFound);
    assert_eq!(route("/rpc"), Route::NotFound);
    assert_eq!(route("/rpc/solana/extra"), Route::NotFound);
    assert_eq!(route("/api/solana"), Route::NotFound);
    assert_eq!(route(""), Route::NotFound);
}
