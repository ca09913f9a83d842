use rpc_proxy::error::ProviderError;
use rpc_proxy::network::Network;
use rpc_proxy::provider::Provider;
use rpc_proxy::proxy::{ProxyProvider, ProxyProviderError, ProxyType};

#[test]
fn node_rotation_cycles_in_configuration_order() {
    let mut p = Provider::from_json(r#"{"ethereum": ["a", "b", "c"]}"#).unwrap();
    let got: Vec<String> = (0..7).map(|_| p.get_node_url(Network::Ethereum).unwrap()).collect();
    assert_eq!(got, vec!["a", "b", "c", "a", "b", "c", "a"]);
}

#[test]
fn networks_rotate_independently() {
    let mut p = Provider::from_json(r#"{"solana": ["s1", "s2"], "bsc": ["b1", "b2", "b3"]}"#).unwrap();
    assert_eq!(p.get_node_url(Network::Solana).unwrap(), "s1");
    assert_eq!(p.get_node_url(Network::BSC).unwrap(), "b1");
    assert_eq!(p.get_node_url(Network::BSC).unwrap(), "b2");
    assert_eq!(p.get_node_url(Network::Solana).unwrap(), "s2");
    assert_eq!(p.get_node_url(Network::Solana).unwrap(), "s1");
    assert_eq!(p.get_node_url(Network::BSC).unwrap(), "b3");
}

#[test]
fn unconfigured_network_never_yields_a_url() {
    let mut p = Provider::from_json(r#"{"ethereum": ["a"]}"#).unwrap();
    for _ in 0..10 {
        assert_eq!(p.get_node_url(Network::Solana), None);
    }
    assert_eq!(p.get_node_url(Network::Ethereum).unwrap(), "a");
}

#[test]
fn empty_url_list_leaves_network_unconfigured() {
    let mut p = Provider::from_json(r#"{"ethereum": []}"#).unwrap();
    assert_eq!(p.get_node_url(Network::Ethereum), None);
    assert_eq!(p.get_node_url(Network::Ethereum), None);
}

#[test]
fn non_string_elements_are_skipped() {
    let mut p = Provider::from_json(r#"{"bsc": [1, "u", null, {"x": 2}, "v"], "solana": "not-a-list"}"#).unwrap();
    assert_eq!(p.get_node_url(Network::BSC).unwrap(), "u");
    assert_eq!(p.get_node_url(Network::BSC).unwrap(), "v");
    assert_eq!(p.get_node_url(Network::BSC).unwrap(), "u");
    assert_eq!(p.get_node_url(Network::Solana), None);
}

#[test]
fn unknown_network_key_is_rejected() {
    let r = Provider::from_json(r#"{"ethereum": ["a"], "dogecoin": ["d"]}"#);
    assert!(matches!(r, Err(ProviderError::ParseNetworkNameError)));
}

#[test]
fn invalid_node_list_json_is_a_parse_error() {
    let r = Provider::from_json("{ not json");
    assert!(matches!(r, Err(ProviderError::ParseNodeListError(_))));
}

#[test]
fn non_object_node_list_configures_nothing() {
    let mut p = Provider::from_json(r#"["ethereum"]"#).unwrap();
    assert_eq!(p.get_node_url(Network::Ethereum), None);
}

#[test]
fn empty_provider_has_no_urls() {
    let mut p = Provider::empty();
    assert_eq!(p.get_node_url(Network::SolanaDevnet), None);
}

#[test]
fn provider_error_messages() {
    assert_eq!(ProviderError::ParseNetworkNameError.message(), "Error while parsing network name");
    assert_eq!(ProviderError::InitializeProviderError.message(), "Error while initializing provider");
}

#[test]
fn proxy_type_parsing_ignores_case() {
    assert_eq!(ProxyType::from_str("SOCKS5").unwrap(), ProxyType::Socks5);
    assert_eq!(ProxyType::from_str("Disabled").unwrap(), ProxyType::Disabled);
    assert_eq!(ProxyType::from_str("random").unwrap(), ProxyType::Random);
    assert!(matches!(ProxyType::from_str("http"), Err(ProxyProviderError::InvalidProxyType)));
    assert!(matches!(ProxyType::from_lowercase("SOCKS5"), Err(ProxyProviderError::InvalidProxyType)));
    assert_eq!(ProxyType::from_lowercase("socks5").unwrap(), ProxyType::Socks5);
}

#[test]
fn disabled_proxy_kind_never_yields_a_proxy() {
    let mut p = ProxyProvider::from_json(r#"{"disabled": ["x"], "socks5": ["s1"]}"#).unwrap();
    for _ in 0..4 {
        assert_eq!(p.get_proxy_url(ProxyType::Disabled), None);
    }
    assert_eq!(p.get_proxy_url(ProxyType::Socks5).unwrap(), "s1");
}

#[test]
fn socks5_proxies_rotate() {
    let mut p = ProxyProvider::from_json(r#"{"Socks5": ["p1", "p2"]}"#).unwrap();
    assert!(p.is_enabled);
    assert_eq!(p.get_proxy_url(ProxyType::Socks5).unwrap(), "p1");
    assert_eq!(p.get_proxy_url(ProxyType::Socks5).unwrap(), "p2");
    assert_eq!(p.get_proxy_url(ProxyType::Socks5).unwrap(), "p1");
    assert_eq!(p.get_proxy_url(ProxyType::Random), None);
}

#[test]
fn disabled_feature_gives_an_empty_pool() {
    let mut p = ProxyProvider::empty(false);
    assert!(!p.is_enabled);
    assert_eq!(p.get_proxy_url(ProxyType::Socks5), None);
}

#[test]
fn unknown_proxy_kind_is_rejected() {
    let r = ProxyProvider::from_json(r#"{"socks5": ["p"], "http": ["h"]}"#);
    assert!(matches!(r, Err(ProxyProviderError::InvalidProxyType)));
}

#[test]
fn invalid_proxy_list_json_is_a_parse_error() {
    let r = ProxyProvider::from_json("[1,");
    assert!(matches!(r, Err(ProxyProviderError::ParseProxyListError(_))));
}
