use rpc_proxy::forward::{Attempt, Outcome, Proxy, Verdict, MAX_RETRIES};
use rpc_proxy::headers::{outbound_headers, outbound_headers_for};
use rpc_proxy::network::Network;
use rpc_proxy::provider::Provider;
use rpc_proxy::proxy::ProxyProvider;

/// Runs one forward against a mock upstream whose outcome for attempt `i`
/// is `mock(i)`; returns the verdict, the attempts made and the
/// (node, proxy) pair of each attempt.
fn run(
    provider: &mut Provider,
    proxies: &mut ProxyProvider,
    network: Network,
    mock: impl Fn(usize) -> Outcome,
) -> (Option<Verdict>, usize, Vec<(String, Option<String>)>) {
    let mut state = Proxy::new();
    let mut sent = Vec::new();
    loop {
        match state.prepare_attempt(provider, proxies, network) {
            Attempt::NoUpstream => return (None, sent.len(), sent),
            Attempt::Send { node_url, proxy_url } => {
                let i = sent.len();
                sent.push((node_url, proxy_url));
                let v = state.evaluate(mock(i));
                if v != Verdict::Retry {
                    return (Some(v), sent.len(), sent);
                }
            }
        }
    }
}

fn pools() -> (Provider, ProxyProvider) {
    let p = Provider::from_json(r#"{"ethereum": ["n1", "n2", "n3"]}"#).unwrap();
    let q = ProxyProvider::from_json(r#"{"socks5": ["p1", "p2", "p3", "p4"]}"#).unwrap();
    (p, q)
}

#[test]
fn rate_limited_five_times_then_success_is_delivered() {
    let (mut p, mut q) = pools();
    let (v, n, sent) = run(&mut p, &mut q, Network::Ethereum, |i| {
        if i < 5 {
            Outcome::Response { status: 429 }
        } else {
            Outcome::Response { status: 200 }
        }
    });
    assert_eq!(v, Some(Verdict::Deliver));
    assert_eq!(n, 6);
    let nodes: Vec<&str> = sent.iter().map(|s| s.0.as_str()).collect();
    assert_eq!(nodes, vec!["n1", "n2", "n3", "n1", "n2", "n3"]);
    for w in sent.windows(2) {
        assert_ne!(w[0].1, w[1].1);
    }
    assert_eq!(sent[0].1.as_deref(), Some("p1"));
    assert_eq!(sent[4].1.as_deref(), Some("p1"));
}

#[test]
fn transport_failures_end_in_bad_gateway_after_six_attempts() {
    let (mut p, mut q) = pools();
    let (v, n, _) = run(&mut p, &mut q, Network::Ethereum, |_| Outcome::TransportFailure);
    assert_eq!(v, Some(Verdict::BadGateway));
    assert_eq!(n, MAX_RETRIES + 1);
    assert_eq!(n, 6);
}

#[test]
fn endless_rate_limit_is_passed_through() {
    let (mut p, mut q) = pools();
    let (v, n, _) = run(&mut p, &mut q, Network::Ethereum, |_| Outcome::Response { status: 429 });
    assert_eq!(v, Some(Verdict::Deliver));
    assert_eq!(n, 6);
}

#[test]
fn other_statuses_are_delivered_at_once() {
    for status in [200u16, 404, 500, 503] {
        let (mut p, mut q) = pools();
        let (v, n, _) = run(&mut p, &mut q, Network::Ethereum, |_| Outcome::Response { status });
        assert_eq!(v, Some(Verdict::Deliver));
        assert_eq!(n, 1);
    }
}

#[test]
fn unconfigured_network_ends_without_attempt() {
    let (mut p, mut q) = pools();
    let (v, n, _) = run(&mut p, &mut q, Network::Solana, |_| Outcome::Response { status: 200 });
    assert_eq!(v, None);
    assert_eq!(n, 0);
    assert_eq!(q.get_proxy_url(rpc_proxy::proxy::ProxyType::Socks5).unwrap(), "p1");
}

#[test]
fn proxy_is_kept_until_a_retry() {
    let (mut p, mut q) = pools();
    let mut state = Proxy::new();
    assert_eq!(state.current_proxy_url(), None);
    let a = state.prepare_attempt(&mut p, &mut q, Network::Ethereum);
    assert!(matches!(a, Attempt::Send { ref proxy_url, .. } if proxy_url.as_deref() == Some("p1")));
    let b = state.prepare_attempt(&mut p, &mut q, Network::Ethereum);
    assert!(matches!(b, Attempt::Send { ref node_url, ref proxy_url } if node_url == "n2" && proxy_url.as_deref() == Some("p1")));
    assert_eq!(state.evaluate(Outcome::TransportFailure), Verdict::Retry);
    assert_eq!(state.current_proxy_url(), None);
    assert_eq!(state.retries_made(), 1);
    let c = state.prepare_attempt(&mut p, &mut q, Network::Ethereum);
    assert!(matches!(c, Attempt::Send { ref proxy_url, .. } if proxy_url.as_deref() == Some("p2")));
}

#[test]
fn no_proxy_when_pool_is_empty() {
    let mut p = Provider::from_json(r#"{"bsc": ["b"]}"#).unwrap();
    let mut q = ProxyProvider::empty(false);
    let mut state = Proxy::new();
    let a = state.prepare_attempt(&mut p, &mut q, Network::BSC);
    assert!(matches!(a, Attempt::Send { ref node_url, proxy_url: None } if node_url == "b"));
}

#[test]
fn host_header_is_replaced_by_upstream_host() {
    let inbound = vec![
        ("content-type".to_string(), b"application/json".to_vec()),
        ("host".to_string(), b"proxy.local:8080".to_vec()),
        ("x-trace".to_string(), b"42".to_vec()),
    ];
    let out = outbound_headers_for(&inbound, "https://node.example.com:8545/rpc?key=1").unwrap();
    assert_eq!(
        out,
        vec![
            ("content-type".to_string(), b"application/json".to_vec()),
            ("x-trace".to_string(), b"42".to_vec()),
            ("host".to_string(), b"node.example.com".to_vec()),
        ]
    );
}

#[test]
fn host_header_is_added_when_absent() {
    let out = outbound_headers(&vec![("accept".to_string(), b"*/*".to_vec())], "10.0.0.1");
    assert_eq!(
        out,
        vec![
            ("accept".to_string(), b"*/*".to_vec()),
            ("host".to_string(), b"10.0.0.1".to_vec()),
        ]
    );
}

#[test]
fn url_without_host_gives_no_headers() {
    assert_eq!(outbound_headers_for(&vec![], "not a url"), None);
    assert_eq!(outbound_headers_for(&vec![], "unix:/run/sock"), None);
}
