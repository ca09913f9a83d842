//! The closed catalog of supported networks and their canonical names.
use vstd::prelude::*;
use vstd::string::StringExecFns;
use crate::text::str_equal;

verus! {

/// One supported chain or environment.
#[derive(Debug, Hash, Eq, PartialEq, Clone, Copy, Structural)]
pub enum Network {
    Solana,
    SolanaDevnet,
    Ethereum,
    BSC,
    BSCTestnet,
}

/// Number of variants of `Network`.
pub const NETWORK_COUNT: usize = 5;

/// The canonical lowercase-hyphenated name of a network.
pub open spec fn network_name(n: Network) -> Seq<char> {
    match n {
        Network::Solana => seq!['s', 'o', 'l', 'a', 'n', 'a'],
        Network::SolanaDevnet => seq!['s', 'o', 'l', 'a', 'n', 'a', '-', 'd', 'e', 'v', 'n', 'e', 't'],
        Network::Ethereum => seq!['e', 't', 'h', 'e', 'r', 'e', 'u', 'm'],
        Network::BSC => seq!['b', 's', 'c'],
        Network::BSCTestnet => seq!['b', 's', 'c', '-', 't', 'e', 's', 't', 'n', 'e', 't'],
    }
}

/// The network whose canonical name is `s`, if any.
pub open spec fn network_named(s: Seq<char>) -> Option<Network> {
    if s == network_name(Network::Solana) {
        Some(Network::Solana)
    } else if s == network_name(Network::SolanaDevnet) {
        Some(Network::SolanaDevnet)
    } else if s == network_name(Network::Ethereum) {
        Some(Network::Ethereum)
    } else if s == network_name(Network::BSC) {
        Some(Network::BSC)
    } else if s == network_name(Network::BSCTestnet) {
        Some(Network::BSCTestnet)
    } else {
        None
    }
}

/// The position of a network in the catalog, used to index per-network tables.
pub open spec fn network_index(n: Network) -> nat {
    match n {
        Network::Solana => 0,
        Network::SolanaDevnet => 1,
        Network::Ethereum => 2,
        Network::BSC => 3,
        Network::BSCTestnet => 4,
    }
}

/// The name of a network is never the name of another one.
pub proof fn lemma_names_distinct(a: Network, b: Network)
    ensures
        network_name(a) == network_name(b) <==> a == b,
{
    if a != b && network_name(a) == network_name(b) {
        let (x, y) = (network_name(a), network_name(b));
        assert(x.len() == y.len());
        assert(x[0] == y[0] && x[x.len() - 1] == y[y.len() - 1]);
    }
}

/// Parsing a network's canonical name gives that network back.
pub proof fn lemma_name_round_trip(n: Network)
    ensures
        network_named(network_name(n)) == Some(n),
{
    lemma_names_distinct(n, Network::Solana);
    lemma_names_distinct(n, Network::SolanaDevnet);
    lemma_names_distinct(n, Network::Ethereum);
    lemma_names_distinct(n, Network::BSC);
    lemma_names_distinct(n, Network::BSCTestnet);
}

/// The handler of Solana requests; it forwards them as for any network,
/// and stands apart so that Solana-specific behaviour has a place.
#[derive(Debug, Clone, Copy)]
pub struct Solana;

/// Error returned when a text is no network's canonical name.
#[derive(Debug, Eq, PartialEq, Clone, Copy, Structural)]
pub struct ParseNetworkError;

impl Network {
    /// The canonical name of this network.
    pub fn as_ref(&self) -> (r: &'static str)
        ensures
            r@ == network_name(*self),
    {
        match self {
            Network::Solana => {
                proof { reveal_strlit("solana"); }
                "solana"
            },
            Network::SolanaDevnet => {
                proof { reveal_strlit("solana-devnet"); }
                "solana-devnet"
            },
            Network::Ethereum => {
                proof { reveal_strlit("ethereum"); }
                "ethereum"
            },
            Network::BSC => {
                proof { reveal_strlit("bsc"); }
                "bsc"
            },
            Network::BSCTestnet => {
                proof { reveal_strlit("bsc-testnet"); }
                "bsc-testnet"
            },
        }
    }

    /// The canonical name of this network, as an owned string.
    pub fn to_string(&self) -> (r: String)
        ensures
            r@ == network_name(*self),
    {
        String::from_str(self.as_ref())
    }

    /// The network whose canonical name is exactly `s` (case-sensitive).
    pub fn from_str(s: &str) -> (r: Result<Network, ParseNetworkError>)
        ensures
            r matches Ok(n) ==> network_named(s@) == Some(n),
            r is Err <==> network_named(s@) is None,
    {
        let all = [
            Network::Solana,
            Network::SolanaDevnet,
            Network::Ethereum,
            Network::BSC,
            Network::BSCTestnet,
        ];
        let mut i: usize = 0;
        while i < NETWORK_COUNT
            invariant
                0 <= i <= NETWORK_COUNT,
                all@ == seq![
                    Network::Solana,
                    Network::SolanaDevnet,
                    Network::Ethereum,
                    Network::BSC,
                    Network::BSCTestnet,
                ],
                forall|j: int| 0 <= j < i ==> s@ != network_name(#[trigger] all@[j]),
            decreases NETWORK_COUNT - i,
        {
            let n = all[i];
            if str_equal(s, n.as_ref()) {
                return Ok(n);
            }
            i += 1;
        }
        Err(ParseNetworkError)
    }

    /// The position of this network in the catalog.
    pub fn index(&self) -> (r: usize)
        ensures
            r == network_index(*self),
            r < NETWORK_COUNT,
    {
        match self {
            Network::Solana => 0,
            Network::SolanaDevnet => 1,
            Network::Ethereum => 2,
            Network::BSC => 3,
            Network::BSCTestnet => 4,
        }
    }
}

} // verus!
