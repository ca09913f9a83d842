//! The decisions of the forwarding engine: which upstream and egress proxy an
//! attempt uses, and what follows each attempt's outcome. The caller performs
//! the attempts and reports how each one went.
use vstd::prelude::*;
use crate::network::Network;
use crate::provider::Provider;
use crate::proxy::{ProxyProvider, ProxyType};

verus! {

/// Largest number of retries after the first attempt.
pub const MAX_RETRIES: usize = 5;

/// Status code of a "too many requests" response.
pub const TOO_MANY_REQUESTS: u16 = 429;

/// How one outbound attempt went.
#[derive(Debug, Clone, Copy, PartialEq, Eq, Structural)]
pub enum Outcome {
    /// The upstream answered with this status code.
    Response { status: u16 },
    /// No answer: connection error, timeout, TLS failure and the like.
    TransportFailure,
}

/// What to do after an attempt.
#[derive(Debug, Clone, Copy, PartialEq, Eq, Structural)]
pub enum Verdict {
    /// Try again with a freshly selected node and egress proxy.
    Retry,
    /// Relay the upstream's response to the caller as it is.
    Deliver,
    /// Answer the caller with a bad-gateway error.
    BadGateway,
}

/// What the next attempt is.
#[derive(Debug)]
pub enum Attempt {
    /// Send to `node_url`, through `proxy_url` if there is one.
    Send { node_url: String, proxy_url: Option<String> },
    /// The network has no upstream: answer with an internal error.
    NoUpstream,
}

pub open spec fn opt_view(o: Option<String>) -> Option<Seq<char>> {
    match o {
        Some(s) => Some(s@),
        None => None,
    }
}

/// The verdict on `outcome` after `retries` retries.
pub open spec fn verdict_of(retries: nat, outcome: Outcome) -> Verdict {
    match outcome {
        Outcome::Response { status } => if status == TOO_MANY_REQUESTS && retries < MAX_RETRIES {
            Verdict::Retry
        } else {
            Verdict::Deliver
        },
        Outcome::TransportFailure => if retries < MAX_RETRIES {
            Verdict::Retry
        } else {
            Verdict::BadGateway
        },
    }
}

/// Number of attempts made when the upstream behaves as `outcomes` says,
/// after `retries` retries.
pub open spec fn attempts(retries: nat, outcomes: Seq<Outcome>) -> nat
    decreases outcomes.len(),
{
    if outcomes.len() == 0 {
        0
    } else if verdict_of(retries, outcomes[0]) is Retry {
        1 + attempts(retries + 1, outcomes.drop_first())
    } else {
        1
    }
}

/// The verdict that ends the forward when the upstream behaves as
/// `outcomes` says, after `retries` retries; none if `outcomes` runs out.
pub open spec fn final_verdict(retries: nat, outcomes: Seq<Outcome>) -> Option<Verdict>
    decreases outcomes.len(),
{
    if outcomes.len() == 0 {
        None
    } else if verdict_of(retries, outcomes[0]) is Retry {
        final_verdict(retries + 1, outcomes.drop_first())
    } else {
        Some(verdict_of(retries, outcomes[0]))
    }
}

/// Whatever the upstream does, a forward ends after at most one attempt
/// plus `MAX_RETRIES` retries, with a verdict other than a retry.
pub proof fn lemma_attempts_bounded(retries: nat, outcomes: Seq<Outcome>)
    requires
        retries <= MAX_RETRIES,
        outcomes.len() >= MAX_RETRIES + 1 - retries,
    ensures
        1 <= attempts(retries, outcomes) <= MAX_RETRIES + 1 - retries,
        final_verdict(retries, outcomes) matches Some(v) && !(v is Retry),
    decreases outcomes.len(),
{
    if verdict_of(retries, outcomes[0]) is Retry {
        lemma_attempts_bounded(retries + 1, outcomes.drop_first());
    }
}

/// When every attempt fails in transport, the forward makes exactly one
/// attempt plus `MAX_RETRIES` retries and ends with a bad gateway.
pub proof fn lemma_transport_failures_exhaust(retries: nat, outcomes: Seq<Outcome>)
    requires
        retries <= MAX_RETRIES,
        outcomes.len() >= MAX_RETRIES + 1 - retries,
        forall|i: int| 0 <= i < outcomes.len() ==> outcomes[i] == Outcome::TransportFailure,
    ensures
        attempts(retries, outcomes) == MAX_RETRIES + 1 - retries,
        final_verdict(retries, outcomes) == Some(Verdict::BadGateway),
    decreases outcomes.len(),
{
    if retries < MAX_RETRIES {
        let rest = outcomes.drop_first();
        assert forall|i: int| 0 <= i < rest.len() implies rest[i] == Outcome::TransportFailure by {
            assert(rest[i] == outcomes[i + 1]);
        }
        lemma_transport_failures_exhaust(retries + 1, rest);
    }
}

/// When the upstream rate-limits the first `k` attempts (`k` at most the
/// retries left) and then answers otherwise, that answer is delivered on
/// attempt `k + 1`.
pub proof fn lemma_rate_limits_then_answer(retries: nat, k: nat, outcomes: Seq<Outcome>)
    requires
        retries + k <= MAX_RETRIES,
        outcomes.len() > k,
        forall|i: int| 0 <= i < k ==> outcomes[i] == (Outcome::Response { status: TOO_MANY_REQUESTS }),
        outcomes[k as int] matches Outcome::Response { status } && status != TOO_MANY_REQUESTS,
    ensures
        attempts(retries, outcomes) == k + 1,
        final_verdict(retries, outcomes) == Some(Verdict::Deliver),
    decreases k,
{
    if k > 0 {
        let rest = outcomes.drop_first();
        assert forall|i: int| 0 <= i < k - 1 implies rest[i] == (Outcome::Response {
            status: TOO_MANY_REQUESTS,
        }) by {
            assert(rest[i] == outcomes[i + 1]);
        }
        assert(rest[k - 1] == outcomes[k as int]);
        lemma_rate_limits_then_answer(retries + 1, (k - 1) as nat, rest);
    }
}

/// When the upstream keeps rate-limiting, its last "too many requests"
/// response is delivered after one attempt plus `MAX_RETRIES` retries.
pub proof fn lemma_rate_limits_exhaust(retries: nat, outcomes: Seq<Outcome>)
    requires
        retries <= MAX_RETRIES,
        outcomes.len() >= MAX_RETRIES + 1 - retries,
        forall|i: int| 0 <= i < outcomes.len() ==> outcomes[i] == (Outcome::Response { status: TOO_MANY_REQUESTS }),
    ensures
        attempts(retries, outcomes) == MAX_RETRIES + 1 - retries,
        final_verdict(retries, outcomes) == Some(Verdict::Deliver),
    decreases outcomes.len(),
{
    if retries < MAX_RETRIES {
        let rest = outcomes.drop_first();
        assert forall|i: int| 0 <= i < rest.len() implies rest[i] == (Outcome::Response {
            status: TOO_MANY_REQUESTS,
        }) by {
            assert(rest[i] == outcomes[i + 1]);
        }
        lemma_rate_limits_exhaust(retries + 1, rest);
    }
}

/// The state of one forward: the egress proxy bound for the next attempt,
/// and the retries made so far.
pub struct Proxy {
    current_proxy_url: Option<String>,
    retries: usize,
}

impl Proxy {
    /// The egress proxy bound for the next attempt, if any.
    pub closed spec fn bound_proxy(&self) -> Option<Seq<char>> {
        opt_view(self.current_proxy_url)
    }

    /// Retries made so far.
    pub closed spec fn retries(&self) -> nat {
        self.retries as nat
    }

    pub open spec fn wf(&self) -> bool {
        self.retries() <= MAX_RETRIES
    }

    /// A forward that has made no attempt and has no proxy bound.
    pub fn new() -> (r: Proxy)
        ensures
            r.wf(),
            r.bound_proxy() is None,
            r.retries() == 0,
    {
        Proxy { current_proxy_url: None, retries: 0 }
    }

    /// The egress proxy bound for the next attempt, if any.
    pub fn current_proxy_url(&self) -> (r: Option<String>)
        ensures
            opt_view(r) == self.bound_proxy(),
    {
        self.current_proxy_url.clone()
    }

    /// Retries made so far.
    pub fn retries_made(&self) -> (r: usize)
        ensures
            r == self.retries(),
    {
        self.retries
    }

    /// Prepares the next attempt for `network`: draws the next upstream from
    /// the node pool and, when no egress proxy is bound, binds the next
    /// SOCKS5 proxy of the proxy pool (possibly none). A network with no
    /// upstream ends the forward and changes nothing.
    pub fn prepare_attempt(
        &mut self,
        provider: &mut Provider,
        proxy_provider: &mut ProxyProvider,
        network: Network,
    ) -> (r: Attempt)
        requires
            old(provider).wf(),
            old(proxy_provider).wf(),
        ensures
            final(self).retries() == old(self).retries(),
            old(provider).peek(network) is None ==> {
                &&& r is NoUpstream
                &&& *final(self) == *old(self)
                &&& *final(provider) == *old(provider)
                &&& *final(proxy_provider) == *old(proxy_provider)
            },
            old(provider).peek(network) matches Some(u) ==> {
                &&& r matches Attempt::Send { node_url, proxy_url } && node_url@ == u
                    && opt_view(proxy_url) == final(self).bound_proxy()
                &&& old(provider).selected(*final(provider), network)
                &&& old(self).bound_proxy() is None ==> {
                    &&& old(proxy_provider).selected(*final(proxy_provider), ProxyType::Socks5)
                    &&& final(self).bound_proxy() == old(proxy_provider).peek(ProxyType::Socks5)
                }
                &&& old(self).bound_proxy() is Some ==> {
                    &&& *final(proxy_provider) == *old(proxy_provider)
                    &&& final(self).bound_proxy() == old(self).bound_proxy()
                }
            },
    {
        let node_url = match provider.get_node_url(network) {
            Some(u) => u,
            None => {
                return Attempt::NoUpstream;
            },
        };
        if self.current_proxy_url.is_none() {
            self.current_proxy_url = proxy_provider.get_proxy_url(ProxyType::Socks5);
        }
        Attempt::Send { node_url, proxy_url: self.current_proxy_url.clone() }
    }

    /// Decides what follows an attempt. A "too many requests" response or a
    /// transport failure is retried, with the egress proxy unbound so that
    /// the next attempt draws a new one, until `MAX_RETRIES` retries are
    /// made; then a rate-limit response is delivered and a transport failure
    /// becomes a bad gateway. Any other response is delivered.
    pub fn evaluate(&mut self, outcome: Outcome) -> (r: Verdict)
        requires
            old(self).wf(),
        ensures
            final(self).wf(),
            r == verdict_of(old(self).retries(), outcome),
            r is Retry ==> final(self).retries() == old(self).retries() + 1 && final(self).bound_proxy() is None,
            !(r is Retry) ==> *final(self) == *old(self),
    {
        let retryable = match outcome {
            Outcome::Response { status } => status == TOO_MANY_REQUESTS,
            Outcome::TransportFailure => true,
        };
        if retryable && self.retries < MAX_RETRIES {
            self.retries = self.retries + 1;
            self.current_proxy_url = None;
            Verdict::Retry
        } else {
            match outcome {
                Outcome::Response { .. } => Verdict::Deliver,
                Outcome::TransportFailure => Verdict::BadGateway,
            }
        }
    }
}

} // verus!
