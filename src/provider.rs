//! The node pool: per network, the configured upstream URLs and a rotation
//! cursor.
use vstd::prelude::*;
use crate::error::ProviderError;
use crate::json::{
    collect_urls, entries_view, list_view, json_error_into_io, json_string_lists, listed_urls,
    parse_string_lists, EntriesView, ListEntry,
};
use crate::network::{network_index, network_named, Network, NETWORK_COUNT};
use crate::pool::{advance, lemma_round_robin, strings_view, UrlTable};

verus! {

/// Whether some member's key names no network.
pub open spec fn has_unknown_network(entries: EntriesView) -> bool {
    exists|i: int| 0 <= i < entries.len() && (#[trigger] network_named(entries[i].0)) is None
}

/// The URLs configured for `n`: those of the last member naming `n` whose
/// list holds at least one URL; none if there is no such member.
pub open spec fn configured_urls(entries: EntriesView, n: Network) -> Seq<Seq<char>>
    decreases entries.len(),
{
    if entries.len() == 0 {
        seq![]
    } else {
        let e = entries.last();
        if network_named(e.0) == Some(n) && listed_urls(e.1).len() > 0 {
            listed_urls(e.1)
        } else {
            configured_urls(entries.drop_last(), n)
        }
    }
}

/// Round-robin selection of upstream URLs, per network.
pub struct Provider {
    nodes: UrlTable,
}

impl Provider {
    /// The URLs configured for `n`, in configuration order; empty if `n` is
    /// unconfigured.
    pub closed spec fn urls(&self, n: Network) -> Seq<Seq<char>> {
        self.nodes.urls(network_index(n) as int)
    }

    /// The position of the URL that the next selection for `n` returns.
    pub closed spec fn cursor(&self, n: Network) -> nat {
        self.nodes.cursor(network_index(n) as int)
    }

    pub closed spec fn wf(&self) -> bool {
        self.nodes.wf() && self.nodes.slot_count() == NETWORK_COUNT
    }

    /// What the next selection for `n` returns.
    pub open spec fn peek(&self, n: Network) -> Option<Seq<char>> {
        if self.urls(n).len() == 0 {
            None
        } else {
            Some(self.urls(n)[self.cursor(n) as int])
        }
    }

    /// `next` is this pool after one selection for `n`.
    pub open spec fn selected(&self, next: Provider, n: Network) -> bool {
        &&& next.wf()
        &&& forall|m: Network| #[trigger] next.urls(m) == self.urls(m)
        &&& forall|m: Network| m != n ==> #[trigger] next.cursor(m) == self.cursor(m)
        &&& next.cursor(n) == if self.peek(n) is None {
            self.cursor(n)
        } else {
            advance(self.cursor(n), self.urls(n).len(), 1)
        }
    }

    /// A pool in which no network is configured.
    pub fn empty() -> (r: Provider)
        ensures
            r.wf(),
            forall|n: Network| (#[trigger] r.urls(n)) == Seq::<Seq<char>>::empty(),
            forall|n: Network| (#[trigger] r.cursor(n)) == 0,
    {
        let t = UrlTable::new(NETWORK_COUNT);
        let r = Provider { nodes: t };
        assert forall|n: Network| (#[trigger] r.urls(n)) == Seq::<Seq<char>>::empty() && r.cursor(n) == 0 by {
            let k = network_index(n) as int;
            assert(0 <= k < NETWORK_COUNT);
            assert(r.nodes.urls(k) =~= Seq::<Seq<char>>::empty());
            assert(r.nodes.cursor(k) == 0);
        }
        r
    }

    /// Builds the pool from the members of a configuration object. Every key
    /// must name a network; a network is configured by the last member naming
    /// it with at least one URL, and members with no URL leave it as it was.
    pub fn from_entries(entries: &Vec<ListEntry>) -> (r: Result<Provider, ProviderError>)
        ensures
            r is Err <==> has_unknown_network(entries_view(entries@)),
            r matches Err(e) ==> e is ParseNetworkNameError,
            r matches Ok(p) ==> p.wf() && forall|n: Network|
                (#[trigger] p.urls(n)) == configured_urls(entries_view(entries@), n) && p.cursor(n) == 0,
    {
        let mut p = Provider::empty();
        let ghost all = entries_view(entries@);
        let mut i: usize = 0;
        proof {
            assert(all.take(0).len() == 0);
        }
        while i < entries.len()
            invariant
                i <= entries@.len(),
                all == entries_view(entries@),
                p.wf(),
                forall|n: Network| (#[trigger] p.urls(n)) == configured_urls(all.take(i as int), n) && p.cursor(n) == 0,
                forall|j: int| 0 <= j < i ==> (#[trigger] network_named(all[j].0)) is Some,
            decreases entries@.len() - i,
        {
            let ghost before = all.take(i as int);
            let ghost after = all.take(i + 1);
            proof {
                assert(after.drop_last() =~= before);
                assert(after.last() == all[i as int]);
            }
            let entry = &entries[i];
            let ghost p0 = p;
            assert forall|n: Network| #![trigger p0.urls(n)] p0.urls(n) == configured_urls(before, n) && p0.cursor(n) == 0 by {
                assert(p.urls(n) == configured_urls(all.take(i as int), n));
            }
            proof {
                assert(all[i as int] == (entry.0@, list_view(entry.1)));
            }
            match Network::from_str(entry.0.as_str()) {
                Err(_) => {
                    proof {
                        assert(network_named(all[i as int].0) is None);
                    }
                    return Err(ProviderError::ParseNetworkNameError);
                },
                Ok(network) => {
                    let urls = collect_urls(&entry.1);
                    proof {
                        assert(urls@.len() == strings_view(urls@).len());
                    }
                    if urls.len() > 0 {
                        p.nodes.set(network.index(), urls);
                    }
                    proof {
                        assert(network_named(after.last().0) == Some(network));
                        assert(strings_view(urls@) == listed_urls(after.last().1));
                        assert forall|n: Network|
                            (#[trigger] p.urls(n)) == configured_urls(after, n) && p.cursor(n) == 0 by {
                            assert(p0.urls(n) == configured_urls(before, n));
                            assert(p0.cursor(n) == 0);
                            if n != network {
                                let k = network_index(n) as int;
                                assert(network_index(n) != network_index(network));
                                assert(0 <= k < NETWORK_COUNT);
                                assert(p.nodes.urls(k) == p0.nodes.urls(k));
                                assert(p.nodes.cursor(k) == p0.nodes.cursor(k));
                                assert(configured_urls(after, n) == configured_urls(before, n));
                            } else if urls@.len() > 0 {
                                assert(configured_urls(after, n) == listed_urls(after.last().1));
                            } else {
                                assert(configured_urls(after, n) == configured_urls(before, n));
                            }
                        }
                    }
                },
            }
            i += 1;
        }
        proof {
            assert(all.take(entries@.len() as int) =~= all);
            assert(!has_unknown_network(all));
            assert forall|n: Network|
                (#[trigger] p.urls(n)) == configured_urls(entries_view(entries@), n) && p.cursor(n) == 0 by {
                assert(p.urls(n) == configured_urls(all.take(entries@.len() as int), n));
                assert(p.cursor(n) == 0);
            }
        }
        Ok(p)
    }

    /// Builds the pool from the text of a configuration document: a JSON
    /// object mapping network names to arrays of URLs. A document that is no
    /// JSON is a parse error; one whose top-level value is no object
    /// configures nothing.
    pub fn from_json(text: &str) -> (r: Result<Provider, ProviderError>)
        ensures
            json_string_lists(text@) is None <==> r matches Err(ProviderError::ParseNodeListError(_)),
            json_string_lists(text@) == Some(None::<EntriesView>) ==> (r matches Ok(p) && p.wf()
                && forall|n: Network| (#[trigger] p.urls(n)) == Seq::<Seq<char>>::empty() && p.cursor(n) == 0),
            json_string_lists(text@) matches Some(Some(es)) ==> {
                &&& r is Err <==> has_unknown_network(es)
                &&& r matches Err(e) ==> e is ParseNetworkNameError
                &&& r matches Ok(p) ==> p.wf() && forall|n: Network|
                    (#[trigger] p.urls(n)) == configured_urls(es, n) && p.cursor(n) == 0
            },
    {
        match parse_string_lists(text) {
            Err(e) => Err(ProviderError::ParseNodeListError(json_error_into_io(e))),
            Ok(None) => Ok(Provider::empty()),
            Ok(Some(entries)) => Provider::from_entries(&entries),
        }
    }

    /// Selects the next upstream URL for `network`, in round-robin order.
    /// An unconfigured network yields nothing and leaves the pool unchanged.
    pub fn get_node_url(&mut self, network: Network) -> (r: Option<String>)
        requires
            old(self).wf(),
        ensures
            old(self).selected(*final(self), network),
            r is None <==> old(self).peek(network) is None,
            r matches Some(u) ==> old(self).peek(network) == Some(u@),
            old(self).urls(network).len() == 0 ==> *final(self) == *old(self),
    {
        let r = self.nodes.next(network.index());
        proof {
            assert forall|n: Network| n != network implies #[trigger] final(self).cursor(n) == old(self).cursor(n) by {
                assert(network_index(n) != network_index(network));
            }
            assert forall|n: Network| #[trigger] final(self).urls(n) == old(self).urls(n) by {
                assert(network_index(n) < NETWORK_COUNT);
            }
        }
        r
    }
}

/// Round-robin law over a run of selections: when each pool of `pools` is
/// the one before it after a selection for `n`, whose list is not empty,
/// selection number `i` returns URL number `(c + i) mod len`, `c` being the
/// first pool's cursor; any `len` consecutive selections return every URL
/// once. From a fresh pool (`c` is zero), the first `len` selections return
/// the URLs in configuration order and the next one returns the first URL.
pub proof fn lemma_rotation_order(pools: Seq<Provider>, n: Network)
    requires
        pools.len() > 0,
        pools[0].wf(),
        pools[0].urls(n).len() > 0,
        forall|i: int| 0 <= i < pools.len() - 1 ==> (#[trigger] pools[i]).selected(pools[i + 1], n),
    ensures
        forall|i: int|
            0 <= i < pools.len() ==> (#[trigger] pools[i]).peek(n) == Some(
                pools[0].urls(n)[(pools[0].cursor(n) + i) % (pools[0].urls(n).len() as int)],
            ),
        pools[0].cursor(n) == 0 ==> forall|i: int|
            0 <= i < pools.len() && i < pools[0].urls(n).len() ==> (#[trigger] pools[i]).peek(n) == Some(
                pools[0].urls(n)[i],
            ),
        pools[0].cursor(n) == 0 && pools.len() > pools[0].urls(n).len() ==> pools[pools[0].urls(n).len() as int].peek(n)
            == Some(pools[0].urls(n)[0]),
{
    let len = pools[0].urls(n).len();
    let c = pools[0].cursor(n);
    lemma_cursor_in_range(pools[0], n);
    assert forall|i: int| 0 <= i < pools.len() implies (#[trigger] pools[i]).peek(n) == Some(
        pools[0].urls(n)[(c + i) % (len as int)],
    ) by {
        lemma_round_robin(c, len, i as nat);
        lemma_urls_kept(pools, n, i);
    }
    if c == 0 {
        assert forall|i: int| 0 <= i < pools.len() && i < len implies (#[trigger] pools[i]).peek(n) == Some(
            pools[0].urls(n)[i],
        ) by {
            lemma_round_robin(c, len, i as nat);
            lemma_urls_kept(pools, n, i);
        }
        if pools.len() > len {
            lemma_round_robin(c, len, len);
            lemma_urls_kept(pools, n, len as int);
        }
    }
}

proof fn lemma_cursor_in_range(p: Provider, n: Network)
    requires
        p.wf(),
        p.urls(n).len() > 0,
    ensures
        p.cursor(n) < p.urls(n).len(),
{
    assert(network_index(n) < NETWORK_COUNT);
    p.nodes.lemma_cursor_in_range(network_index(n) as int);
}

proof fn lemma_urls_kept(pools: Seq<Provider>, n: Network, i: int)
    requires
        0 <= i < pools.len(),
        pools[0].urls(n).len() > 0,
        pools[0].cursor(n) < pools[0].urls(n).len(),
        forall|j: int| 0 <= j < pools.len() - 1 ==> (#[trigger] pools[j]).selected(pools[j + 1], n),
    ensures
        pools[i].urls(n) == pools[0].urls(n),
        pools[i].cursor(n) == advance(pools[0].cursor(n), pools[0].urls(n).len(), i as nat),
    decreases i,
{
    if i > 0 {
        lemma_urls_kept(pools, n, i - 1);
        assert(pools[i - 1].selected(pools[i], n));
        let len = pools[0].urls(n).len();
        let c0 = pools[0].cursor(n);
        lemma_round_robin(c0, len, (i - 1) as nat);
        assert(pools[i - 1].peek(n) is Some);
        let c = advance(c0, len, (i - 1) as nat);
        assert(advance(c, len, 0) == c);
        assert(advance(c, len, 1) == ((c + 1) as int % (len as int)) as nat);
        assert(advance(c0, len, i as nat) == ((c + 1) as int % (len as int)) as nat);
    }
}

/// An unconfigured network stays so: a selection for it yields nothing and
/// leaves its list and cursor as they were, so however many selections are
/// made, none yields a URL.
pub proof fn lemma_unconfigured_stays_empty(p: Provider, q: Provider, n: Network)
    requires
        p.urls(n).len() == 0,
        p.selected(q, n),
    ensures
        p.peek(n) is None,
        q.urls(n).len() == 0,
        q.cursor(n) == p.cursor(n),
        q.peek(n) is None,
{
}

} // verus!
