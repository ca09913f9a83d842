//! Egress-proxy kinds and the egress-proxy pool.
use vstd::prelude::*;
use crate::json::{
    collect_urls, entries_view, list_view, listed_urls, parse_string_lists, EntriesView,
    ListEntry, json_string_lists,
};
use crate::text::{lower_of, lowercase, str_equal};
use crate::pool::{advance, strings_view, UrlTable};

verus! {

/// The strategy used to pick an egress proxy.
#[derive(Debug, Hash, Eq, PartialEq, Clone, Copy, Structural)]
pub enum ProxyType {
    Disabled,
    Socks5,
    Random,
}

/// Number of variants of `ProxyType`.
pub const PROXY_TYPE_COUNT: usize = 3;

/// Errors raised while building the egress-proxy pool.
#[derive(Debug)]
pub enum ProxyProviderError {
    ReadProxyListError(std::io::Error),
    ParseProxyListError(serde_json::Error),
    InvalidProxyType,
}

/// The proxy kind whose lowercase name is exactly `s`.
pub open spec fn proxy_type_named(s: Seq<char>) -> Option<ProxyType> {
    if s == seq!['d', 'i', 's', 'a', 'b', 'l', 'e', 'd'] {
        Some(ProxyType::Disabled)
    } else if s == seq!['s', 'o', 'c', 'k', 's', '5'] {
        Some(ProxyType::Socks5)
    } else if s == seq!['r', 'a', 'n', 'd', 'o', 'm'] {
        Some(ProxyType::Random)
    } else {
        None
    }
}

pub open spec fn proxy_type_index(t: ProxyType) -> nat {
    match t {
        ProxyType::Disabled => 0,
        ProxyType::Socks5 => 1,
        ProxyType::Random => 2,
    }
}

impl ProxyType {
    /// The proxy kind named by `s`, ignoring case.
    pub fn from_str(s: &str) -> (r: Result<ProxyType, ProxyProviderError>)
        ensures
            r matches Ok(t) ==> proxy_type_named(lower_of(s@)) == Some(t),
            r is Err <==> proxy_type_named(lower_of(s@)) is None,
            r matches Err(e) ==> e is InvalidProxyType,
    {
        let lower = lowercase(s);
        ProxyType::from_lowercase(lower.as_str())
    }

    /// The proxy kind whose name is exactly `s`, which is already lowercase.
    pub fn from_lowercase(s: &str) -> (r: Result<ProxyType, ProxyProviderError>)
        ensures
            r matches Ok(t) ==> proxy_type_named(s@) == Some(t),
            r is Err <==> proxy_type_named(s@) is None,
            r matches Err(e) ==> e is InvalidProxyType,
    {
        proof {
            reveal_strlit("disabled");
            reveal_strlit("socks5");
            reveal_strlit("random");
            assert("disabled"@ =~= seq!['d', 'i', 's', 'a', 'b', 'l', 'e', 'd']);
            assert("socks5"@ =~= seq!['s', 'o', 'c', 'k', 's', '5']);
            assert("random"@ =~= seq!['r', 'a', 'n', 'd', 'o', 'm']);
        }
        if str_equal(s, "disabled") {
            Ok(ProxyType::Disabled)
        } else if str_equal(s, "socks5") {
            Ok(ProxyType::Socks5)
        } else if str_equal(s, "random") {
            Ok(ProxyType::Random)
        } else {
            Err(ProxyProviderError::InvalidProxyType)
        }
    }

    /// The position of this kind in the proxy table.
    pub fn index(&self) -> (r: usize)
        ensures
            r == proxy_type_index(*self),
            r < PROXY_TYPE_COUNT,
    {
        match self {
            ProxyType::Disabled => 0,
            ProxyType::Socks5 => 1,
            ProxyType::Random => 2,
        }
    }
}

/// Whether some member's key, lowercased, names no proxy kind.
pub open spec fn has_unknown_proxy_type(entries: EntriesView) -> bool {
    exists|i: int| 0 <= i < entries.len() && (#[trigger] proxy_type_named(lower_of(entries[i].0))) is None
}

/// The proxy URLs configured for `t`: those of the last member naming `t`
/// whose list holds at least one URL; none if there is no such member.
pub open spec fn configured_proxies(entries: EntriesView, t: ProxyType) -> Seq<Seq<char>>
    decreases entries.len(),
{
    if entries.len() == 0 {
        seq![]
    } else {
        let e = entries.last();
        if proxy_type_named(lower_of(e.0)) == Some(t) && listed_urls(e.1).len() > 0 {
            listed_urls(e.1)
        } else {
            configured_proxies(entries.drop_last(), t)
        }
    }
}

/// Round-robin selection of egress-proxy URLs, per proxy kind.
pub struct ProxyProvider {
    proxies: UrlTable,
    pub is_enabled: bool,
}

impl ProxyProvider {
    /// The proxy URLs configured for `t`, in configuration order.
    pub closed spec fn urls(&self, t: ProxyType) -> Seq<Seq<char>> {
        self.proxies.urls(proxy_type_index(t) as int)
    }

    /// The position of the URL that the next selection for `t` returns.
    pub closed spec fn cursor(&self, t: ProxyType) -> nat {
        self.proxies.cursor(proxy_type_index(t) as int)
    }

    pub closed spec fn wf(&self) -> bool {
        self.proxies.wf() && self.proxies.slot_count() == PROXY_TYPE_COUNT
    }

    /// Whether the proxy feature is switched on.
    pub closed spec fn enabled(&self) -> bool {
        self.is_enabled
    }

    /// What the next selection for `t` returns.
    pub open spec fn peek(&self, t: ProxyType) -> Option<Seq<char>> {
        if t == ProxyType::Disabled || self.urls(t).len() == 0 {
            None
        } else {
            Some(self.urls(t)[self.cursor(t) as int])
        }
    }

    /// `next` is this pool after one selection for `t`.
    pub open spec fn selected(&self, next: ProxyProvider, t: ProxyType) -> bool {
        &&& next.wf()
        &&& next.enabled() == self.enabled()
        &&& forall|u: ProxyType| #[trigger] next.urls(u) == self.urls(u)
        &&& forall|u: ProxyType| u != t ==> #[trigger] next.cursor(u) == self.cursor(u)
        &&& next.cursor(t) == if self.peek(t) is None {
            self.cursor(t)
        } else {
            advance(self.cursor(t), self.urls(t).len(), 1)
        }
    }

    /// A pool with no proxy configured; `is_enabled` records whether the
    /// proxy feature was switched on.
    pub fn empty(is_enabled: bool) -> (r: ProxyProvider)
        ensures
            r.wf(),
            r.enabled() == is_enabled,
            forall|t: ProxyType| (#[trigger] r.urls(t)) == Seq::<Seq<char>>::empty(),
            forall|t: ProxyType| (#[trigger] r.cursor(t)) == 0,
    {
        let r = ProxyProvider { proxies: UrlTable::new(PROXY_TYPE_COUNT), is_enabled };
        assert forall|t: ProxyType| (#[trigger] r.urls(t)) == Seq::<Seq<char>>::empty() && r.cursor(t) == 0 by {
            let k = proxy_type_index(t) as int;
            assert(0 <= k < PROXY_TYPE_COUNT);
            assert(r.proxies.urls(k) =~= Seq::<Seq<char>>::empty());
            assert(r.proxies.cursor(k) == 0);
        }
        r
    }

    /// Builds an enabled pool from the members of a configuration object.
    /// Every key must name a proxy kind, ignoring case; a kind is configured
    /// by the last member naming it with at least one URL.
    pub fn from_entries(entries: &Vec<ListEntry>) -> (r: Result<ProxyProvider, ProxyProviderError>)
        ensures
            r is Err <==> has_unknown_proxy_type(entries_view(entries@)),
            r matches Err(e) ==> e is InvalidProxyType,
            r matches Ok(p) ==> p.wf() && p.enabled() && forall|t: ProxyType|
                (#[trigger] p.urls(t)) == configured_proxies(entries_view(entries@), t) && p.cursor(t) == 0,
    {
        let mut p = ProxyProvider::empty(true);
        let ghost all = entries_view(entries@);
        let mut i: usize = 0;
        proof {
            assert(all.take(0).len() == 0);
        }
        while i < entries.len()
            invariant
                i <= entries@.len(),
                all == entries_view(entries@),
                p.wf(),
                p.enabled(),
                forall|t: ProxyType|
                    (#[trigger] p.urls(t)) == configured_proxies(all.take(i as int), t) && p.cursor(t) == 0,
                forall|j: int| 0 <= j < i ==> (#[trigger] proxy_type_named(lower_of(all[j].0))) is Some,
            decreases entries@.len() - i,
        {
            let ghost before = all.take(i as int);
            let ghost after = all.take(i + 1);
            proof {
                assert(after.drop_last() =~= before);
                assert(after.last() == all[i as int]);
            }
            let entry = &entries[i];
            let ghost p0 = p;
            assert forall|t: ProxyType| #![trigger p0.urls(t)]
                p0.urls(t) == configured_proxies(before, t) && p0.cursor(t) == 0 by {
                assert(p.urls(t) == configured_proxies(all.take(i as int), t));
            }
            proof {
                assert(all[i as int] == (entry.0@, list_view(entry.1)));
            }
            match ProxyType::from_str(entry.0.as_str()) {
                Err(e) => {
                    return Err(e);
                },
                Ok(kind) => {
                    let urls = collect_urls(&entry.1);
                    proof {
                        assert(urls@.len() == strings_view(urls@).len());
                    }
                    if urls.len() > 0 {
                        p.proxies.set(kind.index(), urls);
                    }
                    proof {
                        assert(proxy_type_named(lower_of(after.last().0)) == Some(kind));
                        assert(strings_view(urls@) == listed_urls(after.last().1));
                        assert forall|t: ProxyType|
                            (#[trigger] p.urls(t)) == configured_proxies(after, t) && p.cursor(t) == 0 by {
                            assert(p0.urls(t) == configured_proxies(before, t));
                            assert(p0.cursor(t) == 0);
                            if t != kind {
                                let k = proxy_type_index(t) as int;
                                assert(proxy_type_index(t) != proxy_type_index(kind));
                                assert(0 <= k < PROXY_TYPE_COUNT);
                                assert(p.proxies.urls(k) == p0.proxies.urls(k));
                                assert(p.proxies.cursor(k) == p0.proxies.cursor(k));
                                assert(configured_proxies(after, t) == configured_proxies(before, t));
                            } else if urls@.len() > 0 {
                                assert(configured_proxies(after, t) == listed_urls(after.last().1));
                            } else {
                                assert(configured_proxies(after, t) == configured_proxies(before, t));
                            }
                        }
                    }
                },
            }
            i += 1;
        }
        proof {
            assert(all.take(entries@.len() as int) =~= all);
            assert(!has_unknown_proxy_type(all));
            assert forall|t: ProxyType|
                (#[trigger] p.urls(t)) == configured_proxies(entries_view(entries@), t) && p.cursor(t) == 0 by {
                assert(p.urls(t) == configured_proxies(all.take(entries@.len() as int), t));
                assert(p.cursor(t) == 0);
            }
        }
        Ok(p)
    }

    /// Builds an enabled pool from the text of a configuration document: a
    /// JSON object mapping proxy kinds to arrays of proxy URLs. A document
    /// that is no JSON is a parse error; one whose top-level value is no
    /// object configures nothing.
    pub fn from_json(text: &str) -> (r: Result<ProxyProvider, ProxyProviderError>)
        ensures
            json_string_lists(text@) is None <==> r matches Err(ProxyProviderError::ParseProxyListError(_)),
            json_string_lists(text@) == Some(None::<EntriesView>) ==> (r matches Ok(p) && p.wf() && p.enabled()
                && forall|t: ProxyType| (#[trigger] p.urls(t)) == Seq::<Seq<char>>::empty() && p.cursor(t) == 0),
            json_string_lists(text@) matches Some(Some(es)) ==> {
                &&& r is Err <==> has_unknown_proxy_type(es)
                &&& r matches Err(e) ==> e is InvalidProxyType
                &&& r matches Ok(p) ==> p.wf() && p.enabled() && forall|t: ProxyType|
                    (#[trigger] p.urls(t)) == configured_proxies(es, t) && p.cursor(t) == 0
            },
    {
        match parse_string_lists(text) {
            Err(e) => Err(ProxyProviderError::ParseProxyListError(e)),
            Ok(None) => Ok(ProxyProvider::empty(true)),
            Ok(Some(entries)) => ProxyProvider::from_entries(&entries),
        }
    }

    /// Selects the next proxy URL of kind `proxy_type`, in round-robin order.
    /// `Disabled`, and a kind with no URL, yield nothing and leave the pool
    /// unchanged.
    pub fn get_proxy_url(&mut self, proxy_type: ProxyType) -> (r: Option<String>)
        requires
            old(self).wf(),
        ensures
            old(self).selected(*final(self), proxy_type),
            r is None <==> old(self).peek(proxy_type) is None,
            r matches Some(u) ==> old(self).peek(proxy_type) == Some(u@),
            proxy_type == ProxyType::Disabled ==> r is None && *final(self) == *old(self),
    {
        match proxy_type {
            ProxyType::Disabled => None,
            _ => {
                let r = self.proxies.next(proxy_type.index());
                proof {
                    assert forall|u: ProxyType| u != proxy_type implies
                        #[trigger] final(self).cursor(u) == old(self).cursor(u) by {
                        assert(proxy_type_index(u) != proxy_type_index(proxy_type));
                    }
                    assert forall|u: ProxyType| #[trigger] final(self).urls(u) == old(self).urls(u) by {
                        assert(proxy_type_index(u) < PROXY_TYPE_COUNT);
                    }
                }
                r
            },
        }
    }
}

/// A selection of kind `Disabled` never yields a proxy, whatever the pool
/// holds.
pub proof fn lemma_disabled_never_selects(p: ProxyProvider)
    ensures
        p.peek(ProxyType::Disabled) is None,
{
}

} // verus!
