//! The header set of an outbound request.
use vstd::prelude::*;
use vstd::string::StringExecFns;
use vstd::utf8::encode_utf8;
use crate::forward::opt_view;

verus! {

/// A header: its lowercase name and its value's bytes.
pub type Header = (String, Vec<u8>);

pub open spec fn headers_view(hs: Seq<Header>) -> Seq<(Seq<char>, Seq<u8>)> {
    hs.map_values(|h: Header| (h.0@, h.1@))
}

/// The name of the `Host` header, in the lowercase form header names take.
pub open spec fn host_name() -> Seq<char> {
    seq!['h', 'o', 's', 't']
}

/// The headers of `hs` other than `Host`, in order.
pub open spec fn without_host(hs: Seq<(Seq<char>, Seq<u8>)>) -> Seq<(Seq<char>, Seq<u8>)>
    decreases hs.len(),
{
    if hs.len() == 0 {
        seq![]
    } else {
        let rest = without_host(hs.drop_last());
        if hs.last().0 == host_name() {
            rest
        } else {
            rest.push(hs.last())
        }
    }
}

/// The host part of a URL, as `reqwest::Url` parses it; none if the text is
/// no URL or the URL has no host.
pub uninterp spec fn url_host(url: Seq<char>) -> Option<Seq<char>>;

/// Relies on reqwest::Url::parse and Url::host_str: the host found depends
/// on the text alone.
#[verifier::external_body]
fn host_of(url: &str) -> (r: Option<String>)
    ensures
        opt_view(r) == url_host(url@),
{
    reqwest::Url::parse(url).ok().and_then(|u| u.host_str().map(String::from))
}

/// The inbound headers with every `Host` header removed and one `Host`
/// header carrying `host` appended.
pub fn outbound_headers(headers: &Vec<Header>, host: &str) -> (r: Vec<Header>)
    ensures
        headers_view(r@) == without_host(headers_view(headers@)).push((host_name(), encode_utf8(host@))),
{
    let mut r: Vec<Header> = Vec::new();
    let mut i: usize = 0;
    proof {
        reveal_strlit("host");
        assert("host"@ =~= host_name());
        assert(headers_view(headers@).take(0) =~= seq![]);
        assert(headers_view(r@) =~= seq![]);
    }
    while i < headers.len()
        invariant
            i <= headers@.len(),
            "host"@ == host_name(),
            headers_view(r@) == without_host(headers_view(headers@).take(i as int)),
        decreases headers@.len() - i,
    {
        let ghost before = headers_view(headers@).take(i as int);
        let ghost after = headers_view(headers@).take(i + 1);
        proof {
            assert(after.drop_last() =~= before);
            assert(after.last() == (headers@[i as int].0@, headers@[i as int].1@));
        }
        let h = &headers[i];
        if !crate::text::str_equal(h.0.as_str(), "host") {
            let ghost r0 = r;
            r.push((h.0.clone(), h.1.clone()));
            proof {
                assert(headers_view(r@) =~= headers_view(r0@).push(after.last()));
            }
        }
        i += 1;
    }
    proof {
        assert(headers_view(headers@).take(headers@.len() as int) =~= headers_view(headers@));
    }
    let ghost r0 = r;
    let value = vstd::slice::slice_to_vec(host.as_bytes());
    r.push((String::from_str("host"), value));
    proof {
        assert(headers_view(r@) =~= headers_view(r0@).push((host_name(), encode_utf8(host@))));
    }
    r
}

/// The outbound headers for a request to `upstream_url`: the inbound ones
/// with `Host` rewritten to the URL's host. None if the URL has no host.
pub fn outbound_headers_for(headers: &Vec<Header>, upstream_url: &str) -> (r: Option<Vec<Header>>)
    ensures
        r is None <==> url_host(upstream_url@) is None,
        url_host(upstream_url@) matches Some(h) ==> (r matches Some(v) && headers_view(v@)
            == without_host(headers_view(headers@)).push((host_name(), encode_utf8(h)))),
{
    match host_of(upstream_url) {
        Some(host) => Some(outbound_headers(headers, host.as_str())),
        None => None,
    }
}

/// No header but the last, which carries the upstream's host, is a `Host`
/// header: whatever `Host` the inbound request had is gone.
pub proof fn lemma_single_host(hs: Seq<(Seq<char>, Seq<u8>)>, host: Seq<u8>)
    ensures
        forall|i: int|
            0 <= i < without_host(hs).len() ==> (#[trigger] without_host(hs)[i]).0 != host_name(),
        without_host(hs).push((host_name(), host)).last() == (host_name(), host),
    decreases hs.len(),
{
    if hs.len() > 0 {
        lemma_single_host(hs.drop_last(), host);
    }
}

} // verus!
