//! Resolution of an inbound request path to the network it addresses.
use vstd::prelude::*;
use crate::network::{network_named, Network};
use crate::text::str_equal;

verus! {

/// Where an inbound request goes.
#[derive(Debug, Clone, Copy, PartialEq, Eq, Structural)]
pub enum Route {
    /// The RPC route of a known network.
    Rpc(Network),
    /// An RPC route whose segment names no network: a bad request.
    InvalidNetwork,
    /// Any other path: not found.
    NotFound,
}

pub open spec fn rpc_prefix() -> Seq<char> {
    seq!['/', 'r', 'p', 'c', '/']
}

/// The route of `path`: `/rpc/<segment>` with a non-empty segment free of
/// `/` is an RPC route, valid when the segment names a network; anything
/// else is not found.
pub open spec fn route_of(path: Seq<char>) -> Route {
    let n = rpc_prefix().len();
    if path.len() > n && path.subrange(0, n as int) == rpc_prefix() && !path.subrange(
        n as int,
        path.len() as int,
    ).contains('/') {
        match network_named(path.subrange(n as int, path.len() as int)) {
            Some(net) => Route::Rpc(net),
            None => Route::InvalidNetwork,
        }
    } else {
        Route::NotFound
    }
}

/// Resolves the path of an inbound request.
pub fn route(path: &str) -> (r: Route)
    ensures
        r == route_of(path@),
{
    let len = path.unicode_len();
    if len <= 5 {
        return Route::NotFound;
    }
    let head = path.substring_char(0, 5);
    proof {
        reveal_strlit("/rpc/");
        assert("/rpc/"@ =~= rpc_prefix());
    }
    if !str_equal(head, "/rpc/") {
        return Route::NotFound;
    }
    let segment = path.substring_char(5, len);
    let seg_len = segment.unicode_len();
    let mut i: usize = 0;
    while i < seg_len
        invariant
            i <= seg_len,
            seg_len == segment@.len(),
            path@.len() > 5,
            segment@ == path@.subrange(5, path@.len() as int),
            path@.subrange(0, 5) == rpc_prefix(),
            forall|j: int| 0 <= j < i ==> segment@[j] != '/',
        decreases seg_len - i,
    {
        if segment.get_char(i) == '/' {
            proof {
                assert(segment@[i as int] == '/');
                assert(segment@.contains('/'));
                assert(segment@ == path@.subrange(5, path@.len() as int));
            }
            return Route::NotFound;
        }
        i += 1;
    }
    match Network::from_str(segment) {
        Ok(n) => Route::Rpc(n),
        Err(_) => Route::InvalidNetwork,
    }
}

} // verus!
