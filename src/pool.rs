//! A fixed set of slots, each holding an ordered list of URLs and a rotation
//! cursor; the common shape of the node pool and the egress-proxy pool.
use vstd::prelude::*;

verus! {

/// The characters of each string of a list.
pub open spec fn strings_view(v: Seq<String>) -> Seq<Seq<char>> {
    v.map_values(|s: String| s@)
}

/// Position of the cursor of a list of `len` URLs after `m` selections that
/// started at position `c`.
pub open spec fn advance(c: nat, len: nat, m: nat) -> nat
    decreases m,
{
    if m == 0 {
        c
    } else {
        (((advance(c, len, (m - 1) as nat) + 1) as int) % (len as int)) as nat
    }
}

/// Round-robin law: from position `c`, the `m`-th selection lands on
/// position `(c + m) mod len`. From the first URL, `len` consecutive
/// selections thus visit every URL once, in configuration order, and the
/// next one wraps to the first URL again.
pub proof fn lemma_round_robin(c: nat, len: nat, m: nat)
    requires
        c < len,
    ensures
        advance(c, len, m) == ((c + m) as int) % (len as int),
        advance(c, len, m) < len,
        c == 0 && m < len ==> advance(c, len, m) == m,
        c == 0 ==> advance(c, len, len) == 0,
    decreases m,
{
    let l = len as int;
    if m == 0 {
        assert((c as int) % l == c) by (nonlinear_arith)
            requires
                0 <= c < l,
        ;
    } else {
        lemma_round_robin(c, len, (m - 1) as nat);
        let p = (c + m - 1) as int;
        assert(((p % l) + 1) % l == (p + 1) % l) by (nonlinear_arith)
            requires
                l > 0,
                p >= 0,
        ;
    }
    assert(((c + m) as int) % l < l) by (nonlinear_arith)
        requires
            l > 0,
    ;
    if c == 0 {
        if m < len {
            assert((m as int) % l == m) by (nonlinear_arith)
                requires
                    m < l,
            ;
        }
        lemma_round_robin_from_first(len, len);
        assert(l % l == 0) by (nonlinear_arith)
            requires
                l > 0,
        ;
    }
}

proof fn lemma_round_robin_from_first(len: nat, m: nat)
    requires
        len > 0,
    ensures
        advance(0, len, m) == (m as int) % (len as int),
    decreases m,
{
    let l = len as int;
    if m == 0 {
        assert(0int % l == 0) by (nonlinear_arith)
            requires
                l > 0,
        ;
    } else {
        lemma_round_robin_from_first(len, (m - 1) as nat);
        let p = (m - 1) as int;
        assert(((p % l) + 1) % l == (p + 1) % l) by (nonlinear_arith)
            requires
                l > 0,
                p >= 0,
        ;
    }
}

/// A table of URL lists with one rotation cursor per slot.
pub struct UrlTable {
    slots: Vec<Vec<String>>,
    cursors: Vec<usize>,
}

impl UrlTable {
    /// Number of slots.
    pub closed spec fn slot_count(&self) -> nat {
        self.slots@.len()
    }

    /// The URLs configured in slot `k`, in configuration order.
    pub closed spec fn urls(&self, k: int) -> Seq<Seq<char>> {
        strings_view(self.slots@[k]@)
    }

    /// The position that the next selection in slot `k` returns.
    pub closed spec fn cursor(&self, k: int) -> nat {
        self.cursors@[k] as nat
    }

    /// Every cursor points into its list, or is zero for an empty list.
    pub closed spec fn wf(&self) -> bool {
        &&& self.cursors@.len() == self.slots@.len()
        &&& forall|k: int|
            0 <= k < self.slots@.len() ==> {
                ||| self.cursors@[k] < self.slots@[k]@.len()
                ||| (self.cursors@[k] == 0 && self.slots@[k]@.len() == 0)
            }
    }

    /// The cursor of a non-empty slot points into its list.
    pub proof fn lemma_cursor_in_range(&self, k: int)
        requires
            self.wf(),
            0 <= k < self.slot_count(),
            self.urls(k).len() > 0,
        ensures
            self.cursor(k) < self.urls(k).len(),
    {
    }

    /// A table of `n` empty slots.
    pub fn new(n: usize) -> (r: UrlTable)
        ensures
            r.wf(),
            r.slot_count() == n,
            forall|k: int| 0 <= k < n ==> (#[trigger] r.urls(k)).len() == 0,
            forall|k: int| 0 <= k < n ==> (#[trigger] r.cursor(k)) == 0,
    {
        let mut slots: Vec<Vec<String>> = Vec::new();
        let mut cursors: Vec<usize> = Vec::new();
        let mut i: usize = 0;
        while i < n
            invariant
                i <= n,
                slots@.len() == i,
                cursors@.len() == i,
                forall|k: int| 0 <= k < i ==> (#[trigger] slots@[k])@.len() == 0,
                forall|k: int| 0 <= k < i ==> (#[trigger] cursors@[k]) == 0,
            decreases n - i,
        {
            let empty: Vec<String> = Vec::new();
            slots.push(empty);
            cursors.push(0);
            i += 1;
        }
        let r = UrlTable { slots, cursors };
        assert forall|k: int| 0 <= k < n implies r.urls(k).len() == 0 && r.cursor(k) == 0 by {
            assert(r.slots@[k]@.len() == 0);
            assert(r.urls(k).len() == r.slots@[k]@.len());
        }
        r
    }

    /// Replaces the list of slot `k`, and puts its cursor on the first URL.
    pub fn set(&mut self, k: usize, urls: Vec<String>)
        requires
            old(self).wf(),
            k < old(self).slot_count(),
        ensures
            final(self).wf(),
            final(self).slot_count() == old(self).slot_count(),
            final(self).urls(k as int) == strings_view(urls@),
            final(self).cursor(k as int) == 0,
            forall|j: int|
                0 <= j < old(self).slot_count() && j != k ==> (#[trigger] final(self).urls(j)) == old(self).urls(j),
            forall|j: int|
                0 <= j < old(self).slot_count() && j != k ==> (#[trigger] final(self).cursor(j)) == old(self).cursor(j),
    {
        self.slots.set(k, urls);
        self.cursors.set(k, 0);
    }

    /// Selects the URL under the cursor of slot `k` and moves the cursor one
    /// step on, wrapping after the last URL. An empty slot yields nothing and
    /// stays as it was.
    pub fn next(&mut self, k: usize) -> (r: Option<String>)
        requires
            old(self).wf(),
            k < old(self).slot_count(),
        ensures
            final(self).wf(),
            final(self).slot_count() == old(self).slot_count(),
            forall|j: int| 0 <= j < old(self).slot_count() ==> (#[trigger] final(self).urls(j)) == old(self).urls(j),
            forall|j: int|
                0 <= j < old(self).slot_count() && j != k ==> (#[trigger] final(self).cursor(j)) == old(self).cursor(j),
            old(self).urls(k as int).len() == 0 ==> r is None && *final(self) == *old(self),
            old(self).urls(k as int).len() > 0 ==> {
                &&& r matches Some(u) && u@ == old(self).urls(k as int)[old(self).cursor(k as int) as int]
                &&& final(self).cursor(k as int) == advance(
                    old(self).cursor(k as int),
                    old(self).urls(k as int).len(),
                    1,
                )
            },
    {
        let len = self.slots[k].len();
        if len == 0 {
            return None;
        }
        let c = self.cursors[k];
        let u = self.slots[k][c].clone();
        let next_c = if c + 1 < len { c + 1 } else { 0 };
        self.cursors.set(k, next_c);
        proof {
            let l = len as int;
            let ci = c as int;
            assert(advance(c as nat, len as nat, 0) == c as nat);
            assert(next_c as int == (ci + 1) % l) by (nonlinear_arith)
                requires 0 <= ci < l, next_c as int == (if ci + 1 < l { ci + 1 } else { 0 });
        }
        Some(u)
    }
}

} // verus!
