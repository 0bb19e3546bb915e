//! The page-level result cache: keyed by page number, capacity bounded,
//! least-recently-used eviction.
//!
//! The recency order is the entry order: the front is the least recently
//! used entry, the back the most recently used. A hit moves its entry to the
//! back; an insert at capacity evicts the front. Values are immutable once
//! inserted, and only successfully computed pages can be inserted at all —
//! a failed computation is never remembered, so the next request for that
//! page computes again. The callers' locking discipline decides how many
//! computations can run at once; this structure decides what is cached.

use vstd::prelude::*;

verus! {

/// A capacity-bounded page cache with least-recently-used eviction.
#[derive(Debug)]
pub struct PageCache {
    pub entries: Vec<(u64, String)>,
    pub cap: usize,
}

impl PageCache {
    /// Well-formed: room for at least one page, within capacity, each page
    /// number held at most once.
    pub open spec fn wf(self) -> bool {
        &&& self.cap >= 1
        &&& self.entries@.len() <= self.cap
        &&& forall|i: int, j: int|
            0 <= i < j < self.entries@.len() ==> (#[trigger] self.entries@[i]).0 != (
            #[trigger] self.entries@[j]).0
    }

    /// Whether a page is cached.
    pub open spec fn has_key(self, k: u64) -> bool {
        exists|i: int| 0 <= i < self.entries@.len() && (#[trigger] self.entries@[i]).0 == k
    }

    /// The position of a cached page.
    pub open spec fn key_index(self, k: u64) -> int {
        choose|i: int| 0 <= i < self.entries@.len() && (#[trigger] self.entries@[i]).0 == k
    }

    /// An empty cache for up to `capacity` pages.
    pub fn new(capacity: usize) -> (r: PageCache)
        requires
            capacity >= 1,
        ensures
            r.wf(),
            r.entries@.len() == 0,
            r.cap == capacity,
    {
        PageCache { entries: Vec::new(), cap: capacity }
    }

    /// Looks a page up. A hit returns the cached value unchanged and moves
    /// the entry to most-recently-used; a miss changes nothing.
    pub fn get(&mut self, page: u64) -> (r: Option<String>)
        requires
            old(self).wf(),
        ensures
            final(self).wf(),
            final(self).cap == old(self).cap,
            old(self).has_key(page) ==> {
                let i = old(self).key_index(page);
                &&& r matches Some(x) && x == old(self).entries@[i].1
                &&& final(self).entries@ == old(self).entries@.remove(i).push(
                    old(self).entries@[i],
                )
            },
            !old(self).has_key(page) ==> r is None && *final(self) == *old(self),
    {
        let n = self.entries.len();
        let mut i: usize = 0;
        while i < n
            invariant
                old(self).wf(),
                0 <= i <= n,
                n == self.entries@.len(),
                *self == *old(self),
                forall|j: int| 0 <= j < i ==> (#[trigger] self.entries@[j]).0 != page,
            decreases n - i,
        {
            if self.entries[i].0 == page {
                proof {
                    assert(old(self).has_key(page));
                    let k = old(self).key_index(page);
                    assert(0 <= k < old(self).entries@.len() && old(self).entries@[k].0 == page);
                    assert(k == i);
                }
                let pair = self.entries.remove(i);
                let val = pair.1.clone();
                self.entries.push(pair);
                proof {
                    let oldseq = old(self).entries@;
                    let newseq = self.entries@;
                    assert(newseq == oldseq.remove(i as int).push(oldseq[i as int]));
                    assert forall|a: int, b: int|
                        0 <= a < b < newseq.len() implies (#[trigger] newseq[a]).0 != (
                    #[trigger] newseq[b]).0 by {
                        if b == newseq.len() - 1 {
                            if a < i {
                                assert(newseq[a] == oldseq[a]);
                            } else {
                                assert(newseq[a] == oldseq[a + 1]);
                            }
                            assert(newseq[b] == oldseq[i as int]);
                        } else {
                            if a < i {
                                assert(newseq[a] == oldseq[a]);
                            } else {
                                assert(newseq[a] == oldseq[a + 1]);
                            }
                            if b < i {
                                assert(newseq[b] == oldseq[b]);
                            } else {
                                assert(newseq[b] == oldseq[b + 1]);
                            }
                        }
                    }
                }
                return Some(val);
            }
            i += 1;
        }
        proof {
            assert(!old(self).has_key(page));
        }
        None
    }

    /// Inserts a computed page. An already-cached page is replaced and moved
    /// to most-recently-used; a new page evicts the least recently used
    /// entry when the cache is full.
    pub fn insert(&mut self, page: u64, xml: String)
        requires
            old(self).wf(),
        ensures
            final(self).wf(),
            final(self).cap == old(self).cap,
            old(self).has_key(page) ==> final(self).entries@ == old(self).entries@.remove(
                old(self).key_index(page),
            ).push((page, xml)),
            (!old(self).has_key(page) && old(self).entries@.len() < old(self).cap) ==> final(self).entries@
                == old(self).entries@.push((page, xml)),
            (!old(self).has_key(page) && old(self).entries@.len() >= old(self).cap) ==> final(self).entries@
                == old(self).entries@.subrange(1, old(self).entries@.len() as int).push(
                (page, xml),
            ),
    {
        let n = self.entries.len();
        let mut i: usize = 0;
        while i < n
            invariant
                old(self).wf(),
                0 <= i <= n,
                n == self.entries@.len(),
                *self == *old(self),
                forall|j: int| 0 <= j < i ==> (#[trigger] self.entries@[j]).0 != page,
            decreases n - i,
        {
            if self.entries[i].0 == page {
                proof {
                    assert(old(self).has_key(page));
                    let k = old(self).key_index(page);
                    assert(0 <= k < old(self).entries@.len() && old(self).entries@[k].0 == page);
                    assert(k == i);
                }
                self.entries.remove(i);
                self.entries.push((page, xml));
                proof {
                    let oldseq = old(self).entries@;
                    let newseq = self.entries@;
                    assert forall|a: int, b: int|
                        0 <= a < b < newseq.len() implies (#[trigger] newseq[a]).0 != (
                    #[trigger] newseq[b]).0 by {
                        if b == newseq.len() - 1 {
                            if a < i {
                                assert(newseq[a] == oldseq[a]);
                            } else {
                                assert(newseq[a] == oldseq[a + 1]);
                            }
                        } else {
                            if a < i {
                                assert(newseq[a] == oldseq[a]);
                            } else {
                                assert(newseq[a] == oldseq[a + 1]);
                            }
                            if b < i {
                                assert(newseq[b] == oldseq[b]);
                            } else {
                                assert(newseq[b] == oldseq[b + 1]);
                            }
                        }
                    }
                }
                return ;
            }
            i += 1;
        }
        proof {
            assert(!old(self).has_key(page));
        }
        if self.entries.len() >= self.cap {
            self.entries.remove(0);
            self.entries.push((page, xml));
            proof {
                let oldseq = old(self).entries@;
                let newseq = self.entries@;
                assert(newseq =~= oldseq.subrange(1, oldseq.len() as int).push((page, xml)));
                assert forall|a: int, b: int|
                    0 <= a < b < newseq.len() implies (#[trigger] newseq[a]).0 != (
                #[trigger] newseq[b]).0 by {
                    if b == newseq.len() - 1 {
                        assert(newseq[a] == oldseq[a + 1]);
                        assert(oldseq[a + 1].0 != page);
                    } else {
                        assert(newseq[a] == oldseq[a + 1]);
                        assert(newseq[b] == oldseq[b + 1]);
                    }
                }
            }
        } else {
            self.entries.push((page, xml));
            proof {
                let oldseq = old(self).entries@;
                let newseq = self.entries@;
                assert forall|a: int, b: int|
                    0 <= a < b < newseq.len() implies (#[trigger] newseq[a]).0 != (
                #[trigger] newseq[b]).0 by {
                    if b == newseq.len() - 1 {
                        assert(newseq[a] == oldseq[a]);
                        assert(oldseq[a].0 != page);
                    }
                }
            }
        }
    }
}

} // verus!
