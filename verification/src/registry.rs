//! The registry: the in-memory mapping from module keys to live workers,
//! and the pooling cap on concurrent sandbox instances.
//!
//! A worker is identified here by an opaque handle; the task that owns the
//! worker's inbox sender holds the handle beside it. The registry's view is
//! the mathematical map from key to worker handle.

use vstd::prelude::*;

verus! {

/// Byte-string equality, element by element.
pub fn bytes_eq(a: &Vec<u8>, b: &Vec<u8>) -> (r: bool)
    ensures
        r == (a@ == b@),
{
    if a.len() != b.len() {
        return false;
    }
    let mut i: usize = 0;
    while i < a.len()
        invariant
            a@.len() == b@.len(),
            i <= a@.len(),
            forall|j: int| 0 <= j < i ==> a@[j] == b@[j],
        decreases a@.len() - i,
    {
        if a[i] != b[i] {
            return false;
        }
        i = i + 1;
    }
    proof {
        assert(a@ =~= b@);
    }
    true
}

/// One registry entry: a key and the worker registered under it.
pub struct RegistryEntry {
    pub key: Vec<u8>,
    pub worker: u64,
}

/// The mapping from module keys to live workers. At most one worker is
/// registered per key at any instant.
pub struct Registry {
    entries: Vec<RegistryEntry>,
}

impl View for Registry {
    type V = Map<Seq<u8>, u64>;

    closed spec fn view(&self) -> Map<Seq<u8>, u64> {
        Map::new(
            |k: Seq<u8>|
                exists|i: int|
                    0 <= i < self.entries@.len() && self.entries@[i].key@ == k,
            |k: Seq<u8>|
                {
                    let i = choose|i: int|
                        0 <= i < self.entries@.len() && self.entries@[i].key@ == k;
                    self.entries@[i].worker
                },
        )
    }
}

impl Registry {
    /// Keys are pairwise distinct: one worker per key.
    pub closed spec fn wf(&self) -> bool {
        forall|i: int, j: int|
            0 <= i < j < self.entries@.len() ==> self.entries@[i].key@ != self.entries@[j].key@
    }

    /// An empty registry, as a process starts with before recovery.
    pub fn new() -> (r: Registry)
        ensures
            r.wf(),
            r@ == Map::<Seq<u8>, u64>::empty(),
    {
        let r = Registry { entries: Vec::new() };
        proof {
            assert(r@ =~= Map::<Seq<u8>, u64>::empty());
        }
        r
    }

    proof fn lemma_view_at(&self, i: int)
        requires
            self.wf(),
            0 <= i < self.entries@.len(),
        ensures
            self@.contains_key(self.entries@[i].key@),
            self@[self.entries@[i].key@] == self.entries@[i].worker,
    {
        let k = self.entries@[i].key@;
        assert(self@.contains_key(k));
        let c = choose|c: int| 0 <= c < self.entries@.len() && self.entries@[c].key@ == k;
        if c < i {
            assert(self.entries@[c].key@ != self.entries@[i].key@);
        } else if i < c {
            assert(self.entries@[i].key@ != self.entries@[c].key@);
        }
    }

    proof fn lemma_view_missing(&self, k: Seq<u8>)
        requires
            forall|j: int| 0 <= j < self.entries@.len() ==> self.entries@[j].key@ != k,
        ensures
            !self@.contains_key(k),
    {
    }

    /// Index of the entry holding the key, if one does.
    fn find_key(&self, key: &Vec<u8>) -> (r: Option<usize>)
        ensures
            match r {
                Some(i) => i < self.entries@.len() && self.entries@[i as int].key@ == key@,
                None => forall|j: int|
                    0 <= j < self.entries@.len() ==> self.entries@[j].key@ != key@,
            },
    {
        let mut i: usize = 0;
        while i < self.entries.len()
            invariant
                i <= self.entries@.len(),
                forall|j: int| 0 <= j < i ==> self.entries@[j].key@ != key@,
            decreases self.entries@.len() - i,
        {
            if bytes_eq(&self.entries[i].key, key) {
                return Some(i);
            }
            i = i + 1;
        }
        None
    }

    /// Look a key up under the reader lock, as the invoke path does.
    pub fn lookup(&self, key: &Vec<u8>) -> (r: Option<u64>)
        requires
            self.wf(),
        ensures
            self@.contains_key(key@) ==> r == Some(self@[key@]),
            !self@.contains_key(key@) ==> r is None,
    {
        match self.find_key(key) {
            Some(i) => {
                proof {
                    self.lemma_view_at(i as int);
                }
                Some(self.entries[i].worker)
            },
            None => {
                proof {
                    self.lemma_view_missing(key@);
                }
                None
            },
        }
    }

    /// Register a worker under a key, replacing any previous worker. The
    /// prior worker, if any, is returned so its inbox sender can be dropped,
    /// which terminates it; after the call the key resolves to the new
    /// worker alone.
    pub fn register(&mut self, key: Vec<u8>, worker: u64) -> (prior: Option<u64>)
        requires
            old(self).wf(),
        ensures
            final(self).wf(),
            final(self)@ == old(self)@.insert(key@, worker),
            old(self)@.contains_key(key@) ==> prior == Some(old(self)@[key@]),
            !old(self)@.contains_key(key@) ==> prior is None,
    {
        let ghost pre = *self;
        match self.find_key(&key) {
            Some(i) => {
                let prior = self.entries[i].worker;
                proof {
                    pre.lemma_view_at(i as int);
                }
                self.entries.set(i, RegistryEntry { key, worker });
                proof {
                    let gi = i as int;
                    let k = pre.entries@[gi].key@;
                    assert(self.entries@ =~= pre.entries@.update(
                        gi,
                        self.entries@[gi],
                    ));
                    assert(self.entries@[gi].key@ == k);
                    assert forall|a: int, b: int|
                        0 <= a < b < self.entries@.len() implies self.entries@[a].key@
                        != self.entries@[b].key@ by {
                        assert(pre.entries@[a].key@ != pre.entries@[b].key@);
                        assert(self.entries@[a].key@ == pre.entries@[a].key@);
                        assert(self.entries@[b].key@ == pre.entries@[b].key@);
                    }
                    assert forall|q: Seq<u8>| #[trigger] self@.contains_key(q) implies pre@.insert(
                        k,
                        worker,
                    ).contains_key(q) by {}
                    assert forall|q: Seq<u8>| #[trigger] pre@.insert(k, worker).contains_key(
                        q,
                    ) implies self@.contains_key(q) by {
                        if q == k {
                            assert(self.entries@[gi].key@ == q);
                        } else {
                            let w = choose|w: int|
                                0 <= w < pre.entries@.len() && pre.entries@[w].key@ == q;
                            assert(self.entries@[w].key@ == q);
                        }
                    }
                    assert forall|q: Seq<u8>| #[trigger] self@.contains_key(q) implies self@[q]
                        == pre@.insert(k, worker)[q] by {
                        let w = choose|w: int|
                            0 <= w < self.entries@.len() && self.entries@[w].key@ == q;
                        self.lemma_view_at(w);
                        if q == k {
                            if w != gi {
                                if w < gi {
                                    assert(self.entries@[w].key@ != self.entries@[gi].key@);
                                } else {
                                    assert(self.entries@[gi].key@ != self.entries@[w].key@);
                                }
                            }
                            assert(self@[q] == worker);
                        } else {
                            assert(w != gi);
                            assert(pre.entries@[w].key@ == q);
                            pre.lemma_view_at(w);
                            assert(self@[q] == pre.entries@[w].worker);
                        }
                    }
                    assert(self@ =~= pre@.insert(k, worker));
                }
                Some(prior)
            },
            None => {
                proof {
                    pre.lemma_view_missing(key@);
                }
                let ghost k = key@;
                self.entries.push(RegistryEntry { key, worker });
                proof {
                    let n = pre.entries@.len() as int;
                    assert(self.entries@ =~= pre.entries@.push(self.entries@[n]));
                    assert(self.entries@[n].key@ == k);
                    assert forall|a: int, b: int|
                        0 <= a < b < self.entries@.len() implies self.entries@[a].key@
                        != self.entries@[b].key@ by {
                        if b < n {
                            assert(pre.entries@[a].key@ != pre.entries@[b].key@);
                        } else {
                            assert(pre.entries@[a].key@ != k);
                        }
                    }
                    assert forall|q: Seq<u8>| #[trigger] pre@.insert(k, worker).contains_key(
                        q,
                    ) implies self@.contains_key(q) by {
                        if q == k {
                            assert(self.entries@[n].key@ == q);
                        } else {
                            let w = choose|w: int|
                                0 <= w < pre.entries@.len() && pre.entries@[w].key@ == q;
                            assert(self.entries@[w].key@ == q);
                        }
                    }
                    assert forall|q: Seq<u8>| #[trigger] self@.contains_key(q) implies self@[q]
                        == pre@.insert(k, worker)[q] by {
                        let w = choose|w: int|
                            0 <= w < self.entries@.len() && self.entries@[w].key@ == q;
                        self.lemma_view_at(w);
                        if q == k {
                            if w != n {
                                assert(self.entries@[w].key@ != self.entries@[n].key@);
                            }
                            assert(self@[q] == worker);
                        } else {
                            assert(w != n);
                            assert(pre.entries@[w].key@ == q);
                            pre.lemma_view_at(w);
                            assert(self@[q] == pre.entries@[w].worker);
                        }
                    }
                    assert(self@ =~= pre@.insert(k, worker));
                }
                None
            },
        }
    }
}

/// A key registered by a successful deploy resolves until a later deploy
/// changes the registry: looking it up cannot miss, and it yields the worker
/// the deploy installed.
pub proof fn lemma_deployed_key_resolves(before: Map<Seq<u8>, u64>, key: Seq<u8>, worker: u64)
    ensures
        before.insert(key, worker).contains_key(key),
        before.insert(key, worker)[key] == worker,
{
}

/// Redeploying a key atomically replaces its worker: after the second deploy
/// the key resolves to the new worker alone, never to the old one.
pub proof fn lemma_redeploy_replaces(
    before: Map<Seq<u8>, u64>,
    key: Seq<u8>,
    first: u64,
    second: u64,
)
    ensures
        before.insert(key, first).insert(key, second)[key] == second,
        first != second ==> before.insert(key, first).insert(key, second)[key] != first,
{
}

/// Ceiling of the pooling allocator: concurrent sandbox instances per
/// process.
pub const MAX_INSTANCES: u64 = 100;

/// The pool of sandbox instance slots. Every live worker holds one slot;
/// the pool never hands out more than `MAX_INSTANCES` of them.
pub struct InstancePool {
    live: u64,
}

impl InstancePool {
    /// Number of slots currently held by live instances.
    pub closed spec fn live_count(&self) -> u64 {
        self.live
    }

    /// The pool never exceeds its ceiling.
    pub open spec fn wf(&self) -> bool {
        self.live_count() <= MAX_INSTANCES
    }

    /// Number of slots currently held, as the admission path reads it.
    pub fn live(&self) -> (r: u64)
        ensures
            r == self.live_count(),
    {
        self.live
    }

    /// A fresh pool with no live instance.
    pub fn new() -> (r: InstancePool)
        ensures
            r.wf(),
            r.live_count() == 0,
    {
        InstancePool { live: 0 }
    }

    /// Try to take a slot for a new instance. At the ceiling the attempt
    /// fails and disturbs nothing, which the admission path surfaces as a
    /// failed deploy.
    pub fn try_acquire(&mut self) -> (r: bool)
        requires
            old(self).wf(),
        ensures
            final(self).wf(),
            old(self).live_count() < MAX_INSTANCES ==> r && final(self).live_count() == old(
                self,
            ).live_count() + 1,
            old(self).live_count() == MAX_INSTANCES ==> !r && final(self).live_count() == old(
                self,
            ).live_count(),
    {
        if self.live < MAX_INSTANCES {
            self.live = self.live + 1;
            true
        } else {
            false
        }
    }

    /// Give a slot back when an instance is torn down.
    pub fn release(&mut self)
        requires
            old(self).wf(),
            old(self).live_count() > 0,
        ensures
            final(self).wf(),
            final(self).live_count() == old(self).live_count() - 1,
    {
        self.live = self.live - 1;
    }
}

/// The pooling cap: however the pool is driven, no more than
/// `MAX_INSTANCES` sandbox instances are ever live at once.
pub proof fn lemma_instance_cap(pool: InstancePool)
    requires
        pool.wf(),
    ensures
        pool.live_count() <= MAX_INSTANCES,
{
}

} // verus!
