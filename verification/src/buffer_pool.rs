//! A pool of byte buffers grouped by size class.
//!
//! A request of `size` bytes is served from the smallest configured class
//! that holds it, or, when none does, from the next power of two (at least
//! 128). Buffers are allocated only when the class has none free; a released
//! buffer is zeroed and kept while its class holds fewer than its configured
//! capacity (256 for a class that is not configured).
use std::collections::HashMap;
use vstd::prelude::*;
use vstd::std_specs::iter::IteratorSpec;
use crate::pow2::{lemma_next_pow2_bounds, next_pow2, next_power_of_two};
use crate::wire::zeros;

verus! {

broadcast use vstd::std_specs::hash::group_hash_axioms;

/// Class `k` is configured and holds `size` bytes.
pub open spec fn fits(classes: Map<usize, usize>, size: usize, k: usize) -> bool {
    classes.contains_key(k) && k >= size
}

/// Class `k` is the smallest configured class that holds `size` bytes.
pub open spec fn is_best_class(classes: Map<usize, usize>, size: usize, k: usize) -> bool {
    fits(classes, size, k) && forall|j: usize| fits(classes, size, j) ==> k <= j
}

/// The class used when no configured class holds `size` bytes: the next
/// power of two, and at least 128.
pub open spec fn fallback_class(size: usize) -> nat {
    if next_pow2(size as nat) >= 128 {
        next_pow2(size as nat)
    } else {
        128
    }
}

/// The class that serves a request of `size` bytes.
pub open spec fn size_class_for(classes: Map<usize, usize>, size: usize) -> nat {
    if exists|k: usize| fits(classes, size, k) {
        (choose|k: usize| is_best_class(classes, size, k)) as nat
    } else {
        fallback_class(size)
    }
}

/// How many free buffers class `c` keeps: its configured capacity, or 256.
pub open spec fn class_capacity(classes: Map<usize, usize>, c: usize) -> nat {
    if classes.contains_key(c) {
        classes[c] as nat
    } else {
        256
    }
}

/// Size classes and how many buffers each keeps.
#[derive(Debug, Clone)]
pub struct BufferPoolConfig {
    /// Size class to capacity.
    pub size_classes: HashMap<usize, usize>,
}

impl BufferPoolConfig {
    /// A configuration with the given classes.
    pub fn from_map(map: HashMap<usize, usize>) -> (r: Self)
        ensures
            r.size_classes@ == map@,
    {
        BufferPoolConfig { size_classes: map }
    }
}

/// Counters of a pool.
#[derive(Debug, Clone, Copy, PartialEq, Eq, Structural)]
pub struct BufferPoolStats {
    /// Buffers allocated.
    pub total_allocations: u64,
    /// Calls of `acquire`.
    pub total_acquires: u64,
    /// Buffers kept on release.
    pub total_returns: u64,
    /// Buffers handed out and not yet released.
    pub currently_in_use: usize,
}

impl Default for BufferPoolStats {
    fn default() -> (r: Self)
        ensures
            r == (BufferPoolStats {
                total_allocations: 0,
                total_acquires: 0,
                total_returns: 0,
                currently_in_use: 0,
            }),
    {
        BufferPoolStats {
            total_allocations: 0,
            total_acquires: 0,
            total_returns: 0,
            currently_in_use: 0,
        }
    }
}

/// A buffer handed out by a pool; give it back with `BufferPool::release`.
#[derive(Debug)]
pub struct PooledBuffer {
    buffer: Vec<u8>,
    size_class: usize,
}

impl View for PooledBuffer {
    type V = Seq<u8>;

    closed spec fn view(&self) -> Seq<u8> {
        self.buffer@
    }
}

impl PooledBuffer {
    /// The class the buffer belongs to.
    pub closed spec fn class(&self) -> usize {
        self.size_class
    }

    /// The class the buffer belongs to.
    pub fn size_class(&self) -> (r: usize)
        ensures
            r == self.class(),
    {
        self.size_class
    }

    /// Number of bytes.
    pub fn len(&self) -> (r: usize)
        ensures
            r == self@.len(),
    {
        self.buffer.len()
    }

    /// True when there are no bytes.
    pub fn is_empty(&self) -> (r: bool)
        ensures
            r == (self@.len() == 0),
    {
        self.buffer.len() == 0
    }

    /// Allocated room of the buffer.
    pub fn capacity(&self) -> (r: usize)
        ensures
            r >= self@.len(),
    {
        vec_capacity(&self.buffer)
    }

    /// Shortens the buffer to `new_len` bytes, or lengthens it with `value`.
    pub fn resize(&mut self, new_len: usize, value: u8)
        ensures
            final(self).class() == old(self).class(),
            new_len <= old(self)@.len() ==> final(self)@ == old(self)@.subrange(0, new_len as int),
            new_len > old(self)@.len() ==> final(self)@ == old(self)@ + Seq::new(
                (new_len - old(self)@.len()) as nat,
                |i: int| value,
            ),
    {
        self.buffer.resize(new_len, value);
        proof {
            if new_len > old(self)@.len() {
                assert(self.buffer@ =~= old(self)@ + Seq::new(
                    (new_len - old(self)@.len()) as nat,
                    |i: int| value,
                ));
            }
        }
    }

    /// The bytes.
    pub fn as_slice(&self) -> (r: &[u8])
        ensures
            r@ == self@,
    {
        self.buffer.as_slice()
    }

    /// Overwrites the first bytes with `src`.
    pub fn copy_prefix(&mut self, src: &[u8])
        requires
            src@.len() <= old(self)@.len(),
        ensures
            final(self).class() == old(self).class(),
            final(self)@ == src@ + old(self)@.subrange(src@.len() as int, old(self)@.len() as int),
    {
        let n = src.len();
        let mut i: usize = 0;
        while i < n
            invariant
                n == src@.len(),
                n <= old(self)@.len(),
                i <= n,
                self.size_class == old(self).size_class,
                self.buffer@.len() == old(self)@.len(),
                forall|j: int| 0 <= j < i ==> self.buffer@[j] == src@[j],
                forall|j: int| i <= j < self.buffer@.len() ==> self.buffer@[j] == old(self)@[j],
            decreases n - i,
        {
            self.buffer.set(i, src[i]);
            i = i + 1;
        }
        proof {
            assert(self.buffer@ =~= src@ + old(self)@.subrange(src@.len() as int, old(self)@.len() as int));
        }
    }

    /// The bytes, writable in place.
    pub fn as_mut_slice(&mut self) -> (r: &mut [u8])
        ensures
            r@ == old(self)@,
            final(r)@ == final(self)@,
            final(self).class() == old(self).class(),
    {
        self.buffer.as_mut_slice()
    }
}

/// Calls `Vec::capacity`, which is never below the length.
#[verifier::external_body]
fn vec_capacity(v: &Vec<u8>) -> (r: usize)
    ensures
        r >= v@.len(),
{
    v.capacity()
}

/// Free-buffer counts by class.
pub open spec fn free_counts(pools: Map<usize, Vec<Vec<u8>>>) -> Map<usize, nat> {
    pools.map_values(|v: Vec<Vec<u8>>| v@.len())
}

/// What a pool holds: its configured classes, the free-buffer count of each
/// class it has served, and its counters.
pub struct BufferPoolView {
    pub size_classes: Map<usize, usize>,
    pub free: Map<usize, nat>,
    pub stats: BufferPoolStats,
}

/// True when an acquire of class `c` finds a free buffer.
pub open spec fn acquire_hits(v: BufferPoolView, c: usize) -> bool {
    v.free.contains_key(c) && v.free[c] > 0
}

/// True when a released buffer of class `c` is kept.
pub open spec fn release_keeps(v: BufferPoolView, c: usize) -> bool {
    v.free.contains_key(c) && v.free[c] < class_capacity(v.size_classes, c)
}

/// The counters after an acquire that found a free buffer (`hit`) or
/// allocated one.
pub open spec fn acquire_stats(s: BufferPoolStats, hit: bool) -> BufferPoolStats {
    BufferPoolStats {
        total_allocations: if hit {
            s.total_allocations
        } else {
            (s.total_allocations + 1) as u64
        },
        total_acquires: (s.total_acquires + 1) as u64,
        currently_in_use: (s.currently_in_use + 1) as usize,
        total_returns: s.total_returns,
    }
}

/// The counters after a release that kept the buffer (`kept`) or dropped it.
pub open spec fn release_stats(s: BufferPoolStats, kept: bool) -> BufferPoolStats {
    BufferPoolStats {
        total_returns: if kept {
            (s.total_returns + 1) as u64
        } else {
            s.total_returns
        },
        currently_in_use: (s.currently_in_use - 1) as usize,
        ..s
    }
}

/// A call on a pool: an acquire (did it find a free buffer?) or a release
/// (was the buffer kept?).
pub enum PoolCall {
    Acquire { hit: bool },
    Release { kept: bool },
}

/// The counters after the calls, in order.
pub open spec fn stats_after(s: BufferPoolStats, calls: Seq<PoolCall>) -> BufferPoolStats
    decreases calls.len(),
{
    if calls.len() == 0 {
        s
    } else {
        let before = stats_after(s, calls.drop_last());
        match calls.last() {
            PoolCall::Acquire { hit } => acquire_stats(before, hit),
            PoolCall::Release { kept } => release_stats(before, kept),
        }
    }
}

/// How many calls are acquires.
pub open spec fn acquires(calls: Seq<PoolCall>) -> nat
    decreases calls.len(),
{
    if calls.len() == 0 {
        0
    } else {
        acquires(calls.drop_last()) + if calls.last() is Acquire {
            1nat
        } else {
            0nat
        }
    }
}

/// How many calls are releases.
pub open spec fn releases(calls: Seq<PoolCall>) -> nat
    decreases calls.len(),
{
    if calls.len() == 0 {
        0
    } else {
        releases(calls.drop_last()) + if calls.last() is Release {
            1nat
        } else {
            0nat
        }
    }
}

/// How many releases kept their buffer.
pub open spec fn kept_releases(calls: Seq<PoolCall>) -> nat
    decreases calls.len(),
{
    if calls.len() == 0 {
        0
    } else {
        kept_releases(calls.drop_last()) + if calls.last() matches PoolCall::Release { kept } && kept {
            1nat
        } else {
            0nat
        }
    }
}

/// Law: from zero counters, a run of acquires and releases (never
/// releasing more buffers than were acquired before, and short enough that
/// no counter overflows) counts every acquire, keeps as in use exactly the
/// buffers acquired and not yet released, and counts the kept releases.
pub proof fn lemma_counts_over_calls(calls: Seq<PoolCall>)
    requires
        calls.len() < u64::MAX,
        calls.len() < usize::MAX,
        forall|i: int| 0 <= i <= calls.len() ==> releases(#[trigger] calls.take(i)) <= acquires(
            calls.take(i),
        ),
    ensures
        ({
            let s = stats_after(
                BufferPoolStats {
                    total_allocations: 0,
                    total_acquires: 0,
                    total_returns: 0,
                    currently_in_use: 0,
                },
                calls,
            );
            &&& s.total_acquires == acquires(calls)
            &&& s.currently_in_use == acquires(calls) - releases(calls)
            &&& s.total_returns == kept_releases(calls)
            &&& s.total_allocations <= s.total_acquires
        }),
    decreases calls.len(),
{
    if calls.len() > 0 {
        let init = calls.drop_last();
        assert forall|i: int| 0 <= i <= init.len() implies releases(#[trigger] init.take(i))
            <= acquires(init.take(i)) by {
            assert(init.take(i) =~= calls.take(i));
        }
        lemma_counts_over_calls(init);
        lemma_call_counts_bound(init);
        assert(calls.take(calls.len() as int) =~= calls);
    }
}

proof fn lemma_call_counts_bound(calls: Seq<PoolCall>)
    ensures
        acquires(calls) + releases(calls) == calls.len(),
        kept_releases(calls) <= releases(calls),
    decreases calls.len(),
{
    if calls.len() > 0 {
        lemma_call_counts_bound(calls.drop_last());
    }
}

/// A pool of reusable buffers.
#[derive(Debug)]
pub struct BufferPool {
    config: BufferPoolConfig,
    pools: HashMap<usize, Vec<Vec<u8>>>,
    stats: BufferPoolStats,
}

impl View for BufferPool {
    type V = BufferPoolView;

    closed spec fn view(&self) -> BufferPoolView {
        BufferPoolView {
            size_classes: self.config.size_classes@,
            free: free_counts(self.pools@),
            stats: self.stats,
        }
    }
}

impl BufferPool {
    /// Internal consistency: every free buffer zeroed and of its class's
    /// length, no class above its capacity, no more
    /// allocations than acquires, and buffers kept on release plus buffers
    /// in use no more than acquires.
    pub closed spec fn wf(&self) -> bool {
        &&& forall|k: usize, j: int|
            #![trigger self.pools@[k]@[j]]
            self.pools@.contains_key(k) && 0 <= j < self.pools@[k]@.len() ==> self.pools@[k]@[j]@
                == zeros(k as nat)
        &&& forall|k: usize| #[trigger]
            self.pools@.contains_key(k) ==> self.pools@[k]@.len() <= class_capacity(
                self.config.size_classes@,
                k,
            )
        &&& self.stats.total_allocations <= self.stats.total_acquires
        &&& self.stats.total_returns + self.stats.currently_in_use <= self.stats.total_acquires
    }

    /// An empty pool; buffers are allocated on demand.
    pub fn new(config: BufferPoolConfig) -> (r: Self)
        ensures
            r.wf(),
            r@.size_classes == config.size_classes@,
            r@.free == Map::<usize, nat>::empty(),
            r@.stats == (BufferPoolStats {
                total_allocations: 0,
                total_acquires: 0,
                total_returns: 0,
                currently_in_use: 0,
            }),
    {
        let r = BufferPool { config, pools: HashMap::new(), stats: BufferPoolStats::default() };
        proof {
            assert(free_counts(r.pools@) =~= Map::<usize, nat>::empty());
        }
        r
    }

    /// The smallest configured class of at least `size` bytes, or the
    /// fallback class.
    fn find_size_class(&self, size: usize) -> (r: usize)
        requires
            !(exists|k: usize| fits(self@.size_classes, size, k)) ==> size <= usize::MAX / 2 + 1,
        ensures
            r as nat == size_class_for(self@.size_classes, size),
    {
        let ghost classes = self.config.size_classes@;
        let ghost keys_seq = vstd::std_specs::hash::spec_keys_iter(
            &self.config.size_classes,
        ).remaining();
        let ghost mut count: int = 0;
        let mut best: Option<usize> = None;
        for k in it: self.config.size_classes.keys()
            invariant
                classes == self.config.size_classes@,
                keys_seq == vstd::std_specs::hash::spec_keys_iter(
                    &self.config.size_classes,
                ).remaining(),
                it.seq() == keys_seq,
                count == it.index(),
                best matches Some(b) ==> fits(classes, size, b),
                best matches Some(b) ==> forall|j: int|
                    0 <= j < count && *keys_seq[j] >= size ==> b <= *keys_seq[j],
                best is None ==> forall|j: int| 0 <= j < count ==> *keys_seq[j] < size,
        {
            proof {
                assert(keys_seq.unref().to_set().contains(*k)) by {
                    assert(keys_seq.unref()[count] == *k);
                }
                count = count + 1;
            }
            if *k >= size {
                match best {
                    Some(b) => {
                        if *k < b {
                            best = Some(*k);
                        }
                    },
                    None => {
                        best = Some(*k);
                    },
                }
            }
        }
        proof {
            assert(count == keys_seq.len());
            let ks = keys_seq.unref();
            assert(ks.to_set() == classes.dom());
            assert forall|j: usize| fits(classes, size, j) implies exists|x: int|
                0 <= x < keys_seq.len() && *keys_seq[x] == j by {
                assert(ks.to_set().contains(j));
                let x = choose|x: int| 0 <= x < ks.len() && ks[x] == j;
                assert(*keys_seq[x] == j);
            }
        }
        match best {
            Some(b) => {
                proof {
                    assert(is_best_class(classes, size, b)) by {
                        assert forall|j: usize| fits(classes, size, j) implies b <= j by {
                            let x = choose|x: int| 0 <= x < keys_seq.len() && *keys_seq[x] == j;
                        }
                    }
                    let c = choose|k: usize| is_best_class(classes, size, k);
                    assert(c == b);
                }
                b
            },
            None => {
                proof {
                    assert forall|j: usize| !fits(classes, size, j) by {
                        if fits(classes, size, j) {
                            let x = choose|x: int| 0 <= x < keys_seq.len() && *keys_seq[x] == j;
                        }
                    }
                    lemma_next_pow2_bounds(size as nat);
                }
                let p = next_power_of_two(size);
                if p >= 128 {
                    p
                } else {
                    128
                }
            },
        }
    }

    /// Hands out a zeroed buffer of the class that serves `size` bytes,
    /// reusing a free one when the class has one.
    pub fn acquire(&mut self, size: usize) -> (r: PooledBuffer)
        requires
            old(self).wf(),
            old(self)@.stats.total_acquires < u64::MAX,
            old(self)@.stats.currently_in_use < usize::MAX,
            !(exists|k: usize| fits(old(self)@.size_classes, size, k)) ==> size <= usize::MAX / 2
                + 1,
        ensures
            final(self).wf(),
            r.class() as nat == size_class_for(old(self)@.size_classes, size),
            r@ == zeros(r.class() as nat),
            final(self)@.size_classes == old(self)@.size_classes,
            acquire_hits(old(self)@, r.class()) ==> final(self)@.free == old(self)@.free.insert(
                r.class(),
                (old(self)@.free[r.class()] - 1) as nat,
            ),
            !acquire_hits(old(self)@, r.class()) ==> final(self)@.free == old(self)@.free.insert(
                r.class(),
                0,
            ),
            final(self)@.stats == acquire_stats(old(self)@.stats, acquire_hits(old(self)@, r.class())),
    {
        let c = self.find_size_class(size);
        let ghost before = self.pools@;
        let mut free: Vec<Vec<u8>> = match self.pools.remove(&c) {
            Some(v) => v,
            None => Vec::new(),
        };
        let ghost held = free@;
        proof {
            assert(before.contains_key(c) ==> held == before[c]@);
            assert(!before.contains_key(c) ==> held.len() == 0);
        }
        let popped = free.pop();
        let hit = popped.is_some();
        let buffer = match popped {
            Some(b) => b,
            None => {
                let b: Vec<u8> = vec![0u8; c];
                proof {
                    assert(b@ =~= zeros(c as nat));
                }
                b
            },
        };
        proof {
            if hit {
                assert(buffer@ == held[held.len() - 1]@);
                assert(buffer@ == zeros(c as nat));
            }
            assert(free@.len() <= held.len());
        }
        self.pools.insert(c, free);
        proof {
            assert(self.pools@ == before.insert(c, free));
            assert(free_counts(self.pools@) =~= free_counts(before).insert(c, free@.len()));
            assert(hit == acquire_hits(old(self)@, c));
            assert forall|k: usize, j: int|
                #![trigger self.pools@[k]@[j]]
                self.pools@.contains_key(k) && 0 <= j < self.pools@[k]@.len() implies self.pools@[k]@[j]@
                    == zeros(k as nat) by {
                if k == c {
                    assert(self.pools@[k]@[j] == held[j]);
                    assert(before[c]@[j] == held[j]);
                } else {
                    assert(self.pools@[k] == before[k]);
                }
            }
            assert forall|k: usize| #[trigger]
                self.pools@.contains_key(k) implies self.pools@[k]@.len() <= class_capacity(
                self.config.size_classes@,
                k,
            ) by {
                if k != c {
                    assert(self.pools@[k] == before[k]);
                } else if before.contains_key(c) {
                    assert(before[c]@.len() <= class_capacity(self.config.size_classes@, c));
                }
            }
        }
        if !hit {
            self.stats.total_allocations = self.stats.total_allocations + 1;
        }
        self.stats.total_acquires = self.stats.total_acquires + 1;
        self.stats.currently_in_use = self.stats.currently_in_use + 1;
        PooledBuffer { buffer, size_class: c }
    }

    /// Takes a buffer back: it is zeroed and kept if its class has room,
    /// dropped otherwise.
    pub fn release(&mut self, buf: PooledBuffer)
        requires
            old(self).wf(),
            old(self)@.stats.currently_in_use > 0,
        ensures
            final(self).wf(),
            final(self)@.size_classes == old(self)@.size_classes,
            release_keeps(old(self)@, buf.class()) ==> final(self)@.free == old(self)@.free.insert(
                buf.class(),
                old(self)@.free[buf.class()] + 1,
            ),
            !release_keeps(old(self)@, buf.class()) ==> final(self)@.free == old(self)@.free,
            final(self)@.stats == release_stats(old(self)@.stats, release_keeps(old(self)@, buf.class())),
    {
        let c = buf.size_class;
        let mut buffer = buf.buffer;
        let ghost before = self.pools@;
        let mut kept = false;
        match self.pools.remove(&c) {
            Some(mut free) => {
                let ghost held = free@;
                proof {
                    assert(held == before[c]@);
                }
                let max_capacity: usize = match self.config.size_classes.get(&c) {
                    Some(m) => *m,
                    None => 256,
                };
                proof {
                    assert(max_capacity as nat == class_capacity(self.config.size_classes@, c));
                }
                if free.len() < max_capacity {
                    buffer.clear();
                    buffer.resize(c, 0);
                    proof {
                        assert(buffer@ =~= zeros(c as nat));
                    }
                    free.push(buffer);
                    kept = true;
                }
                self.pools.insert(c, free);
                proof {
                    assert(self.pools@ == before.insert(c, free));
                    assert(free_counts(self.pools@) =~= free_counts(before).insert(c, free@.len()));
                    if !kept {
                        assert(free_counts(self.pools@) =~= free_counts(before));
                    }
                    assert forall|k: usize, j: int|
                        #![trigger self.pools@[k]@[j]]
                        self.pools@.contains_key(k) && 0 <= j < self.pools@[k]@.len()
                            implies self.pools@[k]@[j]@ == zeros(k as nat) by {
                        if k == c {
                            if j < held.len() {
                                assert(self.pools@[k]@[j] == held[j]);
                                assert(before[c]@[j] == held[j]);
                            }
                        } else {
                            assert(self.pools@[k] == before[k]);
                        }
                    }
                    assert forall|k: usize| #[trigger]
                        self.pools@.contains_key(k) implies self.pools@[k]@.len() <= class_capacity(
                        self.config.size_classes@,
                        k,
                    ) by {
                        if k != c {
                            assert(self.pools@[k] == before[k]);
                        }
                    }
                }
            },
            None => {
                proof {
                    assert(self.pools@ =~= before);
                }
            },
        }
        if kept {
            self.stats.total_returns = self.stats.total_returns + 1;
        }
        self.stats.currently_in_use = self.stats.currently_in_use - 1;
    }

    /// The counters.
    pub fn stats(&self) -> (r: BufferPoolStats)
        ensures
            r == self@.stats,
    {
        self.stats
    }
}

/// What every pool keeps true: no more allocations than acquires, buffers
/// kept on release plus buffers in use no more than acquires, and no class
/// holds more free buffers than its capacity.
pub proof fn lemma_pool_invariants(pool: &BufferPool)
    requires
        pool.wf(),
    ensures
        pool@.stats.total_allocations <= pool@.stats.total_acquires,
        pool@.stats.total_returns + pool@.stats.currently_in_use <= pool@.stats.total_acquires,
        forall|c: usize| #[trigger]
            pool@.free.contains_key(c) ==> pool@.free[c] <= class_capacity(pool@.size_classes, c),
{
    assert forall|c: usize| #[trigger] pool@.free.contains_key(c) implies pool@.free[c]
        <= class_capacity(pool@.size_classes, c) by {
        assert(pool.pools@.contains_key(c));
    }
}

/// A buffer released into a class with room is reused by the next acquire
/// of that class: releasing makes the free count positive, and an acquire
/// that finds a free buffer allocates nothing.
pub proof fn lemma_release_then_acquire_reuses(before: BufferPoolView, c: usize)
    requires
        release_keeps(before, c),
    ensures
        acquire_hits(
            BufferPoolView { free: before.free.insert(c, before.free[c] + 1), ..before },
            c,
        ),
{
}

} // verus!
